use governance_relay::hexadecimal::decode_hex;

#[test]
fn digits_of_either_case_spell_bytes() {
    assert_eq!(decode_hex(""), Some(vec![]));
    assert_eq!(decode_hex("00"), Some(vec![0]));
    assert_eq!(decode_hex("0f"), Some(vec![15]));
    assert_eq!(decode_hex("f0"), Some(vec![240]));
    assert_eq!(decode_hex("0123456789abcdef"), Some(vec![0x01, 0x23, 0x45, 0x67, 0x89, 0xab, 0xcd, 0xef]));
    assert_eq!(decode_hex("ABCDEF"), Some(vec![0xab, 0xcd, 0xef]));
    assert_eq!(decode_hex("aBcDeF"), Some(vec![0xab, 0xcd, 0xef]));
    assert_eq!(decode_hex("48656c6c6f20776f726c6421"), Some(b"Hello world!".to_vec()));
}

#[test]
fn anything_else_spells_nothing() {
    assert_eq!(decode_hex("0"), None);
    assert_eq!(decode_hex("123"), None);
    assert_eq!(decode_hex("0g"), None);
    assert_eq!(decode_hex("g0"), None);
    assert_eq!(decode_hex("0x12"), None);
    assert_eq!(decode_hex(" 12 "), None);
    assert_eq!(decode_hex("/0"), None);
    assert_eq!(decode_hex(":0"), None);
    assert_eq!(decode_hex("@0"), None);
    assert_eq!(decode_hex("G0"), None);
    assert_eq!(decode_hex("`0"), None);
    assert_eq!(decode_hex("\u{e9}"), None);
    assert_eq!(decode_hex("\u{e9}0"), None);
}
