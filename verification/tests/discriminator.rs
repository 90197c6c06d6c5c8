use governance_relay::discriminator::{
    discriminator, encode_anchor_ix_data, global_selector, has_selector, instruction_data,
    selector_allowed, selector_of_digest, GLOBAL_NAMESPACE, SELECTOR_LEN,
};
use solana_program::hash::hash;

const SET_PAUSED: [u8; 8] = [0x5b, 0x3c, 0x7d, 0xc0, 0xb0, 0xe1, 0xa6, 0xda];
const SET_OFT_CONFIG: [u8; 8] = [0x37, 0x7e, 0x57, 0xd9, 0x9f, 0x42, 0x18, 0xc2];
const TRANSFER_MINT_AUTHORITY: [u8; 8] = [0x57, 0xed, 0xbb, 0x54, 0xa8, 0xaf, 0xf1, 0x4b];

#[test]
fn selectors_have_their_known_bytes() {
    assert_eq!(discriminator(b"global:set_paused"), SET_PAUSED);
    assert_eq!(discriminator(b"global:set_oft_config"), SET_OFT_CONFIG);
    assert_eq!(discriminator(b"global:transfer_mint_authority"), TRANSFER_MINT_AUTHORITY);
    // the digest of the empty string starts with e3 b0 c4 42 98 fc 1c 14
    assert_eq!(discriminator(b""), [0xe3, 0xb0, 0xc4, 0x42, 0x98, 0xfc, 0x1c, 0x14]);
}

#[test]
fn global_selector_adds_the_namespace() {
    assert_eq!(&GLOBAL_NAMESPACE, b"global:");
    assert_eq!(SELECTOR_LEN, 8);
    assert_eq!(global_selector("set_paused"), SET_PAUSED);
    assert_eq!(global_selector("set_oft_config"), SET_OFT_CONFIG);
    assert_eq!(global_selector("transfer_mint_authority"), TRANSFER_MINT_AUTHORITY);
    assert_ne!(global_selector("global:set_paused"), SET_PAUSED);
}

#[test]
fn selector_is_the_start_of_the_digest() {
    let digest = hash(b"global:set_paused").to_bytes();
    assert_eq!(selector_of_digest(&digest), SET_PAUSED);
    let mut counting = [0u8; 32];
    for (i, byte) in counting.iter_mut().enumerate() {
        *byte = i as u8;
    }
    assert_eq!(selector_of_digest(&counting), [0, 1, 2, 3, 4, 5, 6, 7]);
}

#[test]
fn instruction_data_is_selector_then_arguments() {
    assert_eq!(
        encode_anchor_ix_data("global:set_paused", &[1u8]),
        vec![0x5b, 0x3c, 0x7d, 0xc0, 0xb0, 0xe1, 0xa6, 0xda, 0x01]
    );
    assert_eq!(encode_anchor_ix_data("global:set_paused", &[]), SET_PAUSED.to_vec());
    let mut expected = TRANSFER_MINT_AUTHORITY.to_vec();
    expected.extend_from_slice(&[0x17; 32]);
    assert_eq!(encode_anchor_ix_data("global:transfer_mint_authority", &[0x17u8; 32]), expected);
    assert_eq!(instruction_data(&[1, 2, 3, 4, 5, 6, 7, 8], &[9, 10]), vec![1, 2, 3, 4, 5, 6, 7, 8, 9, 10]);
    assert_eq!(instruction_data(&[0; 8], &[]), vec![0; 8]);
}

#[test]
fn function_names_are_hashed_as_utf8() {
    let name = "global:d\u{e9}j\u{e0}";
    let digest = hash(name.as_bytes()).to_bytes();
    let mut expected = digest[..8].to_vec();
    expected.push(7);
    assert_eq!(encode_anchor_ix_data(name, &[7]), expected);
}

#[test]
fn has_selector_looks_at_the_first_eight_bytes() {
    let data = encode_anchor_ix_data("global:set_paused", &[1u8]);
    assert!(has_selector(&data, &SET_PAUSED));
    assert!(!has_selector(&data, &SET_OFT_CONFIG));
    assert!(has_selector(&SET_PAUSED, &SET_PAUSED));
    assert!(!has_selector(&SET_PAUSED[..7], &SET_PAUSED));
    assert!(!has_selector(&[], &SET_PAUSED));
    let mut last = SET_PAUSED;
    last[7] ^= 1;
    assert!(!has_selector(&data, &last));
}

#[test]
fn allow_list_admits_listed_selectors_only() {
    let data = encode_anchor_ix_data("global:set_paused", &[1u8]);
    assert!(selector_allowed(&data, &vec![SET_OFT_CONFIG, SET_PAUSED]));
    assert!(selector_allowed(&data, &vec![SET_PAUSED]));
    assert!(!selector_allowed(&data, &vec![SET_OFT_CONFIG, TRANSFER_MINT_AUTHORITY]));
    assert!(!selector_allowed(&data, &vec![]));
    assert!(!selector_allowed(&[3], &vec![SET_PAUSED]));
}
