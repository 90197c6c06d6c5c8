use governance_relay::account::{decode_flags, encode_flags, same_accounts, same_bytes, Acc};
use governance_relay::codec::{decode_frame, encode_frame, Frame};
use governance_relay::error::GovernanceError;
use governance_relay::layerzero::GovernanceMessage;

fn sample() -> GovernanceMessage {
    GovernanceMessage {
        origin_caller: [0xa1; 32],
        program_id: [0xb2; 32],
        accounts: vec![
            Acc { pubkey: [1; 32], is_signer: false, is_writable: false },
            Acc { pubkey: [2; 32], is_signer: true, is_writable: false },
            Acc { pubkey: [3; 32], is_signer: false, is_writable: true },
            Acc { pubkey: [4; 32], is_signer: true, is_writable: true },
        ],
        data: vec![0xde, 0xad, 0xbe, 0xef, 0x00],
    }
}

fn sample_bytes() -> Vec<u8> {
    let mut bytes = Vec::new();
    bytes.extend_from_slice(&[0xa1; 32]);
    bytes.extend_from_slice(&[0xb2; 32]);
    bytes.extend_from_slice(&[4, 0, 0, 0]);
    for (key, flags) in [(1u8, 0u8), (2, 1), (3, 2), (4, 3)] {
        bytes.extend_from_slice(&[key; 32]);
        bytes.push(flags);
    }
    bytes.extend_from_slice(&[5, 0, 0, 0]);
    bytes.extend_from_slice(&[0xde, 0xad, 0xbe, 0xef, 0x00]);
    bytes
}

#[test]
fn encode_writes_the_wire_format() {
    assert_eq!(sample().encode(), Some(sample_bytes()));
    assert_eq!(sample_bytes().len(), 68 + 4 * 33 + 4 + 5);
}

#[test]
fn decode_reads_the_wire_format() {
    assert_eq!(GovernanceMessage::decode(&sample_bytes()), Ok(sample()));
}

#[test]
fn decode_after_encode_is_the_identity() {
    let message = sample();
    let bytes = message.encode().unwrap();
    assert_eq!(GovernanceMessage::decode(&bytes), Ok(message));
}

#[test]
fn decode_keeps_order_and_flags() {
    let message = GovernanceMessage::decode(&sample_bytes()).unwrap();
    let keys: Vec<u8> = message.accounts.iter().map(|account| account.pubkey[0]).collect();
    assert_eq!(keys, vec![1, 2, 3, 4]);
    let signers: Vec<bool> = message.accounts.iter().map(|account| account.is_signer).collect();
    assert_eq!(signers, vec![false, true, false, true]);
    let writable: Vec<bool> = message.accounts.iter().map(|account| account.is_writable).collect();
    assert_eq!(writable, vec![false, false, true, true]);
}

#[test]
fn smallest_message_is_72_bytes() {
    let message = GovernanceMessage {
        origin_caller: [0; 32],
        program_id: [0; 32],
        accounts: vec![],
        data: vec![],
    };
    let bytes = message.encode().unwrap();
    assert_eq!(bytes, vec![0u8; 72]);
    assert_eq!(GovernanceMessage::decode(&bytes), Ok(message));
    assert_eq!(GovernanceMessage::decode(&bytes[..71]), Err(GovernanceError::MalformedPayload));
    assert_eq!(GovernanceMessage::decode(&[]), Err(GovernanceError::MalformedPayload));
}

#[test]
fn length_prefixes_are_little_endian() {
    let message = GovernanceMessage {
        origin_caller: [0; 32],
        program_id: [0; 32],
        accounts: vec![],
        data: vec![7; 0x0102],
    };
    let bytes = message.encode().unwrap();
    assert_eq!(&bytes[68..72], &[0x02, 0x01, 0x00, 0x00]);
    assert_eq!(bytes.len(), 72 + 0x0102);
    assert_eq!(GovernanceMessage::decode(&bytes), Ok(message));
}

#[test]
fn truncated_payload_is_malformed() {
    let bytes = sample_bytes();
    for cut in 0..bytes.len() {
        assert_eq!(
            GovernanceMessage::decode(&bytes[..cut]),
            Err(GovernanceError::MalformedPayload),
            "cut at {}",
            cut
        );
    }
}

#[test]
fn bytes_after_the_data_are_trailing() {
    let mut bytes = sample_bytes();
    bytes.push(0);
    assert_eq!(GovernanceMessage::decode(&bytes), Err(GovernanceError::TrailingBytes));
    bytes.extend_from_slice(&[1, 2, 3]);
    assert_eq!(GovernanceMessage::decode(&bytes), Err(GovernanceError::TrailingBytes));
}

#[test]
fn account_count_that_overruns_is_malformed() {
    let mut bytes = sample_bytes();
    bytes[64] = 5;
    assert_eq!(GovernanceMessage::decode(&bytes), Err(GovernanceError::MalformedPayload));
    bytes[64..68].copy_from_slice(&[0xff; 4]);
    assert_eq!(GovernanceMessage::decode(&bytes), Err(GovernanceError::MalformedPayload));
}

#[test]
fn data_size_that_overruns_is_malformed() {
    let mut bytes = sample_bytes();
    let prefix = 68 + 4 * 33;
    bytes[prefix] = 6;
    assert_eq!(GovernanceMessage::decode(&bytes), Err(GovernanceError::MalformedPayload));
    bytes[prefix..prefix + 4].copy_from_slice(&[0xff; 4]);
    assert_eq!(GovernanceMessage::decode(&bytes), Err(GovernanceError::MalformedPayload));
    bytes[prefix..prefix + 4].copy_from_slice(&[4, 0, 0, 0]);
    assert_eq!(GovernanceMessage::decode(&bytes), Err(GovernanceError::TrailingBytes));
}

#[test]
fn undefined_flag_bits_are_rejected() {
    for flags in 4u8..=255 {
        let mut bytes = sample_bytes();
        bytes[68 + 2 * 33 + 32] = flags;
        assert_eq!(
            GovernanceMessage::decode(&bytes),
            Err(GovernanceError::InvalidAccountFlags),
            "flags {}",
            flags
        );
    }
}

#[test]
fn first_failure_in_wire_order_decides() {
    // undefined flag bits in an entry, and then no room for the data prefix
    let mut bytes = sample_bytes();
    bytes[68 + 32] = 0x80;
    bytes.truncate(68 + 4 * 33 + 2);
    assert_eq!(GovernanceMessage::decode(&bytes), Err(GovernanceError::InvalidAccountFlags));
    // undefined flag bits, but the entries themselves run past the end
    bytes.truncate(68 + 4 * 33 - 1);
    assert_eq!(GovernanceMessage::decode(&bytes), Err(GovernanceError::MalformedPayload));
}

#[test]
fn placeholder_shaped_addresses_parse() {
    let mut unknown = [0u8; 32];
    unknown[..5].copy_from_slice(b"payer");
    let message = GovernanceMessage {
        origin_caller: [1; 32],
        program_id: [2; 32],
        accounts: vec![Acc { pubkey: unknown, is_signer: true, is_writable: true }],
        data: vec![],
    };
    let bytes = message.encode().unwrap();
    assert_eq!(GovernanceMessage::decode(&bytes), Ok(message));
}

#[test]
fn frame_codec_agrees_with_the_message_codec() {
    let message = sample();
    let bytes = encode_frame(
        &message.origin_caller,
        &message.program_id,
        &message.accounts,
        &message.data,
    )
    .unwrap();
    assert_eq!(bytes, sample_bytes());
    assert_eq!(
        decode_frame(&bytes),
        Ok(Frame {
            origin: message.origin_caller,
            program_id: message.program_id,
            accounts: message.accounts,
            data: message.data,
        })
    );
}

#[test]
fn flag_byte_holds_two_bits() {
    assert_eq!(encode_flags(false, false), 0);
    assert_eq!(encode_flags(true, false), 1);
    assert_eq!(encode_flags(false, true), 2);
    assert_eq!(encode_flags(true, true), 3);
    assert_eq!(decode_flags(0), Some((false, false)));
    assert_eq!(decode_flags(1), Some((true, false)));
    assert_eq!(decode_flags(2), Some((false, true)));
    assert_eq!(decode_flags(3), Some((true, true)));
    assert_eq!(decode_flags(4), None);
    assert_eq!(decode_flags(0x81), None);
    assert_eq!(decode_flags(0xff), None);
}

#[test]
fn comparisons_look_at_every_field() {
    let a = Acc { pubkey: [1; 32], is_signer: true, is_writable: false };
    let mut b = a;
    assert!(a.same(&b));
    b.pubkey[31] = 2;
    assert!(!a.same(&b));
    b = a;
    b.is_signer = false;
    assert!(!a.same(&b));
    b = a;
    b.is_writable = true;
    assert!(!a.same(&b));
    assert!(same_accounts(&vec![a, a], &vec![a, a]));
    assert!(!same_accounts(&vec![a, a], &vec![a]));
    assert!(!same_accounts(&vec![a, a], &vec![a, b]));
    assert!(same_accounts(&vec![], &vec![]));
    assert!(same_bytes(&[1, 2, 3], &[1, 2, 3]));
    assert!(!same_bytes(&[1, 2, 3], &[1, 2]));
    assert!(!same_bytes(&[1, 2, 3], &[1, 2, 4]));
    assert!(same_bytes(&[], &[]));
}
