use governance_relay::account::Acc;
use governance_relay::address::CPI_AUTHORITY_PLACEHOLDER;
use governance_relay::error::GovernanceError;
use governance_relay::layerzero::{process, process_with, Context, GovernanceMessage};
use solana_program::hash::hash;
use solana_program::pubkey::Pubkey;

const PAYLOAD0: &str = "000000000000000000000000be8e3e3618f7474f8cb1d074a26affef007e98fb0f0f0f0f0f0f0f0f0f0f0f0f0f0f0f0f0f0f0f0f0f0f0f0f0f0f0f0f0f0f0f0f020000006370695f617574686f7269747900000000000000000000000000000000000000010505050505050505050505050505050505050505050505050505050505050505020a000000377e57d99f4218c20300";

const ADMINISTRATOR: &str = "BE8E3e3618f7474F8cB1d074A26afFef007E98FB";

#[allow(dead_code)]
enum SetOFTConfigParams {
    Admin(Pubkey),
    Delegate(Pubkey),
    DefaultFee(u16),
    Paused(bool),
    Pauser(Option<Pubkey>),
    Unpauser(Option<Pubkey>),
}

fn write_key<W: borsh::io::Write>(key: &Pubkey, writer: &mut W) -> borsh::io::Result<()> {
    writer.write_all(key.as_ref())
}

fn write_optional_key<W: borsh::io::Write>(
    key: &Option<Pubkey>,
    writer: &mut W,
) -> borsh::io::Result<()> {
    match key {
        None => borsh::BorshSerialize::serialize(&0u8, writer),
        Some(key) => {
            borsh::BorshSerialize::serialize(&1u8, writer)?;
            write_key(key, writer)
        }
    }
}

impl borsh::BorshSerialize for SetOFTConfigParams {
    fn serialize<W: borsh::io::Write>(&self, writer: &mut W) -> borsh::io::Result<()> {
        match self {
            SetOFTConfigParams::Admin(key) => {
                borsh::BorshSerialize::serialize(&0u8, writer)?;
                write_key(key, writer)
            }
            SetOFTConfigParams::Delegate(key) => {
                borsh::BorshSerialize::serialize(&1u8, writer)?;
                write_key(key, writer)
            }
            SetOFTConfigParams::DefaultFee(fee) => {
                borsh::BorshSerialize::serialize(&2u8, writer)?;
                borsh::BorshSerialize::serialize(fee, writer)
            }
            SetOFTConfigParams::Paused(paused) => {
                borsh::BorshSerialize::serialize(&3u8, writer)?;
                borsh::BorshSerialize::serialize(paused, writer)
            }
            SetOFTConfigParams::Pauser(key) => {
                borsh::BorshSerialize::serialize(&4u8, writer)?;
                write_optional_key(key, writer)
            }
            SetOFTConfigParams::Unpauser(key) => {
                borsh::BorshSerialize::serialize(&5u8, writer)?;
                write_optional_key(key, writer)
            }
        }
    }
}

fn administrator() -> [u8; 32] {
    let mut origin_caller = [0u8; 32];
    origin_caller[12..].copy_from_slice(&hex::decode(ADMINISTRATOR).unwrap());
    origin_caller
}

fn context() -> Context {
    Context {
        administrator: administrator(),
        governance_program_id: [0x47; 32],
        owner_authority: [0x21; 32],
    }
}

#[test]
fn test_migration_unpause_oapp() {
    let h = hex::decode(PAYLOAD0).unwrap();
    let actual = GovernanceMessage::decode(h.as_slice()).unwrap();

    let mut origin_caller = [0u8; 32];
    origin_caller[12..].copy_from_slice(&hex::decode("BE8E3e3618f7474F8cB1d074A26afFef007E98FB").unwrap());

    let accounts = vec![
        Acc {
            pubkey: CPI_AUTHORITY_PLACEHOLDER,
            is_signer: true,
            is_writable: false,
        },
        Acc {
            pubkey: Pubkey::new_from_array([0x05; 32]).to_bytes(),
            is_signer: false,
            is_writable: true,
        },
    ];

    let hash_bytes = hash("global:set_oft_config".as_bytes()).to_bytes();
    let mut data = Vec::new();
    data.extend_from_slice(&hash_bytes[..8]);
    borsh::BorshSerialize::serialize(&SetOFTConfigParams::Paused(false), &mut data)
        .expect("Failed to serialize SetOFTConfigParams");

    let expected = GovernanceMessage {
        origin_caller,
        program_id: Pubkey::new_from_array([0x0f; 32]).to_bytes(),
        accounts,
        data,
    };

    assert_eq!(actual, expected);
}

#[test]
fn unpause_payload_has_the_expected_fields() {
    let h = hex::decode(PAYLOAD0).unwrap();
    let message = GovernanceMessage::decode(h.as_slice()).unwrap();
    assert_eq!(message.origin_caller, administrator());
    assert_eq!(message.program_id, [0x0f; 32]);
    assert_eq!(message.accounts.len(), 2);
    assert_eq!(message.accounts[0].pubkey, CPI_AUTHORITY_PLACEHOLDER);
    assert!(message.accounts[0].is_signer);
    assert!(!message.accounts[0].is_writable);
    assert_eq!(message.accounts[1].pubkey, [0x05; 32]);
    assert!(!message.accounts[1].is_signer);
    assert!(message.accounts[1].is_writable);
    assert_eq!(
        message.data,
        vec![0x37, 0x7e, 0x57, 0xd9, 0x9f, 0x42, 0x18, 0xc2, 0x03, 0x00]
    );
}

#[test]
fn unpause_payload_encodes_back_to_itself() {
    let h = hex::decode(PAYLOAD0).unwrap();
    let message = GovernanceMessage::decode(h.as_slice()).unwrap();
    assert_eq!(message.encode(), Some(h));
}

#[test]
fn unpause_payload_is_executed_for_the_administrator() {
    let h = hex::decode(PAYLOAD0).unwrap();
    let context = context();
    let invocation = process(h.as_slice(), &context).unwrap();
    let (authority, bump) =
        Pubkey::find_program_address(&[b"cpi_authority"], &Pubkey::new_from_array([0x47; 32]));
    assert_eq!(invocation.signer_bump, Some(bump));
    assert_eq!(invocation.instruction.program_id, [0x0f; 32]);
    assert_eq!(
        invocation.instruction.accounts,
        vec![
            Acc { pubkey: authority.to_bytes(), is_signer: true, is_writable: false },
            Acc { pubkey: [0x05; 32], is_signer: false, is_writable: true },
        ]
    );
    assert_eq!(
        invocation.instruction.data,
        vec![0x37, 0x7e, 0x57, 0xd9, 0x9f, 0x42, 0x18, 0xc2, 0x03, 0x00]
    );
}

#[test]
fn unpause_payload_is_refused_for_another_administrator() {
    let h = hex::decode(PAYLOAD0).unwrap();
    let mut context = context();
    context.administrator[31] ^= 1;
    assert_eq!(process(h.as_slice(), &context), Err(GovernanceError::UnauthorizedOrigin));
    assert_eq!(
        process_with(h.as_slice(), &context, &Some(([0x33; 32], 254))),
        Err(GovernanceError::UnauthorizedOrigin)
    );
}

#[test]
fn unpause_payload_is_refused_without_a_signing_address() {
    let h = hex::decode(PAYLOAD0).unwrap();
    assert_eq!(
        process_with(h.as_slice(), &context(), &None),
        Err(GovernanceError::UnresolvedPlaceholder)
    );
}

#[test]
fn unpause_payload_must_not_target_the_governance_program() {
    let h = hex::decode(PAYLOAD0).unwrap();
    let mut context = context();
    context.governance_program_id = [0x0f; 32];
    assert_eq!(process(h.as_slice(), &context), Err(GovernanceError::InvalidTarget));
}

#[test]
fn unpause_payload_cut_short_is_malformed() {
    let h = hex::decode(PAYLOAD0).unwrap();
    for cut in 0..h.len() {
        assert_eq!(
            GovernanceMessage::decode(&h[..cut]),
            Err(GovernanceError::MalformedPayload),
            "cut at {}",
            cut
        );
    }
}
