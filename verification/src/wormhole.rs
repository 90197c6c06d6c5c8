//! Governance messages that arrive through the Wormhole bridge.
//!
//! The first field of such a message names the governance program that the
//! message is meant for. It anchors the message to this program: a payload
//! that names another program is refused while it is parsed, as soon as the
//! field has been read.

use crate::account::{accounts_view, same_accounts, same_bytes, Acc};
use crate::address::same_address;
use crate::codec::{
    decode_frame, encode_frame, lemma_decode_encode, lemma_encode_layout,
    lemma_truncated_is_malformed, read_address, spec_decode, spec_encode, MessageSpec,
    ADDRESS_LEN,
};
use crate::error::GovernanceError;
use crate::executor::{
    instruction_result_view, invocation_result_view, plan_with, prepare_with, spec_plan,
    spec_prepare, Invocation, InvocationSpec, ResolvedInstruction,
};
use crate::hexadecimal::{decode_hex, spec_hex_decode};
use crate::resolve::{
    cpi_authority, derived_address, derived_view, optional_address_view, program_address,
    spec_cpi_authority, CPI_AUTHORITY_SEED,
};
use crate::validate::{spec_validate, validate_parts};
use vstd::prelude::*;
use vstd::string::StringSliceAdditionalSpecFns;

verus! {

/// The address of the governance program:
/// `NGoD1yTeq5KaURrZo7MnCTFzTA4g62ygakJCnzMLCfm`.
pub const ID: [u8; 32] = [
    5, 115, 14, 239, 239, 195, 96, 92, 161, 150, 21, 90, 60, 165, 89, 71,
    6, 105, 13, 69, 208, 24, 72, 184, 190, 223, 183, 217, 153, 128, 247, 236,
];

/// An instruction that the governance of the remote chain wants executed.
#[derive(Debug, Clone, PartialEq, Eq)]
pub struct GovernanceMessage {
    pub governance_program_id: [u8; 32],
    pub program_id: [u8; 32],
    pub accounts: Vec<Acc>,
    pub data: Vec<u8>,
}

impl View for GovernanceMessage {
    type V = MessageSpec;

    open spec fn view(&self) -> MessageSpec {
        MessageSpec {
            origin: self.governance_program_id@,
            program_id: self.program_id@,
            accounts: accounts_view(self.accounts@),
            data: self.data@,
        }
    }
}

/// The value of a parsing result.
pub open spec fn message_result_view(result: Result<GovernanceMessage, GovernanceError>) -> Result<
    MessageSpec,
    GovernanceError,
> {
    match result {
        Ok(message) => Ok(message@),
        Err(error) => Err(error),
    }
}

/// What a payload parses to. A payload too short for its first field is
/// `MalformedPayload`; one whose first field is not [`ID`] is
/// `UnauthorizedOrigin`; the rest is framed as every message is.
pub open spec fn spec_deserialize(bytes: Seq<u8>) -> Result<MessageSpec, GovernanceError> {
    if bytes.len() < ADDRESS_LEN {
        Err(GovernanceError::MalformedPayload)
    } else if bytes.subrange(0, ADDRESS_LEN as int) != ID@ {
        Err(GovernanceError::UnauthorizedOrigin)
    } else {
        spec_decode(bytes)
    }
}

/// What becomes of a parsed message: the first failed check, or the
/// invocation to make.
pub open spec fn spec_execute(
    message: MessageSpec,
    authority: Option<(Seq<u8>, u8)>,
    owner_authority: Seq<u8>,
) -> Result<InvocationSpec, GovernanceError> {
    match spec_validate(message, ID@, ID@) {
        Err(error) => Err(error),
        Ok(_) => spec_plan(
            message.program_id,
            message.accounts,
            message.data,
            authority,
            owner_authority,
        ),
    }
}

/// What becomes of a payload: the first failure of parsing, validation or
/// resolution, or the invocation to make.
pub open spec fn spec_process(
    payload: Seq<u8>,
    authority: Option<(Seq<u8>, u8)>,
    owner_authority: Seq<u8>,
) -> Result<InvocationSpec, GovernanceError> {
    match spec_deserialize(payload) {
        Err(error) => Err(error),
        Ok(message) => spec_execute(message, authority, owner_authority),
    }
}

impl GovernanceMessage {
    /// Parses a payload and checks that it is meant for this governance
    /// program. Placeholders are neither checked nor resolved here.
    pub fn deserialize(bytes: &[u8]) -> (result: Result<GovernanceMessage, GovernanceError>)
        ensures
            message_result_view(result) == spec_deserialize(bytes@),
    {
        if bytes.len() < ADDRESS_LEN {
            return Err(GovernanceError::MalformedPayload);
        }
        let named = read_address(bytes, 0);
        if !same_address(&named, &ID) {
            return Err(GovernanceError::UnauthorizedOrigin);
        }
        match decode_frame(bytes) {
            Ok(frame) => Ok(
                GovernanceMessage {
                    governance_program_id: frame.origin,
                    program_id: frame.program_id,
                    accounts: frame.accounts,
                    data: frame.data,
                },
            ),
            Err(error) => Err(error),
        }
    }

    /// Writes the message in wire format. There is no encoding when the
    /// accounts or the data bytes are more than a length prefix can count.
    pub fn serialize(&self) -> (bytes: Option<Vec<u8>>)
        ensures
            match bytes {
                Some(bytes) => self@.encodable() && bytes@ == spec_encode(self@),
                None => !self@.encodable(),
            },
    {
        encode_frame(&self.governance_program_id, &self.program_id, &self.accounts, &self.data)
    }

    /// Decides whether the message may be executed.
    pub fn validate(&self) -> (result: Result<(), GovernanceError>)
        ensures
            result == spec_validate(self@, ID@, ID@),
    {
        validate_parts(
            &self.governance_program_id,
            &self.program_id,
            self.accounts.len(),
            &ID,
            &ID,
        )
    }

    /// Whether two messages hold the same fields.
    pub fn equals(&self, other: &GovernanceMessage) -> (same: bool)
        ensures
            same == (self@ == other@),
    {
        same_address(&self.governance_program_id, &other.governance_program_id) && same_address(
            &self.program_id,
            &other.program_id,
        ) && same_accounts(&self.accounts, &other.accounts) && same_bytes(
            self.data.as_slice(),
            other.data.as_slice(),
        )
    }

    /// Builds the instruction to invoke, with a signing address that was
    /// derived before.
    pub fn prepare_with(
        self,
        cpi_authority: &Option<[u8; 32]>,
        owner_authority: &[u8; 32],
    ) -> (result: Result<ResolvedInstruction, GovernanceError>)
        ensures
            instruction_result_view(result) == spec_prepare(
                self@.program_id,
                self@.accounts,
                self@.data,
                optional_address_view(*cpi_authority),
                owner_authority@,
            ),
    {
        prepare_with(self.program_id, self.accounts, self.data, cpi_authority, owner_authority)
    }

    /// Builds the instruction to invoke.
    pub fn prepare(self, owner_authority: &[u8; 32]) -> (result: Result<
        ResolvedInstruction,
        GovernanceError,
    >)
        ensures
            instruction_result_view(result) == spec_prepare(
                self@.program_id,
                self@.accounts,
                self@.data,
                spec_cpi_authority(ID@),
                owner_authority@,
            ),
    {
        let authority = cpi_authority(&ID);
        let signing = derived_address(&authority);
        self.prepare_with(&signing, owner_authority)
    }
}

/// Takes a payload through parsing, validation and resolution, with a signing
/// address and bump seed that were derived before.
pub fn process_with(
    payload: &[u8],
    authority: &Option<([u8; 32], u8)>,
    owner_authority: &[u8; 32],
) -> (result: Result<Invocation, GovernanceError>)
    ensures
        invocation_result_view(result) == spec_process(
            payload@,
            derived_view(*authority),
            owner_authority@,
        ),
{
    match GovernanceMessage::deserialize(payload) {
        Err(error) => Err(error),
        Ok(message) => match message.validate() {
            Err(error) => Err(error),
            Ok(_) => plan_with(
                message.program_id,
                message.accounts,
                message.data,
                authority,
                owner_authority,
            ),
        },
    }
}

/// Takes a payload through parsing, validation and resolution. The signing
/// address is derived for this governance program.
pub fn process(payload: &[u8], owner_authority: &[u8; 32]) -> (result: Result<
    Invocation,
    GovernanceError,
>)
    ensures
        invocation_result_view(result) == spec_process(
            payload@,
            program_address(CPI_AUTHORITY_SEED@, ID@),
            owner_authority@,
        ),
{
    let authority = cpi_authority(&ID);
    process_with(payload, &authority, owner_authority)
}

/// Whether a payload, written as hexadecimal text, is a message for this
/// governance program with exactly the given target, accounts and data.
pub fn check_governance_payload(
    payload_hex: &str,
    program_id: [u8; 32],
    accounts: Vec<Acc>,
    expected_data: Vec<u8>,
) -> (matches: bool)
    ensures
        matches == (spec_hex_decode(payload_hex.spec_bytes()) matches Some(payload)
            && spec_deserialize(payload) == Ok::<MessageSpec, GovernanceError>(
            MessageSpec {
                origin: ID@,
                program_id: program_id@,
                accounts: accounts_view(accounts@),
                data: expected_data@,
            },
        )),
{
    let expected = GovernanceMessage {
        governance_program_id: ID,
        program_id,
        accounts,
        data: expected_data,
    };
    match decode_hex(payload_hex) {
        None => false,
        Some(payload) => match GovernanceMessage::deserialize(payload.as_slice()) {
            Err(_) => false,
            Ok(actual) => actual.equals(&expected),
        },
    }
}

/// A payload that parses names this governance program, and parses to what
/// its frame holds: what is true of every decoded frame is true of it.
pub proof fn lemma_deserialize_is_decode(bytes: Seq<u8>)
    requires
        spec_deserialize(bytes) is Ok,
    ensures
        spec_deserialize(bytes) == spec_decode(bytes),
        spec_deserialize(bytes)->Ok_0.origin == ID@,
{
}

/// Parsing a serialized message that names this governance program gives the
/// message back.
pub proof fn lemma_roundtrip(message: MessageSpec)
    requires
        message.well_formed(),
        message.encodable(),
        message.origin == ID@,
    ensures
        spec_deserialize(spec_encode(message)) == Ok::<MessageSpec, GovernanceError>(message),
{
    lemma_encode_layout(message);
    lemma_decode_encode(message);
}

/// A payload that is cut short anywhere is `MalformedPayload`.
pub proof fn lemma_truncation(message: MessageSpec, cut: int)
    requires
        message.well_formed(),
        message.encodable(),
        message.origin == ID@,
        0 <= cut < spec_encode(message).len(),
    ensures
        spec_deserialize(spec_encode(message).subrange(0, cut)) == Err::<
            MessageSpec,
            GovernanceError,
        >(GovernanceError::MalformedPayload),
{
    let bytes = spec_encode(message);
    lemma_encode_layout(message);
    lemma_truncated_is_malformed(message, cut);
    if cut >= ADDRESS_LEN {
        assert(bytes.subrange(0, cut).subrange(0, ADDRESS_LEN as int) =~= bytes.subrange(
            0,
            ADDRESS_LEN as int,
        ));
    }
}

/// A payload that names another governance program ends in
/// `UnauthorizedOrigin`, whatever follows the name, and no invocation comes
/// of it.
pub proof fn lemma_foreign_program_is_rejected(
    payload: Seq<u8>,
    authority: Option<(Seq<u8>, u8)>,
    owner_authority: Seq<u8>,
)
    requires
        payload.len() >= ADDRESS_LEN,
        payload.subrange(0, ADDRESS_LEN as int) != ID@,
    ensures
        spec_deserialize(payload) == Err::<MessageSpec, GovernanceError>(
            GovernanceError::UnauthorizedOrigin,
        ),
        spec_process(payload, authority, owner_authority) == Err::<
            InvocationSpec,
            GovernanceError,
        >(GovernanceError::UnauthorizedOrigin),
{
}

/// A message that was built by hand for another governance program is
/// rejected as `UnauthorizedOrigin` too.
pub proof fn lemma_foreign_message_is_rejected(
    message: MessageSpec,
    authority: Option<(Seq<u8>, u8)>,
    owner_authority: Seq<u8>,
)
    requires
        message.origin != ID@,
    ensures
        spec_execute(message, authority, owner_authority) == Err::<
            InvocationSpec,
            GovernanceError,
        >(GovernanceError::UnauthorizedOrigin),
{
}

} // verus!
