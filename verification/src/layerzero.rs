//! Governance messages that arrive through the LayerZero bridge.
//!
//! The first field of such a message is the caller on the remote chain: a
//! 20-byte EVM address, padded on the left to 32 bytes. Parsing is purely
//! structural; whether the caller may govern is decided by
//! [`GovernanceMessage::validate`].

use crate::account::{accounts_view, Acc};
use crate::codec::{decode_frame, encode_frame, spec_decode, spec_encode, MessageSpec};
use crate::error::GovernanceError;
use crate::executor::{
    instruction_result_view, invocation_result_view, plan_with, prepare_with, spec_plan,
    spec_prepare, Invocation, InvocationSpec, ResolvedInstruction,
};
use crate::resolve::{
    cpi_authority, derived_address, derived_view, optional_address_view, program_address,
    spec_cpi_authority, CPI_AUTHORITY_SEED,
};
use crate::validate::{spec_validate, validate_parts};
use vstd::prelude::*;

verus! {

/// An instruction that the remote administrator wants executed.
#[derive(Debug, Clone, PartialEq, Eq)]
pub struct GovernanceMessage {
    pub origin_caller: [u8; 32],
    pub program_id: [u8; 32],
    pub accounts: Vec<Acc>,
    pub data: Vec<u8>,
}

impl View for GovernanceMessage {
    type V = MessageSpec;

    open spec fn view(&self) -> MessageSpec {
        MessageSpec {
            origin: self.origin_caller@,
            program_id: self.program_id@,
            accounts: accounts_view(self.accounts@),
            data: self.data@,
        }
    }
}

/// What the governance program is configured with.
#[derive(Debug, Clone, Copy, PartialEq, Eq)]
pub struct Context {
    /// The only remote caller whose messages are executed.
    pub administrator: [u8; 32],
    /// The address of the governance program itself.
    pub governance_program_id: [u8; 32],
    /// The address that the owner placeholder stands for.
    pub owner_authority: [u8; 32],
}

/// The value of a decoding result.
pub open spec fn message_result_view(result: Result<GovernanceMessage, GovernanceError>) -> Result<
    MessageSpec,
    GovernanceError,
> {
    match result {
        Ok(message) => Ok(message@),
        Err(error) => Err(error),
    }
}

/// What becomes of a decoded message: the first failed check, or the
/// invocation to make.
pub open spec fn spec_execute(
    message: MessageSpec,
    administrator: Seq<u8>,
    governance_program_id: Seq<u8>,
    authority: Option<(Seq<u8>, u8)>,
    owner_authority: Seq<u8>,
) -> Result<InvocationSpec, GovernanceError> {
    match spec_validate(message, administrator, governance_program_id) {
        Err(error) => Err(error),
        Ok(_) => spec_plan(
            message.program_id,
            message.accounts,
            message.data,
            authority,
            owner_authority,
        ),
    }
}

/// What becomes of a payload: the first failure of parsing, validation or
/// resolution, or the invocation to make.
pub open spec fn spec_process(
    payload: Seq<u8>,
    administrator: Seq<u8>,
    governance_program_id: Seq<u8>,
    authority: Option<(Seq<u8>, u8)>,
    owner_authority: Seq<u8>,
) -> Result<InvocationSpec, GovernanceError> {
    match spec_decode(payload) {
        Err(error) => Err(error),
        Ok(message) => spec_execute(
            message,
            administrator,
            governance_program_id,
            authority,
            owner_authority,
        ),
    }
}

impl GovernanceMessage {
    /// Parses a payload. Placeholders are neither checked nor resolved here.
    pub fn decode(bytes: &[u8]) -> (result: Result<GovernanceMessage, GovernanceError>)
        ensures
            message_result_view(result) == spec_decode(bytes@),
    {
        match decode_frame(bytes) {
            Ok(frame) => Ok(
                GovernanceMessage {
                    origin_caller: frame.origin,
                    program_id: frame.program_id,
                    accounts: frame.accounts,
                    data: frame.data,
                },
            ),
            Err(error) => Err(error),
        }
    }

    /// Writes the message in wire format. There is no encoding when the
    /// accounts or the data bytes are more than a length prefix can count.
    pub fn encode(&self) -> (bytes: Option<Vec<u8>>)
        ensures
            match bytes {
                Some(bytes) => self@.encodable() && bytes@ == spec_encode(self@),
                None => !self@.encodable(),
            },
    {
        encode_frame(&self.origin_caller, &self.program_id, &self.accounts, &self.data)
    }

    /// Decides whether the message may be executed.
    pub fn validate(&self, context: &Context) -> (result: Result<(), GovernanceError>)
        ensures
            result == spec_validate(
                self@,
                context.administrator@,
                context.governance_program_id@,
            ),
    {
        validate_parts(
            &self.origin_caller,
            &self.program_id,
            self.accounts.len(),
            &context.administrator,
            &context.governance_program_id,
        )
    }

    /// Builds the instruction to invoke, with a signing address that was
    /// derived before.
    pub fn prepare_with(
        self,
        cpi_authority: &Option<[u8; 32]>,
        owner_authority: &[u8; 32],
    ) -> (result: Result<ResolvedInstruction, GovernanceError>)
        ensures
            instruction_result_view(result) == spec_prepare(
                self@.program_id,
                self@.accounts,
                self@.data,
                optional_address_view(*cpi_authority),
                owner_authority@,
            ),
    {
        prepare_with(self.program_id, self.accounts, self.data, cpi_authority, owner_authority)
    }

    /// Builds the instruction to invoke.
    pub fn prepare(self, context: &Context) -> (result: Result<
        ResolvedInstruction,
        GovernanceError,
    >)
        ensures
            instruction_result_view(result) == spec_prepare(
                self@.program_id,
                self@.accounts,
                self@.data,
                spec_cpi_authority(context.governance_program_id@),
                context.owner_authority@,
            ),
    {
        let authority = cpi_authority(&context.governance_program_id);
        let signing = derived_address(&authority);
        self.prepare_with(&signing, &context.owner_authority)
    }
}

/// Takes a payload through parsing, validation and resolution, with a signing
/// address and bump seed that were derived before.
pub fn process_with(
    payload: &[u8],
    context: &Context,
    authority: &Option<([u8; 32], u8)>,
) -> (result: Result<Invocation, GovernanceError>)
    ensures
        invocation_result_view(result) == spec_process(
            payload@,
            context.administrator@,
            context.governance_program_id@,
            derived_view(*authority),
            context.owner_authority@,
        ),
{
    match GovernanceMessage::decode(payload) {
        Err(error) => Err(error),
        Ok(message) => match message.validate(context) {
            Err(error) => Err(error),
            Ok(_) => plan_with(
                message.program_id,
                message.accounts,
                message.data,
                authority,
                &context.owner_authority,
            ),
        },
    }
}

/// Takes a payload through parsing, validation and resolution. The signing
/// address is derived for the governance program of the context.
pub fn process(payload: &[u8], context: &Context) -> (result: Result<Invocation, GovernanceError>)
    ensures
        invocation_result_view(result) == spec_process(
            payload@,
            context.administrator@,
            context.governance_program_id@,
            program_address(CPI_AUTHORITY_SEED@, context.governance_program_id@),
            context.owner_authority@,
        ),
{
    let authority = cpi_authority(&context.governance_program_id);
    process_with(payload, context, &authority)
}

/// A well-framed payload from any caller but the administrator ends in
/// `UnauthorizedOrigin`, and no invocation comes of it.
pub proof fn lemma_foreign_caller_is_rejected(
    payload: Seq<u8>,
    administrator: Seq<u8>,
    governance_program_id: Seq<u8>,
    authority: Option<(Seq<u8>, u8)>,
    owner_authority: Seq<u8>,
)
    requires
        spec_decode(payload) is Ok,
        spec_decode(payload)->Ok_0.origin != administrator,
    ensures
        spec_process(payload, administrator, governance_program_id, authority, owner_authority)
            == Err::<InvocationSpec, GovernanceError>(GovernanceError::UnauthorizedOrigin),
{
}

} // verus!
