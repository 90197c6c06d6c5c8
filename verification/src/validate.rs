//! Checks on a decoded message before anything is executed.
//!
//! The origin is checked first: a message from anyone but the configured
//! authority is `UnauthorizedOrigin`, whatever else it holds. A message from
//! the authority must name at least one account and must not target the
//! governance program itself; otherwise it is `InvalidTarget`.

use crate::address::same_address;
use crate::codec::MessageSpec;
use crate::error::GovernanceError;
use vstd::prelude::*;

verus! {

/// Whether a message with the given origin, target and number of accounts
/// may be executed, and if not, why.
pub open spec fn spec_validate_parts(
    origin: Seq<u8>,
    program_id: Seq<u8>,
    account_count: nat,
    authority: Seq<u8>,
    governance_program_id: Seq<u8>,
) -> Result<(), GovernanceError> {
    if origin != authority {
        Err(GovernanceError::UnauthorizedOrigin)
    } else if account_count == 0 || program_id == governance_program_id {
        Err(GovernanceError::InvalidTarget)
    } else {
        Ok(())
    }
}

/// Whether a message may be executed, and if not, why.
pub open spec fn spec_validate(
    message: MessageSpec,
    authority: Seq<u8>,
    governance_program_id: Seq<u8>,
) -> Result<(), GovernanceError> {
    spec_validate_parts(
        message.origin,
        message.program_id,
        message.accounts.len(),
        authority,
        governance_program_id,
    )
}

/// Checks the origin, the target and the number of accounts of a message.
pub fn validate_parts(
    origin: &[u8; 32],
    program_id: &[u8; 32],
    account_count: usize,
    authority: &[u8; 32],
    governance_program_id: &[u8; 32],
) -> (result: Result<(), GovernanceError>)
    ensures
        result == spec_validate_parts(
            origin@,
            program_id@,
            account_count as nat,
            authority@,
            governance_program_id@,
        ),
{
    if !same_address(origin, authority) {
        Err(GovernanceError::UnauthorizedOrigin)
    } else if account_count == 0 || same_address(program_id, governance_program_id) {
        Err(GovernanceError::InvalidTarget)
    } else {
        Ok(())
    }
}

/// A message whose origin is not the configured authority is rejected as
/// `UnauthorizedOrigin`, whatever its target and its accounts.
pub proof fn lemma_foreign_origin_is_unauthorized(
    message: MessageSpec,
    authority: Seq<u8>,
    governance_program_id: Seq<u8>,
)
    requires
        message.origin != authority,
    ensures
        spec_validate(message, authority, governance_program_id) == Err::<(), GovernanceError>(
            GovernanceError::UnauthorizedOrigin,
        ),
{
}

/// A message passes exactly when it comes from the authority, names an
/// account and targets another program than the governance program.
pub proof fn lemma_validate_accepts(
    message: MessageSpec,
    authority: Seq<u8>,
    governance_program_id: Seq<u8>,
)
    ensures
        spec_validate(message, authority, governance_program_id) is Ok <==> {
            &&& message.origin == authority
            &&& message.accounts.len() > 0
            &&& message.program_id != governance_program_id
        },
{
}

} // verus!
