use vstd::prelude::*;

verus! {

/// Why a governance message was rejected. Every error ends the processing of
/// the message it belongs to; nothing is retried in this crate.
#[derive(Debug, Clone, Copy, PartialEq, Eq, Structural)]
pub enum GovernanceError {
    /// The payload ends before a field or a length-prefixed section does.
    MalformedPayload,
    /// The payload holds a complete message followed by further bytes.
    TrailingBytes,
    /// An account entry sets a flag bit other than signer and writable.
    InvalidAccountFlags,
    /// The origin of the message is not the configured authority.
    UnauthorizedOrigin,
    /// The message names no account, or targets the governance program itself.
    InvalidTarget,
    /// An address is shaped like a placeholder but stands for nothing.
    UnresolvedPlaceholder,
    /// The target program rejected the instruction.
    InvocationFailure,
}

impl GovernanceError {
    /// The number under which the error is reported to the host runtime.
    pub open spec fn spec_code(self) -> u32 {
        match self {
            GovernanceError::MalformedPayload => 1,
            GovernanceError::TrailingBytes => 2,
            GovernanceError::InvalidAccountFlags => 3,
            GovernanceError::UnauthorizedOrigin => 4,
            GovernanceError::InvalidTarget => 5,
            GovernanceError::UnresolvedPlaceholder => 6,
            GovernanceError::InvocationFailure => 7,
        }
    }

    /// The number under which the error is reported to the host runtime.
    /// Distinct errors have distinct numbers, and none is zero.
    pub fn code(self) -> (code: u32)
        ensures
            code == self.spec_code(),
            code != 0,
    {
        match self {
            GovernanceError::MalformedPayload => 1,
            GovernanceError::TrailingBytes => 2,
            GovernanceError::InvalidAccountFlags => 3,
            GovernanceError::UnauthorizedOrigin => 4,
            GovernanceError::InvalidTarget => 5,
            GovernanceError::UnresolvedPlaceholder => 6,
            GovernanceError::InvocationFailure => 7,
        }
    }
}

} // verus!
