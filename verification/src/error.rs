//! The error taxonomy of the governance engine.
//!
//! Every operation either fully applies or fails with one of these errors and
//! no partial state change.

use vstd::prelude::*;

verus! {

/// Why a governance operation was refused.
#[derive(Debug, Clone, Copy, PartialEq, Eq, Structural)]
pub enum MultisigError {
    /// A bound violation on the threshold, the member count or a new value.
    ValidationError,
    /// The caller is not a member, or did not sign the submission.
    AuthorizationError,
    /// A referenced record is absent, unreadable, or belongs to another multisig.
    NotFoundError,
    /// The operation is invalid for the proposal's current status.
    StateError,
    /// A duplicate vote, or an attempt to re-initialize an existing record.
    ConflictError,
    /// An execute-time guard failed: insufficient approvals, a wrong target
    /// account count, or a config change that would break the threshold bound.
    GuardError,
}

impl MultisigError {
    /// A short name of the error, for reports outside the library.
    pub fn describe(&self) -> (r: &'static str)
        ensures
            r@ =~= self.spec_describe(),
    {
        match self {
            MultisigError::ValidationError => "validation error",
            MultisigError::AuthorizationError => "authorization error",
            MultisigError::NotFoundError => "not found",
            MultisigError::StateError => "invalid proposal state",
            MultisigError::ConflictError => "conflict",
            MultisigError::GuardError => "guard failed",
        }
    }

    /// The name that [`Self::describe`] returns.
    pub open spec fn spec_describe(self) -> Seq<char> {
        match self {
            MultisigError::ValidationError => "validation error"@,
            MultisigError::AuthorizationError => "authorization error"@,
            MultisigError::NotFoundError => "not found"@,
            MultisigError::StateError => "invalid proposal state"@,
            MultisigError::ConflictError => "conflict"@,
            MultisigError::GuardError => "guard failed"@,
        }
    }
}

} // verus!
