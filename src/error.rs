//! The error kinds of the policy surface.
use vstd::prelude::*;
use crate::kernel_policy::RuleError;
use crate::policy_intent::IntentError;

verus! {

/// Why a policy operation failed.
#[derive(Debug, Clone, Copy, PartialEq, Eq, Structural)]
pub enum PolicyError {
    /// Unknown node or policy id.
    NotFound,
    /// The node is flagged inaccessible.
    NotAccessible,
    /// The intent failed structural validation.
    InvalidIntent(IntentError),
    /// A resolved path is not a device path.
    InvalidPath,
    /// A derived kernel rule failed its checks.
    InvalidRule(RuleError),
    /// The driver answered with a non-zero status, carried here.
    KernelTransportError(i32),
    /// No kernel adapter is attached.
    KernelUnavailable,
    /// The node's device path must be derived from its drive letter, and the
    /// device root of that volume was not supplied.
    VolumeNeeded,
    /// The intent needs an explicit confirmation that was not given.
    ConfirmationRequired,
    /// No further policy id can be issued.
    IdsExhausted,
    /// A policy with this id is already recorded.
    AlreadyRecorded,
}

pub open spec fn error_message(e: PolicyError) -> Seq<char> {
    match e {
        PolicyError::NotFound => "not found"@,
        PolicyError::NotAccessible => "node is not accessible"@,
        PolicyError::InvalidIntent(_) => "invalid intent"@,
        PolicyError::InvalidPath => "invalid device path"@,
        PolicyError::InvalidRule(_) => "invalid kernel rule"@,
        PolicyError::KernelTransportError(_) => "kernel transport error"@,
        PolicyError::KernelUnavailable => "kernel unavailable"@,
        PolicyError::VolumeNeeded => "volume device root needed"@,
        PolicyError::ConfirmationRequired => "policy requires confirmation before applying"@,
        PolicyError::IdsExhausted => "policy ids exhausted"@,
        PolicyError::AlreadyRecorded => "policy already recorded"@,
    }
}

impl PolicyError {
    /// A short human-readable message for the kind.
    pub fn message(&self) -> (r: &'static str)
        ensures
            r@ == error_message(*self),
    {
        match self {
            PolicyError::NotFound => "not found",
            PolicyError::NotAccessible => "node is not accessible",
            PolicyError::InvalidIntent(_) => "invalid intent",
            PolicyError::InvalidPath => "invalid device path",
            PolicyError::InvalidRule(_) => "invalid kernel rule",
            PolicyError::KernelTransportError(_) => "kernel transport error",
            PolicyError::KernelUnavailable => "kernel unavailable",
            PolicyError::VolumeNeeded => "volume device root needed",
            PolicyError::ConfirmationRequired => "policy requires confirmation before applying",
            PolicyError::IdsExhausted => "policy ids exhausted",
            PolicyError::AlreadyRecorded => "policy already recorded",
        }
    }
}

} // verus!
