//! Error kinds surfaced by the store operations.
//!
//! Every failure carries a diagnostic string; the variants keep the failure
//! classes distinguishable for callers.

use vstd::prelude::*;

verus! {

/// Failure classes of the store.
#[derive(Debug, Clone, PartialEq, Eq)]
pub enum StratumError {
    /// A commit, tag, worktree or mount is missing.
    NotFound(String),
    /// Creating a worktree over an occupied name.
    Exists(String),
    /// A delete or removal was refused because a live mount pins the target.
    Busy(String),
    /// Malformed reference string, non-directory source, or invalid label.
    InvalidInput(String),
    /// An underlying system operation failed.
    Io(String),
    /// A mount option was rejected after all fallbacks.
    KernelUnsupported(String),
    /// Missing objects detected by the image verifier.
    Integrity(String),
}

impl StratumError {
    /// The diagnostic message carried by this error.
    pub fn message(&self) -> (r: String)
        ensures
            r@ == self.spec_message(),
    {
        match self {
            StratumError::NotFound(m) => m.clone(),
            StratumError::Exists(m) => m.clone(),
            StratumError::Busy(m) => m.clone(),
            StratumError::InvalidInput(m) => m.clone(),
            StratumError::Io(m) => m.clone(),
            StratumError::KernelUnsupported(m) => m.clone(),
            StratumError::Integrity(m) => m.clone(),
        }
    }

    /// The message, as a sequence of characters.
    pub open spec fn spec_message(&self) -> Seq<char> {
        match self {
            StratumError::NotFound(m) => m@,
            StratumError::Exists(m) => m@,
            StratumError::Busy(m) => m@,
            StratumError::InvalidInput(m) => m@,
            StratumError::Io(m) => m@,
            StratumError::KernelUnsupported(m) => m@,
            StratumError::Integrity(m) => m@,
        }
    }
}

} // verus!
