//! Errors of the proof primitives.

use vstd::prelude::*;

verus! {

/// What can go wrong with a proof.
#[derive(Clone, Copy, Debug, PartialEq, Eq, Structural)]
pub enum ProofError {
    /// A proof failed to verify.
    VerificationError,
}

impl ProofError {
    /// The message of the error.
    pub fn message(&self) -> (text: String)
        ensures
            text@ == "Verification error"@,
    {
        match self {
            ProofError::VerificationError => "Verification error".to_owned(),
        }
    }
}

} // verus!
