//! The source of the random challenges of a sumcheck proof.

use vstd::prelude::*;

verus! {

/// Provides the random challenges of a sumcheck proof.
///
/// The challenges must depend on everything the verifier has seen, so the
/// transcript is the caller's to implement.
pub trait SumcheckTranscript<T> {
    /// Tells the transcript the dimensions of the proof.
    fn init(&mut self, num_variables: usize, round_degree: usize);

    /// Produces the challenge of a round from the polynomial of the round,
    /// `polynomial[0] + polynomial[1] X + ... + polynomial[d] X^d`.
    fn round_challenge(&mut self, polynomial: &[T]) -> T;
}

} // verus!
