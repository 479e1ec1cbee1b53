//! The inner-product argument: what is asked of the backend, and what is made
//! of its answer.

use crate::proofs::error::ProofError;
use crate::proofs::rounds::{ceil_log2, ceil_log2_of};
use vstd::prelude::*;

verus! {

/// A proof that a committed vector has a claimed inner product with a public
/// vector: one pair of compressed points for each round of the reduction, and
/// the one scalar the committed vector is folded down to.
#[derive(Clone, Debug)]
pub struct InnerProductProof {
    /// The left cross terms, one for each round.
    pub l_vector: Vec<[u8; 32]>,
    /// The right cross terms, one for each round.
    pub r_vector: Vec<[u8; 32]>,
    /// What is left of the committed vector after the last round.
    pub ap_value: [u8; 32],
}

/// What the backend is asked when a proof over vectors of `n` elements is
/// created or verified.
#[derive(Clone, Copy, Debug, PartialEq, Eq, Structural)]
pub struct InnerProductRequest {
    /// The length of the vectors.
    pub n: u64,
    /// The number of rounds, and so of left and of right cross terms.
    pub num_rounds: usize,
    /// The index of the first generator of the base.
    pub generators_offset: u64,
}

/// The request for vectors of `n` elements with the base at `generators_offset`.
pub open spec fn request_for(n: nat, generators_offset: u64) -> InnerProductRequest {
    InnerProductRequest {
        n: n as u64,
        num_rounds: ceil_log2(n) as usize,
        generators_offset,
    }
}

impl InnerProductProof {
    /// The proof has the number of rounds that vectors of `n` elements take.
    pub open spec fn fits(&self, n: nat) -> bool {
        self.l_vector@.len() == ceil_log2(n) && self.r_vector@.len() == ceil_log2(n)
    }

    /// What to ask of the backend to create a proof for the vectors `a` and
    /// `b`, given by their lengths: both must hold the same, non-zero number
    /// of elements.
    pub fn create_request(a_len: usize, b_len: usize, generators_offset: u64) -> (request:
        InnerProductRequest)
        requires
            a_len > 0,
            a_len == b_len,
        ensures
            request == request_for(a_len as nat, generators_offset),
            request.n == a_len,
            request.num_rounds == ceil_log2(a_len as nat),
    {
        let n: u64 = a_len as u64;
        let ceil_lg2_n = ceil_log2_of(n) as usize;
        InnerProductRequest { n, num_rounds: ceil_lg2_n, generators_offset }
    }

    /// The proof that the backend returned for `request`.
    pub fn from_backend(
        request: &InnerProductRequest,
        l_vector: Vec<[u8; 32]>,
        r_vector: Vec<[u8; 32]>,
        ap_value: [u8; 32],
    ) -> (proof: Self)
        requires
            l_vector@.len() == request.num_rounds,
            r_vector@.len() == request.num_rounds,
        ensures
            proof.l_vector@ == l_vector@,
            proof.r_vector@ == r_vector@,
            proof.ap_value == ap_value,
            request.num_rounds == ceil_log2(request.n as nat) ==> proof.fits(request.n as nat),
    {
        InnerProductProof { l_vector, r_vector, ap_value }
    }

    /// What to ask of the backend to verify the proof against a public vector
    /// of `b_len` elements, which must not be empty.
    ///
    /// A proof whose number of rounds is not the one that `b_len` elements
    /// take is rejected here, before the backend is asked anything.
    pub fn verify_request(&self, b_len: usize, generators_offset: u64) -> (request: Result<
        InnerProductRequest,
        ProofError,
    >)
        requires
            b_len > 0,
        ensures
            self.fits(b_len as nat) ==> request == Ok::<InnerProductRequest, ProofError>(
                request_for(b_len as nat, generators_offset),
            ),
            !self.fits(b_len as nat) ==> request == Err::<InnerProductRequest, ProofError>(
                ProofError::VerificationError,
            ),
    {
        let n = b_len;
        let ceil_lg2_n = ceil_log2_of(n as u64) as usize;
        if ceil_lg2_n != self.l_vector.len() || ceil_lg2_n != self.r_vector.len() {
            return Err(ProofError::VerificationError);
        }
        Ok(InnerProductRequest { n: n as u64, num_rounds: ceil_lg2_n, generators_offset })
    }

    /// The outcome of a verification from the answer of the backend, which is
    /// `1` for a proof it accepts.
    pub fn verdict(answer: i32) -> (outcome: Result<(), ProofError>)
        ensures
            answer == 1 ==> outcome == Ok::<(), ProofError>(()),
            answer != 1 ==> outcome == Err::<(), ProofError>(ProofError::VerificationError),
    {
        if answer == 1 {
            return Ok(());
        }
        Err(ProofError::VerificationError)
    }
}

} // verus!
