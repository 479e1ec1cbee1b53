//! The sumcheck protocol: the shape of a proof, and the conditions every
//! input has to meet before the backend is asked to prove anything.

use crate::proofs::field::FieldId;
use crate::proofs::rounds::{ceil_log2, ceil_log2_of};
use crate::proofs::sumcheck_transcript::SumcheckTranscript;
use vstd::prelude::*;

verus! {

/// Proof in the sumcheck protocol up to the evaluation at a random point.
#[derive(Clone, Debug)]
pub struct SumcheckProof<T: FieldId> {
    /// The random elements chosen for each round of sumcheck.
    pub evaluation_point: Vec<T>,
    /// The univariate polynomials produced for each round of sumcheck.
    ///
    /// If `d` denotes the degree of the round polynomial, the polynomial of
    /// round `i` has the coefficients
    /// `round_polynomials[i * (d + 1)], ..., round_polynomials[i * (d + 1) + d]`,
    /// from the constant one.
    pub round_polynomials: Vec<T>,
}

/// The dimensions of a sumcheck polynomial
/// `sum_i mult_i * prod_j f_j(X1, ..., Xr)` as the backend takes them.
#[derive(Clone, Copy, Debug, PartialEq, Eq, Structural)]
pub struct SumcheckDescriptor {
    /// The number of entries of each multilinear extension.
    pub n: u32,
    /// The number of multilinear extensions.
    pub num_mles: u32,
    /// The number of products.
    pub num_products: u32,
    /// The number of factors of all products together.
    pub num_product_terms: u32,
    /// The degree of the round polynomials.
    pub round_degree: u32,
    /// The number of rounds.
    pub num_rounds: usize,
}

/// The number of factors of product `i`.
pub open spec fn product_lengths<T>(product_table: Seq<(T, u32)>) -> Seq<nat> {
    product_table.map_values(|entry: (T, u32)| entry.1 as nat)
}

/// The sum of `lengths`.
pub open spec fn total(lengths: Seq<nat>) -> nat
    decreases lengths.len(),
{
    if lengths.len() == 0 {
        0
    } else {
        total(lengths.drop_last()) + lengths.last()
    }
}

/// The greatest of `lengths`; zero where there is none.
pub open spec fn greatest(lengths: Seq<nat>) -> nat
    decreases lengths.len(),
{
    if lengths.len() == 0 {
        0
    } else if lengths.last() > greatest(lengths.drop_last()) {
        lengths.last()
    } else {
        greatest(lengths.drop_last())
    }
}

/// The number of rounds of a sumcheck over extensions of `n` entries: one for
/// each variable, and at least one.
pub open spec fn sumcheck_rounds(n: nat) -> nat {
    if ceil_log2(n) > 1 {
        ceil_log2(n)
    } else {
        1
    }
}

/// What has to hold of the input of a sumcheck proof: the extensions are not
/// empty, there is a product, the extensions fill a matrix of `n` rows, every
/// factor names one of its columns, and the factors are as many as the
/// products ask for. The counts that are handed to the backend fit its
/// thirty-two-bit fields, and the round polynomials fit in memory.
pub open spec fn sumcheck_input_ok(
    mles_len: nat,
    lengths: Seq<nat>,
    product_terms: Seq<u32>,
    n: nat,
) -> bool {
    &&& n > 0
    &&& lengths.len() > 0
    &&& mles_len % n == 0
    &&& forall|i: int| 0 <= i < product_terms.len() ==> (#[trigger] product_terms[i]) < mles_len / n
    &&& product_terms.len() == total(lengths)
    &&& mles_len / n <= u32::MAX
    &&& lengths.len() <= u32::MAX
    &&& total(lengths) <= u32::MAX
    &&& (greatest(lengths) + 1) * sumcheck_rounds(n) <= usize::MAX
}

/// The dimensions that an input has.
pub open spec fn descriptor_of(mles_len: nat, lengths: Seq<nat>, n: nat) -> SumcheckDescriptor {
    SumcheckDescriptor {
        n: n as u32,
        num_mles: (mles_len / n) as u32,
        num_products: lengths.len() as u32,
        num_product_terms: total(lengths) as u32,
        round_degree: greatest(lengths) as u32,
        num_rounds: sumcheck_rounds(n) as usize,
    }
}

/// The number of rounds of a sumcheck over extensions of `n` entries.
pub fn num_rounds(n: u32) -> (rounds: usize)
    ensures
        rounds == sumcheck_rounds(n as nat),
        1 <= rounds <= 64,
{
    let variables = ceil_log2_of(n as u64);
    if variables > 1 {
        variables as usize
    } else {
        1
    }
}

/// Whether the input of a sumcheck proof is well formed: what [`prepare`]
/// asks for.
pub fn input_ok<T>(mles_len: usize, product_table: &[(T, u32)], product_terms: &[u32], n: u32) -> (ok:
    bool)
    ensures
        ok == sumcheck_input_ok(
            mles_len as nat,
            product_lengths(product_table@),
            product_terms@,
            n as nat,
        ),
{
    let ghost lengths = product_lengths(product_table@);
    if n == 0 || product_table.len() == 0 {
        return false;
    }
    if mles_len % (n as usize) != 0 {
        return false;
    }
    let num_mles = mles_len / (n as usize);
    if num_mles > u32::MAX as usize || product_table.len() > u32::MAX as usize {
        return false;
    }
    let mut k: usize = 0;
    while k < product_terms.len()
        invariant
            k <= product_terms@.len(),
            num_mles == mles_len as nat / (n as nat),
            forall|i: int| 0 <= i < k ==> (#[trigger] product_terms@[i]) < num_mles,
        decreases product_terms@.len() - k,
    {
        if product_terms[k] as usize >= num_mles {
            return false;
        }
        k += 1;
    }
    let mut num_product_terms: u64 = 0;
    let mut round_degree: u32 = 0;
    let mut i: usize = 0;
    while i < product_table.len()
        invariant
            i <= product_table@.len(),
            product_table@.len() <= u32::MAX,
            lengths == product_lengths(product_table@),
            num_product_terms == total(lengths.take(i as int)),
            round_degree == greatest(lengths.take(i as int)),
            num_product_terms <= i * u32::MAX,
        decreases product_table@.len() - i,
    {
        proof {
            assert(lengths.take(i + 1).drop_last() =~= lengths.take(i as int));
            assert(lengths.take(i + 1).last() == product_table@[i as int].1);
            assert(i * u32::MAX + u32::MAX <= u32::MAX * u32::MAX) by (nonlinear_arith)
                requires
                    i < u32::MAX,
            ;
        }
        let length = product_table[i].1;
        num_product_terms = num_product_terms + length as u64;
        if length > round_degree {
            round_degree = length;
        }
        i += 1;
    }
    proof {
        assert(lengths.take(product_table@.len() as int) =~= lengths);
    }
    if num_product_terms > u32::MAX as u64 || product_terms.len() as u64 != num_product_terms {
        return false;
    }
    let rounds = num_rounds(n);
    match (round_degree as usize).checked_add(1) {
        Some(round_len) => round_len.checked_mul(rounds).is_some(),
        None => {
            proof {
                assert((greatest(lengths) + 1) * sumcheck_rounds(n as nat) > usize::MAX)
                    by (nonlinear_arith)
                    requires
                        greatest(lengths) + 1 > usize::MAX,
                        sumcheck_rounds(n as nat) >= 1,
                ;
            }
            false
        },
    }
}

/// The dimensions of the proof for a polynomial of the form
/// `sum_i mult_i * prod_j f_j(X1, ..., Xr)`, where `f_j` denotes a
/// multilinear extension of `r` variables.
///
/// The extensions are the columns of a matrix of `n` rows, `mles_len`
/// entries in all; `product_table` holds for each product its multiplier
/// and its number of factors; `product_terms` names the extension of each
/// factor.
pub fn describe<T>(mles_len: usize, product_table: &[(T, u32)], product_terms: &[u32], n: u32) -> (descriptor:
    SumcheckDescriptor)
    requires
        sumcheck_input_ok(
            mles_len as nat,
            product_lengths(product_table@),
            product_terms@,
            n as nat,
        ),
    ensures
        descriptor == descriptor_of(mles_len as nat, product_lengths(product_table@), n as nat),
{
    let ghost lengths = product_lengths(product_table@);
    let num_mles = mles_len / (n as usize);
    let num_rounds = num_rounds(n);
    let mut round_degree: u32 = 0;
    let mut i: usize = 0;
    while i < product_table.len()
        invariant
            i <= product_table@.len(),
            lengths == product_lengths(product_table@),
            round_degree == greatest(lengths.take(i as int)),
        decreases product_table@.len() - i,
    {
        proof {
            assert(lengths.take(i + 1).drop_last() =~= lengths.take(i as int));
            assert(lengths.take(i + 1).last() == product_table@[i as int].1);
        }
        if product_table[i].1 > round_degree {
            round_degree = product_table[i].1;
        }
        i += 1;
    }
    proof {
        assert(lengths.take(product_table@.len() as int) =~= lengths);
    }
    SumcheckDescriptor {
        n,
        num_mles: num_mles as u32,
        num_products: product_table.len() as u32,
        num_product_terms: product_terms.len() as u32,
        round_degree,
        num_rounds,
    }
}

/// Lays out a proof as [`describe`] does, and tells `transcript` the
/// dimensions of the proof: the number of rounds and the degree of the round
/// polynomials. The result is what the backend is asked to prove.
pub fn prepare<T, Transcript: SumcheckTranscript<T>>(
    transcript: &mut Transcript,
    mles_len: usize,
    product_table: &[(T, u32)],
    product_terms: &[u32],
    n: u32,
) -> (descriptor: SumcheckDescriptor)
    requires
        sumcheck_input_ok(
            mles_len as nat,
            product_lengths(product_table@),
            product_terms@,
            n as nat,
        ),
    ensures
        descriptor == descriptor_of(mles_len as nat, product_lengths(product_table@), n as nat),
{
    let descriptor = describe(mles_len, product_table, product_terms, n);
    transcript.init(descriptor.num_rounds, descriptor.round_degree as usize);
    descriptor
}

impl<T: FieldId> SumcheckProof<T> {
    /// The proof has the shape that `descriptor` asks for: one challenge and
    /// `round_degree + 1` coefficients for each round.
    pub open spec fn fits(&self, descriptor: SumcheckDescriptor) -> bool {
        &&& self.evaluation_point@.len() == descriptor.num_rounds
        &&& self.round_polynomials@.len() == (descriptor.round_degree + 1) * descriptor.num_rounds
    }

    /// The proof that the backend wrote for `descriptor`.
    pub fn from_backend(
        descriptor: &SumcheckDescriptor,
        evaluation_point: Vec<T>,
        round_polynomials: Vec<T>,
    ) -> (proof: Self)
        requires
            evaluation_point@.len() == descriptor.num_rounds,
            round_polynomials@.len() == (descriptor.round_degree + 1) * descriptor.num_rounds,
        ensures
            proof.evaluation_point@ == evaluation_point@,
            proof.round_polynomials@ == round_polynomials@,
            proof.fits(*descriptor),
    {
        SumcheckProof { evaluation_point, round_polynomials }
    }
}

/// Asks `transcript` for the challenge of one round.
pub fn round_challenge<T, Transcript: SumcheckTranscript<T>>(
    transcript: &mut Transcript,
    polynomial: &[T],
) -> T {
    transcript.round_challenge(polynomial)
}

} // verus!
