//! Addition of compressed Ristretto points.

use curve25519_dalek::ristretto::CompressedRistretto;
use vstd::prelude::*;

verus! {

/// Whether `bytes` is the canonical encoding of a Ristretto point: whether
/// `CompressedRistretto::decompress` accepts it.
pub uninterp spec fn is_ristretto(bytes: Seq<u8>) -> bool;

/// The canonical encoding of the sum of the points that `a` and `b` encode.
pub uninterp spec fn ristretto_sum(a: Seq<u8>, b: Seq<u8>) -> Seq<u8>;

/// Whether `bytes` decompress to a point, through
/// `CompressedRistretto::decompress`.
#[verifier::external_body]
pub(crate) fn decompresses(bytes: &[u8; 32]) -> (valid: bool)
    ensures
        valid == is_ristretto(bytes@),
{
    CompressedRistretto(*bytes).decompress().is_some()
}

/// Decompresses `a` and `b` with `CompressedRistretto::decompress`, adds the
/// two points with `+`, and compresses the sum with
/// `RistrettoPoint::compress`. There is a sum exactly where both decompress.
#[verifier::external_body]
pub(crate) fn add_compressed(a: &[u8; 32], b: &[u8; 32]) -> (sum: Option<[u8; 32]>)
    ensures
        sum.is_some() == (is_ristretto(a@) && is_ristretto(b@)),
        sum matches Some(s) ==> s@ == ristretto_sum(a@, b@),
{
    let p = CompressedRistretto(*a).decompress()?;
    let q = CompressedRistretto(*b).decompress()?;
    Some((p + q).compress().to_bytes())
}

} // verus!
