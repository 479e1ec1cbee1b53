//! Conversion of BN254 points between the two forms they come in: affine
//! with a flag for the identity, and affine or Jacobian without one.

use crate::compute::curve::{Bn254G1, SwCurveConfig};
use crate::compute::element_p2::Affine;
use crate::compute::field::{bn254_fq_modulus, limbs_value};
use ark_ec::CurveGroup;
use ark_ff::{BigInt, PrimeField};
use vstd::prelude::*;

verus! {

/// A point of the group G1 of BN254 in affine form, with a flag for the
/// identity.
pub type Bn254G1Affine = Affine<Bn254G1>;

/// A point of the group G1 of BN254 in affine form without a flag: the
/// identity is the pair of coordinates `(0, 0)`, which is on no curve.
#[derive(Clone, Copy, Debug, PartialEq, Eq)]
pub struct Halo2Bn256G1Affine {
    pub x: [u64; 4],
    pub y: [u64; 4],
}

/// A point of the group G1 of BN254 in Jacobian form: `(x, y, z)` stands for
/// the affine point `(x / z^2, y / z^3)`, or for the identity if `z == 0`.
#[derive(Clone, Copy, Debug, PartialEq, Eq)]
pub struct Halo2Bn256G1Projective {
    pub x: [u64; 4],
    pub y: [u64; 4],
    pub z: [u64; 4],
}

impl Halo2Bn256G1Affine {
    /// The point is the identity: both of its coordinates are zero.
    pub open spec fn is_identity(&self) -> bool {
        limbs_value(self.x@) == 0 && limbs_value(self.y@) == 0
    }
}

impl Halo2Bn256G1Projective {
    /// The coordinates are canonical field elements.
    pub open spec fn wf(&self) -> bool {
        &&& limbs_value(self.x@) < bn254_fq_modulus()
        &&& limbs_value(self.y@) < bn254_fq_modulus()
        &&& limbs_value(self.z@) < bn254_fq_modulus()
    }

    /// The affine point `pt` is the one that the Jacobian point stands for.
    pub open spec fn normalizes_to(&self, pt: Bn254G1Affine) -> bool {
        let p = bn254_fq_modulus();
        let z = limbs_value(self.z@);
        if z == 0 {
            &&& pt.infinity
            &&& limbs_value(pt.x@) == 0
            &&& limbs_value(pt.y@) == 0
        } else {
            &&& !pt.infinity
            &&& limbs_value(pt.x@) < p
            &&& limbs_value(pt.y@) < p
            &&& (limbs_value(pt.x@) * (z * z)) % p == limbs_value(self.x@)
            &&& (limbs_value(pt.y@) * (z * z * z)) % p == limbs_value(self.y@)
        }
    }

    /// The Jacobian point is the affine point `pt` with the divisor one, or
    /// zero for the identity.
    pub open spec fn is_from(&self, pt: Bn254G1Affine) -> bool {
        &&& self.x == pt.x
        &&& self.y == pt.y
        &&& limbs_value(self.z@) == if pt.infinity {
            0nat
        } else {
            1nat
        }
    }

    /// Whether the coordinates are canonical field elements.
    pub fn is_valid(&self) -> (b: bool)
        ensures
            b == self.wf(),
    {
        Bn254G1::is_canonical(&self.x) && Bn254G1::is_canonical(&self.y) && Bn254G1::is_canonical(
            &self.z,
        )
    }
}

/// Normalizes a Jacobian point with `CurveGroup::into_affine` of
/// `ark_bn254::G1Projective`: the identity where `z` is zero, and else the
/// point `(x / z^2, y / z^3)`, its coordinates canonical.
#[verifier::external_body]
fn bn254_g1_into_affine(point: &Halo2Bn256G1Projective) -> (pt: Bn254G1Affine)
    requires
        point.wf(),
    ensures
        point.normalizes_to(pt),
{
    let x = ark_bn254::Fq::from_bigint(BigInt::new(point.x)).unwrap();
    let y = ark_bn254::Fq::from_bigint(BigInt::new(point.y)).unwrap();
    let z = ark_bn254::Fq::from_bigint(BigInt::new(point.z)).unwrap();
    let affine = ark_bn254::G1Projective { x, y, z }.into_affine();
    Affine { x: affine.x.into_bigint().0, y: affine.y.into_bigint().0, infinity: affine.infinity }
}

/// Converts an affine point without a flag to one with a flag: the
/// coordinates are kept, and the identity is told by its coordinates.
pub fn convert_to_ark_bn254_g1_affine(point: &Halo2Bn256G1Affine) -> (pt: Bn254G1Affine)
    ensures
        pt.x == point.x,
        pt.y == point.y,
        pt.infinity == point.is_identity(),
{
    let infinity = Bn254G1::is_zero(&point.x) && Bn254G1::is_zero(&point.y);
    Affine { x: point.x, y: point.y, infinity }
}

/// Converts an affine point with a flag to one without: the identity becomes
/// `(0, 0)`, any other point keeps its coordinates.
pub fn convert_to_halo2_bn256_g1_affine(point: &Bn254G1Affine) -> (pt: Halo2Bn256G1Affine)
    ensures
        point.infinity ==> pt.is_identity(),
        !point.infinity ==> pt.x == point.x && pt.y == point.y,
{
    if point.infinity {
        return Halo2Bn256G1Affine { x: Bn254G1::zero(), y: Bn254G1::zero() };
    }
    Halo2Bn256G1Affine { x: point.x, y: point.y }
}

/// Converts a slice of affine generators without flags to a vector of affine
/// points with flags, one for one.
pub fn convert_bn254_g1_affine_generators_from_halo2_to_ark(
    generators: &[Halo2Bn256G1Affine],
) -> (points: Vec<Bn254G1Affine>)
    ensures
        points@.len() == generators@.len(),
        forall|i: int|
            0 <= i < generators@.len() ==> {
                &&& (#[trigger] points@[i]).x == generators@[i].x
                &&& points@[i].y == generators@[i].y
                &&& points@[i].infinity == generators@[i].is_identity()
            },
{
    let mut points: Vec<Bn254G1Affine> = Vec::with_capacity(generators.len());
    let mut i: usize = 0;
    while i < generators.len()
        invariant
            i <= generators@.len(),
            points@.len() == i,
            forall|j: int|
                0 <= j < i ==> {
                    &&& (#[trigger] points@[j]).x == generators@[j].x
                    &&& points@[j].y == generators@[j].y
                    &&& points@[j].infinity == generators@[j].is_identity()
                },
        decreases generators@.len() - i,
    {
        points.push(convert_to_ark_bn254_g1_affine(&generators[i]));
        i += 1;
    }
    points
}

/// Converts a slice of Jacobian points to a vector of the affine points they
/// stand for, one for one.
pub fn convert_commitments_from_halo2_to_arkworks(commitments: &[Halo2Bn256G1Projective]) -> (points:
    Vec<Bn254G1Affine>)
    requires
        forall|i: int| 0 <= i < commitments@.len() ==> (#[trigger] commitments@[i]).wf(),
    ensures
        points@.len() == commitments@.len(),
        forall|i: int|
            0 <= i < commitments@.len() ==> commitments@[i].normalizes_to(#[trigger] points@[i]),
{
    let mut points: Vec<Bn254G1Affine> = Vec::with_capacity(commitments.len());
    let mut i: usize = 0;
    while i < commitments.len()
        invariant
            i <= commitments@.len(),
            points@.len() == i,
            forall|j: int| 0 <= j < commitments@.len() ==> (#[trigger] commitments@[j]).wf(),
            forall|j: int| 0 <= j < i ==> commitments@[j].normalizes_to(#[trigger] points@[j]),
        decreases commitments@.len() - i,
    {
        points.push(bn254_g1_into_affine(&commitments[i]));
        i += 1;
    }
    points
}

/// Writes over the first Jacobian points of `commitments` the affine points
/// of `ark_commitments`, one for one, as far as both reach: each with its
/// coordinates and the divisor one, the identity with the divisor zero.
pub fn convert_commitments_from_ark_to_halo2(
    commitments: &mut Vec<Halo2Bn256G1Projective>,
    ark_commitments: &[Bn254G1Affine],
)
    ensures
        final(commitments)@.len() == old(commitments)@.len(),
        forall|i: int|
            0 <= i < old(commitments)@.len() && i < ark_commitments@.len() ==> (
            #[trigger] final(commitments)@[i]).is_from(ark_commitments@[i]),
        forall|i: int|
            ark_commitments@.len() <= i < old(commitments)@.len() ==> final(commitments)@[i] == old(
                commitments,
            )@[i],
{
    let count = if commitments.len() < ark_commitments.len() {
        commitments.len()
    } else {
        ark_commitments.len()
    };
    let mut i: usize = 0;
    while i < count
        invariant
            i <= count,
            count <= ark_commitments@.len(),
            count <= commitments@.len(),
            commitments@.len() == old(commitments)@.len(),
            forall|j: int| 0 <= j < i ==> (#[trigger] commitments@[j]).is_from(ark_commitments@[j]),
            forall|j: int| i <= j < commitments@.len() ==> commitments@[j] == old(commitments)@[j],
        decreases count - i,
    {
        let point = &ark_commitments[i];
        let z = if point.infinity {
            Bn254G1::zero()
        } else {
            Bn254G1::one()
        };
        commitments[i] = Halo2Bn256G1Projective { x: point.x, y: point.y, z };
        i += 1;
    }
}

} // verus!
