//! The curves the backend knows, and the base field each short Weierstrass
//! curve brings with it.

use crate::compute::field::{
    bls12_381_fq_inverse, bls12_381_fq_modulus, bls12_381_fq_modulus_limbs, bls12_381_fq_mul,
    bn254_fq_inverse, bn254_fq_modulus, bn254_fq_modulus_limbs, bn254_fq_mul,
    lemma_limbs_determined, lemma_zero_limbs, limbs_less, limbs_value,
};
use vstd::prelude::*;

verus! {

/// The identifier of the Ristretto group over Curve25519.
pub const CURVE_RISTRETTO255: u32 = 0;

/// The identifier of the group G1 of BLS12-381.
pub const CURVE_BLS_381: u32 = 1;

/// The identifier of the group G1 of BN254.
pub const CURVE_BN_254: u32 = 2;

/// The identifier of Grumpkin.
pub const CURVE_GRUMPKIN: u32 = 3;

/// A type of curve elements that the backend knows by an identifier.
pub trait CurveId {
    /// The identifier of the curve.
    spec fn spec_curve_id() -> u32;

    /// The identifier of the curve.
    fn curve_id() -> (id: u32)
        ensures
            id == Self::spec_curve_id(),
    ;
}

/// A point of the Ristretto group, which the library only passes on.
#[verifier::external_type_specification]
#[verifier::external_body]
pub struct ExRistrettoPoint(curve25519_dalek::ristretto::RistrettoPoint);

impl CurveId for curve25519_dalek::ristretto::RistrettoPoint {
    open spec fn spec_curve_id() -> u32 {
        CURVE_RISTRETTO255
    }

    fn curve_id() -> (id: u32) {
        CURVE_RISTRETTO255
    }
}

/// A short Weierstrass curve that the backend knows: its identifier, and the
/// arithmetic of its base field.
pub trait SwCurveConfig: Sized {
    /// An element of the base field, as its limbs.
    type BaseField: Copy + core::fmt::Debug + PartialEq + Eq;

    /// The identifier of the curve.
    spec fn spec_curve_id() -> u32;

    /// The order of the base field.
    spec fn modulus() -> nat;

    /// The number that a field element stands for; it is below the order of
    /// the field where the element is canonical.
    spec fn field_value(x: Self::BaseField) -> nat;

    /// The base field has more than one element.
    proof fn lemma_modulus()
        ensures
            Self::modulus() > 1,
    ;

    /// Field elements that stand for the same number are the same.
    proof fn lemma_value_determines(a: Self::BaseField, b: Self::BaseField)
        requires
            Self::field_value(a) == Self::field_value(b),
        ensures
            a == b,
    ;

    /// The identifier of the curve.
    fn curve_id() -> (id: u32)
        ensures
            id == Self::spec_curve_id(),
    ;

    /// The zero of the base field.
    fn zero() -> (r: Self::BaseField)
        ensures
            Self::field_value(r) == 0,
    ;

    /// The one of the base field.
    fn one() -> (r: Self::BaseField)
        ensures
            Self::field_value(r) == 1,
    ;

    /// Whether `x` is the zero of the base field.
    fn is_zero(x: &Self::BaseField) -> (b: bool)
        ensures
            b == (Self::field_value(*x) == 0),
    ;

    /// Whether `x` is canonical: whether it stands for a number below the
    /// order of the field.
    fn is_canonical(x: &Self::BaseField) -> (b: bool)
        ensures
            b == (Self::field_value(*x) < Self::modulus()),
    ;

    /// The product of `a` and `b` in the base field.
    fn mul(a: &Self::BaseField, b: &Self::BaseField) -> (r: Self::BaseField)
        requires
            Self::field_value(*a) < Self::modulus(),
            Self::field_value(*b) < Self::modulus(),
        ensures
            Self::field_value(r) == (Self::field_value(*a) * Self::field_value(*b))
                % Self::modulus(),
    ;

    /// The inverse of `a` in the base field, if `a` is not zero.
    fn inverse(a: &Self::BaseField) -> (r: Option<Self::BaseField>)
        requires
            Self::field_value(*a) < Self::modulus(),
        ensures
            r.is_some() == (Self::field_value(*a) != 0),
            r matches Some(i) ==> Self::field_value(i) < Self::modulus() && (Self::field_value(i)
                * Self::field_value(*a)) % Self::modulus() == 1,
    ;
}

/// The group G1 of BN254.
#[derive(Clone, Copy, Debug, PartialEq, Eq, Structural)]
pub struct Bn254G1;

/// The group G1 of BLS12-381.
#[derive(Clone, Copy, Debug, PartialEq, Eq, Structural)]
pub struct Bls12381G1;

impl SwCurveConfig for Bn254G1 {
    type BaseField = [u64; 4];

    open spec fn spec_curve_id() -> u32 {
        CURVE_BN_254
    }

    open spec fn modulus() -> nat {
        bn254_fq_modulus()
    }

    open spec fn field_value(x: [u64; 4]) -> nat {
        limbs_value(x@)
    }

    proof fn lemma_modulus() {
    }

    proof fn lemma_value_determines(a: [u64; 4], b: [u64; 4]) {
        lemma_limbs_determined(a@, b@);
        assert(a@ =~= b@);
        vstd::array::axiom_array_ext_equal(a, b);
    }

    fn curve_id() -> (id: u32) {
        CURVE_BN_254
    }

    fn zero() -> (r: [u64; 4]) {
        let r = [0u64, 0, 0, 0];
        proof {
            lemma_zero_limbs(r@);
        }
        r
    }

    fn one() -> (r: [u64; 4]) {
        let r = [1u64, 0, 0, 0];
        proof {
            lemma_zero_limbs(r@.drop_first());
        }
        r
    }

    fn is_zero(x: &[u64; 4]) -> (b: bool) {
        proof {
            lemma_zero_limbs(x@);
        }
        x[0] == 0 && x[1] == 0 && x[2] == 0 && x[3] == 0
    }

    fn is_canonical(x: &[u64; 4]) -> (b: bool) {
        limbs_less(x, &bn254_fq_modulus_limbs())
    }

    fn mul(a: &[u64; 4], b: &[u64; 4]) -> (r: [u64; 4]) {
        bn254_fq_mul(a, b)
    }

    fn inverse(a: &[u64; 4]) -> (r: Option<[u64; 4]>) {
        bn254_fq_inverse(a)
    }
}

impl SwCurveConfig for Bls12381G1 {
    type BaseField = [u64; 6];

    open spec fn spec_curve_id() -> u32 {
        CURVE_BLS_381
    }

    open spec fn modulus() -> nat {
        bls12_381_fq_modulus()
    }

    open spec fn field_value(x: [u64; 6]) -> nat {
        limbs_value(x@)
    }

    proof fn lemma_modulus() {
    }

    proof fn lemma_value_determines(a: [u64; 6], b: [u64; 6]) {
        lemma_limbs_determined(a@, b@);
        assert(a@ =~= b@);
        vstd::array::axiom_array_ext_equal(a, b);
    }

    fn curve_id() -> (id: u32) {
        CURVE_BLS_381
    }

    fn zero() -> (r: [u64; 6]) {
        let r = [0u64, 0, 0, 0, 0, 0];
        proof {
            lemma_zero_limbs(r@);
        }
        r
    }

    fn one() -> (r: [u64; 6]) {
        let r = [1u64, 0, 0, 0, 0, 0];
        proof {
            lemma_zero_limbs(r@.drop_first());
        }
        r
    }

    fn is_zero(x: &[u64; 6]) -> (b: bool) {
        proof {
            lemma_zero_limbs(x@);
        }
        x[0] == 0 && x[1] == 0 && x[2] == 0 && x[3] == 0 && x[4] == 0 && x[5] == 0
    }

    fn is_canonical(x: &[u64; 6]) -> (b: bool) {
        limbs_less(x, &bls12_381_fq_modulus_limbs())
    }

    fn mul(a: &[u64; 6], b: &[u64; 6]) -> (r: [u64; 6]) {
        bls12_381_fq_mul(a, b)
    }

    fn inverse(a: &[u64; 6]) -> (r: Option<[u64; 6]>) {
        bls12_381_fq_inverse(a)
    }
}

} // verus!
