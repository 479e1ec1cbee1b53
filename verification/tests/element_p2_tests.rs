use ark_bls12_381::G1Affine;
use ark_ec::AffineRepr;
use ark_ff::{BigInt, Field, PrimeField};
use ark_std::UniformRand;
use blitzar::compute::curve::{Bls12381G1, Bn254G1, CurveId, SwCurveConfig};
use blitzar::compute::element_p2::{affine_to_elements, elements_to_affine, Affine, ElementP2};
use curve25519_dalek::ristretto::RistrettoPoint;

fn to_library(pt: &G1Affine) -> Affine<Bls12381G1> {
    Affine { x: pt.x.into_bigint().0, y: pt.y.into_bigint().0, infinity: pt.infinity }
}

fn from_library(pt: &Affine<Bls12381G1>) -> G1Affine {
    G1Affine {
        x: ark_bls12_381::Fq::from_bigint(BigInt::new(pt.x)).unwrap(),
        y: ark_bls12_381::Fq::from_bigint(BigInt::new(pt.y)).unwrap(),
        infinity: pt.infinity,
    }
}

#[test]
fn we_can_convert_between_different_point_representations() {
    // we handle zero
    let e1 = G1Affine::identity();
    let e2 = ElementP2::from_affine(&to_library(&e1));
    let e1p = from_library(&e2.to_affine());
    assert_eq!(e1, e1p);

    // we handle a random point
    let mut rng = ark_std::test_rng();
    let e1 = G1Affine::rand(&mut rng);
    let e2 = ElementP2::from_affine(&to_library(&e1));
    let e1p = from_library(&e2.to_affine());
    assert_eq!(e1, e1p);
}

#[test]
fn a_divisor_other_than_one_is_divided_out() {
    // (x, y, z) = (6, 10, 2) stands for the affine point (3, 5)
    let e: ElementP2<Bn254G1> =
        ElementP2 { x: [6, 0, 0, 0], y: [10, 0, 0, 0], z: [2, 0, 0, 0] };
    assert!(e.is_valid());
    let pt = e.to_affine();
    assert_eq!(pt, Affine { x: [3, 0, 0, 0], y: [5, 0, 0, 0], infinity: false });

    // the quotient is taken in the field: 1 / 2 is (p + 1) / 2
    let e: ElementP2<Bn254G1> =
        ElementP2 { x: [1, 0, 0, 0], y: [0, 0, 0, 0], z: [2, 0, 0, 0] };
    let pt = e.to_affine();
    let half = ark_bn254::Fq::from(2u64).inverse().unwrap().into_bigint().0;
    assert_eq!(pt.x, half);
    assert_eq!(pt.y, [0, 0, 0, 0]);
    assert!(!pt.infinity);
}

#[test]
fn a_zero_divisor_is_the_identity_whatever_the_coordinates() {
    let e: ElementP2<Bn254G1> =
        ElementP2 { x: [6, 0, 0, 0], y: [10, 0, 0, 0], z: [0, 0, 0, 0] };
    assert_eq!(e.to_affine(), Affine { x: [0; 4], y: [0; 4], infinity: true });
    let zero = ElementP2::<Bn254G1>::zero();
    assert_eq!(zero, ElementP2 { x: [0; 4], y: [0; 4], z: [0; 4] });
    assert_eq!(zero.to_affine(), Affine { x: [0; 4], y: [0; 4], infinity: true });
}

#[test]
fn the_projective_form_of_an_affine_point_has_the_divisor_one() {
    let pt: Affine<Bls12381G1> =
        Affine { x: [7, 1, 0, 0, 0, 0], y: [9, 0, 2, 0, 0, 0], infinity: false };
    let e = ElementP2::from_affine(&pt);
    assert_eq!(e.x, pt.x);
    assert_eq!(e.y, pt.y);
    assert_eq!(e.z, [1, 0, 0, 0, 0, 0]);
    let identity: Affine<Bls12381G1> = Affine { x: [0; 6], y: [0; 6], infinity: true };
    assert_eq!(ElementP2::from_affine(&identity).z, [0; 6]);
}

#[test]
fn elements_that_are_not_canonical_are_told() {
    let modulus = ark_bn254::Fq::MODULUS.0;
    let e: ElementP2<Bn254G1> = ElementP2 { x: modulus, y: [0; 4], z: [1, 0, 0, 0] };
    assert!(!e.is_valid());
    let mut below = modulus;
    below[0] -= 1;
    let e: ElementP2<Bn254G1> = ElementP2 { x: below, y: below, z: below };
    assert!(e.is_valid());
    assert!(Bn254G1::is_canonical(&below));
    assert!(!Bn254G1::is_canonical(&[u64::MAX; 4]));
    let modulus = ark_bls12_381::Fq::MODULUS.0;
    assert!(!Bls12381G1::is_canonical(&modulus));
    assert!(Bls12381G1::is_canonical(&[0; 6]));
}

#[test]
fn the_field_operations_are_those_of_the_curve() {
    let a = ark_bn254::Fq::from(123456789u64);
    let b = -ark_bn254::Fq::from(987654321u64);
    let product = Bn254G1::mul(&a.into_bigint().0, &b.into_bigint().0);
    assert_eq!(product, (a * b).into_bigint().0);
    assert_ne!(product, a.into_bigint().0);
    let inverse = Bn254G1::inverse(&b.into_bigint().0).unwrap();
    assert_eq!(inverse, b.inverse().unwrap().into_bigint().0);
    assert_eq!(Bn254G1::mul(&inverse, &b.into_bigint().0), [1, 0, 0, 0]);
    assert_eq!(Bn254G1::inverse(&[0; 4]), None);

    let a = ark_bls12_381::Fq::from(123456789u64);
    let b = -ark_bls12_381::Fq::from(987654321u64);
    let product = Bls12381G1::mul(&a.into_bigint().0, &b.into_bigint().0);
    assert_eq!(product, (a * b).into_bigint().0);
    assert_ne!(product, a.into_bigint().0);
    let inverse = Bls12381G1::inverse(&b.into_bigint().0).unwrap();
    assert_eq!(Bls12381G1::mul(&inverse, &b.into_bigint().0), [1, 0, 0, 0, 0, 0]);
    assert_eq!(Bls12381G1::inverse(&[0; 6]), None);

    assert_eq!(Bn254G1::zero(), [0; 4]);
    assert_eq!(Bn254G1::one(), [1, 0, 0, 0]);
    assert!(Bn254G1::is_zero(&[0; 4]));
    assert!(!Bn254G1::is_zero(&[0, 0, 0, 1]));
    assert!(!Bls12381G1::is_zero(&[0, 0, 0, 0, 0, 1]));
}

#[test]
fn the_curves_have_their_identifiers() {
    assert_eq!(<Bls12381G1 as SwCurveConfig>::curve_id(), 1);
    assert_eq!(<Bn254G1 as SwCurveConfig>::curve_id(), 2);
    assert_eq!(<ElementP2<Bls12381G1> as CurveId>::curve_id(), 1);
    assert_eq!(<ElementP2<Bn254G1> as CurveId>::curve_id(), 2);
    assert_eq!(<RistrettoPoint as CurveId>::curve_id(), 0);
}

#[test]
fn whole_slices_convert_one_for_one() {
    let mut rng = ark_std::test_rng();
    let points: Vec<G1Affine> =
        vec![G1Affine::rand(&mut rng), G1Affine::identity(), G1Affine::rand(&mut rng)];
    let library: Vec<Affine<Bls12381G1>> = points.iter().map(to_library).collect();
    let elements = affine_to_elements(&library);
    assert_eq!(elements.len(), 3);
    let back = elements_to_affine(&elements);
    assert_eq!(back, library);
    let back: Vec<G1Affine> = back.iter().map(from_library).collect();
    assert_eq!(back, points);
}
