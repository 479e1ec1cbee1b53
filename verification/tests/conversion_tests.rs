use ark_bn254::{Fq as Bn254Fq, G1Affine as ArkG1Affine, G1Projective as ArkG1Projective};
use ark_ec::{AffineRepr, CurveGroup, PrimeGroup};
use ark_ff::PrimeField;
use blitzar::compute::conversion::{
    convert_bn254_g1_affine_generators_from_halo2_to_ark, convert_commitments_from_ark_to_halo2,
    convert_commitments_from_halo2_to_arkworks, convert_to_ark_bn254_g1_affine,
    convert_to_halo2_bn256_g1_affine, Bn254G1Affine, Halo2Bn256G1Affine, Halo2Bn256G1Projective,
};
use blitzar::compute::element_p2::Affine;
use halo2curves::bn256::{Fq as Halo2Fq, G1Affine as Halo2G1Affine, G1 as Halo2G1};
use halo2curves::group::cofactor::CofactorCurveAffine;
use halo2curves::group::Group;

// The order of the base field, least significant limb first.
const MODULUS: [u64; 4] = [
    4332616871279656263,
    10917124144477883021,
    13281191951274694749,
    3486998266802970665,
];

fn halo2_limbs(x: &Halo2Fq) -> [u64; 4] {
    let bytes = x.to_bytes();
    let mut limbs = [0u64; 4];
    for i in 0..4 {
        let mut limb = [0u8; 8];
        limb.copy_from_slice(&bytes[8 * i..8 * i + 8]);
        limbs[i] = u64::from_le_bytes(limb);
    }
    limbs
}

fn halo2_affine(pt: &Halo2G1Affine) -> Halo2Bn256G1Affine {
    Halo2Bn256G1Affine { x: halo2_limbs(&pt.x), y: halo2_limbs(&pt.y) }
}

fn halo2_projective(pt: &Halo2G1) -> Halo2Bn256G1Projective {
    Halo2Bn256G1Projective { x: halo2_limbs(&pt.x), y: halo2_limbs(&pt.y), z: halo2_limbs(&pt.z) }
}

fn ark_affine(pt: &ArkG1Affine) -> Bn254G1Affine {
    Affine { x: pt.x.into_bigint().0, y: pt.y.into_bigint().0, infinity: pt.infinity }
}

fn halo2_points() -> [Halo2G1Affine; 6] {
    [
        Halo2G1Affine::default(),
        Halo2G1Affine::generator(),
        Halo2G1Affine::identity(),
        Halo2G1Affine {
            x: Halo2Fq::from_raw(MODULUS).sub(&Halo2Fq::one()),
            y: Halo2Fq::from_raw(MODULUS).sub(&Halo2Fq::one()),
        },
        Halo2G1Affine { x: Halo2Fq::from_raw(MODULUS), y: Halo2Fq::from_raw(MODULUS) },
        Halo2G1Affine {
            x: Halo2Fq::from_raw(MODULUS).add(&Halo2Fq::one()),
            y: Halo2Fq::from_raw(MODULUS).add(&Halo2Fq::one()),
        },
    ]
}

fn ark_points() -> [ArkG1Affine; 6] {
    [
        ArkG1Affine::default(),
        ArkG1Affine::generator(),
        ArkG1Affine::identity(),
        ArkG1Affine { x: Bn254Fq::from(-1), y: Bn254Fq::from(-1), infinity: false },
        ArkG1Affine { x: Bn254Fq::from(0), y: Bn254Fq::from(0), infinity: true },
        ArkG1Affine { x: Bn254Fq::from(1), y: Bn254Fq::from(1), infinity: false },
    ]
}

#[test]
fn test_convert_points_from_halo2_bn256_g1_affine_to_ark_bn254_g1_affine() {
    let halo2_affine_points = halo2_points();
    let expected = ark_points();

    for (halo2, ark) in halo2_affine_points.iter().zip(expected.iter()) {
        let converted = convert_to_ark_bn254_g1_affine(&halo2_affine(halo2));
        assert_eq!(converted, ark_affine(ark));
    }
}

#[test]
fn test_convert_ark_bn254_g1_affine_to_halo2_bn256_g1_affine() {
    let ark_affine_points = ark_points();
    let expected = halo2_points();

    for (ark, halo2) in ark_affine_points.iter().zip(expected.iter()) {
        let converted = convert_to_halo2_bn256_g1_affine(&ark_affine(ark));
        assert_eq!(converted, halo2_affine(halo2));
    }
}

#[test]
fn test_convert_bn254_g1_affine_generators_from_halo2_to_ark() {
    let halo2_affine_points: Vec<Halo2Bn256G1Affine> =
        halo2_points().iter().map(halo2_affine).collect();

    let halo2_to_ark = convert_bn254_g1_affine_generators_from_halo2_to_ark(&halo2_affine_points);

    let expected: Vec<Bn254G1Affine> = ark_points().iter().map(ark_affine).collect();
    assert_eq!(halo2_to_ark, expected);
}

#[test]
fn test_convert_commitments_from_halo2_to_arkworks() {
    let halo2 = [halo2_projective(&Halo2G1::default()); 1];
    let halo2_to_ark = convert_commitments_from_halo2_to_arkworks(&halo2);
    assert_eq!(
        halo2_to_ark[0],
        ark_affine(&ArkG1Projective::default().into_affine()),
        "Default projective points should be equal"
    );

    let halo2 = [halo2_projective(&Halo2G1::generator()); 1];
    let halo2_to_ark = convert_commitments_from_halo2_to_arkworks(&halo2);
    assert_eq!(
        halo2_to_ark[0],
        ark_affine(&ArkG1Projective::generator().into_affine()),
        "Generator projective points should be equal"
    );

    let halo2 = [halo2_projective(&Halo2G1::identity()); 1];
    let halo2_to_ark = convert_commitments_from_halo2_to_arkworks(&halo2);
    let ark_identity_projective: ArkG1Projective = ArkG1Affine::identity().into();
    assert_eq!(
        halo2_to_ark[0],
        ark_affine(&ark_identity_projective.into_affine()),
        "Identity projective points should be equal"
    );

    let halo2 = [
        halo2_projective(&Halo2G1::default()),
        halo2_projective(&Halo2G1::generator()),
        halo2_projective(&Halo2G1::identity()),
    ];
    let halo2_to_ark = convert_commitments_from_halo2_to_arkworks(&halo2);
    assert_eq!(
        halo2_to_ark,
        [
            ark_affine(&ArkG1Projective::default().into_affine()),
            ark_affine(&ArkG1Projective::generator().into_affine()),
            ark_affine(&ark_identity_projective.into_affine()),
        ],
        "Projective points should be equal"
    );
}

#[test]
fn a_jacobian_point_is_normalized_by_the_square_and_the_cube_of_its_divisor() {
    // twice the generator has a divisor other than one
    let doubled = ArkG1Projective::generator() + ArkG1Projective::generator();
    let jacobian = Halo2Bn256G1Projective {
        x: doubled.x.into_bigint().0,
        y: doubled.y.into_bigint().0,
        z: doubled.z.into_bigint().0,
    };
    assert!(jacobian.is_valid());
    assert_ne!(jacobian.z, [1, 0, 0, 0]);
    let converted = convert_commitments_from_halo2_to_arkworks(&[jacobian]);
    assert_eq!(converted[0], ark_affine(&doubled.into_affine()));
    assert_ne!(converted[0].x, jacobian.x);

    // (x, y, z) = (4, 8, 2) stands for (4 / 4, 8 / 8) = (1, 1)
    let jacobian =
        Halo2Bn256G1Projective { x: [4, 0, 0, 0], y: [8, 0, 0, 0], z: [2, 0, 0, 0] };
    let converted = convert_commitments_from_halo2_to_arkworks(&[jacobian]);
    assert_eq!(converted[0], Affine { x: [1, 0, 0, 0], y: [1, 0, 0, 0], infinity: false });
}

#[test]
fn test_convert_commitments_from_ark_to_halo2() {
    let mut ark_to_halo2 = vec![halo2_projective(&Halo2G1::default()); 3];

    // the identity comes out with the coordinates of the affine identity
    let identity = Halo2Bn256G1Projective { x: [0; 4], y: [0; 4], z: [0; 4] };
    let generator = halo2_projective(&Halo2G1::generator());

    let ark_default = [ark_affine(&ArkG1Affine::default()); 1];
    convert_commitments_from_ark_to_halo2(&mut ark_to_halo2, &ark_default);
    assert_eq!(
        ark_to_halo2[0], identity,
        "Default affine to projective point should be equal"
    );

    let ark_generator = [ark_affine(&ArkG1Affine::generator()); 1];
    convert_commitments_from_ark_to_halo2(&mut ark_to_halo2, &ark_generator);
    assert_eq!(
        ark_to_halo2[0], generator,
        "Generator affine to projective point should be equal"
    );

    let ark_identity = [ark_affine(&ArkG1Affine::identity()); 1];
    convert_commitments_from_ark_to_halo2(&mut ark_to_halo2, &ark_identity);
    assert_eq!(
        ark_to_halo2[0], identity,
        "Identity affine to projective point should be equal"
    );

    let ark_points = [
        ark_affine(&ArkG1Affine::default()),
        ark_affine(&ArkG1Affine::generator()),
        ark_affine(&ArkG1Affine::identity()),
    ];
    convert_commitments_from_ark_to_halo2(&mut ark_to_halo2, &ark_points);
    assert_eq!(
        ark_to_halo2,
        [identity, generator, identity],
        "Affine to projective points should be equal"
    );
}

#[test]
fn the_shorter_of_the_two_slices_bounds_the_conversion() {
    let untouched = Halo2Bn256G1Projective { x: [9, 9, 9, 9], y: [8, 8, 8, 8], z: [7, 7, 7, 7] };
    let mut commitments = vec![untouched; 3];
    let generator = ark_affine(&ArkG1Affine::generator());
    convert_commitments_from_ark_to_halo2(&mut commitments, &[generator]);
    assert_eq!(commitments[0], halo2_projective(&Halo2G1::generator()));
    assert_eq!(commitments[1], untouched);
    assert_eq!(commitments[2], untouched);

    let mut commitments = vec![untouched; 1];
    convert_commitments_from_ark_to_halo2(&mut commitments, &[generator, generator]);
    assert_eq!(commitments.len(), 1);
    assert_eq!(commitments[0], halo2_projective(&Halo2G1::generator()));
}
