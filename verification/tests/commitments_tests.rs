use blitzar::compute::commitments::{
    all_decompress, compute_commitments_request, compute_commitments_with_generators_request,
    generators_suffice, try_update_curve25519_commitments, update_curve25519_commitments,
    Generators,
};
use blitzar::sequence::Sequence;
use curve25519_dalek::constants::RISTRETTO_BASEPOINT_POINT;
use curve25519_dalek::ristretto::CompressedRistretto;
use curve25519_dalek::scalar::Scalar;

fn point(k: u64) -> [u8; 32] {
    (Scalar::from(k) * RISTRETTO_BASEPOINT_POINT).compress().to_bytes()
}

#[test]
fn updating_the_identity_commitment_gives_the_partial_commitment() {
    let mut commitments = vec![CompressedRistretto::default().to_bytes(); 2];
    let partial = [point(5000), point(1500)];
    update_curve25519_commitments(&mut commitments, &partial);
    assert_eq!(commitments, partial);
    assert_ne!(commitments[0], [0u8; 32]);
}

#[test]
fn updating_adds_the_partial_commitment_as_a_group_element() {
    let mut commitments = vec![point(2000), point(7500), point(1)];
    let partial = [point(5000), point(0), point(400000)];
    update_curve25519_commitments(&mut commitments, &partial);
    assert_eq!(commitments, vec![point(7000), point(7500), point(400001)]);
}

#[test]
fn updating_in_two_steps_is_updating_with_the_sum() {
    let mut stepwise = vec![point(3), point(11)];
    update_curve25519_commitments(&mut stepwise, &[point(52), point(1)]);
    update_curve25519_commitments(&mut stepwise, &[point(130816), point(2)]);
    let mut at_once = vec![point(3), point(11)];
    update_curve25519_commitments(&mut at_once, &[point(52 + 130816), point(3)]);
    assert_eq!(stepwise, at_once);
}

#[test]
fn a_commitment_added_to_itself_52_times_is_the_commitment_to_52_times_the_data() {
    let mut commitments = vec![CompressedRistretto::default().to_bytes()];
    for _ in 0..52 {
        update_curve25519_commitments(&mut commitments, &[point(2000)]);
    }
    assert_eq!(commitments[0], point(52 * 2000));
}

#[test]
fn an_update_with_points_that_do_not_decompress_changes_nothing() {
    let bad = [0xffu8; 32];
    assert!(CompressedRistretto(bad).decompress().is_none());

    let before = vec![point(1), point(2)];
    let mut commitments = before.clone();
    assert!(!try_update_curve25519_commitments(&mut commitments, &[point(3), bad]));
    assert_eq!(commitments, before);

    let mut commitments = vec![point(1), bad];
    assert!(!try_update_curve25519_commitments(&mut commitments, &[point(3), point(4)]));
    assert_eq!(commitments, vec![point(1), bad]);

    let mut commitments = before.clone();
    assert!(!try_update_curve25519_commitments(&mut commitments, &[point(3)]));
    assert_eq!(commitments, before);

    let mut commitments = before.clone();
    assert!(try_update_curve25519_commitments(&mut commitments, &[point(3), point(4)]));
    assert_eq!(commitments, vec![point(4), point(6)]);
}

#[test]
fn all_decompress_finds_the_point_that_does_not() {
    assert!(all_decompress(&[]));
    assert!(all_decompress(&[point(1), [0u8; 32], point(77)]));
    assert!(!all_decompress(&[point(1), [0xffu8; 32], point(77)]));
    assert!(!all_decompress(&[[1u8; 32]]));
}

#[test]
fn generators_suffice_when_no_column_is_longer_than_the_generators() {
    let a = [2000u16, 7500, 5000, 1500];
    let b = [5000u32, 0, 400000, 10, 0, 0];
    let table = [Sequence::from(&a[..]), Sequence::from(&b[..])];
    assert!(generators_suffice(&table, 6));
    assert!(generators_suffice(&table, 10));
    assert!(!generators_suffice(&table, 5));
    assert!(!generators_suffice(&table, 0));
    let none: [Sequence; 0] = [];
    assert!(generators_suffice(&none, 0));
}

#[test]
fn a_request_describes_every_column_in_one_call() {
    let a = [2000u16, 7500, 5000, 1500];
    let b = [5000u32, 0, 400000, 10, 0, 0];
    let c = [-128i8];
    let table = [Sequence::from(&a[..]), Sequence::from(&b[..]), Sequence::from(&c[..])];
    let request = compute_commitments_request(&table, 3, 121);
    assert_eq!(request.num_sequences, 3);
    assert_eq!(request.generators, Generators::Offset(121));
    assert_eq!(request.descriptors.len(), 3);
    assert_eq!(request.descriptors[0].element_nbytes, 2);
    assert_eq!(request.descriptors[0].n, 4);
    assert_eq!(request.descriptors[1].element_nbytes, 4);
    assert_eq!(request.descriptors[1].n, 6);
    assert_eq!(request.descriptors[2].element_nbytes, 1);
    assert_eq!(request.descriptors[2].n, 1);
    assert!(request.descriptors[2].is_signed);
    assert_eq!(request.descriptors[2].data, [0x80u8]);

    let request = compute_commitments_with_generators_request(&table, 3, 6);
    assert_eq!(request.num_sequences, 3);
    assert_eq!(request.generators, Generators::Supplied(6));
    assert_eq!(request.descriptors[1].data.len(), 24);
}

#[test]
fn minus_128_in_sixteen_bits_is_65408_and_its_double_is_130816() {
    let a: i8 = -128;
    let data_a: Vec<u16> = vec![a as u16];
    let data_c: Vec<u32> = vec![130816];
    let seq_a = Sequence::from(&data_a[..]);
    let seq_c = Sequence::from(&data_c[..]);
    assert_eq!(seq_a.data_slice(), 65408u16.to_le_bytes());
    assert_eq!(seq_c.data_slice(), (2 * 65408u32).to_le_bytes());
    let mut commitments = vec![point(65408)];
    update_curve25519_commitments(&mut commitments, &[point(65408)]);
    assert_eq!(commitments[0], point(130816));
}
