use blitzar::compute::fixed_msm::{
    count_scalars_per_output, dense_scalars_fit, packed_scalars_fit, vlen_tables_fit, MsmHandle,
};

#[test]
fn we_can_count_the_number_of_scalars_per_output() {
    let output_bit_table = [1];
    let n = count_scalars_per_output(1, &output_bit_table);
    assert_eq!(n, 1);

    let output_bit_table = [14, 2];
    let n = count_scalars_per_output(10, &output_bit_table);
    assert_eq!(n, 5);

    // we handle cases that overflow
    let output_bit_table = [u32::MAX, 1];
    let n = count_scalars_per_output((u32::MAX as usize) + 1, &output_bit_table);
    assert_eq!(n, 8);
}

#[test]
fn a_packed_row_is_padded_to_a_whole_byte() {
    assert_eq!(count_scalars_per_output(6, &[1, 1, 1]), 6);
    assert_eq!(count_scalars_per_output(6, &[8]), 6);
    assert_eq!(count_scalars_per_output(6, &[8, 1]), 3);
    assert_eq!(count_scalars_per_output(6, &[7, 9, 1]), 2);
    assert_eq!(count_scalars_per_output(0, &[3]), 0);
}

#[test]
fn packed_scalars_fit_only_in_whole_rows() {
    assert!(packed_scalars_fit(10, &[14, 2]));
    assert!(!packed_scalars_fit(11, &[14, 2]));
    assert!(!packed_scalars_fit(10, &[]));
    assert!(!packed_scalars_fit(10, &[0, 0]));
    assert!(packed_scalars_fit(0, &[1]));
    assert!(packed_scalars_fit((u32::MAX as usize) + 1, &[u32::MAX, 1]));
    assert!(packed_scalars_fit(u32::MAX as usize, &[8]));
    assert!(!packed_scalars_fit((u32::MAX as usize) + 1, &[8]));
}

#[test]
fn dense_scalars_fit_only_in_whole_rows() {
    assert!(dense_scalars_fit(2, 1, 1));
    assert!(dense_scalars_fit(64, 2, 32));
    assert!(dense_scalars_fit(0, 2, 32));
    assert!(!dense_scalars_fit(65, 2, 32));
    assert!(!dense_scalars_fit(64, 0, 32));
    assert!(!dense_scalars_fit(64, 2, 0));
    assert!(!dense_scalars_fit(64, (u32::MAX as usize) + 1, 1));
    assert!(dense_scalars_fit(u32::MAX as usize, 1, 1));
    assert!(!dense_scalars_fit((u32::MAX as usize) + 1, 1, 1));
}

#[test]
fn a_dense_product_is_as_long_as_the_scalars_of_one_output() {
    let handle = MsmHandle::new(0, 2);
    assert_eq!(handle.curve_id, 0);
    assert_eq!(handle.num_generators, Some(2));

    // two generators, one output, scalars [1, 2] of one byte each
    let request = handle.msm(1, 1, 2);
    assert_eq!(request.n, 2);
    assert_eq!(request.num_outputs, 1);
    assert_eq!(request.element_num_bytes, 1);

    // two outputs of thirty-two bytes over one generator
    let request = handle.msm(2, 32, 64);
    assert_eq!(request.n, 1);
    assert_eq!(request.num_outputs, 2);
    assert_eq!(request.element_num_bytes, 32);
}

#[test]
fn the_three_layouts_agree_on_the_length_of_equivalent_products() {
    let handle = MsmHandle::new(2, 2);
    // one output of one byte over two generators, in each layout
    let dense = handle.msm(1, 1, 2);
    let packed = handle.packed_msm(1, &[8], 2);
    assert!(vlen_tables_fit(1, &[8], &[2]));
    let vlen = handle.vlen_msm(1, &[8], &[2]);
    assert_eq!(dense.n, 2);
    assert_eq!(packed.n, dense.n);
    assert_eq!(packed.num_outputs, dense.num_outputs);
    assert_eq!(vlen.num_outputs, dense.num_outputs);
}

#[test]
fn a_handle_knows_whether_it_has_the_generators() {
    let handle = MsmHandle::new(1, 3);
    assert!(handle.has_generators(0));
    assert!(handle.has_generators(3));
    assert!(!handle.has_generators(4));
    let restored = MsmHandle::new_from_file(1);
    assert_eq!(restored.curve_id, 1);
    assert_eq!(restored.num_generators, None);
    assert!(restored.has_generators(u32::MAX));
}

#[test]
fn the_tables_of_a_varying_length_product_must_match_and_ascend() {
    assert!(vlen_tables_fit(0, &[], &[]));
    assert!(vlen_tables_fit(3, &[1, 8, 3], &[1, 2, 2]));
    assert!(vlen_tables_fit(3, &[1, 8, 3], &[0, 0, 0]));
    assert!(!vlen_tables_fit(3, &[1, 8, 3], &[1, 2, 1]));
    assert!(!vlen_tables_fit(3, &[1, 8, 3], &[3, 2, 4]));
    assert!(!vlen_tables_fit(3, &[1, 8], &[1, 2, 3]));
    assert!(!vlen_tables_fit(3, &[1, 8, 3], &[1, 2]));
    assert!(!vlen_tables_fit(2, &[1, 8, 3], &[1, 2, 3]));
}
