use blitzar::encoding::target_is_little_endian;

#[test]
fn the_probe_agrees_with_the_byte_order_of_the_machine() {
    assert_eq!(target_is_little_endian(), 1u16.to_ne_bytes() == [1, 0]);
    assert_eq!(target_is_little_endian(), 0x0102u16.to_ne_bytes() == 0x0102u16.to_le_bytes());
}
