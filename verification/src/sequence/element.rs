//! The element types a column can be made of, and the bytes each one occupies.

use crate::encoding::{
    column_image, le_value, lemma_le_round_trip, lemma_pow256_widths, lemma_row_of_column_image,
    native_image, pow256, row, signed_value, twos_complement,
};
use byte_slice_cast::AsByteSlice;
use vstd::arithmetic::div_mod::lemma_fundamental_div_mod_converse;
use vstd::endian::{endianness, Endian};
use vstd::prelude::*;

verus! {

/// The number that row `i` of a column of `width`-byte elements holds: its
/// bytes read as a little-endian integer, in two's complement where `signed`.
pub open spec fn row_number(bytes: Seq<u8>, width: nat, signed: bool, i: int) -> int {
    let raw = le_value(row(bytes, width, i));
    if signed {
        signed_value(raw, width)
    } else {
        raw as int
    }
}

/// A fixed-width element whose slices are laid out as contiguous bytes, so
/// that a column of them can be handed over without copying.
pub trait SequenceElement: Sized {
    /// The number of bytes one element occupies.
    spec fn spec_width() -> nat;

    /// Whether the backend is to read the element as a signed number.
    spec fn spec_is_signed() -> bool;

    /// The number the element stands for.
    spec fn value(&self) -> int;

    /// The bytes that a column of elements occupies.
    spec fn image(column: Seq<Self>) -> Seq<u8>;

    fn width() -> (w: usize)
        ensures
            w == Self::spec_width(),
    ;

    fn is_signed() -> (s: bool)
        ensures
            s == Self::spec_is_signed(),
    ;

    fn as_bytes(column: &[Self]) -> (bytes: &[u8])
        ensures
            bytes@ == Self::image(column@),
            bytes@.len() == column@.len() * Self::spec_width(),
    ;

    /// On a little-endian machine, row `i` of a column's bytes holds the
    /// number that element `i` stands for.
    proof fn lemma_row_number(column: Seq<Self>, i: int)
        requires
            endianness() == Endian::Little,
            0 <= i < column.len(),
        ensures
            row_number(Self::image(column), Self::spec_width(), Self::spec_is_signed(), i)
                == column[i].value(),
    ;
}

/// The unsigned numbers that the bytes of a column of `u16` hold.
pub open spec fn u16_values(column: Seq<u16>) -> Seq<nat> {
    column.map_values(|x: u16| x as nat)
}

/// The memory of a `u16` slice as bytes, through
/// `byte_slice_cast::AsByteSlice::as_byte_slice`: two bytes for each element,
/// in order, each element in the byte order of the machine.
#[verifier::external_body]
fn u16_column_bytes(column: &[u16]) -> (bytes: &[u8])
    ensures
        bytes@ == native_image(u16_values(column@), 2),
{
    column.as_byte_slice()
}

impl SequenceElement for u16 {
    open spec fn spec_width() -> nat {
        2
    }

    open spec fn spec_is_signed() -> bool {
        false
    }

    open spec fn value(&self) -> int {
        *self as int
    }

    open spec fn image(column: Seq<u16>) -> Seq<u8> {
        native_image(u16_values(column), 2)
    }

    fn width() -> (w: usize) {
        2
    }

    fn is_signed() -> (s: bool) {
        false
    }

    fn as_bytes(column: &[u16]) -> (bytes: &[u8]) {
        u16_column_bytes(column)
    }

    proof fn lemma_row_number(column: Seq<u16>, i: int) {
        lemma_pow256_widths();
        lemma_row_of_column_image(u16_values(column), 2, Endian::Little, i);
        lemma_le_round_trip(u16_values(column)[i], 2);
    }
}

/// The unsigned numbers that the bytes of a column of `u32` hold.
pub open spec fn u32_values(column: Seq<u32>) -> Seq<nat> {
    column.map_values(|x: u32| x as nat)
}

/// The memory of a `u32` slice as bytes, through
/// `byte_slice_cast::AsByteSlice::as_byte_slice`: four bytes for each element,
/// in order, each element in the byte order of the machine.
#[verifier::external_body]
fn u32_column_bytes(column: &[u32]) -> (bytes: &[u8])
    ensures
        bytes@ == native_image(u32_values(column@), 4),
{
    column.as_byte_slice()
}

impl SequenceElement for u32 {
    open spec fn spec_width() -> nat {
        4
    }

    open spec fn spec_is_signed() -> bool {
        false
    }

    open spec fn value(&self) -> int {
        *self as int
    }

    open spec fn image(column: Seq<u32>) -> Seq<u8> {
        native_image(u32_values(column), 4)
    }

    fn width() -> (w: usize) {
        4
    }

    fn is_signed() -> (s: bool) {
        false
    }

    fn as_bytes(column: &[u32]) -> (bytes: &[u8]) {
        u32_column_bytes(column)
    }

    proof fn lemma_row_number(column: Seq<u32>, i: int) {
        lemma_pow256_widths();
        lemma_row_of_column_image(u32_values(column), 4, Endian::Little, i);
        lemma_le_round_trip(u32_values(column)[i], 4);
    }
}

/// The unsigned numbers that the bytes of a column of `u64` hold.
pub open spec fn u64_values(column: Seq<u64>) -> Seq<nat> {
    column.map_values(|x: u64| x as nat)
}

/// The memory of a `u64` slice as bytes, through
/// `byte_slice_cast::AsByteSlice::as_byte_slice`: eight bytes for each element,
/// in order, each element in the byte order of the machine.
#[verifier::external_body]
fn u64_column_bytes(column: &[u64]) -> (bytes: &[u8])
    ensures
        bytes@ == native_image(u64_values(column@), 8),
{
    column.as_byte_slice()
}

impl SequenceElement for u64 {
    open spec fn spec_width() -> nat {
        8
    }

    open spec fn spec_is_signed() -> bool {
        false
    }

    open spec fn value(&self) -> int {
        *self as int
    }

    open spec fn image(column: Seq<u64>) -> Seq<u8> {
        native_image(u64_values(column), 8)
    }

    fn width() -> (w: usize) {
        8
    }

    fn is_signed() -> (s: bool) {
        false
    }

    fn as_bytes(column: &[u64]) -> (bytes: &[u8]) {
        u64_column_bytes(column)
    }

    proof fn lemma_row_number(column: Seq<u64>, i: int) {
        lemma_pow256_widths();
        lemma_row_of_column_image(u64_values(column), 8, Endian::Little, i);
        lemma_le_round_trip(u64_values(column)[i], 8);
    }
}

/// The unsigned numbers that the bytes of a column of `u128` hold.
pub open spec fn u128_values(column: Seq<u128>) -> Seq<nat> {
    column.map_values(|x: u128| x as nat)
}

/// The memory of a `u128` slice as bytes, through
/// `byte_slice_cast::AsByteSlice::as_byte_slice`: sixteen bytes for each element,
/// in order, each element in the byte order of the machine.
#[verifier::external_body]
fn u128_column_bytes(column: &[u128]) -> (bytes: &[u8])
    ensures
        bytes@ == native_image(u128_values(column@), 16),
{
    column.as_byte_slice()
}

impl SequenceElement for u128 {
    open spec fn spec_width() -> nat {
        16
    }

    open spec fn spec_is_signed() -> bool {
        false
    }

    open spec fn value(&self) -> int {
        *self as int
    }

    open spec fn image(column: Seq<u128>) -> Seq<u8> {
        native_image(u128_values(column), 16)
    }

    fn width() -> (w: usize) {
        16
    }

    fn is_signed() -> (s: bool) {
        false
    }

    fn as_bytes(column: &[u128]) -> (bytes: &[u8]) {
        u128_column_bytes(column)
    }

    proof fn lemma_row_number(column: Seq<u128>, i: int) {
        lemma_pow256_widths();
        lemma_row_of_column_image(u128_values(column), 16, Endian::Little, i);
        lemma_le_round_trip(u128_values(column)[i], 16);
    }
}

/// The unsigned numbers that the bytes of a column of `i8` hold.
pub open spec fn i8_values(column: Seq<i8>) -> Seq<nat> {
    column.map_values(|x: i8| twos_complement(x as int, 1))
}

/// The memory of a `i8` slice as bytes, through
/// `byte_slice_cast::AsByteSlice::as_byte_slice`: one byte for each element,
/// in order, each element in the byte order of the machine, negative numbers in two's complement.
#[verifier::external_body]
fn i8_column_bytes(column: &[i8]) -> (bytes: &[u8])
    ensures
        bytes@ == native_image(i8_values(column@), 1),
{
    column.as_byte_slice()
}

impl SequenceElement for i8 {
    open spec fn spec_width() -> nat {
        1
    }

    open spec fn spec_is_signed() -> bool {
        true
    }

    open spec fn value(&self) -> int {
        *self as int
    }

    open spec fn image(column: Seq<i8>) -> Seq<u8> {
        native_image(i8_values(column), 1)
    }

    fn width() -> (w: usize) {
        1
    }

    fn is_signed() -> (s: bool) {
        true
    }

    fn as_bytes(column: &[i8]) -> (bytes: &[u8]) {
        i8_column_bytes(column)
    }

    proof fn lemma_row_number(column: Seq<i8>, i: int) {
        lemma_pow256_widths();
        lemma_row_of_column_image(i8_values(column), 1, Endian::Little, i);
        lemma_le_round_trip(i8_values(column)[i], 1);
    }
}

/// The unsigned numbers that the bytes of a column of `i16` hold.
pub open spec fn i16_values(column: Seq<i16>) -> Seq<nat> {
    column.map_values(|x: i16| twos_complement(x as int, 2))
}

/// The memory of a `i16` slice as bytes, through
/// `byte_slice_cast::AsByteSlice::as_byte_slice`: two bytes for each element,
/// in order, each element in the byte order of the machine, negative numbers in two's complement.
#[verifier::external_body]
fn i16_column_bytes(column: &[i16]) -> (bytes: &[u8])
    ensures
        bytes@ == native_image(i16_values(column@), 2),
{
    column.as_byte_slice()
}

impl SequenceElement for i16 {
    open spec fn spec_width() -> nat {
        2
    }

    open spec fn spec_is_signed() -> bool {
        true
    }

    open spec fn value(&self) -> int {
        *self as int
    }

    open spec fn image(column: Seq<i16>) -> Seq<u8> {
        native_image(i16_values(column), 2)
    }

    fn width() -> (w: usize) {
        2
    }

    fn is_signed() -> (s: bool) {
        true
    }

    fn as_bytes(column: &[i16]) -> (bytes: &[u8]) {
        i16_column_bytes(column)
    }

    proof fn lemma_row_number(column: Seq<i16>, i: int) {
        lemma_pow256_widths();
        lemma_row_of_column_image(i16_values(column), 2, Endian::Little, i);
        lemma_le_round_trip(i16_values(column)[i], 2);
    }
}

/// The unsigned numbers that the bytes of a column of `i32` hold.
pub open spec fn i32_values(column: Seq<i32>) -> Seq<nat> {
    column.map_values(|x: i32| twos_complement(x as int, 4))
}

/// The memory of a `i32` slice as bytes, through
/// `byte_slice_cast::AsByteSlice::as_byte_slice`: four bytes for each element,
/// in order, each element in the byte order of the machine, negative numbers in two's complement.
#[verifier::external_body]
fn i32_column_bytes(column: &[i32]) -> (bytes: &[u8])
    ensures
        bytes@ == native_image(i32_values(column@), 4),
{
    column.as_byte_slice()
}

impl SequenceElement for i32 {
    open spec fn spec_width() -> nat {
        4
    }

    open spec fn spec_is_signed() -> bool {
        true
    }

    open spec fn value(&self) -> int {
        *self as int
    }

    open spec fn image(column: Seq<i32>) -> Seq<u8> {
        native_image(i32_values(column), 4)
    }

    fn width() -> (w: usize) {
        4
    }

    fn is_signed() -> (s: bool) {
        true
    }

    fn as_bytes(column: &[i32]) -> (bytes: &[u8]) {
        i32_column_bytes(column)
    }

    proof fn lemma_row_number(column: Seq<i32>, i: int) {
        lemma_pow256_widths();
        lemma_row_of_column_image(i32_values(column), 4, Endian::Little, i);
        lemma_le_round_trip(i32_values(column)[i], 4);
    }
}

/// The unsigned numbers that the bytes of a column of `i64` hold.
pub open spec fn i64_values(column: Seq<i64>) -> Seq<nat> {
    column.map_values(|x: i64| twos_complement(x as int, 8))
}

/// The memory of a `i64` slice as bytes, through
/// `byte_slice_cast::AsByteSlice::as_byte_slice`: eight bytes for each element,
/// in order, each element in the byte order of the machine, negative numbers in two's complement.
#[verifier::external_body]
fn i64_column_bytes(column: &[i64]) -> (bytes: &[u8])
    ensures
        bytes@ == native_image(i64_values(column@), 8),
{
    column.as_byte_slice()
}

impl SequenceElement for i64 {
    open spec fn spec_width() -> nat {
        8
    }

    open spec fn spec_is_signed() -> bool {
        true
    }

    open spec fn value(&self) -> int {
        *self as int
    }

    open spec fn image(column: Seq<i64>) -> Seq<u8> {
        native_image(i64_values(column), 8)
    }

    fn width() -> (w: usize) {
        8
    }

    fn is_signed() -> (s: bool) {
        true
    }

    fn as_bytes(column: &[i64]) -> (bytes: &[u8]) {
        i64_column_bytes(column)
    }

    proof fn lemma_row_number(column: Seq<i64>, i: int) {
        lemma_pow256_widths();
        lemma_row_of_column_image(i64_values(column), 8, Endian::Little, i);
        lemma_le_round_trip(i64_values(column)[i], 8);
    }
}

/// The unsigned numbers that the bytes of a column of `i128` hold.
pub open spec fn i128_values(column: Seq<i128>) -> Seq<nat> {
    column.map_values(|x: i128| twos_complement(x as int, 16))
}

/// The memory of a `i128` slice as bytes, through
/// `byte_slice_cast::AsByteSlice::as_byte_slice`: sixteen bytes for each element,
/// in order, each element in the byte order of the machine, negative numbers in two's complement.
#[verifier::external_body]
fn i128_column_bytes(column: &[i128]) -> (bytes: &[u8])
    ensures
        bytes@ == native_image(i128_values(column@), 16),
{
    column.as_byte_slice()
}

impl SequenceElement for i128 {
    open spec fn spec_width() -> nat {
        16
    }

    open spec fn spec_is_signed() -> bool {
        true
    }

    open spec fn value(&self) -> int {
        *self as int
    }

    open spec fn image(column: Seq<i128>) -> Seq<u8> {
        native_image(i128_values(column), 16)
    }

    fn width() -> (w: usize) {
        16
    }

    fn is_signed() -> (s: bool) {
        true
    }

    fn as_bytes(column: &[i128]) -> (bytes: &[u8]) {
        i128_column_bytes(column)
    }

    proof fn lemma_row_number(column: Seq<i128>, i: int) {
        lemma_pow256_widths();
        lemma_row_of_column_image(i128_values(column), 16, Endian::Little, i);
        lemma_le_round_trip(i128_values(column)[i], 16);
    }
}

/// The bytes that a column of `bool` occupies: one for `true`, zero for `false`.
pub open spec fn bool_bytes(column: Seq<bool>) -> Seq<u8> {
    column.map_values(|b: bool| if b { 1u8 } else { 0u8 })
}

/// The memory of a `bool` slice as bytes, through `bytemuck::cast_slice`: one
/// byte for each element, in order, `1` for `true` and `0` for `false`.
#[verifier::external_body]
fn bool_column_bytes(column: &[bool]) -> (bytes: &[u8])
    ensures
        bytes@ == bool_bytes(column@),
{
    bytemuck::cast_slice(column)
}

/// The elements of a column of arrays, one after the other.
pub open spec fn flattened<T, const N: usize>(column: Seq<[T; N]>) -> Seq<T> {
    Seq::new(column.len() * (N as nat), |k: int| column[k / (N as int)]@[k % (N as int)])
}

/// The memory of a slice of byte arrays as bytes, through
/// `byte_slice_cast::AsByteSlice::as_byte_slice`: the arrays one after the
/// other, each with its bytes in order.
#[verifier::external_body]
fn byte_array_column_bytes<const N: usize>(column: &[[u8; N]]) -> (bytes: &[u8])
    ensures
        bytes@ == flattened(column@),
{
    column.as_byte_slice()
}

/// The memory of a slice of limb arrays as bytes, through
/// `byte_slice_cast::AsByteSlice::as_byte_slice`: the arrays one after the
/// other, each with its limbs in order, each limb as eight bytes in the byte
/// order of the machine.
#[verifier::external_body]
fn limb_array_column_bytes<const N: usize>(column: &[[u64; N]]) -> (bytes: &[u8])
    ensures
        bytes@ == native_image(u64_values(flattened(column@)), 8),
{
    column.as_byte_slice()
}

/// The size of an array of `N` limbs, through `core::mem::size_of`: an array
/// is laid out as its elements in order, so it takes eight bytes for each limb.
#[verifier::external_body]
fn limb_array_width<const N: usize>() -> (w: usize)
    ensures
        w == 8 * N,
{
    core::mem::size_of::<[u64; N]>()
}

impl SequenceElement for u8 {
    open spec fn spec_width() -> nat {
        1
    }

    open spec fn spec_is_signed() -> bool {
        false
    }

    open spec fn value(&self) -> int {
        *self as int
    }

    open spec fn image(column: Seq<u8>) -> Seq<u8> {
        column
    }

    fn width() -> (w: usize) {
        1
    }

    fn is_signed() -> (s: bool) {
        false
    }

    fn as_bytes(column: &[u8]) -> (bytes: &[u8]) {
        column
    }

    proof fn lemma_row_number(column: Seq<u8>, i: int) {
        let r = row(column, 1, i);
        assert(r.len() == 1);
        assert(r[0] == column[i]);
        assert(r.drop_first().len() == 0);
        assert(le_value(r) == column[i] as nat + 256 * le_value(r.drop_first()));
    }
}

impl SequenceElement for bool {
    open spec fn spec_width() -> nat {
        1
    }

    open spec fn spec_is_signed() -> bool {
        false
    }

    open spec fn value(&self) -> int {
        if *self {
            1
        } else {
            0
        }
    }

    open spec fn image(column: Seq<bool>) -> Seq<u8> {
        bool_bytes(column)
    }

    fn width() -> (w: usize) {
        1
    }

    fn is_signed() -> (s: bool) {
        false
    }

    fn as_bytes(column: &[bool]) -> (bytes: &[u8]) {
        bool_column_bytes(column)
    }

    proof fn lemma_row_number(column: Seq<bool>, i: int) {
        let r = row(bool_bytes(column), 1, i);
        assert(r.len() == 1);
        assert(r[0] == bool_bytes(column)[i]);
        assert(r.drop_first().len() == 0);
        assert(le_value(r) == r[0] as nat + 256 * le_value(r.drop_first()));
    }
}

/// Row `i` of a flattened column of arrays is array `i`.
pub proof fn lemma_row_of_flattened<T, const N: usize>(column: Seq<[T; N]>, i: int)
    requires
        0 <= i < column.len(),
    ensures
        flattened(column).subrange(i * (N as int), (i + 1) * (N as int)) == column[i]@,
{
    let n = N as int;
    let flat = flattened(column);
    assert(i * n + n == (i + 1) * n) by (nonlinear_arith);
    assert((i + 1) * n <= column.len() * n) by (nonlinear_arith)
        requires
            i + 1 <= column.len(),
            n >= 0,
    ;
    assert(0 <= i * n) by (nonlinear_arith)
        requires
            0 <= i,
            n >= 0,
    ;
    let r = flat.subrange(i * n, (i + 1) * n);
    assert(column[i]@.len() == n);
    assert forall|j: int| 0 <= j < n implies r[j] == column[i]@[j] by {
        lemma_fundamental_div_mod_converse(i * n + j, n, i, j);
    }
    assert(r =~= column[i]@);
}

impl<const N: usize> SequenceElement for [u8; N] {
    open spec fn spec_width() -> nat {
        N as nat
    }

    open spec fn spec_is_signed() -> bool {
        false
    }

    open spec fn value(&self) -> int {
        le_value(self@) as int
    }

    open spec fn image(column: Seq<[u8; N]>) -> Seq<u8> {
        flattened(column)
    }

    fn width() -> (w: usize) {
        N
    }

    fn is_signed() -> (s: bool) {
        false
    }

    fn as_bytes(column: &[[u8; N]]) -> (bytes: &[u8]) {
        byte_array_column_bytes(column)
    }

    proof fn lemma_row_number(column: Seq<[u8; N]>, i: int) {
        lemma_row_of_flattened(column, i);
    }
}

impl<const N: usize> SequenceElement for [u64; N] {
    open spec fn spec_width() -> nat {
        8 * (N as nat)
    }

    open spec fn spec_is_signed() -> bool {
        false
    }

    open spec fn value(&self) -> int {
        le_value(column_image(u64_values(self@), 8, Endian::Little)) as int
    }

    open spec fn image(column: Seq<[u64; N]>) -> Seq<u8> {
        native_image(u64_values(flattened(column)), 8)
    }

    fn width() -> (w: usize) {
        limb_array_width::<N>()
    }

    fn is_signed() -> (s: bool) {
        false
    }

    fn as_bytes(column: &[[u64; N]]) -> (bytes: &[u8]) {
        let bytes = limb_array_column_bytes(column);
        proof {
            assert(column@.len() * (N as nat) * 8 == column@.len() * (8 * (N as nat)))
                by (nonlinear_arith);
        }
        bytes
    }

    proof fn lemma_row_number(column: Seq<[u64; N]>, i: int) {
        let n = N as int;
        let limbs = u64_values(flattened(column));
        let whole = column_image(limbs, 8, Endian::Little);
        let own = column_image(u64_values(column[i]@), 8, Endian::Little);
        let r = row(whole, (8 * n) as nat, i);
        lemma_row_of_flattened(column, i);
        assert(i * n + n == (i + 1) * n) by (nonlinear_arith);
        assert((i + 1) * n <= column.len() * n) by (nonlinear_arith)
            requires
                i + 1 <= column.len(),
                n >= 0,
        ;
        assert(0 <= i * n) by (nonlinear_arith)
            requires
                0 <= i,
                n >= 0,
        ;
        assert(i * (8 * n) == 8 * (i * n)) by (nonlinear_arith);
        assert((i + 1) * (8 * n) == 8 * ((i + 1) * n)) by (nonlinear_arith);
        assert(column[i]@.len() == n);
        assert(r.len() == own.len());
        assert forall|j: int| 0 <= j < 8 * n implies r[j] == own[j] by {
            let k = i * (8 * n) + j;
            assert(k / 8 == i * n + j / 8 && k % 8 == j % 8) by {
                lemma_fundamental_div_mod_converse(k, 8, i * n + j / 8, j % 8);
            }
            assert(0 <= j / 8 < n);
            lemma_fundamental_div_mod_converse(i * n + j / 8, n, i, j / 8);
            assert(flattened(column)[i * n + j / 8] == column[i]@[j / 8]);
        }
        assert(r =~= own);
    }
}

} // verus!
