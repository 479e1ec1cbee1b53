//! Byte images of integers: the mathematical model behind every column.

use vstd::arithmetic::div_mod::{
    lemma_breakdown, lemma_fundamental_div_mod_converse, lemma_small_mod,
};
use vstd::endian::{endianness, Endian};
use vstd::prelude::*;

verus! {

/// `256` to the power `n`: the number of values that `n` bytes can hold.
pub open spec fn pow256(n: nat) -> nat
    decreases n,
{
    if n == 0 {
        1
    } else {
        256 * pow256((n - 1) as nat)
    }
}

/// The little-endian image of `x` on `width` bytes: byte `k` is digit `k` of
/// `x` in base 256. Digits beyond `width` are dropped.
pub open spec fn le_bytes(x: nat, width: nat) -> Seq<u8>
    decreases width,
{
    if width == 0 {
        Seq::empty()
    } else {
        seq![(x % 256) as u8].add(le_bytes(x / 256, (width - 1) as nat))
    }
}

/// The big-endian image of `x` on `width` bytes.
pub open spec fn be_bytes(x: nat, width: nat) -> Seq<u8> {
    le_bytes(x, width).reverse()
}

/// The image of `x` on `width` bytes in the byte order `order`.
pub open spec fn ordered_bytes(x: nat, width: nat, order: Endian) -> Seq<u8> {
    match order {
        Endian::Little => le_bytes(x, width),
        Endian::Big => be_bytes(x, width),
    }
}

/// The number that the little-endian bytes `bytes` hold.
pub open spec fn le_value(bytes: Seq<u8>) -> nat
    decreases bytes.len(),
{
    if bytes.len() == 0 {
        0
    } else {
        bytes[0] as nat + 256 * le_value(bytes.drop_first())
    }
}

/// The number that `width` bytes hold for the integer `x` in two's complement.
pub open spec fn twos_complement(x: int, width: nat) -> nat {
    if x < 0 {
        (x + pow256(width)) as nat
    } else {
        x as nat
    }
}

/// The integer that the unsigned number `raw`, read from `width` bytes, stands
/// for in two's complement.
pub open spec fn signed_value(raw: nat, width: nat) -> int {
    if 2 * raw >= pow256(width) {
        raw - pow256(width)
    } else {
        raw as int
    }
}

/// The contiguous image of a column: element `i` occupies bytes
/// `[i * width, (i + 1) * width)`, each element in the byte order `order`.
pub open spec fn column_image(values: Seq<nat>, width: nat, order: Endian) -> Seq<u8> {
    Seq::new(
        values.len() * width,
        |k: int| ordered_bytes(values[k / width as int], width, order)[k % width as int],
    )
}

/// The image of a column in the byte order of the machine that runs the code.
pub open spec fn native_image(values: Seq<nat>, width: nat) -> Seq<u8> {
    column_image(values, width, endianness())
}

/// Row `i` of a contiguous column of `width`-byte elements.
pub open spec fn row(bytes: Seq<u8>, width: nat, i: int) -> Seq<u8> {
    bytes.subrange(i * width, (i + 1) * width)
}

/// Every power of 256 is positive.
pub proof fn lemma_pow256_positive(n: nat)
    ensures
        pow256(n) > 0,
    decreases n,
{
    if n > 0 {
        lemma_pow256_positive((n - 1) as nat);
    }
}

/// The powers of 256 at the widths of the machine integers.
pub proof fn lemma_pow256_widths()
    ensures
        pow256(0) == 1,
        pow256(1) == 0x100,
        pow256(2) == 0x1_0000,
        pow256(4) == 0x1_0000_0000,
        pow256(8) == 0x1_0000_0000_0000_0000,
        pow256(16) == 0x1_0000_0000_0000_0000_0000_0000_0000_0000,
{
    reveal_with_fuel(pow256, 17);
}

/// The little-endian image on `width` bytes has `width` bytes.
pub proof fn lemma_le_bytes_len(x: nat, width: nat)
    ensures
        le_bytes(x, width).len() == width,
    decreases width,
{
    if width > 0 {
        lemma_le_bytes_len(x / 256, (width - 1) as nat);
    }
}

/// The image on `width` bytes has `width` bytes in either byte order.
pub proof fn lemma_ordered_bytes_len(x: nat, width: nat, order: Endian)
    ensures
        ordered_bytes(x, width, order).len() == width,
{
    lemma_le_bytes_len(x, width);
}

/// Reading back the little-endian image of `x` gives `x` up to the bytes kept.
pub proof fn lemma_le_value_of_le_bytes(x: nat, width: nat)
    ensures
        le_value(le_bytes(x, width)) == x % pow256(width),
    decreases width,
{
    if width == 0 {
    } else {
        let rest = le_bytes(x / 256, (width - 1) as nat);
        let all = le_bytes(x, width);
        lemma_le_bytes_len(x / 256, (width - 1) as nat);
        assert(all.drop_first() =~= rest);
        assert(all[0] == (x % 256) as u8);
        lemma_le_value_of_le_bytes(x / 256, (width - 1) as nat);
        lemma_pow256_positive((width - 1) as nat);
        lemma_breakdown(x as int, 256, pow256((width - 1) as nat) as int);
    }
}

/// A number that fits in `width` bytes is read back exactly.
pub proof fn lemma_le_round_trip(x: nat, width: nat)
    requires
        x < pow256(width),
    ensures
        le_value(le_bytes(x, width)) == x,
{
    lemma_le_value_of_le_bytes(x, width);
    lemma_small_mod(x, pow256(width));
}

/// Two's complement and its reading are inverse on the integers that fit.
pub proof fn lemma_signed_round_trip(x: int, width: nat)
    requires
        width > 0,
        -(pow256(width) as int) <= 2 * x < pow256(width),
    ensures
        twos_complement(x, width) < pow256(width),
        signed_value(twos_complement(x, width), width) == x,
{
}

/// Row `i` of a column's image is the image of element `i`.
pub proof fn lemma_row_of_column_image(values: Seq<nat>, width: nat, order: Endian, i: int)
    requires
        0 <= i < values.len(),
        width > 0,
    ensures
        row(column_image(values, width, order), width, i) == ordered_bytes(values[i], width, order),
{
    let w = width as int;
    let img = column_image(values, width, order);
    let r = row(img, width, i);
    let e = ordered_bytes(values[i], width, order);
    lemma_ordered_bytes_len(values[i], width, order);
    assert(i * w + w == (i + 1) * w) by (nonlinear_arith);
    assert((i + 1) * w <= values.len() * w) by (nonlinear_arith)
        requires
            i + 1 <= values.len(),
            w > 0,
    ;
    assert(0 <= i * w) by (nonlinear_arith)
        requires
            0 <= i,
            w > 0,
    ;
    assert(r.len() == w);
    assert forall|j: int| 0 <= j < w implies r[j] == e[j] by {
        let k = i * w + j;
        lemma_fundamental_div_mod_converse(k, w, i, j);
        assert(r[j] == img[k]);
    }
    assert(r =~= e);
}

/// The number whose two bytes in the byte order of the machine are `bytes`,
/// through `u16::from_ne_bytes`.
#[verifier::external_body]
fn u16_from_native_bytes(bytes: [u8; 2]) -> (x: u16)
    ensures
        ordered_bytes(x as nat, 2, endianness()) == bytes@,
{
    u16::from_ne_bytes(bytes)
}

/// Whether the machine is little-endian: whether the memory of an integer is
/// its little-endian image, which is how the backend reads every column.
pub fn target_is_little_endian() -> (little: bool)
    ensures
        little == (endianness() == Endian::Little),
{
    let probe = u16_from_native_bytes([1, 0]);
    proof {
        reveal_with_fuel(le_bytes, 3);
        let image = le_bytes(probe as nat, 2);
        assert(image.len() == 2);
        assert(image[0] == (probe as nat % 256) as u8);
        assert(image[1] == ((probe as nat / 256) % 256) as u8);
        if endianness() == Endian::Little {
            assert(image == seq![1u8, 0u8]);
            assert(image[0] == 1 && image[1] == 0);
        } else {
            assert(image.reverse() == seq![1u8, 0u8]);
            assert(image.reverse()[0] == image[1]);
            assert(image.reverse()[1] == image[0]);
            assert(image[1] == 1 && image[0] == 0);
        }
    }
    probe == 1
}

} // verus!
