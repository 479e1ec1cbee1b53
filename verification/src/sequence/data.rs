//! Owned, re-encoded columns for element types whose memory is not the byte
//! image the backend reads.

use crate::encoding::{column_image, le_bytes, lemma_le_bytes_len};
use crate::sequence::dense::{lemma_whole_rows, slice_of, DenseSequence};
use crate::sequence::element::{flattened, u64_values};
use vstd::arithmetic::div_mod::lemma_fundamental_div_mod_converse;
use vstd::endian::Endian;
use vstd::prelude::*;
use vstd::std_specs::convert::FromSpecImpl;

verus! {

/// The bytes of a dense column, owned.
///
/// Where the elements of a column cannot simply be viewed as bytes, they are
/// re-encoded once into a `DenseSequenceData`, which a [`DenseSequence`] then
/// borrows.
pub struct DenseSequenceData {
    data: Vec<u8>,
    element_size: usize,
}

/// Appends the eight little-endian bytes of `limb` to `out`.
fn push_limb(out: &mut Vec<u8>, limb: u64)
    ensures
        final(out)@ == old(out)@ + le_bytes(limb as nat, 8),
{
    let ghost before = out@;
    let mut rest: u64 = limb;
    let mut k: usize = 0;
    while k < 8
        invariant
            k <= 8,
            out@ + le_bytes(rest as nat, (8 - k) as nat) == before + le_bytes(limb as nat, 8),
        decreases 8 - k,
    {
        let ghost previous = out@;
        out.push((rest % 256) as u8);
        proof {
            let tail = le_bytes((rest / 256) as nat, (8 - k - 1) as nat);
            assert(le_bytes(rest as nat, (8 - k) as nat) == seq![(rest as nat % 256) as u8].add(
                tail,
            ));
            assert(previous.push((rest % 256) as u8) + tail =~= previous + le_bytes(
                rest as nat,
                (8 - k) as nat,
            ));
        }
        rest = rest / 256;
        k += 1;
    }
    proof {
        assert(out@ + le_bytes(rest as nat, 0) =~= out@);
    }
}

impl DenseSequenceData {
    /// The bytes of the column.
    pub closed spec fn spec_data(&self) -> Seq<u8> {
        self.data@
    }

    /// The number of bytes of each element.
    pub closed spec fn spec_element_size(&self) -> usize {
        self.element_size
    }

    /// A column of `element_size`-byte elements held in `data`.
    pub fn new(data: Vec<u8>, element_size: usize) -> (d: Self)
        ensures
            d.spec_data() == data@,
            d.spec_element_size() == element_size,
    {
        DenseSequenceData { data, element_size }
    }

    /// Re-encodes a column of big integers, each given by its limbs from the
    /// least significant one, into little-endian bytes: eight for each limb.
    pub fn from_limbs<const N: usize>(elements: &[[u64; N]]) -> (d: Self)
        requires
            8 * N <= usize::MAX,
        ensures
            d.spec_data() == column_image(u64_values(flattened(elements@)), 8, Endian::Little),
            d.spec_element_size() == 8 * N,
    {
        let ghost limbs = u64_values(flattened(elements@));
        let mut data: Vec<u8> = Vec::new();
        let mut i: usize = 0;
        while i < elements.len()
            invariant
                i <= elements@.len(),
                limbs == u64_values(flattened(elements@)),
                data@ == column_image(limbs.take(i * N), 8, Endian::Little),
            decreases elements@.len() - i,
        {
            let element = &elements[i];
            let mut j: usize = 0;
            proof {
                assert(i * N + N <= elements@.len() * N) by (nonlinear_arith)
                    requires
                        i + 1 <= elements@.len(),
                ;
            }
            while j < N
                invariant
                    j <= N,
                    i < elements@.len(),
                    i * N + N <= elements@.len() * N,
                    *element == elements@[i as int],
                    limbs == u64_values(flattened(elements@)),
                    data@ == column_image(limbs.take(i * N + j), 8, Endian::Little),
                decreases N - j,
            {
                let ghost before = data@;
                push_limb(&mut data, element[j]);
                proof {
                    let k = i * N + j;
                    lemma_fundamental_div_mod_converse(k as int, N as int, i as int, j as int);
                    assert(limbs[k as int] == element[j as int] as nat);
                    lemma_image_push(limbs.take(k as int), limbs[k as int]);
                    assert(limbs.take(k as int).push(limbs[k as int]) =~= limbs.take(k + 1));
                }
                j += 1;
            }
            proof {
                assert(i * N + N == (i + 1) * N) by (nonlinear_arith);
            }
            i += 1;
        }
        proof {
            assert(limbs.take((elements@.len() * N) as int) =~= limbs);
        }
        DenseSequenceData { data, element_size: 8 * N }
    }
}

/// The image of a column with one more limb is the image of the column
/// followed by the bytes of the limb.
proof fn lemma_image_push(limbs: Seq<nat>, limb: nat)
    ensures
        column_image(limbs.push(limb), 8, Endian::Little) == column_image(limbs, 8, Endian::Little)
            + le_bytes(limb, 8),
{
    let whole = column_image(limbs.push(limb), 8, Endian::Little);
    let front = column_image(limbs, 8, Endian::Little);
    let tail = le_bytes(limb, 8);
    lemma_le_bytes_len(limb, 8);
    assert(whole.len() == front.len() + tail.len());
    assert forall|k: int| 0 <= k < whole.len() implies whole[k] == (front + tail)[k] by {
        if k < front.len() {
            assert(k / 8 < limbs.len());
            assert(limbs.push(limb)[k / 8] == limbs[k / 8]);
        } else {
            let j = k - front.len();
            lemma_fundamental_div_mod_converse(k, 8, limbs.len() as int, j);
        }
    }
    assert(whole =~= front + tail);
}

impl<'a> FromSpecImpl<&'a DenseSequenceData> for DenseSequence<'a> {
    open spec fn obeys_from_spec() -> bool {
        true
    }

    open spec fn from_spec(value: &'a DenseSequenceData) -> Self {
        DenseSequence {
            data_slice: slice_of(value.spec_data()),
            element_size: value.spec_element_size(),
            is_signed: false,
        }
    }
}

impl<'a> From<&'a DenseSequenceData> for DenseSequence<'a> {
    /// An unsigned dense column over the bytes that `value` owns.
    fn from(value: &'a DenseSequenceData) -> (d: Self) {
        let d = DenseSequence {
            data_slice: value.data.as_slice(),
            element_size: value.element_size,
            is_signed: false,
        };
        proof {
            broadcast use vstd::slice::axiom_slice_ext_equal;

            assert(slice_of(value.spec_data())@ == value.spec_data());
            assert(d.data_slice =~= slice_of(value.spec_data()));
        }
        d
    }
}

} // verus!
