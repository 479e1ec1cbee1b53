//! Multi-scalar multiplication with generators fixed in advance: how long the
//! products are that a buffer of scalars holds, in each of the three layouts.

use vstd::prelude::*;

verus! {

/// The sum of the bit widths of all outputs.
pub open spec fn bit_sum(output_bit_table: Seq<u32>) -> nat
    decreases output_bit_table.len(),
{
    if output_bit_table.len() == 0 {
        0
    } else {
        bit_sum(output_bit_table.drop_last()) + output_bit_table.last() as nat
    }
}

/// The number of bytes that the scalars of one generator take in the packed
/// layout: the bits of all outputs one after the other, padded with zeros to
/// a whole byte.
pub open spec fn packed_row_bytes(output_bit_table: Seq<u32>) -> nat {
    (bit_sum(output_bit_table) + 7) / 8
}

/// What has to hold of a buffer of `scalars_len` bytes in the packed layout:
/// a row is not empty, the buffer is a whole number of rows, and their number
/// fits the thirty-two bits the backend takes it in.
pub open spec fn packed_scalars_ok(scalars_len: nat, output_bit_table: Seq<u32>) -> bool {
    &&& packed_row_bytes(output_bit_table) > 0
    &&& scalars_len % packed_row_bytes(output_bit_table) == 0
    &&& scalars_len / packed_row_bytes(output_bit_table) <= u32::MAX
}

/// What has to hold of a buffer of `scalars_len` bytes in the dense layout
/// for `num_outputs` outputs of `element_num_bytes` bytes each: a row is not
/// empty, the buffer is a whole number of rows, and the counts fit the
/// thirty-two bits the backend takes them in.
pub open spec fn dense_scalars_ok(scalars_len: nat, num_outputs: nat, element_num_bytes: nat) -> bool {
    &&& num_outputs * element_num_bytes > 0
    &&& num_outputs <= u32::MAX
    &&& scalars_len % (num_outputs * element_num_bytes) == 0
    &&& scalars_len / (num_outputs * element_num_bytes) <= u32::MAX
}

/// The lengths do not decrease from one output to the next.
pub open spec fn ascending(output_lengths: Seq<u32>) -> bool {
    forall|i: int, j: int| 0 <= i <= j < output_lengths.len() ==> output_lengths[i] <= output_lengths[j]
}

/// What has to hold of the tables of a product of varying length: one bit
/// width and one length for each output, the lengths in ascending order.
pub open spec fn vlen_tables_ok(
    num_outputs: nat,
    output_bit_table: Seq<u32>,
    output_lengths: Seq<u32>,
) -> bool {
    &&& num_outputs <= u32::MAX
    &&& output_bit_table.len() == num_outputs
    &&& output_lengths.len() == num_outputs
    &&& ascending(output_lengths)
}

/// Where every output takes `element_num_bytes` whole bytes of each row, the
/// packed layout is the dense one: a row has `element_num_bytes` bytes for
/// each output, and a buffer holds as many rows in the one layout as in the
/// other.
pub proof fn lemma_packed_layout_of_whole_bytes(output_bit_table: Seq<u32>, element_num_bytes: nat)
    requires
        forall|k: int|
            0 <= k < output_bit_table.len() ==> (#[trigger] output_bit_table[k]) == 8
                * element_num_bytes,
    ensures
        bit_sum(output_bit_table) == 8 * (output_bit_table.len() * element_num_bytes),
        packed_row_bytes(output_bit_table) == output_bit_table.len() * element_num_bytes,
        forall|scalars_len: nat|
            packed_scalars_ok(scalars_len, output_bit_table) ==> dense_scalars_ok(
                scalars_len,
                output_bit_table.len(),
                element_num_bytes,
            ) || output_bit_table.len() > u32::MAX,
    decreases output_bit_table.len(),
{
    if output_bit_table.len() > 0 {
        let front = output_bit_table.drop_last();
        assert forall|k: int| 0 <= k < front.len() implies (#[trigger] front[k]) == 8
            * element_num_bytes by {
            assert(front[k] == output_bit_table[k]);
        }
        lemma_packed_layout_of_whole_bytes(front, element_num_bytes);
        assert(output_bit_table.last() == output_bit_table[output_bit_table.len() - 1]);
        assert((front.len() + 1) * element_num_bytes == front.len() * element_num_bytes
            + element_num_bytes) by (nonlinear_arith);
    } else {
        assert(0 * element_num_bytes == 0) by (nonlinear_arith);
    }
}

/// The sum of the bit widths, in arithmetic that cannot overflow.
fn sum_bits(output_bit_table: &[u32]) -> (sum: u128)
    ensures
        sum == bit_sum(output_bit_table@),
        sum < 0x1_0000_0000_0000_0000_0000_0000,
{
    let mut sum: u128 = 0;
    let mut i: usize = 0;
    while i < output_bit_table.len()
        invariant
            i <= output_bit_table@.len(),
            sum == bit_sum(output_bit_table@.take(i as int)),
            sum <= i * u32::MAX,
        decreases output_bit_table@.len() - i,
    {
        proof {
            assert(output_bit_table@.take(i + 1).drop_last() =~= output_bit_table@.take(i as int));
            assert(i * u32::MAX + u32::MAX <= usize::MAX * u32::MAX) by (nonlinear_arith)
                requires
                    i < usize::MAX,
            ;
            assert(usize::MAX * u32::MAX < 0x1_0000_0000_0000_0000_0000_0000) by (nonlinear_arith)
                requires
                    usize::MAX <= 0xffff_ffff_ffff_ffff,
                    u32::MAX == 0xffff_ffff,
            ;
        }
        sum = sum + output_bit_table[i] as u128;
        i += 1;
    }
    proof {
        assert(output_bit_table@.take(output_bit_table@.len() as int) =~= output_bit_table@);
        assert(i * u32::MAX < 0x1_0000_0000_0000_0000_0000_0000) by (nonlinear_arith)
            requires
                i <= 0xffff_ffff_ffff_ffff,
                u32::MAX == 0xffff_ffff,
        ;
    }
    sum
}

/// Whether a buffer of `scalars_len` bytes is a valid packed layout for the
/// outputs of `output_bit_table`: what [`count_scalars_per_output`] asks for.
pub fn packed_scalars_fit(scalars_len: usize, output_bit_table: &[u32]) -> (ok: bool)
    ensures
        ok == packed_scalars_ok(scalars_len as nat, output_bit_table@),
{
    let bit_sum = sum_bits(output_bit_table);
    let num_output_bytes = (bit_sum + 7) / 8;
    if num_output_bytes == 0 {
        return false;
    }
    let len = scalars_len as u128;
    len % num_output_bytes == 0 && len / num_output_bytes <= u32::MAX as u128
}

/// The number of scalars of each output that a buffer of `scalars_len` bytes
/// holds in the packed layout.
pub fn count_scalars_per_output(scalars_len: usize, output_bit_table: &[u32]) -> (n: u32)
    requires
        packed_scalars_ok(scalars_len as nat, output_bit_table@),
    ensures
        n == scalars_len as nat / packed_row_bytes(output_bit_table@),
{
    let bit_sum = sum_bits(output_bit_table);
    let num_output_bytes = (bit_sum + 7) / 8;
    (scalars_len as u128 / num_output_bytes) as u32
}

/// Whether a buffer of `scalars_len` bytes is a valid dense layout for
/// `num_outputs` outputs of `element_num_bytes` bytes each: what
/// [`MsmHandle::msm`] asks for.
pub fn dense_scalars_fit(scalars_len: usize, num_outputs: usize, element_num_bytes: u32) -> (ok:
    bool)
    ensures
        ok == dense_scalars_ok(scalars_len as nat, num_outputs as nat, element_num_bytes as nat),
{
    if num_outputs > u32::MAX as usize {
        return false;
    }
    proof {
        assert(num_outputs * element_num_bytes <= 0xffff_ffff * 0xffff_ffff) by (nonlinear_arith)
            requires
                num_outputs <= 0xffff_ffff,
                element_num_bytes <= 0xffff_ffff,
        ;
    }
    let row_bytes = num_outputs as u64 * element_num_bytes as u64;
    if row_bytes == 0 {
        return false;
    }
    let len = scalars_len as u64;
    len % row_bytes == 0 && len / row_bytes <= u32::MAX as u64
}

/// Whether the tables of a product of varying length are valid: what
/// [`MsmHandle::vlen_msm`] asks for.
pub fn vlen_tables_fit(num_outputs: usize, output_bit_table: &[u32], output_lengths: &[u32]) -> (ok:
    bool)
    ensures
        ok == vlen_tables_ok(num_outputs as nat, output_bit_table@, output_lengths@),
{
    if num_outputs > u32::MAX as usize || output_bit_table.len() != num_outputs
        || output_lengths.len() != num_outputs {
        return false;
    }
    let mut i: usize = 1;
    while i < output_lengths.len()
        invariant
            1 <= i,
            forall|a: int, b: int|
                0 <= a <= b < i && b < output_lengths@.len() ==> output_lengths@[a]
                    <= output_lengths@[b],
        decreases output_lengths@.len() - i,
    {
        if output_lengths[i - 1] > output_lengths[i] {
            return false;
        }
        i += 1;
    }
    true
}

/// A dense product: `num_outputs` outputs over the first `n` generators, each
/// scalar `element_num_bytes` bytes wide.
#[derive(Clone, Copy, Debug, PartialEq, Eq, Structural)]
pub struct MsmRequest {
    pub element_num_bytes: u32,
    pub num_outputs: u32,
    pub n: u32,
}

/// A packed product: `num_outputs` outputs over the first `n` generators.
#[derive(Clone, Copy, Debug, PartialEq, Eq, Structural)]
pub struct PackedMsmRequest {
    pub num_outputs: u32,
    pub n: u32,
}

/// A product of varying length: `num_outputs` outputs, each over as many
/// generators as its entry of the table of lengths says.
#[derive(Clone, Copy, Debug, PartialEq, Eq, Structural)]
pub struct VlenMsmRequest {
    pub num_outputs: u32,
}

/// What is known of a table that the backend has made of a fixed list of
/// generators: the curve, and the number of generators where the table was
/// made from a list rather than read from a file.
#[derive(Clone, Copy, Debug, PartialEq, Eq, Structural)]
pub struct MsmHandle {
    pub curve_id: u32,
    pub num_generators: Option<u32>,
}

impl MsmHandle {
    /// A product over `n` generators uses no more generators than the table
    /// is known to hold.
    pub open spec fn covers(&self, n: nat) -> bool {
        match self.num_generators {
            Some(bound) => n <= bound,
            None => true,
        }
    }

    /// Whether a product over `n` generators is within the table.
    pub fn has_generators(&self, n: u32) -> (enough: bool)
        ensures
            enough == self.covers(n as nat),
    {
        match self.num_generators {
            Some(bound) => n <= bound,
            None => true,
        }
    }

    /// The handle of a table over `num_generators` generators of the curve
    /// `curve_id`.
    pub fn new(curve_id: u32, num_generators: usize) -> (handle: Self)
        requires
            num_generators <= u32::MAX,
        ensures
            handle.curve_id == curve_id,
            handle.num_generators == Some(num_generators as u32),
    {
        MsmHandle { curve_id, num_generators: Some(num_generators as u32) }
    }

    /// The handle of a table of the curve `curve_id` that is read from a
    /// file, and so of a number of generators that is not known.
    pub fn new_from_file(curve_id: u32) -> (handle: Self)
        ensures
            handle.curve_id == curve_id,
            handle.num_generators.is_none(),
    {
        MsmHandle { curve_id, num_generators: None }
    }

    /// Whether a dense product of `num_outputs` outputs can be computed from
    /// `scalars_len` bytes of scalars: what [`Self::msm`] asks for.
    pub fn accepts_msm(&self, num_outputs: usize, element_num_bytes: u32, scalars_len: usize) -> (ok:
        bool)
        ensures
            ok == (dense_scalars_ok(
                scalars_len as nat,
                num_outputs as nat,
                element_num_bytes as nat,
            ) && self.covers(
                scalars_len as nat / (num_outputs as nat * element_num_bytes as nat),
            )),
    {
        if !dense_scalars_fit(scalars_len, num_outputs, element_num_bytes) {
            return false;
        }
        proof {
            assert(num_outputs * element_num_bytes <= 0xffff_ffff * 0xffff_ffff)
                by (nonlinear_arith)
                requires
                    num_outputs <= 0xffff_ffff,
                    element_num_bytes <= 0xffff_ffff,
            ;
        }
        let row_bytes = num_outputs as u64 * element_num_bytes as u64;
        self.has_generators((scalars_len as u64 / row_bytes) as u32)
    }

    /// Whether a packed product of `num_outputs` outputs can be computed from
    /// `scalars_len` bytes of scalars: what [`Self::packed_msm`] asks for.
    pub fn accepts_packed_msm(
        &self,
        num_outputs: usize,
        output_bit_table: &[u32],
        scalars_len: usize,
    ) -> (ok: bool)
        ensures
            ok == (num_outputs <= u32::MAX && output_bit_table@.len() == num_outputs
                && packed_scalars_ok(scalars_len as nat, output_bit_table@) && self.covers(
                scalars_len as nat / packed_row_bytes(output_bit_table@),
            )),
    {
        if num_outputs > u32::MAX as usize || output_bit_table.len() != num_outputs {
            return false;
        }
        if !packed_scalars_fit(scalars_len, output_bit_table) {
            return false;
        }
        self.has_generators(count_scalars_per_output(scalars_len, output_bit_table))
    }

    /// Whether a product of varying length of `num_outputs` outputs can be
    /// computed: what [`Self::vlen_msm`] asks for.
    pub fn accepts_vlen_msm(
        &self,
        num_outputs: usize,
        output_bit_table: &[u32],
        output_lengths: &[u32],
    ) -> (ok: bool)
        ensures
            ok == (vlen_tables_ok(num_outputs as nat, output_bit_table@, output_lengths@)
                && forall|k: int|
                0 <= k < output_lengths@.len() ==> self.covers(
                    (#[trigger] output_lengths@[k]) as nat,
                )),
    {
        if !vlen_tables_fit(num_outputs, output_bit_table, output_lengths) {
            return false;
        }
        // the lengths ascend, so the last one is the longest
        if output_lengths.len() == 0 {
            return true;
        }
        let longest = output_lengths[output_lengths.len() - 1];
        let enough = self.has_generators(longest);
        proof {
            if enough {
                assert forall|k: int| 0 <= k < output_lengths@.len() implies self.covers(
                    (#[trigger] output_lengths@[k]) as nat,
                ) by {
                    assert(output_lengths@[k] <= output_lengths@[output_lengths@.len() - 1]);
                }
            } else {
                assert(!self.covers(output_lengths@[output_lengths@.len() - 1] as nat));
            }
        }
        enough
    }

    /// The dense product of `num_outputs` outputs that `scalars_len` bytes of
    /// scalars hold.
    ///
    /// With generators `g_1, ..., g_n` and scalars `s_ij` of
    /// `element_num_bytes` bytes each, laid out as
    /// `s_11, s_21, ..., s_m1, s_12, ..., s_mn`, output `i` is
    /// `s_i1 * g_1 + ... + s_in * g_n`.
    pub fn msm(&self, num_outputs: usize, element_num_bytes: u32, scalars_len: usize) -> (request:
        MsmRequest)
        requires
            dense_scalars_ok(scalars_len as nat, num_outputs as nat, element_num_bytes as nat),
            self.covers(scalars_len as nat / (num_outputs as nat * element_num_bytes as nat)),
        ensures
            request.element_num_bytes == element_num_bytes,
            request.num_outputs == num_outputs,
            request.n == scalars_len as nat / (num_outputs as nat * element_num_bytes as nat),
    {
        proof {
            assert(num_outputs * element_num_bytes <= 0xffff_ffff * 0xffff_ffff)
                by (nonlinear_arith)
                requires
                    num_outputs <= 0xffff_ffff,
                    element_num_bytes <= 0xffff_ffff,
            ;
        }
        let row_bytes = num_outputs as u64 * element_num_bytes as u64;
        let n = (scalars_len as u64 / row_bytes) as u32;
        MsmRequest { element_num_bytes, num_outputs: num_outputs as u32, n }
    }

    /// The packed product of `num_outputs` outputs that `scalars_len` bytes
    /// of scalars hold, output `k` taking `output_bit_table[k]` bits of each
    /// row.
    pub fn packed_msm(&self, num_outputs: usize, output_bit_table: &[u32], scalars_len: usize) -> (request:
        PackedMsmRequest)
        requires
            num_outputs <= u32::MAX,
            output_bit_table@.len() == num_outputs,
            packed_scalars_ok(scalars_len as nat, output_bit_table@),
            self.covers(scalars_len as nat / packed_row_bytes(output_bit_table@)),
        ensures
            request.num_outputs == num_outputs,
            request.n == scalars_len as nat / packed_row_bytes(output_bit_table@),
    {
        let n = count_scalars_per_output(scalars_len, output_bit_table);
        PackedMsmRequest { num_outputs: num_outputs as u32, n }
    }

    /// The product of varying length of `num_outputs` outputs, output `k`
    /// taking `output_bit_table[k]` bits of each of its first
    /// `output_lengths[k]` rows.
    pub fn vlen_msm(&self, num_outputs: usize, output_bit_table: &[u32], output_lengths: &[u32]) -> (request:
        VlenMsmRequest)
        requires
            vlen_tables_ok(num_outputs as nat, output_bit_table@, output_lengths@),
            forall|k: int|
                0 <= k < output_lengths@.len() ==> self.covers(
                    (#[trigger] output_lengths@[k]) as nat,
                ),
        ensures
            request.num_outputs == num_outputs,
    {
        VlenMsmRequest { num_outputs: num_outputs as u32 }
    }
}

} // verus!
