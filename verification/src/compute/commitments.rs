//! Batched Pedersen commitments: the requests that go to the backend, and the
//! homomorphic update of commitments with what comes back.

use crate::compute::ristretto::{add_compressed, decompresses, is_ristretto, ristretto_sum};
use crate::sequence::descriptor::{
    lemma_longest_row, to_sxt_descriptors, Descriptor, SequenceDescriptor,
};
use vstd::prelude::*;

verus! {

/// The generators that row `j` of every column is committed on.
#[derive(Clone, Copy, Debug, PartialEq, Eq, Structural)]
pub enum Generators {
    /// Generator `offset + j` of the backend's own sequence.
    Offset(u64),
    /// Generator `j` of an array of this many generators that the caller
    /// supplies.
    Supplied(usize),
}

/// What the backend is asked when commitments to a table of columns are
/// computed: one descriptor for each column, all columns in one call.
pub struct CommitmentRequest<'a> {
    /// The number of columns, and so of commitments.
    pub num_sequences: u32,
    /// The descriptors of the columns.
    pub descriptors: Vec<SequenceDescriptor<'a>>,
    /// The generators to commit on.
    pub generators: Generators,
}

impl<'a> CommitmentRequest<'a> {
    /// The request describes the columns of `data`, in order.
    pub open spec fn describes<T: Descriptor>(&self, data: Seq<T>) -> bool {
        &&& self.num_sequences == data.len()
        &&& self.descriptors@.len() == data.len()
        &&& forall|i: int|
            0 <= i < data.len() ==> (#[trigger] self.descriptors@[i])@ == data[i].descriptor()
    }

    /// Where the caller supplies the generators, there is one for every row
    /// of every column.
    pub open spec fn covered(&self) -> bool {
        self.generators matches Generators::Supplied(n) ==> forall|i: int|
            0 <= i < self.descriptors@.len() ==> (#[trigger] self.descriptors@[i])@.n <= n
    }
}

/// Every column of `data` can be described.
pub open spec fn all_describable<T: Descriptor>(data: Seq<T>) -> bool {
    forall|i: int| 0 <= i < data.len() ==> (#[trigger] data[i]).describable()
}

/// No column of `data` has more rows than there are generators.
pub open spec fn generators_cover<T: Descriptor>(data: Seq<T>, num_generators: nat) -> bool {
    forall|i: int| 0 <= i < data.len() ==> (#[trigger] data[i]).rows() <= num_generators
}

/// The request for the commitments to the columns of `data`, row `j` of each
/// column on the generator `offset_generators + j` of the backend's own
/// sequence. The table holds as many columns as there are commitments to be
/// written.
pub fn compute_commitments_request<'a, T: Descriptor>(
    data: &'a [T],
    num_commitments: usize,
    offset_generators: u64,
) -> (request: CommitmentRequest<'a>)
    requires
        all_describable(data@),
        data@.len() == num_commitments,
        data@.len() <= u32::MAX,
    ensures
        request.describes(data@),
        request.generators == Generators::Offset(offset_generators),
        request.covered(),
{
    let (descriptors, _longest_row) = to_sxt_descriptors(data);
    CommitmentRequest {
        num_sequences: data.len() as u32,
        descriptors,
        generators: Generators::Offset(offset_generators),
    }
}

/// Whether `num_generators` generators are enough for every column of `data`.
pub fn generators_suffice<T: Descriptor>(data: &[T], num_generators: usize) -> (enough: bool)
    requires
        all_describable(data@),
    ensures
        enough == generators_cover(data@, num_generators as nat),
{
    let (_descriptors, longest) = to_sxt_descriptors(data);
    proof {
        lemma_longest_row(data@);
    }
    longest <= num_generators
}

/// The request for the commitments to the columns of `data`, row `j` of each
/// column on generator `j` of an array of `num_generators` generators that
/// the caller supplies. No column may be longer than that array.
pub fn compute_commitments_with_generators_request<'a, T: Descriptor>(
    data: &'a [T],
    num_commitments: usize,
    num_generators: usize,
) -> (request: CommitmentRequest<'a>)
    requires
        all_describable(data@),
        data@.len() == num_commitments,
        data@.len() <= u32::MAX,
        generators_cover(data@, num_generators as nat),
    ensures
        request.describes(data@),
        request.generators == Generators::Supplied(num_generators),
        request.covered(),
{
    let (descriptors, _longest_row) = to_sxt_descriptors(data);
    proof {
        assert forall|i: int| 0 <= i < descriptors@.len() implies (#[trigger] descriptors@[i])@.n
            <= num_generators by {
            data@[i].lemma_descriptor_rows();
            assert(data@[i].rows() <= num_generators);
        }
    }
    CommitmentRequest {
        num_sequences: data.len() as u32,
        descriptors,
        generators: Generators::Supplied(num_generators),
    }
}

/// Every one of `points` is the canonical encoding of a Ristretto point.
pub open spec fn all_ristretto(points: Seq<[u8; 32]>) -> bool {
    forall|i: int| 0 <= i < points.len() ==> is_ristretto((#[trigger] points[i])@)
}

/// Whether every one of `points` decompresses.
pub fn all_decompress(points: &[[u8; 32]]) -> (valid: bool)
    ensures
        valid == all_ristretto(points@),
{
    let mut i: usize = 0;
    while i < points.len()
        invariant
            i <= points@.len(),
            forall|j: int| 0 <= j < i ==> is_ristretto((#[trigger] points@[j])@),
        decreases points@.len() - i,
    {
        if !decompresses(&points[i]) {
            return false;
        }
        i += 1;
    }
    true
}

/// Adds to each commitment the partial commitment of the same column:
/// `commitments[i]` becomes `commitments[i] + partial_commitments[i]`, the
/// points added as group elements and the sum compressed again.
///
/// This is how a commitment is extended by rows that have become available:
/// the backend commits to the new rows alone, at their offset, and the result
/// is added to the commitment that exists.
pub fn update_curve25519_commitments(
    commitments: &mut Vec<[u8; 32]>,
    partial_commitments: &[[u8; 32]],
)
    requires
        old(commitments)@.len() == partial_commitments@.len(),
        all_ristretto(old(commitments)@),
        all_ristretto(partial_commitments@),
    ensures
        final(commitments)@.len() == old(commitments)@.len(),
        forall|i: int|
            0 <= i < old(commitments)@.len() ==> (#[trigger] final(commitments)@[i])@
                == ristretto_sum(old(commitments)@[i]@, partial_commitments@[i]@),
{
    let num_columns = commitments.len();
    let mut i: usize = 0;
    while i < num_columns
        invariant
            i <= num_columns,
            num_columns == old(commitments)@.len(),
            commitments@.len() == num_columns,
            partial_commitments@.len() == num_columns,
            all_ristretto(old(commitments)@),
            all_ristretto(partial_commitments@),
            forall|j: int|
                0 <= j < i ==> (#[trigger] commitments@[j])@ == ristretto_sum(
                    old(commitments)@[j]@,
                    partial_commitments@[j]@,
                ),
            forall|j: int| i <= j < num_columns ==> commitments@[j] == old(commitments)@[j],
        decreases num_columns - i,
    {
        let sum = add_compressed(&commitments[i], &partial_commitments[i]);
        match sum {
            Some(s) => {
                commitments[i] = s;
            },
            None => {
                proof {
                    assert(is_ristretto(old(commitments)@[i as int]@));
                    assert(is_ristretto(partial_commitments@[i as int]@));
                }
            },
        }
        i += 1;
    }
}

/// Updates the commitments as [`update_curve25519_commitments`] does where
/// there is one partial commitment for each commitment and all of them
/// decompress, and says so; otherwise leaves the commitments as they are.
pub fn try_update_curve25519_commitments(
    commitments: &mut Vec<[u8; 32]>,
    partial_commitments: &[[u8; 32]],
) -> (updated: bool)
    ensures
        updated == (old(commitments)@.len() == partial_commitments@.len() && all_ristretto(
            old(commitments)@,
        ) && all_ristretto(partial_commitments@)),
        final(commitments)@.len() == old(commitments)@.len(),
        updated ==> forall|i: int|
            0 <= i < old(commitments)@.len() ==> (#[trigger] final(commitments)@[i])@
                == ristretto_sum(old(commitments)@[i]@, partial_commitments@[i]@),
        !updated ==> final(commitments)@ == old(commitments)@,
{
    if commitments.len() != partial_commitments.len() {
        return false;
    }
    if !all_decompress(commitments.as_slice()) || !all_decompress(partial_commitments) {
        return false;
    }
    update_curve25519_commitments(commitments, partial_commitments);
    true
}

} // verus!
