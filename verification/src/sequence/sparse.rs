//! Sparse columns: explicit rows only, each tied to its row index.

use crate::encoding::{le_value, row};
use vstd::prelude::*;

verus! {

/// A view over a sparse column: only the rows that are given explicitly are
/// stored, element `i` of the data belonging to row `data_indices[i]`.
#[derive(Clone, Copy)]
pub struct SparseSequence<'a> {
    /// The bytes of the stored elements, element after element.
    pub data_slice: &'a [u8],
    /// The number of bytes of each element.
    pub element_size: usize,
    /// The row that each stored element belongs to.
    pub data_indices: &'a [u64],
}

impl<'a> SparseSequence<'a> {
    /// The column holds a whole number of elements of an accepted width, and
    /// one row index for each of them.
    pub open spec fn wf(&self) -> bool {
        &&& 0 < self.element_size <= 32
        &&& self.data_slice@.len() % (self.element_size as nat) == 0
        &&& self.spec_len() == self.data_indices@.len()
    }

    /// The number of stored elements.
    pub open spec fn spec_len(&self) -> nat {
        self.data_slice@.len() / (self.element_size as nat)
    }

    /// The number that stored element `i` holds.
    pub open spec fn element_value(&self, i: int) -> nat {
        le_value(row(self.data_slice@, self.element_size as nat, i))
    }

    /// Returns the number of elements stored in the column.
    pub fn len(&self) -> (n: usize)
        requires
            self.element_size > 0,
        ensures
            n == self.spec_len(),
    {
        self.data_slice.len() / self.element_size
    }

    /// Returns `true` if the column stores no element.
    pub fn is_empty(&self) -> (b: bool)
        requires
            self.element_size > 0,
        ensures
            b == (self.spec_len() == 0),
    {
        self.len() == 0
    }

    /// Whether the column is well formed: what [`Self::to_data_properties`]
    /// asks of it.
    pub fn is_valid(&self) -> (b: bool)
        ensures
            b == self.wf(),
    {
        if self.element_size == 0 || self.element_size > 32 {
            return false;
        }
        self.data_slice.len() % self.element_size == 0 && self.data_slice.len() / self.element_size
            == self.data_indices.len()
    }

    /// The element width, the number of stored elements, their bytes and
    /// their row indices.
    pub fn to_data_properties(&self) -> (p: (u8, usize, &'a [u8], &'a [u64]))
        requires
            self.wf(),
        ensures
            p.0 == self.element_size,
            p.1 == self.spec_len(),
            p.2@ == self.data_slice@,
            p.3@ == self.data_indices@,
    {
        (self.element_size as u8, self.len(), self.data_slice, self.data_indices)
    }
}

} // verus!
