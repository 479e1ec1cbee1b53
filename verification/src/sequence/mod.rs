//! Columns of data and the descriptors the backend consumes.

pub mod data;
pub mod dense;
pub mod descriptor;
pub mod element;
pub mod sparse;

pub use data::DenseSequenceData;
pub use dense::DenseSequence;
pub use descriptor::{to_sxt_descriptors, Descriptor, SequenceDescriptor};
pub use element::SequenceElement;
pub use sparse::SparseSequence;

use crate::sequence::dense::{lemma_whole_rows, slice_of, valid_element_size};
use vstd::prelude::*;
use vstd::std_specs::convert::FromSpecImpl;

verus! {

/// One logical column of input data, dense or sparse, so that columns of both
/// kinds can stand in one table.
#[derive(Clone, Copy)]
pub enum Sequence<'a> {
    /// A contiguous run of fixed-width elements.
    Dense(DenseSequence<'a>),
    /// A run of elements, each tied to its row index.
    Sparse(SparseSequence<'a>),
}

impl<'a> Sequence<'a> {
    /// The column is well formed in the sense of its kind.
    pub open spec fn wf(&self) -> bool {
        match self {
            Sequence::Dense(x) => x.wf(),
            Sequence::Sparse(y) => y.wf(),
        }
    }

    /// The number of elements the column stores.
    pub open spec fn spec_len(&self) -> nat {
        match self {
            Sequence::Dense(x) => x.spec_len(),
            Sequence::Sparse(y) => y.spec_len(),
        }
    }

    /// The number of bytes of each element.
    pub open spec fn spec_element_size(&self) -> usize {
        match self {
            Sequence::Dense(x) => x.element_size,
            Sequence::Sparse(y) => y.element_size,
        }
    }

    /// The bytes of the stored elements.
    pub open spec fn spec_data(&self) -> Seq<u8> {
        match self {
            Sequence::Dense(x) => x.data_slice@,
            Sequence::Sparse(y) => y.data_slice@,
        }
    }

    /// Whether the elements are signed numbers. Sparse columns are unsigned.
    pub open spec fn spec_is_signed(&self) -> bool {
        match self {
            Sequence::Dense(x) => x.is_signed,
            Sequence::Sparse(_) => false,
        }
    }

    /// Returns the number of elements in the column.
    pub fn len(&self) -> (n: usize)
        requires
            self.spec_element_size() > 0,
        ensures
            n == self.spec_len(),
    {
        match self {
            Sequence::Dense(x) => x.len(),
            Sequence::Sparse(y) => y.len(),
        }
    }

    /// Returns `true` if the column has no elements.
    pub fn is_empty(&self) -> (b: bool)
        requires
            self.spec_element_size() > 0,
        ensures
            b == (self.spec_len() == 0),
    {
        self.len() == 0
    }

    /// Returns `true` if the column is sparse.
    pub fn is_sparse(&self) -> (b: bool)
        ensures
            b == (self is Sparse),
    {
        match self {
            Sequence::Dense(_) => false,
            Sequence::Sparse(_) => true,
        }
    }

    /// Whether the column is well formed.
    pub fn is_valid(&self) -> (b: bool)
        ensures
            b == self.wf(),
    {
        match self {
            Sequence::Dense(x) => x.is_valid(),
            Sequence::Sparse(y) => y.is_valid(),
        }
    }

    /// The number of bytes of each element.
    pub fn element_size(&self) -> (w: usize)
        ensures
            w == self.spec_element_size(),
    {
        match self {
            Sequence::Dense(x) => x.element_size,
            Sequence::Sparse(y) => y.element_size,
        }
    }

    /// The number of bytes of each element, as the backend takes it.
    pub fn num_bytes(&self) -> (w: u8)
        requires
            self.spec_element_size() <= 32,
        ensures
            w == self.spec_element_size(),
    {
        self.element_size() as u8
    }

    /// The bytes of the stored elements.
    pub fn data_slice(&self) -> (bytes: &'a [u8])
        ensures
            bytes@ == self.spec_data(),
    {
        match self {
            Sequence::Dense(x) => x.data_slice,
            Sequence::Sparse(y) => y.data_slice,
        }
    }

    /// Whether the elements are signed numbers.
    pub fn is_signed(&self) -> (s: bool)
        ensures
            s == self.spec_is_signed(),
    {
        match self {
            Sequence::Dense(x) => x.is_signed,
            Sequence::Sparse(_) => false,
        }
    }

    /// Whether `element_size` is a width the backend accepts for elements of
    /// the given signedness, and `byte_length` bytes are a whole number of
    /// such elements: what [`Self::from_raw_parts_with_size`] asks for.
    pub fn accepts(byte_length: usize, element_size: usize, is_signed: bool) -> (b: bool)
        ensures
            b == (valid_element_size(element_size as nat, is_signed) && byte_length as nat % (
            element_size as nat) == 0),
    {
        if element_size == 0 {
            return false;
        }
        let limit: usize = if is_signed {
            16
        } else {
            32
        };
        element_size <= limit && byte_length % element_size == 0
    }

    /// A dense column over the memory of `slice`, each element of the slice
    /// being one element of the column, read as signed if `is_signed`.
    ///
    /// The width of the element type must be between one and sixteen bytes if
    /// `is_signed`, and between one and thirty-two bytes otherwise.
    pub fn from_raw_parts<T: SequenceElement>(slice: &'a [T], is_signed: bool) -> (s: Self)
        requires
            valid_element_size(T::spec_width(), is_signed),
        ensures
            s.wf(),
            s is Dense,
            s.spec_data() == T::image(slice@),
            s.spec_element_size() == T::spec_width(),
            s.spec_is_signed() == is_signed,
            s.spec_len() == slice@.len(),
    {
        proof {
            lemma_whole_rows(slice@.len(), T::spec_width());
        }
        Self::from_raw_parts_with_size(slice, T::width(), is_signed)
    }

    /// A dense column over the memory of `slice`, cut into elements of
    /// `element_size` bytes, read as signed if `is_signed`.
    pub fn from_raw_parts_with_size<T: SequenceElement>(
        slice: &'a [T],
        element_size: usize,
        is_signed: bool,
    ) -> (s: Self)
        requires
            valid_element_size(element_size as nat, is_signed),
            (slice@.len() * T::spec_width()) % (element_size as nat) == 0,
        ensures
            s.wf(),
            s is Dense,
            s.spec_data() == T::image(slice@),
            s.spec_element_size() == element_size,
            s.spec_is_signed() == is_signed,
            s.spec_len() == (slice@.len() * T::spec_width()) / (element_size as nat),
    {
        Sequence::Dense(DenseSequence { data_slice: T::as_bytes(slice), element_size, is_signed })
    }
}

impl<'a, T: SequenceElement> FromSpecImpl<&'a [T]> for Sequence<'a> {
    open spec fn obeys_from_spec() -> bool {
        true
    }

    open spec fn from_spec(column: &'a [T]) -> Self {
        Sequence::Dense(
            DenseSequence {
                data_slice: slice_of(T::image(column@)),
                element_size: T::spec_width() as usize,
                is_signed: T::spec_is_signed(),
            },
        )
    }
}

impl<'a, T: SequenceElement> From<&'a [T]> for Sequence<'a> {
    /// A dense column over a slice of elements, with the width and signedness
    /// of the element type.
    fn from(column: &'a [T]) -> (s: Self) {
        let d = DenseSequence::from_elements(column);
        proof {
            broadcast use vstd::slice::axiom_slice_ext_equal;

            assert(slice_of(T::image(column@))@ == T::image(column@));
            assert(d.data_slice =~= slice_of(T::image(column@)));
        }
        Sequence::Dense(d)
    }
}

impl<'a, T: SequenceElement> FromSpecImpl<&'a Vec<T>> for Sequence<'a> {
    open spec fn obeys_from_spec() -> bool {
        true
    }

    open spec fn from_spec(column: &'a Vec<T>) -> Self {
        Sequence::Dense(
            DenseSequence {
                data_slice: slice_of(T::image(column@)),
                element_size: T::spec_width() as usize,
                is_signed: T::spec_is_signed(),
            },
        )
    }
}

impl<'a, T: SequenceElement> From<&'a Vec<T>> for Sequence<'a> {
    /// A dense column over the elements of a vector.
    fn from(column: &'a Vec<T>) -> (s: Self) {
        let d = DenseSequence::from_elements(column.as_slice());
        proof {
            broadcast use vstd::slice::axiom_slice_ext_equal;

            assert(slice_of(T::image(column@))@ == T::image(column@));
            assert(d.data_slice =~= slice_of(T::image(column@)));
        }
        Sequence::Dense(d)
    }
}

} // verus!
