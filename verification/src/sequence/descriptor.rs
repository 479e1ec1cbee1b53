//! The normalised form of a column that the backend consumes.

use crate::sequence::element::{flattened, SequenceElement};
use crate::sequence::Sequence;
use vstd::prelude::*;

verus! {

/// What the backend is told about one column: the width of its elements, the
/// number of rows, how to read them, and where they are.
#[derive(Clone, Copy)]
pub struct SequenceDescriptor<'a> {
    /// The number of bytes of each element.
    pub element_nbytes: u8,
    /// The number of elements.
    pub n: u64,
    /// The bytes of the elements.
    pub data: &'a [u8],
    /// Whether the elements are signed numbers in two's complement.
    pub is_signed: bool,
    /// For a sparse column, the row of each element.
    pub indices: Option<&'a [u64]>,
}

/// The mathematical content of a [`SequenceDescriptor`].
pub struct DescriptorView {
    pub element_nbytes: nat,
    pub n: nat,
    pub data: Seq<u8>,
    pub is_signed: bool,
    pub indices: Option<Seq<u64>>,
}

impl<'a> View for SequenceDescriptor<'a> {
    type V = DescriptorView;

    open spec fn view(&self) -> DescriptorView {
        DescriptorView {
            element_nbytes: self.element_nbytes as nat,
            n: self.n as nat,
            data: self.data@,
            is_signed: self.is_signed,
            indices: match self.indices {
                Some(rows) => Some(rows@),
                None => None,
            },
        }
    }
}

/// Anything that can be handed to the backend as one column.
pub trait Descriptor {
    /// What has to hold of the column before it can be described.
    spec fn describable(&self) -> bool;

    /// The number of elements of the column.
    spec fn rows(&self) -> nat;

    /// The descriptor of the column.
    spec fn descriptor(&self) -> DescriptorView;

    /// The descriptor tells the number of elements of the column.
    proof fn lemma_descriptor_rows(&self)
        ensures
            self.descriptor().n == self.rows(),
    ;

    /// Returns the number of elements referenced by the descriptor.
    fn len(&self) -> (n: usize)
        requires
            self.describable(),
        ensures
            n == self.rows(),
    ;

    /// Returns `true` if the column is sparse.
    fn is_sparse(&self) -> (b: bool)
        ensures
            b == self.descriptor().indices.is_some(),
    ;

    /// Returns the number of rows and the descriptor of the column.
    fn to_sxt_descriptor(&self) -> (r: (usize, SequenceDescriptor<'_>))
        requires
            self.describable(),
        ensures
            r.0 == self.rows(),
            r.1@ == self.descriptor(),
    ;
}

impl<'a> Descriptor for Sequence<'a> {
    open spec fn describable(&self) -> bool {
        self.wf()
    }

    open spec fn rows(&self) -> nat {
        self.spec_len()
    }

    open spec fn descriptor(&self) -> DescriptorView {
        DescriptorView {
            element_nbytes: self.spec_element_size() as nat,
            n: self.spec_len(),
            data: self.spec_data(),
            is_signed: self.spec_is_signed(),
            indices: match self {
                Sequence::Dense(_) => None,
                Sequence::Sparse(y) => Some(y.data_indices@),
            },
        }
    }

    proof fn lemma_descriptor_rows(&self) {
    }

    fn len(&self) -> (n: usize) {
        match self {
            Sequence::Dense(x) => x.len(),
            Sequence::Sparse(y) => y.len(),
        }
    }

    fn is_sparse(&self) -> (b: bool) {
        match self {
            Sequence::Dense(_) => false,
            Sequence::Sparse(_) => true,
        }
    }

    fn to_sxt_descriptor(&self) -> (r: (usize, SequenceDescriptor<'_>)) {
        match self {
            Sequence::Dense(x) => {
                let (element_nbytes, num_rows, data) = x.to_data_properties();
                (
                    num_rows,
                    SequenceDescriptor {
                        element_nbytes,
                        n: num_rows as u64,
                        data,
                        is_signed: x.is_signed,
                        indices: None,
                    },
                )
            },
            Sequence::Sparse(y) => {
                let (element_nbytes, num_rows, data, indices) = y.to_data_properties();
                (
                    num_rows,
                    SequenceDescriptor {
                        element_nbytes,
                        n: num_rows as u64,
                        data,
                        is_signed: false,
                        indices: Some(indices),
                    },
                )
            },
        }
    }
}

/// The descriptor of a column of thirty-two-byte scalars.
pub open spec fn scalars_descriptor(scalars: Seq<[u8; 32]>) -> DescriptorView {
    DescriptorView {
        element_nbytes: 32,
        n: scalars.len(),
        data: flattened(scalars),
        is_signed: false,
        indices: None,
    }
}

impl<'a> Descriptor for &'a [[u8; 32]] {
    open spec fn describable(&self) -> bool {
        true
    }

    open spec fn rows(&self) -> nat {
        self@.len()
    }

    open spec fn descriptor(&self) -> DescriptorView {
        scalars_descriptor(self@)
    }

    proof fn lemma_descriptor_rows(&self) {
    }

    fn len(&self) -> (n: usize) {
        <[[u8; 32]]>::len(self)
    }

    fn is_sparse(&self) -> (b: bool) {
        false
    }

    fn to_sxt_descriptor(&self) -> (r: (usize, SequenceDescriptor<'_>)) {
        let num_rows = <[[u8; 32]]>::len(self);
        (
            num_rows,
            SequenceDescriptor {
                element_nbytes: 32,
                n: num_rows as u64,
                data: <[u8; 32] as SequenceElement>::as_bytes(self),
                is_signed: false,
                indices: None,
            },
        )
    }
}

impl Descriptor for Vec<[u8; 32]> {
    open spec fn describable(&self) -> bool {
        true
    }

    open spec fn rows(&self) -> nat {
        self@.len()
    }

    open spec fn descriptor(&self) -> DescriptorView {
        scalars_descriptor(self@)
    }

    proof fn lemma_descriptor_rows(&self) {
    }

    fn len(&self) -> (n: usize) {
        Vec::len(self)
    }

    fn is_sparse(&self) -> (b: bool) {
        false
    }

    fn to_sxt_descriptor(&self) -> (r: (usize, SequenceDescriptor<'_>)) {
        let num_rows = Vec::len(self);
        (
            num_rows,
            SequenceDescriptor {
                element_nbytes: 32,
                n: num_rows as u64,
                data: <[u8; 32] as SequenceElement>::as_bytes(self.as_slice()),
                is_signed: false,
                indices: None,
            },
        )
    }
}

/// The number of rows of the longest of the columns; zero where there is none.
pub open spec fn longest_row<T: Descriptor>(data: Seq<T>) -> nat
    decreases data.len(),
{
    if data.len() == 0 {
        0
    } else {
        let rest = longest_row(data.drop_last());
        if data.last().rows() > rest {
            data.last().rows()
        } else {
            rest
        }
    }
}

/// No column is longer than the longest row, and some column is that long.
pub proof fn lemma_longest_row<T: Descriptor>(data: Seq<T>)
    ensures
        forall|i: int| 0 <= i < data.len() ==> (#[trigger] data[i]).rows() <= longest_row(data),
        data.len() > 0 ==> exists|i: int|
            0 <= i < data.len() && (#[trigger] data[i]).rows() == longest_row(data),
    decreases data.len(),
{
    if data.len() > 0 {
        let front = data.drop_last();
        lemma_longest_row(front);
        assert forall|i: int| 0 <= i < data.len() implies (#[trigger] data[i]).rows()
            <= longest_row(data) by {
            if i < front.len() {
                assert(data[i] == front[i]);
            }
        }
        if data.last().rows() > longest_row(front) || front.len() == 0 {
            assert(data[data.len() - 1].rows() == longest_row(data));
        } else {
            let j = choose|j: int| 0 <= j < front.len() && (#[trigger] front[j]).rows()
                == longest_row(front);
            assert(data[j] == front[j]);
        }
    }
}

/// Converts a table of columns to the descriptors the backend takes, and
/// returns with them the number of rows of the longest column.
pub fn to_sxt_descriptors<T: Descriptor>(data: &[T]) -> (r: (Vec<SequenceDescriptor<'_>>, usize))
    requires
        forall|i: int| 0 <= i < data@.len() ==> (#[trigger] data@[i]).describable(),
    ensures
        r.0@.len() == data@.len(),
        forall|i: int| 0 <= i < data@.len() ==> (#[trigger] r.0@[i])@ == data@[i].descriptor(),
        r.1 == longest_row(data@),
{
    let mut longest_row: usize = 0;
    let num_sequences = data.len();
    let mut descriptors: Vec<SequenceDescriptor<'_>> = Vec::with_capacity(num_sequences);
    let mut i: usize = 0;
    while i < num_sequences
        invariant
            num_sequences == data@.len(),
            i <= num_sequences,
            descriptors@.len() == i,
            forall|j: int| 0 <= j < data@.len() ==> (#[trigger] data@[j]).describable(),
            forall|j: int| 0 <= j < i ==> (#[trigger] descriptors@[j])@ == data@[j].descriptor(),
            longest_row == self::longest_row(data@.take(i as int)),
        decreases num_sequences - i,
    {
        let (num_rows, descriptor) = data[i].to_sxt_descriptor();
        proof {
            assert(data@.take(i + 1).drop_last() =~= data@.take(i as int));
            assert(data@.take(i + 1).last() == data@[i as int]);
        }
        if num_rows > longest_row {
            longest_row = num_rows;
        }
        descriptors.push(descriptor);
        i += 1;
    }
    proof {
        assert(data@.take(num_sequences as int) =~= data@);
    }
    (descriptors, longest_row)
}

} // verus!
