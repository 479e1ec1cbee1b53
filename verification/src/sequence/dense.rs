//! Dense columns: a contiguous run of fixed-width elements.

use crate::encoding::row;
use crate::sequence::element::{row_number, SequenceElement};
use vstd::endian::{endianness, Endian};
use vstd::prelude::*;
use vstd::std_specs::convert::FromSpecImpl;

verus! {

/// A view over a contiguous column of fixed-width elements.
///
/// The column never owns its bytes: it borrows them from the caller for as
/// long as it is used.
#[derive(Clone, Copy)]
pub struct DenseSequence<'a> {
    /// The bytes of the column, element after element.
    pub data_slice: &'a [u8],
    /// The number of bytes of each element.
    pub element_size: usize,
    /// Whether the elements are signed numbers in two's complement.
    pub is_signed: bool,
}

/// The element widths the backend accepts: one to thirty-two bytes for
/// unsigned elements, one to sixteen for signed ones.
pub open spec fn valid_element_size(element_size: nat, is_signed: bool) -> bool {
    0 < element_size && element_size <= (if is_signed {
        16nat
    } else {
        32nat
    })
}

impl<'a> DenseSequence<'a> {
    /// The column holds a whole number of elements of an accepted width.
    pub open spec fn wf(&self) -> bool {
        &&& valid_element_size(self.element_size as nat, self.is_signed)
        &&& self.data_slice@.len() % (self.element_size as nat) == 0
    }

    /// The number of rows of the column.
    pub open spec fn spec_len(&self) -> nat {
        self.data_slice@.len() / (self.element_size as nat)
    }

    /// The bytes of row `i`.
    pub open spec fn row_bytes(&self, i: int) -> Seq<u8> {
        row(self.data_slice@, self.element_size as nat, i)
    }

    /// The number that row `i` holds: its bytes read as a little-endian
    /// integer, in two's complement where the column is signed.
    pub open spec fn row_value(&self, i: int) -> int {
        row_number(self.data_slice@, self.element_size as nat, self.is_signed, i)
    }

    /// The scalar that row `i` stands for in a field of order `order`: a
    /// negative value `-v` is mapped to `order - v`.
    pub open spec fn row_scalar(&self, i: int, order: nat) -> nat {
        (self.row_value(i) % (order as int)) as nat
    }

    /// Returns the number of elements in the column.
    pub fn len(&self) -> (n: usize)
        requires
            self.element_size > 0,
        ensures
            n == self.spec_len(),
    {
        self.data_slice.len() / self.element_size
    }

    /// Returns `true` if the column has no elements.
    pub fn is_empty(&self) -> (b: bool)
        requires
            self.element_size > 0,
        ensures
            b == (self.spec_len() == 0),
    {
        self.len() == 0
    }

    /// Whether the column is well formed: what [`Self::to_data_properties`]
    /// asks of it.
    pub fn is_valid(&self) -> (b: bool)
        ensures
            b == self.wf(),
    {
        if self.element_size == 0 {
            return false;
        }
        let limit: usize = if self.is_signed {
            16
        } else {
            32
        };
        self.element_size <= limit && self.data_slice.len() % self.element_size == 0
    }

    /// The element width, the number of rows and the bytes of the column.
    pub fn to_data_properties(&self) -> (p: (u8, usize, &'a [u8]))
        requires
            self.wf(),
        ensures
            p.0 == self.element_size,
            p.1 == self.spec_len(),
            p.2@ == self.data_slice@,
    {
        (self.element_size as u8, self.len(), self.data_slice)
    }

    /// A dense view over a column of elements, with the width and signedness
    /// of the element type.
    pub fn from_elements<T: SequenceElement>(column: &'a [T]) -> (d: Self)
        ensures
            d.data_slice@ == T::image(column@),
            d.element_size == T::spec_width(),
            d.is_signed == T::spec_is_signed(),
            d.spec_len() == column@.len() || T::spec_width() == 0,
            d.wf() <==> valid_element_size(T::spec_width(), T::spec_is_signed()),
    {
        proof {
            lemma_whole_rows(column@.len(), T::spec_width());
        }
        DenseSequence {
            data_slice: T::as_bytes(column),
            element_size: T::width(),
            is_signed: T::is_signed(),
        }
    }
}

/// `rows * width` bytes are exactly `rows` elements of `width` bytes.
pub proof fn lemma_whole_rows(rows: nat, width: nat)
    ensures
        width > 0 ==> (rows * width) % width == 0 && (rows * width) / width == rows,
{
    if width > 0 {
        vstd::arithmetic::div_mod::lemma_fundamental_div_mod_converse(
            (rows * width) as int,
            width as int,
            rows as int,
            0,
        );
    }
}

/// On a little-endian machine, the rows of a column made from a slice of
/// elements hold the numbers the elements stand for, whatever the width of the
/// element type.
pub proof fn lemma_rows_of_elements<T: SequenceElement>(d: DenseSequence<'_>, column: Seq<T>, i: int)
    requires
        endianness() == Endian::Little,
        d.data_slice@ == T::image(column),
        d.element_size == T::spec_width(),
        d.is_signed == T::spec_is_signed(),
        0 <= i < column.len(),
    ensures
        d.row_value(i) == column[i].value(),
{
    T::lemma_row_number(column, i);
}

/// Columns made from slices of any two element types hold the same number
/// in every row in which the elements of the two slices stand for the same
/// number, whatever the widths of the two types: the backend is asked to
/// commit to the same values.
pub proof fn lemma_same_numbers_in_any_width<A: SequenceElement, B: SequenceElement>(
    a: DenseSequence<'_>,
    column_a: Seq<A>,
    b: DenseSequence<'_>,
    column_b: Seq<B>,
    i: int,
)
    requires
        endianness() == Endian::Little,
        a.data_slice@ == A::image(column_a),
        a.element_size == A::spec_width(),
        a.is_signed == A::spec_is_signed(),
        b.data_slice@ == B::image(column_b),
        b.element_size == B::spec_width(),
        b.is_signed == B::spec_is_signed(),
        0 <= i < column_a.len(),
        i < column_b.len(),
        column_a[i].value() == column_b[i].value(),
    ensures
        a.row_value(i) == b.row_value(i),
        forall|order: nat| a.row_scalar(i, order) == b.row_scalar(i, order),
{
    lemma_rows_of_elements(a, column_a, i);
    lemma_rows_of_elements(b, column_b, i);
}

/// A row that holds a negative number `-v` stands for the scalar
/// `order - v`, and a row that holds a number that is not negative stands for
/// that number, as long as it is within the order of the field.
pub proof fn lemma_row_scalar(d: DenseSequence<'_>, i: int, order: nat)
    requires
        order > 0,
        -(order as int) <= d.row_value(i) < order,
    ensures
        d.row_value(i) < 0 ==> d.row_scalar(i, order) == order + d.row_value(i),
        d.row_value(i) >= 0 ==> d.row_scalar(i, order) == d.row_value(i),
{
    let v = d.row_value(i);
    if v < 0 {
        vstd::arithmetic::div_mod::lemma_fundamental_div_mod_converse(
            v,
            order as int,
            -1,
            order + v,
        );
    } else {
        vstd::arithmetic::div_mod::lemma_small_mod(v as nat, order);
    }
}

/// The slice whose elements are `bytes`.
pub open spec fn slice_of(bytes: Seq<u8>) -> &'static [u8] {
    choose|s: &'static [u8]| s@ == bytes
}

impl<'a, T: SequenceElement> FromSpecImpl<&'a [T]> for DenseSequence<'a> {
    open spec fn obeys_from_spec() -> bool {
        true
    }

    open spec fn from_spec(column: &'a [T]) -> Self {
        DenseSequence {
            data_slice: slice_of(T::image(column@)),
            element_size: T::spec_width() as usize,
            is_signed: T::spec_is_signed(),
        }
    }
}

impl<'a, T: SequenceElement> From<&'a [T]> for DenseSequence<'a> {
    fn from(column: &'a [T]) -> (d: Self) {
        let d = DenseSequence::from_elements(column);
        proof {
            broadcast use vstd::slice::axiom_slice_ext_equal;

            assert(d.data_slice@ == T::image(column@));
            assert(slice_of(T::image(column@))@ == T::image(column@));
            assert(d.data_slice =~= slice_of(T::image(column@)));
        }
        d
    }
}

} // verus!
