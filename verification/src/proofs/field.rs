//! The fields the backend can run sumcheck over.

use vstd::prelude::*;

verus! {

/// A field element type that the backend knows by an identifier.
pub trait FieldId {
    /// The identifier of the field.
    spec fn spec_field_id() -> u32;

    /// The identifier of the field.
    fn field_id() -> (id: u32)
        ensures
            id == Self::spec_field_id(),
    ;
}

/// The identifier of the scalar field of Curve25519.
pub const FIELD_SCALAR255: u32 = 0;

/// The identifier of the base field of Grumpkin.
pub const FIELD_GRUMPKIN: u32 = 1;

/// An element of the base field of Grumpkin, as the four limbs the backend
/// reads, from the least significant one.
#[derive(Clone, Copy, Debug, Default, PartialEq, Eq)]
pub struct GrumpkinFq {
    pub limbs: [u64; 4],
}

impl FieldId for GrumpkinFq {
    open spec fn spec_field_id() -> u32 {
        FIELD_GRUMPKIN
    }

    fn field_id() -> (id: u32) {
        FIELD_GRUMPKIN
    }
}

} // verus!
