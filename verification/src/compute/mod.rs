//! Commitment and generator computation: the part of it that is decided
//! before the backend is called and after it has returned.

pub mod backend;
pub mod commitments;
pub mod conversion;
pub mod curve;
pub mod element_p2;
pub mod field;
pub mod fixed_msm;
pub mod ristretto;
