//! Verified front end of a batched Pedersen-commitment engine.
//!
//! The library normalises heterogeneous columns of data into the descriptors a
//! commitment backend consumes, validates every request before it is handed to
//! the backend, and post-processes what the backend returns. The group
//! arithmetic itself is the backend's business.

pub mod encoding;
pub mod sequence;
pub mod proofs;
pub mod compute;
