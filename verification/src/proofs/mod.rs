//! Proof primitives: what the library decides before and after the backend
//! does the group arithmetic.

pub mod error;
pub mod field;
pub mod inner_product;
pub mod rounds;
pub mod sumcheck;
pub mod sumcheck_transcript;

pub use error::ProofError;
pub use field::FieldId;
pub use inner_product::InnerProductProof;
pub use sumcheck::SumcheckProof;
pub use sumcheck_transcript::SumcheckTranscript;
