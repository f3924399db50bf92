//! Create / Verify a Dory evaluation proof
pub use crate::protocol::evaluate::{create_evaluation_proof, verify_evaluation_proof};
