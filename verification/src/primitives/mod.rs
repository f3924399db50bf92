//! Algebraic primitives, polynomials and transcripts.
pub mod arithmetic;
pub mod bn254;
pub mod poly;
pub mod toy_transcript;
pub mod transcript;
pub mod sums;
pub mod folding;
