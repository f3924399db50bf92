//! The VMV commitment strategy for multilinear polynomials.
pub mod commit;
pub mod vmv_state;
