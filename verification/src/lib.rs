//! # Dory
//!
//! Dory is a polynomial commitment scheme with excellent asymptotic performance as well as
//! practical efficiency. It is based on the work of Jonathan Lee (<https://eprint.iacr.org/2020/1274.pdf>).
//!
//! This crate provides the commitment scheme as a building block for other zk/SNARK protocols.
//! Every function of the library is specified over the abstract algebra of the `Field`, `Group`
//! and `Pairing` traits and verified against that specification.

pub mod protocol;
pub mod error;
pub mod messages;
pub mod primitives;
pub mod vmv;

pub use primitives::{arithmetic, bn254, poly, toy_transcript, transcript};
pub use protocol::{
    builder, commit, evaluate, inner_product, interactive_protocol, offload, pcs,
    recursion_prelude, setup, state,
};
