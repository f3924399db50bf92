//! The Dory protocol: setup, prover and verifier state, proof builders and the PCS.
pub mod setup;
pub mod state;
pub mod interactive_protocol;
pub mod recursion_prelude;
pub mod builder;
pub mod inner_product;
pub mod commit;
pub mod evaluate;
pub mod offload;
pub mod pcs;
pub mod correctness;
pub mod completeness;
pub mod matrix_form;
