//! Errors of the commitment scheme.
use vstd::prelude::*;

verus! {

/// Errors reported when proving or verifying.
#[derive(Copy, Clone, Debug, PartialEq, Eq)]
pub enum DoryError {
    /// The proof did not verify.
    InvalidProof,
    /// The transcript produced a zero challenge, which the protocol cannot invert.
    ZeroChallenge,
}

} // verus!
