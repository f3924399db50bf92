//! GT offloading abstraction for recursive SNARKs
//!
//! This module provides a clean abstraction for offloading expensive GT exponentiations
//! from the verification circuit to the proof generation phase. Without recursion support no
//! precomputed results are held, and every exponentiation is computed natively.
use vstd::prelude::*;

use crate::primitives::arithmetic::{Group, Pairing};

verus! {

/// Context for managing offloaded GT operations
pub struct OffloadContext {
    _phantom: (),
}

impl OffloadContext {
    /// Create a new empty offload context
    pub fn new() -> (r: Self)
        ensures
            !r.is_offloading_enabled_spec(),
    {
        Self { _phantom: () }
    }

    /// Whether precomputed results are held.
    pub open spec fn is_offloading_enabled_spec(&self) -> bool {
        false
    }

    /// Check if offloading is available
    pub fn is_offloading_enabled(&self) -> (r: bool)
        ensures
            r == self.is_offloading_enabled_spec(),
    {
        false
    }
}

impl Default for OffloadContext {
    fn default() -> (r: Self)
        ensures
            !r.is_offloading_enabled_spec(),
    {
        Self::new()
    }
}

/// Helper function for GT scaling with optional offloading: the context holds no precomputed
/// result, so this is `value·scalar` computed natively.
pub fn scale_gt_with_offload<E: Pairing>(
    value: &E::GT,
    scalar: &<E::GT as Group>::Scalar,
    ctx: &mut OffloadContext,
) -> (r: E::GT)
    ensures
        r == value.scale_spec(*scalar),
        *final(ctx) == *old(ctx),
{
    // Fall back to native scaling
    value.scale(scalar)
}

} // verus!
