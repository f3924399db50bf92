//! Types shared with the recursion support of the proof.
use vstd::prelude::*;

verus! {

/// Used for recursion poly tracking. Without recursion support the steps of a GT
/// exponentiation carry no data.
#[derive(Copy, Clone, Debug, Default, PartialEq, Eq, Hash)]
pub struct ExponentiationSteps;

/// The GT exponentiation steps recorded for recursion, if any.
pub type RecursionOps = Option<Vec<ExponentiationSteps>>;

} // verus!
