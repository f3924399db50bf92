//! Fiat–Shamir transcripts.
use vstd::prelude::*;

use crate::primitives::arithmetic::{Field, Group};

verus! {

/// A Fiat–Shamir transcript: it absorbs labelled byte strings and derives challenges that are
/// a function of everything absorbed so far.
pub trait Transcript: Sized {
    /// The scalar field of the challenges.
    type Scalar: Field;

    /// The bytes absorbed so far.
    spec fn absorbed(&self) -> Seq<u8>;

    /// The bytes absorbed for a labelled message.
    spec fn frame(label: Seq<u8>, bytes: Seq<u8>) -> Seq<u8>;

    /// The challenge drawn for `label` after absorbing `absorbed`; `None` where no valid
    /// challenge can be drawn.
    spec fn challenge_of(absorbed: Seq<u8>, label: Seq<u8>) -> Option<Self::Scalar>;

    /// The 128-bit challenge (two little-endian 64-bit limbs) drawn for `label` after absorbing
    /// `absorbed`; `None` where no valid challenge can be drawn.
    spec fn challenge_u128_of(absorbed: Seq<u8>, label: Seq<u8>) -> Option<[u64; 2]>;

    /// Append arbitrary bytes.
    fn append_bytes(&mut self, label: &[u8], bytes: &[u8])
        ensures
            final(self).absorbed() == old(self).absorbed() + Self::frame(label@, bytes@),
    ;

    /// Append a single field element (as its canonical little-endian bytes).
    fn append_field(&mut self, label: &[u8], x: &Self::Scalar)
        ensures
            final(self).absorbed() == old(self).absorbed() + Self::frame(label@, x.bytes_spec()),
    {
        let bytes = x.to_bytes_le();
        self.append_bytes(label, bytes.as_slice());
    }

    /// Append any `Group` element in compressed form
    fn append_group<G: Group>(&mut self, label: &[u8], g: &G)
        ensures
            final(self).absorbed() == old(self).absorbed() + Self::frame(label@, g.bytes_spec()),
    {
        let bytes = g.to_bytes();
        self.append_bytes(label, bytes.as_slice());
    }

    /// Sample a **non-zero** field element deterministically from the current state.
    fn challenge_scalar(&mut self, label: &[u8]) -> (r: Option<Self::Scalar>)
        ensures
            final(self).absorbed() == old(self).absorbed(),
            r == Self::challenge_of(old(self).absorbed(), label@),
            r matches Some(x) ==> x != Self::Scalar::zero_spec(),
    ;

    /// Sample a non-zero 128-bit challenge deterministically from the current state.
    fn challenge_u128(&mut self, label: &[u8]) -> (r: Option<[u64; 2]>)
        ensures
            final(self).absorbed() == old(self).absorbed(),
            r == Self::challenge_u128_of(old(self).absorbed(), label@),
    ;

    /// Restart the transcript over a new domain.
    fn reset(&mut self, domain_label: &[u8])
        ensures
            final(self).absorbed() == domain_label@,
    ;
}

} // verus!
