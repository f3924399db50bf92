//! Public parameters of the protocol.
use vstd::arithmetic::power2::{lemma_pow2_strictly_increases, lemma_pow2_unfold, pow2};
use vstd::prelude::*;

use crate::primitives::arithmetic::{pairing_sum, Group, Pairing};
use crate::primitives::poly::pow2_usize;

verus! {

/// `⟨a, b⟩ = Σ e(a[i], b[i])` over the first `n` entries.
pub open spec fn inner_pairing<E: Pairing>(a: Seq<E::G1>, b: Seq<E::G2>, n: nat) -> E::GT {
    pairing_sum(|p: E::G1, q: E::G2| E::pair_spec(p, q), a, b, n)
}

/// `Δ₁L` for rounds with `2^k` elements: `⟨Γ₁[..2^(k-1)], Γ₂[..2^(k-1)]⟩` (the identity for `k = 0`).
pub open spec fn delta_1l_spec<E: Pairing>(g1: Seq<E::G1>, g2: Seq<E::G2>, k: nat) -> E::GT {
    if k == 0 {
        E::GT::identity_spec()
    } else {
        let half = pow2((k - 1) as nat);
        inner_pairing::<E>(g1.subrange(0, half as int), g2.subrange(0, half as int), half)
    }
}

/// `Δ₁R` for rounds with `2^k` elements: `⟨Γ₁[2^(k-1)..2^k], Γ₂[..2^(k-1)]⟩`.
pub open spec fn delta_1r_spec<E: Pairing>(g1: Seq<E::G1>, g2: Seq<E::G2>, k: nat) -> E::GT {
    if k == 0 {
        E::GT::identity_spec()
    } else {
        let half = pow2((k - 1) as nat);
        inner_pairing::<E>(
            g1.subrange(half as int, (2 * half) as int),
            g2.subrange(0, half as int),
            half,
        )
    }
}

/// `Δ₂R` for rounds with `2^k` elements: `⟨Γ₁[..2^(k-1)], Γ₂[2^(k-1)..2^k]⟩`.
pub open spec fn delta_2r_spec<E: Pairing>(g1: Seq<E::G1>, g2: Seq<E::G2>, k: nat) -> E::GT {
    if k == 0 {
        E::GT::identity_spec()
    } else {
        let half = pow2((k - 1) as nat);
        inner_pairing::<E>(
            g1.subrange(0, half as int),
            g2.subrange(half as int, (2 * half) as int),
            half,
        )
    }
}

/// The prover's public parameters: the generator vectors Γ₁, Γ₂, the element Γ₂,fin, and the
/// precomputed Δ values for every round size up to `2^max_log_n`.
pub struct ProverSetup<E: Pairing> {
    /// Γ₁
    pub g1_vec: Vec<E::G1>,
    /// Γ₂
    pub g2_vec: Vec<E::G2>,
    /// Γ₂,fin
    pub g_fin: E::G2,
    /// Δ₁L per round size
    pub delta_1l: Vec<E::GT>,
    /// Δ₁R per round size
    pub delta_1r: Vec<E::GT>,
    /// Δ₂L per round size
    pub delta_2l: Vec<E::GT>,
    /// Δ₂R per round size
    pub delta_2r: Vec<E::GT>,
}

/// The verifier's public parameters.
pub struct VerifierSetup<E: Pairing> {
    /// Δ₁L per round size
    pub delta_1l: Vec<E::GT>,
    /// Δ₁R per round size
    pub delta_1r: Vec<E::GT>,
    /// Δ₂L per round size
    pub delta_2l: Vec<E::GT>,
    /// Δ₂R per round size
    pub delta_2r: Vec<E::GT>,
    /// Γ₁[0]
    pub g1_0: E::G1,
    /// Γ₂[0]
    pub g2_0: E::G2,
    /// Γ₂,fin
    pub g_fin: E::G2,
}

impl<E: Pairing> ProverSetup<E> {
    /// The Δ values hold for the generators, for every round size up to `2^max_log_n`.
    pub open spec fn deltas_hold(&self, max_log_n: nat) -> bool {
        &&& self.delta_1l@.len() == max_log_n + 1
        &&& self.delta_1r@.len() == max_log_n + 1
        &&& self.delta_2l@.len() == max_log_n + 1
        &&& self.delta_2r@.len() == max_log_n + 1
        &&& forall|k: int|
            0 <= k <= max_log_n ==> #[trigger] self.delta_1l@[k] == delta_1l_spec::<E>(
                self.g1_vec@,
                self.g2_vec@,
                k as nat,
            )
        &&& forall|k: int|
            0 <= k <= max_log_n ==> #[trigger] self.delta_1r@[k] == delta_1r_spec::<E>(
                self.g1_vec@,
                self.g2_vec@,
                k as nat,
            )
        &&& forall|k: int|
            0 <= k <= max_log_n ==> #[trigger] self.delta_2l@[k] == delta_1l_spec::<E>(
                self.g1_vec@,
                self.g2_vec@,
                k as nat,
            )
        &&& forall|k: int|
            0 <= k <= max_log_n ==> #[trigger] self.delta_2r@[k] == delta_2r_spec::<E>(
                self.g1_vec@,
                self.g2_vec@,
                k as nat,
            )
    }

    /// Builds the setup from the generators, precomputing the Δ values for round sizes up to
    /// `2^max_log_n`.
    pub fn new(g1_vec: Vec<E::G1>, g2_vec: Vec<E::G2>, g_fin: E::G2, max_log_n: usize) -> (r:
        Self)
        requires
            max_log_n < usize::BITS,
            g1_vec@.len() >= pow2(max_log_n as nat),
            g2_vec@.len() >= pow2(max_log_n as nat),
        ensures
            r.g1_vec@ == g1_vec@,
            r.g2_vec@ == g2_vec@,
            r.g_fin == g_fin,
            r.deltas_hold(max_log_n as nat),
    {
        let mut delta_1l: Vec<E::GT> = Vec::new();
        let mut delta_1r: Vec<E::GT> = Vec::new();
        let mut delta_2l: Vec<E::GT> = Vec::new();
        let mut delta_2r: Vec<E::GT> = Vec::new();
        let id = E::GT::identity();
        delta_1l.push(id);
        delta_1r.push(id);
        delta_2l.push(id);
        delta_2r.push(id);
        let mut k: usize = 1;
        while k <= max_log_n
            invariant
                1 <= k <= max_log_n + 1,
                max_log_n < usize::BITS,
                g1_vec@.len() >= pow2(max_log_n as nat),
                g2_vec@.len() >= pow2(max_log_n as nat),
                delta_1l@.len() == k,
                delta_1r@.len() == k,
                delta_2l@.len() == k,
                delta_2r@.len() == k,
                forall|j: int|
                    0 <= j < k ==> #[trigger] delta_1l@[j] == delta_1l_spec::<E>(
                        g1_vec@,
                        g2_vec@,
                        j as nat,
                    ),
                forall|j: int|
                    0 <= j < k ==> #[trigger] delta_1r@[j] == delta_1r_spec::<E>(
                        g1_vec@,
                        g2_vec@,
                        j as nat,
                    ),
                forall|j: int|
                    0 <= j < k ==> #[trigger] delta_2l@[j] == delta_1l_spec::<E>(
                        g1_vec@,
                        g2_vec@,
                        j as nat,
                    ),
                forall|j: int|
                    0 <= j < k ==> #[trigger] delta_2r@[j] == delta_2r_spec::<E>(
                        g1_vec@,
                        g2_vec@,
                        j as nat,
                    ),
            decreases max_log_n + 1 - k,
        {
            let half = pow2_usize(k - 1);
            let _n1 = g1_vec.len();
            let _n2 = g2_vec.len();
            proof {
                lemma_pow2_unfold(k as nat);
                if k < max_log_n {
                    lemma_pow2_strictly_increases(k as nat, max_log_n as nat);
                }
                assert(2 * half <= g1_vec@.len());
                assert(2 * half <= g2_vec@.len());
            }
            let g1_lo = &g1_vec.as_slice()[0..half];
            let g1_hi = &g1_vec.as_slice()[half..2 * half];
            let g2_lo = &g2_vec.as_slice()[0..half];
            let g2_hi = &g2_vec.as_slice()[half..2 * half];
            let d1l = E::multi_pair(g1_lo, g2_lo);
            let d1r = E::multi_pair(g1_hi, g2_lo);
            let d2r = E::multi_pair(g1_lo, g2_hi);
            delta_1l.push(d1l);
            delta_1r.push(d1r);
            delta_2l.push(d1l);
            delta_2r.push(d2r);
            k = k + 1;
        }
        ProverSetup { g1_vec, g2_vec, g_fin, delta_1l, delta_1r, delta_2l, delta_2r }
    }

    /// Γ₁
    pub fn g1_vec(&self) -> (r: &[E::G1])
        ensures
            r@ == self.g1_vec@,
    {
        self.g1_vec.as_slice()
    }

    /// Γ₂
    pub fn g2_vec(&self) -> (r: &[E::G2])
        ensures
            r@ == self.g2_vec@,
    {
        self.g2_vec.as_slice()
    }

    /// Γ₂,fin
    pub fn g_fin(&self) -> (r: &E::G2)
        ensures
            *r == self.g_fin,
    {
        &self.g_fin
    }

    /// The verifier's part of the setup.
    pub fn to_verifier_setup(&self) -> (r: VerifierSetup<E>)
        requires
            self.g1_vec@.len() > 0,
            self.g2_vec@.len() > 0,
        ensures
            r.delta_1l@ == self.delta_1l@,
            r.delta_1r@ == self.delta_1r@,
            r.delta_2l@ == self.delta_2l@,
            r.delta_2r@ == self.delta_2r@,
            r.g1_0 == self.g1_vec@[0],
            r.g2_0 == self.g2_vec@[0],
            r.g_fin == self.g_fin,
    {
        VerifierSetup {
            delta_1l: copy_vec(&self.delta_1l),
            delta_1r: copy_vec(&self.delta_1r),
            delta_2l: copy_vec(&self.delta_2l),
            delta_2r: copy_vec(&self.delta_2r),
            g1_0: self.g1_vec[0],
            g2_0: self.g2_vec[0],
            g_fin: self.g_fin,
        }
    }
}

/// A copy of a vector of `Copy` values.
pub fn copy_vec<T: Copy>(v: &Vec<T>) -> (r: Vec<T>)
    ensures
        r@ == v@,
{
    let mut r: Vec<T> = Vec::new();
    let mut i: usize = 0;
    while i < v.len()
        invariant
            i <= v@.len(),
            r@ == v@.subrange(0, i as int),
        decreases v@.len() - i,
    {
        r.push(v[i]);
        assert(r@ =~= v@.subrange(0, (i + 1) as int));
        i = i + 1;
    }
    assert(r@ =~= v@);
    r
}

} // verus!
