//! We implement the interactive protocol for prover <> verifier Dory proofs
//! This mainly involves the messages in the dory-reduce protocol
use vstd::arithmetic::power2::{lemma_pow2_pos, lemma_pow2_unfold, pow2};
use vstd::prelude::*;

use crate::messages::{
    FinalizeChallenge, FirstReduceChallenge, FirstReduceMessage, SecondReduceChallenge,
    SecondReduceMessage,
};
use crate::primitives::arithmetic::{msm_spec, Field, Group, MultiScalarMul, Pairing};
use crate::primitives::poly::{fold_eval_from_coords_and_alphas, fold_eval_spec, pow2_usize};
use crate::protocol::setup::{inner_pairing, ProverSetup, VerifierSetup};
use crate::protocol::state::{DoryProverState, DoryVerifierState, ProverView, VerifierView};

verus! {

/// `2^(nu-1)`: half the length of the vectors in a round with `2^nu` elements.
pub open spec fn half_len(nu: nat) -> nat {
    pow2((nu - 1) as nat)
}

/// The prover's first message for a state with `2^nu` elements per vector.
pub open spec fn first_reduce_message_spec<E: Pairing>(
    state: ProverView<E>,
    setup: ProverSetup<E>,
) -> FirstReduceMessage<E::G1, E::G2, E::GT> where
    E::G2: Group<Scalar = <E::G1 as Group>::Scalar>,
 {
    let h = half_len(state.nu);
    let n = pow2(state.nu);
    let g1 = setup.g1_vec@;
    let g2 = setup.g2_vec@;
    let v1 = state.v1;
    let v2 = state.v2;
    FirstReduceMessage {
        d1_left: inner_pairing::<E>(v1.subrange(0, h as int), g2.subrange(0, h as int), h),
        d1_right: inner_pairing::<E>(
            v1.subrange(h as int, v1.len() as int),
            g2.subrange(0, h as int),
            h,
        ),
        d2_left: match state.v2_scalars {
            Some(vs) => E::pair_spec(
                msm_spec::<E::G1>(g1.subrange(0, h as int), vs.subrange(0, h as int), h),
                setup.g_fin,
            ),
            None => inner_pairing::<E>(g1.subrange(0, h as int), v2.subrange(0, h as int), h),
        },
        d2_right: match state.v2_scalars {
            Some(vs) => E::pair_spec(
                msm_spec::<E::G1>(
                    g1.subrange(0, h as int),
                    vs.subrange(h as int, vs.len() as int),
                    h,
                ),
                setup.g_fin,
            ),
            None => inner_pairing::<E>(
                g1.subrange(0, h as int),
                v2.subrange(h as int, v2.len() as int),
                h,
            ),
        },
        e1_beta: msm_spec::<E::G1>(g1.subrange(0, n as int), state.s2, n),
        e2_beta: msm_spec::<E::G2>(g2.subrange(0, n as int), state.s1, n),
    }
}

/// The prover's second message: `E₁₋ = ⟨v₁L, s₂R⟩`, `E₁₊ = ⟨v₁R, s₂L⟩`, `E₂₊ = ⟨v₂R, s₁L⟩`,
/// `E₂₋ = ⟨v₂L, s₁R⟩`; `C₊`, `C₋` are not used by this variant and are the identity.
pub open spec fn second_reduce_message_spec<E: Pairing>(state: ProverView<E>) -> SecondReduceMessage<
    E::G1,
    E::G2,
    E::GT,
> where E::G2: Group<Scalar = <E::G1 as Group>::Scalar> {
    let h = half_len(state.nu);
    let n = pow2(state.nu) as int;
    let v1 = state.v1;
    let v2 = state.v2;
    let s1 = state.s1;
    let s2 = state.s2;
    SecondReduceMessage {
        c_plus: E::GT::identity_spec(),
        c_minus: E::GT::identity_spec(),
        e1_plus: msm_spec::<E::G1>(v1.subrange(h as int, n), s2.subrange(0, h as int), h),
        e1_minus: msm_spec::<E::G1>(v1.subrange(0, h as int), s2.subrange(h as int, n), h),
        e2_plus: msm_spec::<E::G2>(v2.subrange(h as int, n), s1.subrange(0, h as int), h),
        e2_minus: msm_spec::<E::G2>(v2.subrange(0, h as int), s1.subrange(h as int, n), h),
    }
}

/// The prover state after Reduce-Combine with β: `v₁ ← v₁ + β·Γ₁`, `v₂ ← v₂ + β·Γ₂`, and the
/// first-round PCS scalars dropped.
pub open spec fn combine_spec<E: Pairing>(
    state: ProverView<E>,
    setup: ProverSetup<E>,
    beta: <E::G1 as Group>::Scalar,
) -> ProverView<E> where E::G2: Group<Scalar = <E::G1 as Group>::Scalar> {
    ProverView {
        v1: Seq::new(
            state.v1.len(),
            |i: int| state.v1[i].add_spec(setup.g1_vec@[i].scale_spec(beta)),
        ),
        v2: Seq::new(
            state.v2.len(),
            |i: int| state.v2[i].add_spec(setup.g2_vec@[i].scale_spec(beta)),
        ),
        v2_scalars: None,
        ..state
    }
}

/// The prover state after folding with α: `v ← v_L + α·v_R` and `s ← α·s_L + s_R`, one round
/// fewer.
pub open spec fn fold_spec<E: Pairing>(
    state: ProverView<E>,
    alpha: <E::G1 as Group>::Scalar,
) -> ProverView<E> where E::G2: Group<Scalar = <E::G1 as Group>::Scalar> {
    let h = half_len(state.nu);
    ProverView {
        v1: Seq::new(h, |i: int| state.v1[i].add_spec(state.v1[i + h].scale_spec(alpha))),
        v2: Seq::new(h, |i: int| state.v2[i].add_spec(state.v2[i + h].scale_spec(alpha))),
        s1: Seq::new(h, |i: int| state.s1[i].mul_spec(alpha).add_spec(state.s1[i + h])),
        s2: Seq::new(h, |i: int| state.s2[i].mul_spec(alpha).add_spec(state.s2[i + h])),
        nu: (state.nu - 1) as nat,
        v2_scalars: state.v2_scalars,
    }
}

/// Below is the **prover** side of the interactive protocol for Dory
/// We define the relevant message implementations in the order of communication
impl<E: Pairing> DoryProverState<E> where E::G2: Group<Scalar = <E::G1 as Group>::Scalar> {
    /* ---------- First‑Reduce --------------------------------------- */
    /// Computes the [`FirstReduceMessage`] from the state. Specifically:
    /// D₁L = ⟨v₁L, Γ₂′⟩,  D₁R = ⟨v₁R, Γ₂′⟩;
    /// D₂L = ⟨Γ₁′, v₂L⟩,  D₂R = ⟨Γ₁′, v₂R⟩;
    /// E₁β = ⟨Γ₁, s₂⟩,   E₂β = ⟨s₁, Γ₂⟩.
    /// With the PCS scalars `v` of the first round present, D₂L and D₂R are computed as
    /// `e(⟨Γ₁′, v_L⟩, Γ₂,fin)` and `e(⟨Γ₁′, v_R⟩, Γ₂,fin)`.
    pub fn compute_first_reduce_message<M1: MultiScalarMul<E::G1>, M2: MultiScalarMul<E::G2>>(
        &self,
        setup: &ProverSetup<E>,
    ) -> (r: FirstReduceMessage<E::G1, E::G2, E::GT>)
        requires
            1 <= self.nu < usize::BITS,
            self.v1@.len() == pow2(self.nu as nat),
            self.v2@.len() >= half_len(self.nu as nat),
            self.v2_scalars is None ==> self.v2@.len() == pow2(self.nu as nat),
            self.v2_scalars matches Some(vs) ==> vs@.len() == pow2(self.nu as nat),
            self.s1@.len() == pow2(self.nu as nat),
            self.s2@.len() == pow2(self.nu as nat),
            setup.g1_vec@.len() >= pow2(self.nu as nat),
            setup.g2_vec@.len() >= pow2(self.nu as nat),
        ensures
            r == first_reduce_message_spec::<E>(self@, *setup),
    {
        // n/2
        let n2 = pow2_usize(self.nu - 1);
        let n = pow2_usize(self.nu);
        proof {
            lemma_pow2_unfold(self.nu as nat);
        }
        let (v1_l, v1_r) = self.v1.as_slice().split_at(n2);
        let (v2_l, v2_r) = self.v2.as_slice().split_at(n2);
        /* ---------- COMPUTE D ---------- */
        // Collapsed Γ-vectors of length n/2 (Γ₁′, Γ₂′)
        let g2_prime = &setup.g2_vec()[0..n2];
        let g1_prime = &setup.g1_vec()[0..n2];
        // D₁L,R
        let d1_left = E::multi_pair(v1_l, g2_prime);
        let d1_right = E::multi_pair(v1_r, g2_prime);
        // D₂L,R: specialize round 0 if v2_scalars present (PCS optimization)
        let (d2_left, d2_right) = match &self.v2_scalars {
            Some(v2_scalars) => {
                let (v_l, v_r) = v2_scalars.as_slice().split_at(n2);
                // MSM(Γ₁′, v_{L/R}) in G1
                let m_l = M1::msm(g1_prime, v_l);
                let m_r = M1::msm(g1_prime, v_r);
                // Single pairing with Γ_{2,fin}
                let d2_left = E::pair(&m_l, setup.g_fin());
                let d2_right = E::pair(&m_r, setup.g_fin());
                (d2_left, d2_right)
            },
            None => (E::multi_pair(g1_prime, v2_l), E::multi_pair(g1_prime, v2_r)),
        };
        /* ---------- COMPUTE E (for extended protocol) ---------- */
        // E₁β = ⟨Γ₁ , s₂⟩
        let e1_beta = M1::msm(&setup.g1_vec()[0..n], self.s2.as_slice());
        // E₂β = ⟨Γ₂ , s₁⟩
        let e2_beta = M2::msm(&setup.g2_vec()[0..n], self.s1.as_slice());
        FirstReduceMessage { d1_left, d1_right, d2_left, d2_right, e1_beta, e2_beta }
    }

    /* ---------- Reduce-Combine --------------------------------------- */
    /// Combines vᵢ with Γᵢ using the [`FirstReduceChallenge`]
    /// (step (*) in Nemo-Reduce). Updates:
    /// v₁(new) ← v₁ + β·Γ₁;  v₂(new) ← v₂ + β·Γ₂.
    pub fn reduce_combine<M1: MultiScalarMul<E::G1>, M2: MultiScalarMul<E::G2>>(
        self,
        setup: &ProverSetup<E>,
        chall: FirstReduceChallenge<<E::G1 as Group>::Scalar>,
    ) -> (r: Self)
        requires
            self.nu < usize::BITS,
            self.v1@.len() == pow2(self.nu as nat),
            self.v2@.len() == pow2(self.nu as nat),
            setup.g1_vec@.len() >= pow2(self.nu as nat),
            setup.g2_vec@.len() >= pow2(self.nu as nat),
        ensures
            r@ == combine_spec::<E>(self@, *setup, chall.beta),
    {
        let ghost old_view = self@;
        let mut state = self;
        let beta = chall.beta;
        // Clear PCS first-round scalar optimization after first message use
        state.v2_scalars = None;
        let n = pow2_usize(state.nu);
        let g1_prime = &setup.g1_vec()[0..n];
        let g2_prime = &setup.g2_vec()[0..n];
        // Prover work P(*):
        // ṽ₁ ← ṽ₁ + β·Γ₁
        M1::fixed_scalar_variable_with_add(g1_prime, &mut state.v1, &beta);
        // ṽ₂ ← ṽ₂ + β·Γ₂
        M2::fixed_scalar_variable_with_add(g2_prime, &mut state.v2, &beta);
        proof {
            assert(state@.v1 =~= combine_spec::<E>(old_view, *setup, beta).v1);
            assert(state@.v2 =~= combine_spec::<E>(old_view, *setup, beta).v2);
        }
        state
    }

    /* ---------- Second‑Reduce -------------------------------------- */
    /// Computes the [`SecondReduceMessage`] from the state.
    /// In the Light variant, C₊ and C₋ are omitted (sent as the identity). After (*), define:
    /// E₁₊ = ⟨v₁R(new), s₂L⟩;  E₁₋ = ⟨v₁L(new), s₂R⟩;
    /// E₂₊ = ⟨s₁L, v₂R(new)⟩;  E₂₋ = ⟨s₁R, v₂L(new)⟩.
    pub fn compute_second_reduce_message<M1: MultiScalarMul<E::G1>, M2: MultiScalarMul<E::G2>>(
        &self,
        _setup: &ProverSetup<E>,  // not used in this step
    ) -> (r: SecondReduceMessage<E::G1, E::G2, E::GT>)
        requires
            self.nu >= 1,
            self@.sizes_ok(),
        ensures
            r == second_reduce_message_spec::<E>(self@),
    {
        let n2 = pow2_usize(self.nu - 1);
        proof {
            lemma_pow2_unfold(self.nu as nat);
        }
        let (v1_l, v1_r) = self.v1.as_slice().split_at(n2);
        let (v2_l, v2_r) = self.v2.as_slice().split_at(n2);
        let (s1_l, s1_r) = self.s1.as_slice().split_at(n2);
        let (s2_l, s2_r) = self.s2.as_slice().split_at(n2);
        // ---- E terms (extended protocol) ---------------------------------------
        // Match verifier update: E₁' ← E₁- + α · (E₁ + β · E₁β + α · E₁+)
        // Therefore:
        //   E₁- = ⟨v₁L(new), s₂R⟩,  E₁+ = ⟨v₁R(new), s₂L⟩
        let e1_minus = M1::msm(v1_l, s2_r);  // ⟨v₁L, s₂R⟩
        let e1_plus = M1::msm(v1_r, s2_l);  // ⟨v₁R, s₂L⟩
        // E₂- = ⟨v₂L(new), s₁R⟩, E₂+ = ⟨v₂R(new), s₁L⟩
        let e2_plus = M2::msm(v2_r, s1_l);  // ⟨v₂R, s₁L⟩
        let e2_minus = M2::msm(v2_l, s1_r);  // ⟨v₂L, s₁R⟩
        let id = E::GT::identity();
        SecondReduceMessage { c_plus: id, c_minus: id, e1_plus, e1_minus, e2_plus, e2_minus }
    }

    /// On every round, cut vector length in half and fold with α (Nemo semantics):
    ///
    ///   v₁ ← v₁L + α · v₁R
    ///   v₂ ← v₂L + α · v₂R
    ///   s₁ ← α · s₁L + s₁R
    ///   s₂ ← α · s₂L + s₂R
    ///
    /// After folding, all four vectors are truncated to `n/2`.
    pub fn reduce_fold<M1: MultiScalarMul<E::G1>, M2: MultiScalarMul<E::G2>>(
        self,
        _setup: &ProverSetup<E>,
        chall: SecondReduceChallenge<<E::G1 as Group>::Scalar>,
    ) -> (r: Self)
        requires
            self.nu >= 1,
            self@.sizes_ok(),
        ensures
            r@ == fold_spec::<E>(self@, chall.alpha),
            r@.sizes_ok(),
    {
        let ghost v1_old = self.v1@;
        let ghost v2_old = self.v2@;
        let ghost old_view = self@;
        let mut state = self;
        let alpha = chall.alpha;
        let n2 = pow2_usize(state.nu - 1);
        proof {
            lemma_pow2_unfold(state.nu as nat);
        }
        /* ─── fold v-vectors ────────────────────────────────────────────── */
        let v1_r = state.v1.split_off(n2);
        let v2_r = state.v2.split_off(n2);
        let ghost v1_l = state.v1@;
        let ghost v2_l = state.v2@;
        assert(v1_l == v1_old.subrange(0, n2 as int));
        assert(v2_l == v2_old.subrange(0, n2 as int));
        M1::fixed_scalar_variable_with_add(v1_r.as_slice(), &mut state.v1, &alpha);
        M2::fixed_scalar_variable_with_add(v2_r.as_slice(), &mut state.v2, &alpha);
        assert forall|i: int| 0 <= i < n2 implies #[trigger] state.v1@[i] == v1_old[i].add_spec(
            v1_old[i + n2].scale_spec(alpha),
        ) by {
            assert(v1_r@[i] == v1_old[i + n2]);
            assert(v1_l[i] == v1_old[i]);
            assert(state.v1@[i] == v1_l[i].add_spec(v1_r@[i].scale_spec(alpha)));
        }
        assert forall|i: int| 0 <= i < n2 implies #[trigger] state.v2@[i] == v2_old[i].add_spec(
            v2_old[i + n2].scale_spec(alpha),
        ) by {
            assert(v2_r@[i] == v2_old[i + n2]);
            assert(v2_l[i] == v2_old[i]);
            assert(state.v2@[i] == v2_l[i].add_spec(v2_r@[i].scale_spec(alpha)));
        }
        /* ─── fold s-vectors (extended protocol)──────────-────────────────── */
        let s1_r = state.s1.split_off(n2);
        let s2_r = state.s2.split_off(n2);
        fold_scalars_in_place(&mut state.s1, &s1_r, &alpha);
        fold_scalars_in_place(&mut state.s2, &s2_r, &alpha);
        state.nu = state.nu - 1;
        proof {
            assert(state@.v1 =~= fold_spec::<E>(old_view, alpha).v1);
            assert(state@.v2 =~= fold_spec::<E>(old_view, alpha).v2);
            assert(state@.s1 =~= fold_spec::<E>(old_view, alpha).s1);
            assert(state@.s2 =~= fold_spec::<E>(old_view, alpha).s2);
        }
        state
    }

    /// Expose base-case folded group elements (length-1 vectors)
    pub fn final_bases(&self) -> (r: (E::G1, E::G2))
        requires
            self.nu == 0,
        ensures
            r.0 == (if self.v1@.len() > 0 {
                self.v1@[0]
            } else {
                E::G1::identity_spec()
            }),
            r.1 == (if self.v2@.len() > 0 {
                self.v2@[0]
            } else {
                E::G2::identity_spec()
            }),
    {
        let v1_final = if self.v1.len() > 0 {
            self.v1[0]
        } else {
            E::G1::identity()
        };
        let v2_final = if self.v2.len() > 0 {
            self.v2[0]
        } else {
            E::G2::identity()
        };
        (v1_final, v2_final)
    }

    /// Borrow base-case folded group elements (length-1 vectors)
    pub fn final_bases_ref(&self) -> (r: (&E::G1, &E::G2))
        requires
            self.nu == 0,
            self.v1@.len() > 0,
            self.v2@.len() > 0,
        ensures
            *r.0 == self.v1@[0],
            *r.1 == self.v2@[0],
    {
        (&self.v1[0], &self.v2[0])
    }
}

/// `s[i] ← α·s[i] + r[i]`
fn fold_scalars_in_place<F: Field>(s: &mut Vec<F>, r: &Vec<F>, alpha: &F)
    requires
        old(s)@.len() == r@.len(),
    ensures
        final(s)@.len() == old(s)@.len(),
        forall|i: int|
            0 <= i < old(s)@.len() ==> #[trigger] final(s)@[i] == old(s)@[i].mul_spec(
                *alpha,
            ).add_spec(r@[i]),
{
    let ghost orig = s@;
    let mut i: usize = 0;
    while i < s.len()
        invariant
            i <= orig.len(),
            s@.len() == orig.len(),
            r@.len() == orig.len(),
            forall|j: int|
                0 <= j < i ==> #[trigger] s@[j] == orig[j].mul_spec(*alpha).add_spec(r@[j]),
            forall|j: int| i <= j < orig.len() ==> #[trigger] s@[j] == orig[j],
        decreases orig.len() - i,
    {
        let t = s[i].mul(alpha);
        let nv = t.add(&r[i]);
        s.set(i, nv);
        i = i + 1;
    }
}

/// `D' = D_L + α·D_R + β·(Δ_L + α·Δ_R)`
pub open spec fn updated_d<G: Group>(
    d_l: G,
    d_r: G,
    delta_l: G,
    delta_r: G,
    alpha: G::Scalar,
    beta: G::Scalar,
) -> G {
    d_l.add_spec(d_r.scale_spec(alpha)).add_spec(
        delta_l.add_spec(delta_r.scale_spec(alpha)).scale_spec(beta),
    )
}

/// `E' = E₋ + α·(E + β·E_β + α·E₊)`
pub open spec fn updated_e<G: Group>(
    e: G,
    e_beta: G,
    e_plus: G,
    e_minus: G,
    alpha: G::Scalar,
    beta: G::Scalar,
) -> G {
    e_minus.add_spec(
        e.add_spec(e_beta.scale_spec(beta)).add_spec(e_plus.scale_spec(alpha)).scale_spec(alpha),
    )
}

/// The verifier state after a round of Dory-Reduce with challenges β, α: the D and E values
/// are updated (Nemo semantics), α is recorded and one round fewer remains.
pub open spec fn verify_round_spec<E: Pairing>(
    v: VerifierView<E>,
    setup: VerifierSetup<E>,
    m1: FirstReduceMessage<E::G1, E::G2, E::GT>,
    m2: SecondReduceMessage<E::G1, E::G2, E::GT>,
    beta: <E::G1 as Group>::Scalar,
    alpha: <E::G1 as Group>::Scalar,
) -> VerifierView<E> where
    E::G2: Group<Scalar = <E::G1 as Group>::Scalar>,
    E::GT: Group<Scalar = <E::G1 as Group>::Scalar>,
 {
    VerifierView {
        d_1: updated_d(
            m1.d1_left,
            m1.d1_right,
            setup.delta_1l@[v.nu as int],
            setup.delta_1r@[v.nu as int],
            alpha,
            beta,
        ),
        d_2: updated_d(
            m1.d2_left,
            m1.d2_right,
            setup.delta_2l@[v.nu as int],
            setup.delta_2r@[v.nu as int],
            alpha,
            beta,
        ),
        e_1: updated_e(v.e_1, m1.e1_beta, m2.e1_plus, m2.e1_minus, alpha, beta),
        e_2: updated_e(v.e_2, m1.e2_beta, m2.e2_plus, m2.e2_minus, alpha, beta),
        alpha_challenges: v.alpha_challenges.push(alpha),
        nu: (v.nu - 1) as nat,
        ..v
    }
}

/// Whether the final check of the verifier passes for a state, setup and challenge pair.
pub open spec fn finalize_accepts<E: Pairing>(
    state: VerifierView<E>,
    setup: VerifierSetup<E>,
    gamma: FinalizeChallenge<<E::G1 as Group>::Scalar>,
) -> bool where
    E::G2: Group<Scalar = <E::G1 as Group>::Scalar>,
    E::GT: Group<Scalar = <E::G1 as Group>::Scalar>,
 {
    let s1_final = fold_eval_spec(
        state.eval_point_left,
        state.alpha_challenges,
        state.alpha_challenges.len(),
    );
    let s2_final = fold_eval_spec(
        state.eval_point_right,
        state.alpha_challenges,
        state.alpha_challenges.len(),
    );
    match (state.v1_final, state.v2_final) {
        (Some(v1_final), Some(v2_final)) => {
            &&& state.e_1 == v1_final.scale_spec(s2_final)
            &&& state.e_2 == v2_final.scale_spec(s1_final)
            &&& inner_pairing::<E>(
                seq![state.e_1_orig, state.e_1.scale_spec(gamma.gamma_1), setup.g1_0.scale_spec(gamma.gamma_2)],
                seq![setup.g_fin, setup.g2_0, state.e_2],
                3,
            ) == state.d_2_orig.add_spec(
                state.d_1.scale_spec(s2_final).scale_spec(gamma.gamma_1),
            ).add_spec(state.d_2.scale_spec(s1_final).scale_spec(gamma.gamma_2))
        },
        _ => false,
    }
}

/// Below is the **verifier** side of the interactive protocol for Dory
/// We define the relevant message implementations in the order of communication
impl<E: Pairing> DoryVerifierState<E> where
    E::G2: Group<Scalar = <E::G1 as Group>::Scalar>,
    E::GT: Group<Scalar = <E::G1 as Group>::Scalar>,
 {
    /// This is the round i verifier algorithm of the extended Dory-Reduce algorithm in section 3.2 & 4.2 of the paper.
    /// This function should be called after messages are received and challenges are pulled from the transcript.
    pub fn dory_reduce_verify_round(
        &mut self,
        setup: &VerifierSetup<E>,
        first_msg: &FirstReduceMessage<E::G1, E::G2, E::GT>,
        second_msg: &SecondReduceMessage<E::G1, E::G2, E::GT>,
        beta: <E::G1 as Group>::Scalar,
        alpha: <E::G1 as Group>::Scalar,
    ) -> (r: bool)
        requires
            old(self).nu >= 1,
            old(self).nu < setup.delta_1l@.len(),
            old(self).nu < setup.delta_1r@.len(),
            old(self).nu < setup.delta_2l@.len(),
            old(self).nu < setup.delta_2r@.len(),
        ensures
            r,
            final(self)@ == verify_round_spec::<E>(
                old(self)@,
                *setup,
                *first_msg,
                *second_msg,
                beta,
                alpha,
            ),
    {
        // Record the α used for this round for later base-case evaluation of s₁,s₂
        self.alpha_challenges.push(alpha);
        // Update D₁ and D₂ (Nemo semantics, no inverses)
        // D₁' <- D₁L + α * D₁R + β * (Δ₁L + α * Δ₁R)
        // D₂' <- D₂L + α * D₂R + β * (Δ₂L + α * Δ₂R)
        self.dory_reduce_verify_update_ds(
            setup,
            (&first_msg.d1_left, &first_msg.d1_right, &first_msg.d2_left, &first_msg.d2_right),
            alpha,
            beta,
        );
        // Update E₁ and E₂ for the **extended** protocol (Nemo semantics)
        // E₁' <- E₁- + α * (E₁ + β * E₁β + α * E₁+)
        // E₂' <- E₂- + α * (E₂ + β * E₂β + α * E₂+)
        self.dory_reduce_verify_update_es(
            (&first_msg.e1_beta, &first_msg.e2_beta),
            (&second_msg.e1_plus, &second_msg.e1_minus, &second_msg.e2_plus, &second_msg.e2_minus),
            alpha,
            beta,
        );
        // decrement the rounds
        self.nu = self.nu - 1;
        true
    }

    /// From the Nemo-Reduce semantics (no inverses).
    /// Updates `D₁` and `D₂` in verifier state:
    /// * D₁' ← D₁L + α · D₁R + β · (Δ₁L + α · Δ₁R)
    /// * D₂' ← D₂L + α · D₂R + β · (Δ₂L + α · Δ₂R)
    pub fn dory_reduce_verify_update_ds(
        &mut self,
        setup: &VerifierSetup<E>,
        d_values: (&E::GT, &E::GT, &E::GT, &E::GT),
        alpha: <E::G1 as Group>::Scalar,
        beta: <E::G1 as Group>::Scalar,
    )
        requires
            old(self).nu < setup.delta_1l@.len(),
            old(self).nu < setup.delta_1r@.len(),
            old(self).nu < setup.delta_2l@.len(),
            old(self).nu < setup.delta_2r@.len(),
        ensures
            final(self).d_1 == updated_d(
                *d_values.0,
                *d_values.1,
                setup.delta_1l@[old(self).nu as int],
                setup.delta_1r@[old(self).nu as int],
                alpha,
                beta,
            ),
            final(self).d_2 == updated_d(
                *d_values.2,
                *d_values.3,
                setup.delta_2l@[old(self).nu as int],
                setup.delta_2r@[old(self).nu as int],
                alpha,
                beta,
            ),
            *final(self) == (DoryVerifierState::<E> { d_1: final(self).d_1, d_2: final(self).d_2, ..*old(self) }),
    {
        let (d_1l, d_1r, d_2l, d_2r) = d_values;
        // Get the precomputed values for the current round
        let delta_1l = &setup.delta_1l[self.nu];
        let delta_1r = &setup.delta_1r[self.nu];
        let delta_2l = &setup.delta_2l[self.nu];
        let delta_2r = &setup.delta_2r[self.nu];
        // D₁' ← D₁L + α·D₁R + β·(Δ₁L + α·Δ₁R)
        let mut new_d_1 = d_1l.add(&d_1r.scale(&alpha));
        let delta_1_tail = delta_1l.add(&delta_1r.scale(&alpha));
        new_d_1 = new_d_1.add(&delta_1_tail.scale(&beta));
        // D₂' ← D₂L + α·D₂R + β·(Δ₂L + α·Δ₂R)
        let mut new_d_2 = d_2l.add(&d_2r.scale(&alpha));
        let delta_2_tail = delta_2l.add(&delta_2r.scale(&alpha));
        new_d_2 = new_d_2.add(&delta_2_tail.scale(&beta));
        self.d_1 = new_d_1;
        self.d_2 = new_d_2;
    }

    /// Nemo-Reduce semantics for E updates (no inverses):
    /// * E₁' ← E₁- + α · (E₁ + β · E₁β + α · E₁+)
    /// * E₂' ← E₂- + α · (E₂ + β · E₂β + α · E₂+)
    pub fn dory_reduce_verify_update_es(
        &mut self,
        e_beta_pair: (&E::G1, &E::G2),
        e_values: (&E::G1, &E::G1, &E::G2, &E::G2),
        alpha: <E::G1 as Group>::Scalar,
        beta: <E::G1 as Group>::Scalar,
    )
        ensures
            final(self).e_1 == updated_e(
                old(self).e_1,
                *e_beta_pair.0,
                *e_values.0,
                *e_values.1,
                alpha,
                beta,
            ),
            final(self).e_2 == updated_e(
                old(self).e_2,
                *e_beta_pair.1,
                *e_values.2,
                *e_values.3,
                alpha,
                beta,
            ),
            *final(self) == (DoryVerifierState::<E> { e_1: final(self).e_1, e_2: final(self).e_2, ..*old(self) }),
    {
        let (e_1beta, e_2beta) = e_beta_pair;
        let (e_1plus, e_1minus, e_2plus, e_2minus) = e_values;
        // E₁' ← E₁- + α · (E₁ + β · E₁β + α · E₁+)
        let inner_e1 = self.e_1.add(&e_1beta.scale(&beta)).add(&e_1plus.scale(&alpha));
        let new_e_1: E::G1 = e_1minus.add(&inner_e1.scale(&alpha));
        // E₂' ← E₂- + α · (E₂ + β · E₂β + α · E₂+)
        let inner_e2 = self.e_2.add(&e_2beta.scale(&beta)).add(&e_2plus.scale(&alpha));
        let new_e_2: E::G2 = e_2minus.add(&inner_e2.scale(&alpha));
        self.e_1 = new_e_1;
        self.e_2 = new_e_2;
    }

    /// Store final base-case group elements sent by the prover
    pub fn set_final_bases(&mut self, v1_final: E::G1, v2_final: E::G2)
        ensures
            *final(self) == (DoryVerifierState::<E> {
                v1_final: Some(v1_final),
                v2_final: Some(v2_final),
                ..*old(self)
            }),
    {
        self.v1_final = Some(v1_final);
        self.v2_final = Some(v2_final);
    }

    /// Final verification step (Nemo-Finalize, non-ZK)
    /// Implements the deferred VMV pairing check batched with γ₁, γ₂, together with the linear
    /// base-case checks `E₁ = s₂'·v₁'` and `E₂ = s₁'·v₂'`, where `s₁'`, `s₂'` are the folded scalars
    /// recomputed from the evaluation point and the α challenges. Since `E₁` and `E₂` carry these
    /// scalars, `D₁` and `D₂` are weighted by them in the pairing check.
    pub fn finalize(
        &self,
        setup: &VerifierSetup<E>,
        gamma_pair: FinalizeChallenge<<E::G1 as Group>::Scalar>,
    ) -> (r: bool)
        requires
            self.nu == 0,
        ensures
            r == finalize_accepts::<E>(self@, *setup, gamma_pair),
    {
        let gamma_1 = gamma_pair.gamma_1;
        let gamma_2 = gamma_pair.gamma_2;
        let s1_final = fold_eval_from_coords_and_alphas(
            self.eval_point_left.as_slice(),
            self.alpha_challenges.as_slice(),
        );
        let s2_final = fold_eval_from_coords_and_alphas(
            self.eval_point_right.as_slice(),
            self.alpha_challenges.as_slice(),
        );
        // Enforce presence of base-case group elements
        let (v1_final, v2_final) = match (&self.v1_final, &self.v2_final) {
            (Some(v1), Some(v2)) => (*v1, *v2),
            _ => {
                return false;
            },
        };
        // Linear base-case checks (non-ZK): E1 == s2_final · v1_final, E2 == s1_final · v2_final
        let e1_expected = v1_final.scale(&s2_final);
        if !self.e_1.equals(&e1_expected) {
            return false;
        }
        let e2_expected = v2_final.scale(&s1_final);
        if !self.e_2.equals(&e2_expected) {
            return false;
        }
        // GT batched pairing check, with D1 and D2 weighted by the folded scalars that E1 and E2
        // carry: e(E1_orig, Γ2_fin) + e(γ1 · E1, Γ2_0) + e(γ2 · Γ1_0, E2)
        //  == D2_orig + γ1 · s2' · D1 + γ2 · s1' · D2
        let e1_scaled = self.e_1.scale(&gamma_1);
        let g1_scaled = setup.g1_0.scale(&gamma_2);
        let mut ps: Vec<E::G1> = Vec::new();
        ps.push(self.e_1_orig);
        ps.push(e1_scaled);
        ps.push(g1_scaled);
        let mut qs: Vec<E::G2> = Vec::new();
        qs.push(setup.g_fin);
        qs.push(setup.g2_0);
        qs.push(self.e_2);
        let lhs = E::multi_pair(ps.as_slice(), qs.as_slice());
        let rhs = self.d_2_orig.add(&self.d_1.scale(&s2_final).scale(&gamma_1)).add(
            &self.d_2.scale(&s1_final).scale(&gamma_2),
        );
        proof {
            assert(ps@ =~= seq![self.e_1_orig, e1_scaled, g1_scaled]);
            assert(qs@ =~= seq![setup.g_fin, setup.g2_0, self.e_2]);
        }
        lhs.equals(&rhs)
    }
}

} // verus!
