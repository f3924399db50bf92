//! Correctness of Dory-Reduce: the verifier's running values track the inner products of the
//! honest prover's vectors from round to round.
use vstd::prelude::*;

use crate::primitives::arithmetic::{msm_spec, Field, Group, Pairing};
use crate::primitives::folding::{
    fold_scalar_vec, lemma_fold_eval_push, lemma_fold_scaled_lagrange, scaled_lagrange,
};
use crate::primitives::poly::fold_eval_spec;
use crate::primitives::sums::{
    lemma_add_swap, lemma_msm_is_sum, lemma_pairing_sum_is_sum, lemma_scale_scale_comm,
    lemma_sum_add, lemma_sum_congruent, lemma_sum_scale, lemma_sum_split, sum_of,
};
use crate::protocol::interactive_protocol::{
    combine_spec, first_reduce_message_spec, fold_spec, second_reduce_message_spec, updated_d,
    updated_e, verify_round_spec,
};
use crate::primitives::transcript::Transcript;
use crate::protocol::builder::{first_reduce_step, second_reduce_step, ProofBuilderView};
use crate::protocol::inner_product::{
    lemma_prove_rounds_append, prove_round_spec, prove_rounds, verify_round_step, verify_rounds,
};
use crate::protocol::setup::{inner_pairing, ProverSetup, VerifierSetup};
use crate::protocol::state::{ProverView, VerifierView};
use vstd::arithmetic::power2::{lemma_pow2_unfold, pow2};

verus! {

/// `v + β·Γ` entrywise over the first `n` entries.
pub open spec fn combined<G: Group>(v: Seq<G>, g: Seq<G>, beta: G::Scalar, n: nat) -> Seq<G> {
    Seq::new(n, |i: int| v[i].add_spec(g[i].scale_spec(beta)))
}

/// `v_L + α·v_R` for halves of length `h`.
pub open spec fn folded<G: Group>(v: Seq<G>, alpha: G::Scalar, h: nat) -> Seq<G> {
    Seq::new(h, |i: int| v[i].add_spec(v[i + h].scale_spec(alpha)))
}

/// `B + ((A + D) + C) == (A + C) + (B + D)`
proof fn lemma_rearrange<G: Group>(a: G, b: G, c: G, d: G)
    ensures
        b.add_spec(a.add_spec(d).add_spec(c)) == a.add_spec(c).add_spec(b.add_spec(d)),
{
    G::lemma_add_assoc(a, d, c);
    G::lemma_add_comm(d, c);
    G::lemma_add_assoc(b, a, c.add_spec(d));
    G::lemma_add_comm(b, a);
    lemma_add_swap(a, b, c, d);
}

/// One term of the folded inner product:
/// `(L + R·α)·(a·α + b) == ((L·a)·α + ((R·a)·α)·α) + (L·b + (R·b)·α)`.
proof fn lemma_folded_term<G: Group>(l: G, r: G, a: G::Scalar, b: G::Scalar, alpha: G::Scalar)
    ensures
        l.add_spec(r.scale_spec(alpha)).scale_spec(a.mul_spec(alpha).add_spec(b)) == l.scale_spec(
            a,
        ).scale_spec(alpha).add_spec(r.scale_spec(a).scale_spec(alpha).scale_spec(alpha)).add_spec(
            l.scale_spec(b).add_spec(r.scale_spec(b).scale_spec(alpha)),
        ),
{
    let ra = r.scale_spec(alpha);
    let aa = a.mul_spec(alpha);
    G::lemma_scale_field_add(l.add_spec(ra), aa, b);
    G::lemma_scale_add(l, ra, aa);
    G::lemma_scale_add(l, ra, b);
    // L·(aα) == (L·a)·α
    G::lemma_scale_mul(l, a, alpha);
    // (Rα)·(aα) == ((R·a)·α)·α
    G::lemma_scale_mul(r, alpha, aa);
    G::lemma_scale_mul(r.scale_spec(a), alpha, alpha);
    G::lemma_scale_mul(r, a, alpha.mul_spec(alpha));
    G::Scalar::lemma_mul_comm(alpha, aa);
    G::Scalar::lemma_mul_assoc(a, alpha, alpha);
    // (Rα)·b == (R·b)·α
    G::lemma_scale_mul(r, alpha, b);
    G::lemma_scale_mul(r, b, alpha);
    G::Scalar::lemma_mul_comm(alpha, b);
}

/// The E update of a round of Dory-Reduce, on one side: where `E = ⟨v, s⟩` over `n = 2h` terms,
/// `E' = E₋ + α·(E + β·E_β + α·E₊)` computed from the prover's messages `E_β = ⟨Γ, s⟩`,
/// `E₊ = ⟨v'_R, s_L⟩`, `E₋ = ⟨v'_L, s_R⟩` (with `v' = v + β·Γ`) is the inner product of the
/// folded vectors `v'_L + α·v'_R` and `α·s_L + s_R`.
pub proof fn lemma_e_update<G: Group>(
    v: Seq<G>,
    g: Seq<G>,
    s: Seq<G::Scalar>,
    h: nat,
    beta: G::Scalar,
    alpha: G::Scalar,
)
    requires
        v.len() == 2 * h,
        s.len() == 2 * h,
        g.len() >= 2 * h,
    ensures
        ({
            let n = 2 * h;
            let vc = combined(v, g, beta, n);
            updated_e(
                msm_spec::<G>(v, s, n),
                msm_spec::<G>(g.subrange(0, n as int), s, n),
                msm_spec::<G>(vc.subrange(h as int, n as int), s.subrange(0, h as int), h),
                msm_spec::<G>(vc.subrange(0, h as int), s.subrange(h as int, n as int), h),
                alpha,
                beta,
            ) == msm_spec::<G>(folded(vc, alpha, h), fold_scalar_vec(s, alpha, h), h)
        }),
{
    let n = 2 * h;
    let vc = combined(v, g, beta, n);
    let gn = g.subrange(0, n as int);
    let vr = vc.subrange(h as int, n as int);
    let vl = vc.subrange(0, h as int);
    let sl = s.subrange(0, h as int);
    let sr = s.subrange(h as int, n as int);
    let vf = folded(vc, alpha, h);
    let sf = fold_scalar_vec(s, alpha, h);
    let tv = |i: int| v[i].scale_spec(s[i]);
    let tg = |i: int| gn[i].scale_spec(s[i]);
    let tgb = |i: int| tg(i).scale_spec(beta);
    let tc = |i: int| vc[i].scale_spec(s[i]);
    let tx = |i: int| vc[i].scale_spec(s[i]);
    let tw = |i: int| tc(h + i);
    let ty = |i: int| vr[i].scale_spec(sl[i]);
    let tz = |i: int| vl[i].scale_spec(sr[i]);
    // 1. E + β·E_β = ⟨v', s⟩
    lemma_msm_is_sum(v, s, n);
    lemma_msm_is_sum(gn, s, n);
    lemma_sum_scale(tg, beta, n);
    lemma_sum_add(tv, tgb, n);
    assert forall|i: int| 0 <= i < n implies #[trigger] tc(i) == tv(i).add_spec(tgb(i)) by {
        G::lemma_scale_add(v[i], g[i].scale_spec(beta), s[i]);
        lemma_scale_scale_comm(g[i], beta, s[i]);
    }
    lemma_sum_congruent(tc, |i: int| tv(i).add_spec(tgb(i)), n);
    // 2. ⟨v', s⟩ = Σ X + Σ W
    lemma_sum_split(tc, h, h);
    // 3. E₊ = Σ Y, E₋ = Σ Z
    lemma_msm_is_sum(vr, sl, h);
    lemma_msm_is_sum(vl, sr, h);
    // 4. ⟨v'', s''⟩ term by term
    let txa = |i: int| tx(i).scale_spec(alpha);
    let tya = |i: int| ty(i).scale_spec(alpha);
    let tyaa = |i: int| tya(i).scale_spec(alpha);
    let twa = |i: int| tw(i).scale_spec(alpha);
    let first = |i: int| txa(i).add_spec(tyaa(i));
    let second = |i: int| tz(i).add_spec(twa(i));
    let tf = |i: int| vf[i].scale_spec(sf[i]);
    assert forall|i: int| 0 <= i < h implies #[trigger] tf(i) == first(i).add_spec(second(i)) by {
        lemma_folded_term(vc[i], vc[i + h], s[i], s[i + h], alpha);
        assert(vr[i] == vc[i + h]);
        assert(sl[i] == s[i]);
        assert(vl[i] == vc[i]);
        assert(sr[i] == s[i + h]);
        assert(tw(i) == vc[h + i].scale_spec(s[h + i]));
    }
    lemma_msm_is_sum(vf, sf, h);
    lemma_sum_congruent(tf, |i: int| first(i).add_spec(second(i)), h);
    lemma_sum_add(first, second, h);
    lemma_sum_add(txa, tyaa, h);
    lemma_sum_add(tz, twa, h);
    lemma_sum_scale(tx, alpha, h);
    lemma_sum_scale(ty, alpha, h);
    lemma_sum_scale(tya, alpha, h);
    lemma_sum_scale(tw, alpha, h);
    // 5. the verifier's expression
    let sx = sum_of(tx, h);
    let sw = sum_of(tw, h);
    let sy = sum_of(ty, h);
    let sz = sum_of(tz, h);
    G::lemma_scale_add(sx.add_spec(sw), sy.scale_spec(alpha), alpha);
    G::lemma_scale_add(sx, sw, alpha);
    lemma_rearrange(
        sx.scale_spec(alpha),
        sz,
        sy.scale_spec(alpha).scale_spec(alpha),
        sw.scale_spec(alpha),
    );
}

/// `(P + Q·β) + ((R·α) + (S·β)·α) == updated_d(P, R, Q, S, α, β)`
proof fn lemma_d_shape<G: Group>(p: G, q: G, r: G, s: G, alpha: G::Scalar, beta: G::Scalar)
    ensures
        p.add_spec(q.scale_spec(beta)).add_spec(
            r.scale_spec(alpha).add_spec(s.scale_spec(beta).scale_spec(alpha)),
        ) == updated_d(p, r, q, s, alpha, beta),
{
    G::lemma_scale_add(q, s.scale_spec(alpha), beta);
    lemma_scale_scale_comm(s, alpha, beta);
    lemma_add_swap(
        p,
        q.scale_spec(beta),
        r.scale_spec(alpha),
        s.scale_spec(beta).scale_spec(alpha),
    );
}

/// The D₁ update of a round of Dory-Reduce: `D₁' = D₁L + α·D₁R + β·(Δ₁L + α·Δ₁R)` computed from
/// `D₁L = ⟨v_L, Γ₂'⟩`, `D₁R = ⟨v_R, Γ₂'⟩`, `Δ₁L = ⟨Γ₁_L, Γ₂'⟩`, `Δ₁R = ⟨Γ₁_R, Γ₂'⟩` (with
/// `Γ₂' = Γ₂[..h]`) is `⟨v'_L + α·v'_R, Γ₂'⟩` for `v' = v + β·Γ₁`.
pub proof fn lemma_d1_update<E: Pairing>(
    v: Seq<E::G1>,
    g1: Seq<E::G1>,
    g2: Seq<E::G2>,
    h: nat,
    beta: <E::G1 as Group>::Scalar,
    alpha: <E::G1 as Group>::Scalar,
)
    requires
        v.len() == 2 * h,
        g1.len() >= 2 * h,
        g2.len() >= h,
    ensures
        ({
            let n = 2 * h;
            let g2p = g2.subrange(0, h as int);
            updated_d(
                inner_pairing::<E>(v.subrange(0, h as int), g2p, h),
                inner_pairing::<E>(v.subrange(h as int, n as int), g2p, h),
                inner_pairing::<E>(g1.subrange(0, h as int), g2p, h),
                inner_pairing::<E>(g1.subrange(h as int, n as int), g2p, h),
                alpha,
                beta,
            ) == inner_pairing::<E>(folded(combined(v, g1, beta, n), alpha, h), g2p, h)
        }),
{
    let n = 2 * h;
    let g2p = g2.subrange(0, h as int);
    let vl = v.subrange(0, h as int);
    let vr = v.subrange(h as int, n as int);
    let gl = g1.subrange(0, h as int);
    let gr = g1.subrange(h as int, n as int);
    let vf = folded(combined(v, g1, beta, n), alpha, h);
    let e = |p: E::G1, q: E::G2| E::pair_spec(p, q);
    let tp = |i: int| e(vl[i], g2p[i]);
    let tq = |i: int| e(gl[i], g2p[i]);
    let tr = |i: int| e(vr[i], g2p[i]);
    let ts = |i: int| e(gr[i], g2p[i]);
    let tqb = |i: int| tq(i).scale_spec(beta);
    let tsb = |i: int| ts(i).scale_spec(beta);
    let tra = |i: int| tr(i).scale_spec(alpha);
    let tsba = |i: int| tsb(i).scale_spec(alpha);
    let first = |i: int| tp(i).add_spec(tqb(i));
    let second = |i: int| tra(i).add_spec(tsba(i));
    let tf = |i: int| e(vf[i], g2p[i]);
    assert forall|i: int| 0 <= i < h implies #[trigger] tf(i) == first(i).add_spec(second(i)) by {
        let a = v[i].add_spec(g1[i].scale_spec(beta));
        let b = v[i + h].add_spec(g1[i + h].scale_spec(beta));
        let q = g2p[i];
        E::lemma_pair_add_left(a, b.scale_spec(alpha), q);
        E::lemma_pair_scale_left(b, q, alpha);
        E::lemma_pair_add_left(v[i], g1[i].scale_spec(beta), q);
        E::lemma_pair_scale_left(g1[i], q, beta);
        E::lemma_pair_add_left(v[i + h], g1[i + h].scale_spec(beta), q);
        E::lemma_pair_scale_left(g1[i + h], q, beta);
        E::GT::lemma_scale_add(E::pair_spec(v[i + h], q), E::pair_spec(g1[i + h], q).scale_spec(beta), alpha);
        assert(vr[i] == v[i + h]);
        assert(gr[i] == g1[i + h]);
    }
    lemma_pairing_sum_is_sum(e, vf, g2p, h);
    lemma_pairing_sum_is_sum(e, vl, g2p, h);
    lemma_pairing_sum_is_sum(e, vr, g2p, h);
    lemma_pairing_sum_is_sum(e, gl, g2p, h);
    lemma_pairing_sum_is_sum(e, gr, g2p, h);
    lemma_sum_congruent(tf, |i: int| first(i).add_spec(second(i)), h);
    lemma_sum_add(first, second, h);
    lemma_sum_add(tp, tqb, h);
    lemma_sum_add(tra, tsba, h);
    lemma_sum_scale(tq, beta, h);
    lemma_sum_scale(tr, alpha, h);
    lemma_sum_scale(ts, beta, h);
    lemma_sum_scale(tsb, alpha, h);
    lemma_d_shape(sum_of(tp, h), sum_of(tq, h), sum_of(tr, h), sum_of(ts, h), alpha, beta);
}

/// The D₂ update of a round of Dory-Reduce: `D₂' = D₂L + α·D₂R + β·(Δ₂L + α·Δ₂R)` computed from
/// `D₂L = ⟨Γ₁', v_L⟩`, `D₂R = ⟨Γ₁', v_R⟩`, `Δ₂L = ⟨Γ₁', Γ₂_L⟩`, `Δ₂R = ⟨Γ₁', Γ₂_R⟩` (with
/// `Γ₁' = Γ₁[..h]`) is `⟨Γ₁', v'_L + α·v'_R⟩` for `v' = v + β·Γ₂`.
pub proof fn lemma_d2_update<E: Pairing>(
    v: Seq<E::G2>,
    g1: Seq<E::G1>,
    g2: Seq<E::G2>,
    h: nat,
    beta: <E::G1 as Group>::Scalar,
    alpha: <E::G1 as Group>::Scalar,
)
    requires
        v.len() == 2 * h,
        g1.len() >= h,
        g2.len() >= 2 * h,
    ensures
        ({
            let n = 2 * h;
            let g1p = g1.subrange(0, h as int);
            updated_d(
                inner_pairing::<E>(g1p, v.subrange(0, h as int), h),
                inner_pairing::<E>(g1p, v.subrange(h as int, n as int), h),
                inner_pairing::<E>(g1p, g2.subrange(0, h as int), h),
                inner_pairing::<E>(g1p, g2.subrange(h as int, n as int), h),
                alpha,
                beta,
            ) == inner_pairing::<E>(g1p, folded(combined(v, g2, beta, n), alpha, h), h)
        }),
{
    let n = 2 * h;
    let g1p = g1.subrange(0, h as int);
    let vl = v.subrange(0, h as int);
    let vr = v.subrange(h as int, n as int);
    let gl = g2.subrange(0, h as int);
    let gr = g2.subrange(h as int, n as int);
    let vf = folded(combined(v, g2, beta, n), alpha, h);
    let e = |p: E::G1, q: E::G2| E::pair_spec(p, q);
    let tp = |i: int| e(g1p[i], vl[i]);
    let tq = |i: int| e(g1p[i], gl[i]);
    let tr = |i: int| e(g1p[i], vr[i]);
    let ts = |i: int| e(g1p[i], gr[i]);
    let tqb = |i: int| tq(i).scale_spec(beta);
    let tsb = |i: int| ts(i).scale_spec(beta);
    let tra = |i: int| tr(i).scale_spec(alpha);
    let tsba = |i: int| tsb(i).scale_spec(alpha);
    let first = |i: int| tp(i).add_spec(tqb(i));
    let second = |i: int| tra(i).add_spec(tsba(i));
    let tf = |i: int| e(g1p[i], vf[i]);
    assert forall|i: int| 0 <= i < h implies #[trigger] tf(i) == first(i).add_spec(second(i)) by {
        let a = v[i].add_spec(g2[i].scale_spec(beta));
        let b = v[i + h].add_spec(g2[i + h].scale_spec(beta));
        let p = g1p[i];
        E::lemma_pair_add_right(p, a, b.scale_spec(alpha));
        E::lemma_pair_scale_right(p, b, alpha);
        E::lemma_pair_add_right(p, v[i], g2[i].scale_spec(beta));
        E::lemma_pair_scale_right(p, g2[i], beta);
        E::lemma_pair_add_right(p, v[i + h], g2[i + h].scale_spec(beta));
        E::lemma_pair_scale_right(p, g2[i + h], beta);
        E::GT::lemma_scale_add(E::pair_spec(p, v[i + h]), E::pair_spec(p, g2[i + h]).scale_spec(beta), alpha);
        assert(vr[i] == v[i + h]);
        assert(gr[i] == g2[i + h]);
    }
    lemma_pairing_sum_is_sum(e, g1p, vf, h);
    lemma_pairing_sum_is_sum(e, g1p, vl, h);
    lemma_pairing_sum_is_sum(e, g1p, vr, h);
    lemma_pairing_sum_is_sum(e, g1p, gl, h);
    lemma_pairing_sum_is_sum(e, g1p, gr, h);
    lemma_sum_congruent(tf, |i: int| first(i).add_spec(second(i)), h);
    lemma_sum_add(first, second, h);
    lemma_sum_add(tp, tqb, h);
    lemma_sum_add(tra, tsba, h);
    lemma_sum_scale(tq, beta, h);
    lemma_sum_scale(tr, alpha, h);
    lemma_sum_scale(ts, beta, h);
    lemma_sum_scale(tsb, alpha, h);
    lemma_d_shape(sum_of(tp, h), sum_of(tq, h), sum_of(tr, h), sum_of(ts, h), alpha, beta);
}

/// The verifier's running values are the inner products of the prover's vectors over their
/// `n = 2^ν` entries: `D₁ = ⟨v₁, Γ₂⟩`, `D₂ = ⟨Γ₁, v₂⟩`, `E₁ = ⟨v₁, s₂⟩`, `E₂ = ⟨v₂, s₁⟩`, and both
/// expect `ν` more rounds.
pub open spec fn tracks<E: Pairing>(
    v: VerifierView<E>,
    s: ProverView<E>,
    setup: ProverSetup<E>,
) -> bool {
    let n = pow2(s.nu);
    &&& v.nu == s.nu
    &&& v.d_1 == inner_pairing::<E>(s.v1, setup.g2_vec@.subrange(0, n as int), n)
    &&& v.d_2 == inner_pairing::<E>(setup.g1_vec@.subrange(0, n as int), s.v2, n)
    &&& v.e_1 == msm_spec::<E::G1>(s.v1, s.s2, n)
    &&& v.e_2 == msm_spec::<E::G2>(s.v2, s.s1, n)
}

/// The verifier's Δ values are those of the prover's generators for round sizes up to
/// `2^max_log_n`.
pub open spec fn setups_agree<E: Pairing>(
    psetup: ProverSetup<E>,
    vsetup: VerifierSetup<E>,
    max_log_n: nat,
) -> bool {
    &&& psetup.deltas_hold(max_log_n)
    &&& vsetup.delta_1l@ == psetup.delta_1l@
    &&& vsetup.delta_1r@ == psetup.delta_1r@
    &&& vsetup.delta_2l@ == psetup.delta_2l@
    &&& vsetup.delta_2r@ == psetup.delta_2r@
}

/// The prover state is ready for a round: vectors of length `2^ν`, no first-round scalars, and
/// generators at least as long.
pub open spec fn ready<E: Pairing>(s: ProverView<E>, setup: ProverSetup<E>) -> bool {
    &&& s.sizes_ok()
    &&& s.v2_scalars is None
    &&& setup.g1_vec@.len() >= pow2(s.nu)
    &&& setup.g2_vec@.len() >= pow2(s.nu)
}

/// The prover's scalar vectors are the evaluation vectors of the coordinates the verifier has
/// not folded yet, scaled by the factors of those it has: with `j` challenges so far,
/// `s₁ = λ(l[..ν])·Π_{i<j}(α_i·(1 − l_i') + l_i')` for the coordinates `l` of the left half of
/// the point (the folded coordinates `l_i'` taken from the last one back), and likewise `s₂`
/// for those of its right half.
pub open spec fn scalars_follow<E: Pairing>(v: VerifierView<E>, s: ProverView<E>) -> bool {
    let j = v.alpha_challenges.len();
    &&& v.eval_point_left.len() == j + s.nu
    &&& v.eval_point_right.len() == j + s.nu
    &&& s.s1 == scaled_lagrange(
        v.eval_point_left,
        s.nu,
        fold_eval_spec(v.eval_point_left, v.alpha_challenges, j),
    )
    &&& s.s2 == scaled_lagrange(
        v.eval_point_right,
        s.nu,
        fold_eval_spec(v.eval_point_right, v.alpha_challenges, j),
    )
}

/// Correctness of a round of Dory-Reduce: where the verifier's values track the honest
/// prover's vectors, they still do after the round, for any challenges β, α: the verifier's
/// update of D₁, D₂, E₁, E₂ from the prover's two messages gives the inner products of the
/// combined and folded vectors.
pub proof fn lemma_round_keeps_tracking<E: Pairing>(
    s: ProverView<E>,
    v: VerifierView<E>,
    psetup: ProverSetup<E>,
    vsetup: VerifierSetup<E>,
    max_log_n: nat,
    beta: <E::G1 as Group>::Scalar,
    alpha: <E::G1 as Group>::Scalar,
)
    requires
        ready(s, psetup),
        1 <= s.nu <= max_log_n,
        setups_agree(psetup, vsetup, max_log_n),
        tracks(v, s, psetup),
    ensures
        ({
            let m1 = first_reduce_message_spec::<E>(s, psetup);
            let sc = combine_spec::<E>(s, psetup, beta);
            let m2 = second_reduce_message_spec::<E>(sc);
            let sf = fold_spec::<E>(sc, alpha);
            let vf = verify_round_spec::<E>(v, vsetup, m1, m2, beta, alpha);
            &&& tracks(vf, sf, psetup)
            &&& ready(sf, psetup)
            &&& scalars_follow(v, s) ==> scalars_follow(vf, sf)
        }),
{
    let nu = s.nu;
    let h = pow2((nu - 1) as nat);
    let n = pow2(nu);
    lemma_pow2_unfold(nu);
    vstd::arithmetic::power2::lemma_pow2_pos((nu - 1) as nat);
    let g1 = psetup.g1_vec@;
    let g2 = psetup.g2_vec@;
    let sc = combine_spec::<E>(s, psetup, beta);
    let sf = fold_spec::<E>(sc, alpha);
    assert(sc.v1 =~= combined(s.v1, g1, beta, n));
    assert(sc.v2 =~= combined(s.v2, g2, beta, n));
    assert(sf.v1 =~= folded(sc.v1, alpha, h));
    assert(sf.v2 =~= folded(sc.v2, alpha, h));
    assert(sf.s1 =~= fold_scalar_vec(s.s1, alpha, h));
    assert(sf.s2 =~= fold_scalar_vec(s.s2, alpha, h));
    assert(psetup.delta_1l@[nu as int] == delta_at_1l::<E>(psetup, nu));
    assert(psetup.delta_1r@[nu as int] == delta_at_1r::<E>(psetup, nu));
    assert(psetup.delta_2l@[nu as int] == delta_at_1l::<E>(psetup, nu));
    assert(psetup.delta_2r@[nu as int] == delta_at_2r::<E>(psetup, nu));
    lemma_d1_update::<E>(s.v1, g1, g2, h, beta, alpha);
    lemma_d2_update::<E>(s.v2, g1, g2, h, beta, alpha);
    lemma_e_update::<E::G1>(s.v1, g1, s.s2, h, beta, alpha);
    lemma_e_update::<E::G2>(s.v2, g2, s.s1, h, beta, alpha);
    assert(g2.subrange(0, n as int).subrange(0, h as int) =~= g2.subrange(0, h as int));
    assert(g1.subrange(0, n as int).subrange(0, h as int) =~= g1.subrange(0, h as int));
    if scalars_follow(v, s) {
        let j = v.alpha_challenges.len();
        let l = v.eval_point_left;
        let r = v.eval_point_right;
        lemma_fold_scaled_lagrange(r, nu, fold_eval_spec(r, v.alpha_challenges, j), alpha);
        lemma_fold_scaled_lagrange(l, nu, fold_eval_spec(l, v.alpha_challenges, j), alpha);
        lemma_fold_eval_push(r, v.alpha_challenges, alpha);
        lemma_fold_eval_push(l, v.alpha_challenges, alpha);
    }
}

/// `Δ₁L` of the prover's generators for rounds with `2^k` elements.
spec fn delta_at_1l<E: Pairing>(setup: ProverSetup<E>, k: nat) -> E::GT {
    crate::protocol::setup::delta_1l_spec::<E>(setup.g1_vec@, setup.g2_vec@, k)
}

/// `Δ₁R` of the prover's generators for rounds with `2^k` elements.
spec fn delta_at_1r<E: Pairing>(setup: ProverSetup<E>, k: nat) -> E::GT {
    crate::protocol::setup::delta_1r_spec::<E>(setup.g1_vec@, setup.g2_vec@, k)
}

/// `Δ₂R` of the prover's generators for rounds with `2^k` elements.
spec fn delta_at_2r<E: Pairing>(setup: ProverSetup<E>, k: nat) -> E::GT {
    crate::protocol::setup::delta_2r_spec::<E>(setup.g1_vec@, setup.g2_vec@, k)
}

/// Correctness of the reduce rounds: a verifier that replays the proof of an honest prover
/// (its transcript starting where the prover's did) and whose values track the prover's vectors
/// at the start, draws a challenge in every round and still tracks the prover's folded vectors
/// after the `k` rounds.
pub proof fn lemma_rounds_keep_tracking<E: Pairing, T: Transcript<Scalar = <E::G1 as Group>::Scalar>>(
    b: ProofBuilderView<E::G1, E::G2, E::GT, <E::G1 as Group>::Scalar>,
    s: ProverView<E>,
    psetup: ProverSetup<E>,
    v: VerifierView<E>,
    vsetup: VerifierSetup<E>,
    max_log_n: nat,
    k: nat,
)
    requires
        b.first_messages.len() == b.second_messages.len(),
        prove_rounds::<E, T>(b, s, psetup, k) is Some,
        ready(s, psetup),
        k <= s.nu <= max_log_n,
        setups_agree(psetup, vsetup, max_log_n),
        tracks(v, s, psetup),
    ensures
        ({
            let (b2, s2) = prove_rounds::<E, T>(b, s, psetup, k)->0;
            &&& verify_rounds::<E, T>(
                v,
                vsetup,
                b.absorbed,
                b2.first_messages,
                b2.second_messages,
                b.first_messages.len(),
                k,
            ) matches Ok((v2, _)) && tracks(v2, s2, psetup) && (scalars_follow(v, s)
                ==> scalars_follow(v2, s2)) && v2.e_1_orig == v.e_1_orig && v2.d_2_orig
                == v.d_2_orig && v2.eval_point_left == v.eval_point_left && v2.eval_point_right
                == v.eval_point_right
            &&& ready(s2, psetup)
            &&& s2.nu == s.nu - k
        }),
    decreases k,
{
    if k > 0 {
        reveal(prove_round_spec);
        reveal(verify_round_step);
        let m1 = first_reduce_message_spec::<E>(s, psetup);
        let (c1, a1) = first_reduce_step::<T, E::G1, E::G2, E::GT>(b.absorbed, m1)->0;
        let sc = combine_spec::<E>(s, psetup, c1.beta);
        let m2 = second_reduce_message_spec::<E>(sc);
        let (c2, a2) = second_reduce_step::<T, E::G1, E::G2, E::GT>(a1, m2)->0;
        let (b1, s1) = prove_round_spec::<E, T>(b, s, psetup)->0;
        assert(s1 == fold_spec::<E>(sc, c2.alpha));
        let b2 = (prove_rounds::<E, T>(b, s, psetup, k)->0).0;
        let i = b.first_messages.len();
        lemma_prove_rounds_append::<E, T>(b1, s1, psetup, (k - 1) as nat);
        assert(b2.first_messages[i as int] == b2.first_messages.subrange(
            0,
            b1.first_messages.len() as int,
        )[i as int]);
        assert(b2.second_messages[i as int] == b2.second_messages.subrange(
            0,
            b1.second_messages.len() as int,
        )[i as int]);
        lemma_round_keeps_tracking::<E>(s, v, psetup, vsetup, max_log_n, c1.beta, c2.alpha);
        let v1 = verify_round_spec::<E>(v, vsetup, m1, m2, c1.beta, c2.alpha);
        lemma_rounds_keep_tracking::<E, T>(b1, s1, psetup, v1, vsetup, max_log_n, (k - 1) as nat);
    }
}

} // verus!
