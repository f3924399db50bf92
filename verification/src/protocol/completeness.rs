//! Completeness of the evaluation proof: the verifier accepts the honest prover's proof of the
//! evaluation of a polynomial at any point.
use vstd::arithmetic::power2::pow2;
use vstd::prelude::*;

use crate::messages::{FinalBasesMessage, FinalizeChallenge, ScalarProductMessage};
use crate::primitives::transcript::Transcript;
use crate::protocol::builder::{
    empty_builder_view, finalize_challenge_of, scalar_product_absorb, vmv_absorb, ProofBuilderView,
};
use crate::protocol::correctness::{lemma_rounds_keep_tracking, setups_agree};
use crate::protocol::evaluate::{evaluation_proof_spec, verify_evaluation_spec};
use crate::protocol::inner_product::{
    ip_prove_spec, lemma_prove_rounds_append, lemma_verifier_replays_rounds, prove_rounds,
    verify_rounds,
};
use crate::primitives::arithmetic::{msm_spec, pairing_sum, Field, Group, Pairing};
use crate::primitives::folding::scaled_lagrange;
use crate::primitives::poly::{
    column_sum, fold_eval_spec, lagrange_eval, num_rows, row_commitments, row_of,
};
use crate::primitives::sums::{
    field_sum, lemma_field_sum_wf, lemma_msm_is_sum, lemma_pairing_sum_is_sum, lemma_sum_add,
    lemma_sum_congruent, lemma_sum_scale, lemma_sum_wf, sum_of,
};
use crate::protocol::commit::{committed_rows, lemma_row_starts_inside, padded_with_identity};
use crate::protocol::evaluate::lemma_num_rows_bound;
use crate::protocol::matrix_form::{
    lemma_column_sum_as_field_sum, lemma_polynomial_evaluation_additive,
    lemma_polynomial_evaluation_wf,
};
use crate::protocol::commit::{lemma_commitment_additive, lemma_inner_pairing_additive};
use crate::primitives::poly::{min_nat, zero_padded};
use crate::primitives::sums::lemma_field_sum_congruent;
use crate::protocol::correctness::{ready, scalars_follow, tracks};
use crate::protocol::evaluate::{
    dory_state_from_poly, gamma1_v, scaled_base, v_vec_spec, vmv_message_spec, vmv_state_spec,
    weighted_sum,
};
use crate::primitives::poly::{lagrange_basis, lagrange_factor, left_right_vecs, padded_lagrange};
use crate::protocol::state::initial_verifier_view;
use crate::protocol::inner_product::final_bases_spec;
use crate::protocol::interactive_protocol::finalize_accepts;
use crate::protocol::setup::{inner_pairing, ProverSetup, VerifierSetup};
use crate::protocol::state::{ProverView, VerifierView};
use crate::protocol::matrix_form::{lemma_vmv_evaluation_is_polynomial_evaluation, vmv_evaluation};
use crate::primitives::poly::polynomial_evaluation;

verus! {

/// The verifier state with the base-case elements of the proof set.
pub open spec fn with_final_bases<E: Pairing>(
    v: VerifierView<E>,
    fb: FinalBasesMessage<E::G1, E::G2>,
) -> VerifierView<E> {
    VerifierView { v1_final: Some(fb.v1_final), v2_final: Some(fb.v2_final), ..v }
}

/// `0 + x == x` for a well-formed `x`.
proof fn lemma_identity_add<G: Group>(x: G)
    requires
        x.wf_spec(),
    ensures
        G::identity_spec().add_spec(x) == x,
{
    G::lemma_add_comm(G::identity_spec(), x);
    G::lemma_add_identity(x);
}

/// The final check accepts at the base case where the verifier tracks the prover and the VMV
/// relation `e(E₁, Γ₂,fin) = D₂` holds of the values the verifier received first; for any
/// batching challenges γ₁, γ₂.
pub proof fn lemma_final_check_accepts<E: Pairing>(
    vk: VerifierView<E>,
    s: ProverView<E>,
    psetup: ProverSetup<E>,
    vsetup: VerifierSetup<E>,
    gamma: FinalizeChallenge<<E::G1 as Group>::Scalar>,
)
    requires
        s.nu == 0,
        s.sizes_ok(),
        tracks(vk, s, psetup),
        scalars_follow(vk, s),
        psetup.g1_vec@.len() >= 1,
        psetup.g2_vec@.len() >= 1,
        vsetup.g1_0 == psetup.g1_vec@[0],
        vsetup.g2_0 == psetup.g2_vec@[0],
        vsetup.g_fin == psetup.g_fin,
        E::pair_spec(vk.e_1_orig, vsetup.g_fin) == vk.d_2_orig,
    ensures
        finalize_accepts::<E>(with_final_bases(vk, final_bases_spec::<E>(s)), vsetup, gamma),
{
    let one = <E::G1 as Group>::Scalar::one_spec();
    vstd::arithmetic::power2::lemma2_to64();
    assert(pow2(0) == 1);
    let v1 = s.v1[0];
    let v2 = s.v2[0];
    let g1_0 = vsetup.g1_0;
    let g2_0 = vsetup.g2_0;
    let gfin = vsetup.g_fin;
    let f1 = fold_eval_spec(vk.eval_point_left, vk.alpha_challenges, vk.alpha_challenges.len());
    let f2 = fold_eval_spec(vk.eval_point_right, vk.alpha_challenges, vk.alpha_challenges.len());
    // the scalars are the folded scalars
    lemma_fold_eval_wf(vk.eval_point_left, vk.alpha_challenges, vk.alpha_challenges.len());
    lemma_fold_eval_wf(vk.eval_point_right, vk.alpha_challenges, vk.alpha_challenges.len());
    <E::G1 as Group>::Scalar::lemma_ops_wf(one, one);
    <E::G1 as Group>::Scalar::lemma_mul_comm(one, f1);
    <E::G1 as Group>::Scalar::lemma_mul_comm(one, f2);
    <E::G1 as Group>::Scalar::lemma_mul_one(f1);
    <E::G1 as Group>::Scalar::lemma_mul_one(f2);
    assert(lagrange_eval(vk.eval_point_right.subrange(0, 0), 0) == one);
    assert(lagrange_eval(vk.eval_point_left.subrange(0, 0), 0) == one);
    assert(s.s2[0] == scaled_lagrange(vk.eval_point_right, 0, f2)[0]);
    assert(s.s1[0] == scaled_lagrange(vk.eval_point_left, 0, f1)[0]);
    assert(s.s2[0] == f2);
    assert(s.s1[0] == f1);
    // E₁ = v₁'·s₂', E₂ = v₂'·s₁'
    let x1 = v1.scale_spec(f2);
    let x2 = v2.scale_spec(f1);
    E::G1::lemma_group_wf(v1, v1, f2);
    E::G2::lemma_group_wf(v2, v2, f1);
    lemma_identity_add(x1);
    lemma_identity_add(x2);
    assert(vk.e_1 == x1) by {
        reveal_with_fuel(msm_spec, 2);
    }
    assert(vk.e_2 == x2) by {
        reveal_with_fuel(msm_spec, 2);
    }
    // D₁ = e(v₁', Γ₂[0]), D₂ = e(Γ₁[0], v₂')
    let p1 = E::pair_spec(v1, g2_0);
    let p2 = E::pair_spec(g1_0, v2);
    E::lemma_pair_wf(v1, g2_0);
    E::lemma_pair_wf(g1_0, v2);
    lemma_identity_add(p1);
    lemma_identity_add(p2);
    assert(psetup.g2_vec@.subrange(0, 1)[0] == g2_0);
    assert(psetup.g1_vec@.subrange(0, 1)[0] == g1_0);
    assert(vk.d_1 == p1) by {
        reveal_with_fuel(pairing_sum, 2);
    }
    assert(vk.d_2 == p2) by {
        reveal_with_fuel(pairing_sum, 2);
    }
    // e(E₁·γ₁, Γ₂[0]) == (D₁·s₂')·γ₁
    E::lemma_pair_scale_left(x1, g2_0, gamma.gamma_1);
    E::lemma_pair_scale_left(v1, g2_0, f2);
    // e(Γ₁[0]·γ₂, E₂) == (D₂·s₁')·γ₂
    E::lemma_pair_scale_left(g1_0, x2, gamma.gamma_2);
    E::lemma_pair_scale_right(g1_0, v2, f1);
    // e(E₁,orig, Γ₂,fin) == D₂,orig
    let p0 = E::pair_spec(vk.e_1_orig, gfin);
    E::lemma_pair_wf(vk.e_1_orig, gfin);
    lemma_identity_add(p0);
    let ps = seq![vk.e_1_orig, vk.e_1.scale_spec(gamma.gamma_1), g1_0.scale_spec(gamma.gamma_2)];
    let qs = seq![gfin, g2_0, vk.e_2];
    assert(inner_pairing::<E>(ps, qs, 3) == E::GT::identity_spec().add_spec(p0).add_spec(
        E::pair_spec(ps[1], qs[1]),
    ).add_spec(E::pair_spec(ps[2], qs[2]))) by {
        reveal_with_fuel(pairing_sum, 4);
    }
}

/// The folded scalar is well formed.
proof fn lemma_fold_eval_wf<F: Field>(coords: Seq<F>, alphas: Seq<F>, k: nat)
    ensures
        fold_eval_spec(coords, alphas, k).wf_spec(),
{
    if k == 0 {
        F::lemma_ops_wf(F::one_spec(), F::one_spec());
    } else {
        let c = crate::primitives::poly::folded_coordinate(coords, k - 1);
        F::lemma_ops_wf(
            fold_eval_spec(coords, alphas, (k - 1) as nat),
            alphas[k - 1].mul_spec(F::one_spec().sub_spec(c)).add_spec(c),
        );
    }
}

/// A sum of identities is the identity.
proof fn lemma_sum_of_identities<G: Group>(n: nat)
    ensures
        sum_of(|i: int| G::identity_spec(), n) == G::identity_spec(),
    decreases n,
{
    if n > 0 {
        lemma_sum_of_identities::<G>((n - 1) as nat);
        G::lemma_group_wf(G::identity_spec(), G::identity_spec(), arbitrary());
        G::lemma_add_identity(G::identity_spec());
    }
}

/// `R·w` coefficients make `R` rows of `w`.
proof fn lemma_num_rows_exact(rows: nat, w: nat)
    requires
        w > 0,
    ensures
        num_rows(rows * w, w) == rows,
{
    vstd::arithmetic::div_mod::lemma_fundamental_div_mod_converse(
        (rows * w + w - 1) as int,
        w as int,
        rows as int,
        (w - 1) as int,
    );
}

/// Row `j` of a full matrix commits to `Σ_c Γ₁[c]·M[j][c]`.
proof fn lemma_row_commitment<G: Group>(g1: Seq<G>, coeffs: Seq<G::Scalar>, w: nat, rows: nat, j: int)
    requires
        w > 0,
        g1.len() >= w,
        coeffs.len() == rows * w,
        0 <= j < rows,
    ensures
        row_commitments::<G>(g1.subrange(0, w as int), coeffs, w)[j] == sum_of(
            |c: int| g1[c].scale_spec(coeffs[j * w + c]),
            w,
        ),
{
    lemma_num_rows_exact(rows, w);
    assert(j * w + w <= rows * w) by (nonlinear_arith)
        requires
            0 <= j < rows,
    ;
    let gens = g1.subrange(0, w as int);
    let row = row_of(coeffs, w, j as nat);
    assert(row =~= coeffs.subrange(j * w, j * w + w));
    lemma_msm_is_sum(gens.subrange(0, w as int), row, w);
    lemma_sum_congruent(
        |c: int| gens.subrange(0, w as int)[c].scale_spec(row[c]),
        |c: int| g1[c].scale_spec(coeffs[j * w + c]),
        w,
    );
}

/// Exchange of the double sum behind the VMV relation, over the first `r` rows of a full
/// matrix `M` with `w` columns: `Σ_{j<r} (Σ_c Γ₁[c]·M[j][c])·L[j] == Σ_c Γ₁[c]·(Σ_{j<r} L[j]·M[j][c])`.
proof fn lemma_exchange<G: Group>(
    g1: Seq<G>,
    coeffs: Seq<G::Scalar>,
    l: Seq<G::Scalar>,
    w: nat,
    rows: nat,
    r: nat,
)
    requires
        w > 0,
        g1.len() >= w,
        coeffs.len() == rows * w,
        l.len() >= rows,
        r <= rows,
    ensures
        sum_of(
            |j: int| row_commitments::<G>(g1.subrange(0, w as int), coeffs, w)[j].scale_spec(l[j]),
            r,
        ) == sum_of(|c: int| g1[c].scale_spec(column_sum(coeffs, l, w, c as nat, r)), w),
    decreases r,
{
    let rc = row_commitments::<G>(g1.subrange(0, w as int), coeffs, w);
    if r == 0 {
        assert forall|c: int| 0 <= c < w implies #[trigger] g1[c].scale_spec(
            column_sum(coeffs, l, w, c as nat, 0),
        ) == G::identity_spec() by {
            G::lemma_scale_zero(g1[c]);
        }
        lemma_sum_congruent(
            |c: int| g1[c].scale_spec(column_sum(coeffs, l, w, c as nat, 0)),
            |c: int| G::identity_spec(),
            w,
        );
        lemma_sum_of_identities::<G>(w);
    } else {
        let j = r - 1;
        lemma_exchange(g1, coeffs, l, w, rows, (r - 1) as nat);
        lemma_row_commitment(g1, coeffs, w, rows, j);
        let term = |c: int| g1[c].scale_spec(coeffs[j * w + c]);
        let scaled = |c: int| term(c).scale_spec(l[j]);
        let prev = |c: int| g1[c].scale_spec(column_sum(coeffs, l, w, c as nat, (r - 1) as nat));
        let next = |c: int| g1[c].scale_spec(column_sum(coeffs, l, w, c as nat, r));
        lemma_sum_scale(term, l[j], w);
        lemma_sum_add(prev, scaled, w);
        assert forall|c: int| 0 <= c < w implies #[trigger] next(c) == prev(c).add_spec(scaled(c)) by {
            assert(j * w + c < rows * w) by (nonlinear_arith)
                requires
                    0 <= j < rows,
                    0 <= c < w,
            ;
            let m = coeffs[j * w + c];
            let cs = column_sum(coeffs, l, w, c as nat, (r - 1) as nat);
            assert(column_sum(coeffs, l, w, c as nat, r) == cs.add_spec(l[j].mul_spec(m)));
            G::lemma_scale_mul(g1[c], m, l[j]);
            G::Scalar::lemma_mul_comm(m, l[j]);
            G::lemma_scale_field_add(g1[c], cs, l[j].mul_spec(m));
        }
        lemma_sum_congruent(next, |c: int| prev(c).add_spec(scaled(c)), w);
    }
}

/// The VMV relation: for a full square matrix of `n × n` coefficients, the commitment of the
/// row commitments with `L` equals the commitment of `v = Lᵀ·M` under `Γ₁`:
/// `⟨T', L⟩ == ⟨Γ₁, v⟩`.
pub proof fn lemma_vmv_relation<G: Group>(
    g1: Seq<G>,
    coeffs: Seq<G::Scalar>,
    l: Seq<G::Scalar>,
    n: nat,
)
    requires
        n > 0,
        g1.len() >= n,
        coeffs.len() == n * n,
        l.len() == n,
    ensures
        msm_spec::<G>(row_commitments::<G>(g1.subrange(0, n as int), coeffs, n), l, n) == msm_spec::<G>(
            g1.subrange(0, n as int),
            Seq::new(n, |c: int| column_sum(coeffs, l, n, c as nat, n)),
            n,
        ),
{
    let rc = row_commitments::<G>(g1.subrange(0, n as int), coeffs, n);
    let v = Seq::new(n, |c: int| column_sum(coeffs, l, n, c as nat, n));
    lemma_msm_is_sum(rc, l, n);
    lemma_exchange(g1, coeffs, l, n, n, n);
    lemma_msm_is_sum(g1.subrange(0, n as int), v, n);
    lemma_sum_congruent(
        |c: int| g1.subrange(0, n as int)[c].scale_spec(v[c]),
        |c: int| g1[c].scale_spec(column_sum(coeffs, l, n, c as nat, n)),
        n,
    );
}

/// `g·Σ t(i) == Σ g·t(i)`
proof fn lemma_scale_field_sum<G: Group>(g: G, t: spec_fn(int) -> G::Scalar, n: nat)
    ensures
        g.scale_spec(field_sum(t, n)) == sum_of(|i: int| g.scale_spec(t(i)), n),
    decreases n,
{
    if n == 0 {
        G::lemma_scale_zero(g);
    } else {
        lemma_scale_field_sum(g, t, (n - 1) as nat);
        G::lemma_scale_field_add(g, field_sum(t, (n - 1) as nat), t(n - 1));
    }
}

/// `e(Σ t(i), q) == Σ e(t(i), q)`
proof fn lemma_pair_sum_left<E: Pairing>(t: spec_fn(int) -> E::G1, q: E::G2, n: nat)
    ensures
        E::pair_spec(sum_of(t, n), q) == sum_of(|i: int| E::pair_spec(t(i), q), n),
    decreases n,
{
    if n == 0 {
        E::lemma_pair_identity_left(q);
    } else {
        lemma_pair_sum_left::<E>(t, q, (n - 1) as nat);
        E::lemma_pair_add_left(sum_of(t, (n - 1) as nat), t(n - 1), q);
    }
}

/// Basis functions over well-formed coordinates are well formed.
proof fn lemma_lagrange_basis_wf<F: Field>(p: Seq<F>, n: nat, i: nat)
    requires
        1 <= n <= p.len(),
        forall|j: int| 0 <= j < p.len() ==> #[trigger] p[j].wf_spec(),
    ensures
        lagrange_basis(p, n, i).wf_spec(),
    decreases n,
{
    F::lemma_ops_wf(F::one_spec(), p[n - 1]);
    if n > 1 {
        let half = pow2((n - 1) as nat);
        if i < half {
            lemma_lagrange_basis_wf(p, (n - 1) as nat, i);
            F::lemma_ops_wf(lagrange_basis(p, (n - 1) as nat, i), lagrange_factor(p[n - 1], false));
        } else {
            lemma_lagrange_basis_wf(p, (n - 1) as nat, (i - half) as nat);
            F::lemma_ops_wf(
                lagrange_basis(p, (n - 1) as nat, (i - half) as nat),
                lagrange_factor(p[n - 1], true),
            );
        }
    }
}

/// The evaluation vector of well-formed coordinates is its own multiple by one.
proof fn lemma_lagrange_times_one<F: Field>(p: Seq<F>, k: nat)
    requires
        p.len() == k,
        forall|j: int| 0 <= j < p.len() ==> #[trigger] p[j].wf_spec(),
    ensures
        padded_lagrange(p, pow2(k), pow2(k)) == scaled_lagrange(p, k, F::one_spec()),
{
    assert(p.subrange(0, k as int) =~= p);
    assert forall|i: int| 0 <= i < pow2(k) implies #[trigger] padded_lagrange(p, pow2(k), pow2(k))[i]
        == scaled_lagrange(p, k, F::one_spec())[i] by {
        let x = lagrange_eval(p, i as nat);
        if k == 0 {
            F::lemma_ops_wf(F::one_spec(), F::one_spec());
        } else {
            lemma_lagrange_basis_wf(p, k, i as nat);
        }
        F::lemma_mul_one(x);
    }
    assert(padded_lagrange(p, pow2(k), pow2(k)) =~= scaled_lagrange(p, k, F::one_spec()));
}

/// The commitment to a full square matrix of coefficients: the multi-pairing of its row
/// commitments with `Γ₂`.
pub open spec fn honest_commitment<E: Pairing>(
    setup: ProverSetup<E>,
    coeffs: Seq<<E::G1 as Group>::Scalar>,
    k: nat,
) -> E::GT {
    inner_pairing::<E>(
        committed_rows::<E::G1>(setup.g1_vec@, coeffs, k, k),
        setup.g2_vec@.subrange(0, pow2(k) as int),
        pow2(k),
    )
}

/// The verifier state that Eval-VMV-RE builds for the honest prover's VMV message, the honest
/// commitment and the VMV evaluation, each batched with the factor one.
pub open spec fn honest_initial_view<E: Pairing>(
    setup: ProverSetup<E>,
    vsetup: VerifierSetup<E>,
    coeffs: Seq<<E::G1 as Group>::Scalar>,
    point: Seq<<E::G1 as Group>::Scalar>,
) -> VerifierView<E> {
    let k = point.len() / 2;
    let rows = committed_rows::<E::G1>(setup.g1_vec@, coeffs, k, k);
    let s0 = dory_state_from_poly::<E>(point, rows);
    let v = v_vec_spec(coeffs, s0.s2, k, k);
    let msg = vmv_message_spec::<E>(s0, v, setup);
    let one = <E::G1 as Group>::Scalar::one_spec();
    let a_commit = msm_spec::<E::GT>(seq![honest_commitment(setup, coeffs, k)], seq![one], 1);
    let y = weighted_sum(seq![vmv_evaluation(coeffs, point)], seq![one], 1);
    initial_verifier_view::<E>(a_commit, msg.d2, msg.e1, vsetup.g_fin.scale_spec(y), point)
}

/// An MSM whose scalars from `m` on are zero is the MSM of its first `m` terms.
proof fn lemma_msm_zero_tail<G: Group>(bases: Seq<G>, scalars: Seq<G::Scalar>, m: nat, n: nat)
    requires
        m <= n,
        forall|i: int| m <= i < n ==> #[trigger] scalars[i] == G::Scalar::zero_spec(),
    ensures
        msm_spec::<G>(bases, scalars, n) == msm_spec::<G>(bases, scalars, m),
    decreases n,
{
    if n > m {
        lemma_msm_zero_tail(bases, scalars, m, (n - 1) as nat);
        let prev = msm_spec::<G>(bases, scalars, (n - 1) as nat);
        lemma_msm_is_sum(bases, scalars, (n - 1) as nat);
        lemma_sum_wf(|i: int| bases[i].scale_spec(scalars[i]), (n - 1) as nat);
        assert(scalars[n - 1] == G::Scalar::zero_spec());
        G::lemma_scale_zero(bases[n - 1]);
        G::lemma_add_identity(prev);
    }
}

/// MSMs over bases and scalars that agree below `n` agree.
proof fn lemma_msm_congruent<G: Group>(
    b1: Seq<G>,
    s1: Seq<G::Scalar>,
    b2: Seq<G>,
    s2: Seq<G::Scalar>,
    n: nat,
)
    requires
        forall|i: int| 0 <= i < n ==> #[trigger] b1[i] == b2[i] && s1[i] == s2[i],
    ensures
        msm_spec::<G>(b1, s1, n) == msm_spec::<G>(b2, s2, n),
    decreases n,
{
    if n > 0 {
        lemma_msm_congruent(b1, s1, b2, s2, (n - 1) as nat);
        assert(b1[n - 1] == b2[n - 1] && s1[n - 1] == s2[n - 1]);
    }
}

/// Padding the coefficients of a square matrix with zeros changes none of its committed rows.
proof fn lemma_committed_rows_zero_padded<G: Group>(g1: Seq<G>, coeffs: Seq<G::Scalar>, k: nat)
    requires
        g1.len() >= pow2(k),
        coeffs.len() <= pow2(k) * pow2(k),
    ensures
        committed_rows::<G>(g1, coeffs, k, k) == committed_rows::<G>(
            g1,
            zero_padded(coeffs, pow2(k) * pow2(k)),
            k,
            k,
        ),
{
    let w = pow2(k);
    let len = coeffs.len();
    let full = zero_padded(coeffs, w * w);
    vstd::arithmetic::power2::lemma_pow2_pos(k);
    let gw = g1.subrange(0, w as int);
    let rc = row_commitments::<G>(gw, coeffs, w);
    let rf = row_commitments::<G>(gw, full, w);
    lemma_num_rows_exact(w, w);
    lemma_num_rows_bound(len, w, w);
    let m = num_rows(len, w);
    let pc = padded_with_identity(rc, w);
    assert(rf.len() == w);
    assert(padded_with_identity(rf, w) == rf);
    assert forall|j: int| 0 <= j < w implies #[trigger] pc[j] == rf[j] by {
        assert(j * w + w <= w * w) by (nonlinear_arith)
            requires
                0 <= j < w,
        ;
        lemma_row_starts_inside(len, w, j as nat);
        let rowf = row_of(full, w, j as nat);
        assert(rowf.len() == w);
        if j < m {
            let rowc = row_of(coeffs, w, j as nat);
            let rl = rowc.len();
            assert forall|i: int| rl <= i < w implies #[trigger] rowf[i] == G::Scalar::zero_spec() by {
                assert(rowf[i] == full[j * w + i]);
            }
            lemma_msm_zero_tail(gw.subrange(0, w as int), rowf, rl, w);
            assert forall|i: int| 0 <= i < rl implies #[trigger] gw.subrange(0, w as int)[i]
                == gw.subrange(0, rl as int)[i] && rowf[i] == rowc[i] by {
                assert(rowf[i] == full[j * w + i]);
                assert(rowc[i] == coeffs[j * w + i]);
            }
            lemma_msm_congruent(
                gw.subrange(0, w as int),
                rowf,
                gw.subrange(0, rl as int),
                rowc,
                rl,
            );
        } else {
            assert forall|i: int| 0 <= i < w implies #[trigger] rowf[i] == G::Scalar::zero_spec() by {
                assert(rowf[i] == full[j * w + i]);
            }
            lemma_msm_zero_tail(gw.subrange(0, w as int), rowf, 0, w);
        }
    }
    assert(pc =~= rf);
}

/// Padding the coefficients of a square matrix with zeros changes none of its column sums.
proof fn lemma_v_vec_zero_padded<F: Field>(coeffs: Seq<F>, l: Seq<F>, k: nat)
    requires
        coeffs.len() <= pow2(k) * pow2(k),
        l.len() == pow2(k),
    ensures
        v_vec_spec(coeffs, l, k, k) == v_vec_spec(zero_padded(coeffs, pow2(k) * pow2(k)), l, k, k),
{
    let w = pow2(k);
    let full = zero_padded(coeffs, w * w);
    assert(min_nat(w, l.len()) == w);
    assert forall|c: int| 0 <= c < w implies #[trigger] column_sum(coeffs, l, w, c as nat, w)
        == column_sum(full, l, w, c as nat, w) by {
        lemma_column_sum_as_field_sum(coeffs, l, w, c as nat, w);
        lemma_column_sum_as_field_sum(full, l, w, c as nat, w);
        let tc = |r: int|
            if r * w + c < coeffs.len() {
                l[r].mul_spec(coeffs[r * w + c])
            } else {
                F::zero_spec()
            };
        let tf = |r: int|
            if r * w + c < full.len() {
                l[r].mul_spec(full[r * w + c])
            } else {
                F::zero_spec()
            };
        assert forall|r: int| 0 <= r < w implies #[trigger] tc(r) == tf(r) by {
            assert(0 <= r * w + c < w * w) by (nonlinear_arith)
                requires
                    0 <= r < w,
                    0 <= c < w,
            ;
            F::lemma_mul_zero(l[r]);
        }
        lemma_field_sum_congruent(tc, tf, w);
    }
    assert(v_vec_spec(coeffs, l, k, k) =~= v_vec_spec(full, l, k, k));
}

/// At the start of the inner-product argument of an honest evaluation proof, the verifier's
/// values track the prover's vectors, its scalars are the evaluation vectors of the two halves
/// of the point, the prover's state is ready for the rounds, and the VMV relation
/// `e(E₁, Γ₂,fin) = D₂` holds of the VMV message; for at most `2^d` coefficients, which the
/// matrix holds padded with zeros.
pub proof fn lemma_initial_tracking<E: Pairing>(
    psetup: ProverSetup<E>,
    vsetup: VerifierSetup<E>,
    coeffs: Seq<<E::G1 as Group>::Scalar>,
    point: Seq<<E::G1 as Group>::Scalar>,
)
    requires
        point.len() % 2 == 0,
        point.len() < usize::BITS,
        coeffs.len() <= pow2(point.len()),
        forall|j: int| 0 <= j < point.len() ==> #[trigger] point[j].wf_spec(),
        psetup.g1_vec@.len() >= pow2(point.len() / 2),
        psetup.g2_vec@.len() >= pow2(point.len() / 2),
        vsetup.g_fin == psetup.g_fin,
    ensures
        ({
            let k = point.len() / 2;
            let rows = committed_rows::<E::G1>(psetup.g1_vec@, coeffs, k, k);
            let s0 = dory_state_from_poly::<E>(point, rows);
            let s1 = vmv_state_spec::<E>(s0, v_vec_spec(coeffs, s0.s2, k, k), psetup);
            let v0 = honest_initial_view::<E>(psetup, vsetup, coeffs, point);
            &&& tracks(v0, s1, psetup)
            &&& scalars_follow(v0, s1)
            &&& ready(s1, psetup)
            &&& E::pair_spec(v0.e_1_orig, vsetup.g_fin) == v0.d_2_orig
        }),
{
    let k = point.len() / 2;
    let w = pow2(k);
    vstd::arithmetic::power2::lemma_pow2_adds(k, k);
    assert(k + k == point.len());
    let full = zero_padded(coeffs, w * w);
    lemma_committed_rows_zero_padded(psetup.g1_vec@, coeffs, k);
    let lr = left_right_vecs(point, k, k);
    lemma_v_vec_zero_padded(coeffs, lr.0, k);
    lemma_initial_tracking_full::<E>(psetup, vsetup, full, point);
    let rows = committed_rows::<E::G1>(psetup.g1_vec@, coeffs, k, k);
    assert(dory_state_from_poly::<E>(point, rows).s2 == lr.0);
    assert(honest_commitment(psetup, coeffs, k) == honest_commitment(psetup, full, k));
    assert(vmv_evaluation(coeffs, point) == vmv_evaluation(full, point));
    assert(honest_initial_view::<E>(psetup, vsetup, coeffs, point) == honest_initial_view::<E>(
        psetup,
        vsetup,
        full,
        point,
    ));
}

/// [`lemma_initial_tracking`] for a full matrix of `2^d` coefficients.
proof fn lemma_initial_tracking_full<E: Pairing>(
    psetup: ProverSetup<E>,
    vsetup: VerifierSetup<E>,
    coeffs: Seq<<E::G1 as Group>::Scalar>,
    point: Seq<<E::G1 as Group>::Scalar>,
)
    requires
        point.len() % 2 == 0,
        point.len() < usize::BITS,
        coeffs.len() == pow2(point.len()),
        forall|j: int| 0 <= j < point.len() ==> #[trigger] point[j].wf_spec(),
        psetup.g1_vec@.len() >= pow2(point.len() / 2),
        psetup.g2_vec@.len() >= pow2(point.len() / 2),
        vsetup.g_fin == psetup.g_fin,
    ensures
        ({
            let k = point.len() / 2;
            let rows = committed_rows::<E::G1>(psetup.g1_vec@, coeffs, k, k);
            let s0 = dory_state_from_poly::<E>(point, rows);
            let s1 = vmv_state_spec::<E>(s0, v_vec_spec(coeffs, s0.s2, k, k), psetup);
            let v0 = honest_initial_view::<E>(psetup, vsetup, coeffs, point);
            &&& tracks(v0, s1, psetup)
            &&& scalars_follow(v0, s1)
            &&& ready(s1, psetup)
            &&& E::pair_spec(v0.e_1_orig, vsetup.g_fin) == v0.d_2_orig
        }),
{
    let d = point.len();
    let k = d / 2;
    let n = pow2(k);
    let one = <E::G1 as Group>::Scalar::one_spec();
    vstd::arithmetic::power2::lemma_pow2_adds(k, k);
    vstd::arithmetic::power2::lemma_pow2_pos(k);
    vstd::arithmetic::power2::lemma2_to64();
    assert(k + k == d);
    let g1 = psetup.g1_vec@;
    let g2 = psetup.g2_vec@;
    let g1n = g1.subrange(0, n as int);
    let gfin = psetup.g_fin;
    // the rows and the vectors of the state
    let rc = row_commitments::<E::G1>(g1n, coeffs, n);
    lemma_num_rows_exact(n, n);
    let rows = committed_rows::<E::G1>(g1, coeffs, k, k);
    assert(rows == rc);
    let right = point.subrange(0, k as int);
    let left = point.subrange(k as int, d as int);
    let l = padded_lagrange(left, n, n);
    let r = padded_lagrange(right, n, n);
    if d == 0 {
        assert(left_right_vecs(point, k, k).0 =~= l);
        assert(left_right_vecs(point, k, k).1 =~= r);
    }
    assert(left_right_vecs(point, k, k) == (l, r));
    let s0 = dory_state_from_poly::<E>(point, rows);
    assert(s0.s2 == l && s0.s1 == r && s0.v1 == rows && s0.nu == k);
    let v = v_vec_spec(coeffs, l, k, k);
    let vc = Seq::new(n, |c: int| column_sum(coeffs, l, n, c as nat, n));
    assert(v =~= vc);
    let s1 = vmv_state_spec::<E>(s0, v, psetup);
    let sb = scaled_base::<E::G2>(gfin, v);
    assert(s1.v2 == sb);
    let v0 = honest_initial_view::<E>(psetup, vsetup, coeffs, point);
    let msg = vmv_message_spec::<E>(s0, v, psetup);
    // D₁: the commitment batched with one
    let c = honest_commitment(psetup, coeffs, k);
    let e = |p: E::G1, q: E::G2| E::pair_spec(p, q);
    let g2n = g2.subrange(0, n as int);
    lemma_pairing_sum_is_sum(e, rows, g2n, n);
    lemma_sum_wf(|i: int| e(rows[i], g2n[i]), n);
    E::GT::lemma_scale_one(c);
    E::GT::lemma_group_wf(c, c, one);
    lemma_identity_add(c);
    assert(v0.d_1 == c) by {
        reveal_with_fuel(msm_spec, 2);
    }
    // D₂: e(⟨Γ₁, v⟩, Γ₂,fin) == ⟨Γ₁, v·Γ₂,fin⟩
    assert(gamma1_v::<E>(psetup, v) == msm_spec::<E::G1>(g1n, v, n));
    let tm = |i: int| g1n[i].scale_spec(v[i]);
    lemma_msm_is_sum(g1n, v, n);
    lemma_pair_sum_left::<E>(tm, gfin, n);
    lemma_pairing_sum_is_sum(e, g1n, sb, n);
    assert forall|i: int| 0 <= i < n implies #[trigger] E::pair_spec(tm(i), gfin) == E::pair_spec(
        g1n[i],
        sb[i],
    ) by {
        E::lemma_pair_scale_left(g1n[i], gfin, v[i]);
        E::lemma_pair_scale_right(g1n[i], gfin, v[i]);
    }
    lemma_sum_congruent(|i: int| E::pair_spec(tm(i), gfin), |i: int| e(g1n[i], sb[i]), n);
    assert(v0.d_2 == inner_pairing::<E>(g1n, s1.v2, n));
    // E₂: Γ₂,fin·y == ⟨v·Γ₂,fin, R⟩
    let y = vmv_evaluation(coeffs, point);
    let tv = |c: int| v[c].mul_spec(r[c]);
    assert(y == field_sum(tv, n));
    lemma_field_sum_wf(tv, n);
    <E::G1 as Group>::Scalar::lemma_mul_one(y);
    <E::G1 as Group>::Scalar::lemma_add_comm(<E::G1 as Group>::Scalar::zero_spec(), y);
    <E::G1 as Group>::Scalar::lemma_add_zero(y);
    assert(weighted_sum(seq![y], seq![one], 1) == y) by {
        reveal_with_fuel(weighted_sum, 2);
    }
    lemma_scale_field_sum(gfin, tv, n);
    lemma_msm_is_sum(sb, r, n);
    assert forall|i: int| 0 <= i < n implies #[trigger] sb[i].scale_spec(r[i]) == gfin.scale_spec(
        tv(i),
    ) by {
        E::G2::lemma_scale_mul(gfin, v[i], r[i]);
    }
    lemma_sum_congruent(|i: int| sb[i].scale_spec(r[i]), |i: int| gfin.scale_spec(tv(i)), n);
    // the scalars
    assert forall|j: int| 0 <= j < right.len() implies #[trigger] right[j].wf_spec() by {
        assert(right[j] == point[j]);
    }
    assert forall|j: int| 0 <= j < left.len() implies #[trigger] left[j].wf_spec() by {
        assert(left[j] == point[j + k]);
    }
    lemma_lagrange_times_one(right, k);
    lemma_lagrange_times_one(left, k);
    // the VMV relation
    lemma_vmv_relation(g1, coeffs, l, n);
}

/// Completeness of the evaluation proof: for a polynomial with at most `2^d` coefficients, `d`
/// even, and a point of well-formed coordinates, the proof that `create_evaluation_proof`
/// builds (where the transcript yields every challenge) is accepted by
/// `verify_evaluation_proof`, given the honest commitment and the evaluation of the polynomial
/// at the point with batching factor one and a verifier transcript that starts where the
/// prover's did.
pub proof fn lemma_honest_proof_verifies<E: Pairing, T: Transcript<Scalar = <E::G1 as Group>::Scalar>>(
    absorbed: Seq<u8>,
    coeffs: Seq<<E::G1 as Group>::Scalar>,
    point: Seq<<E::G1 as Group>::Scalar>,
    psetup: ProverSetup<E>,
    vsetup: VerifierSetup<E>,
    max_log_n: nat,
)
    requires
        point.len() % 2 == 0,
        point.len() < usize::BITS,
        point.len() / 2 <= max_log_n,
        coeffs.len() <= pow2(point.len()),
        forall|j: int| 0 <= j < point.len() ==> #[trigger] point[j].wf_spec(),
        psetup.g1_vec@.len() >= pow2(point.len() / 2),
        psetup.g2_vec@.len() >= pow2(point.len() / 2),
        setups_agree(psetup, vsetup, max_log_n),
        vsetup.g1_0 == psetup.g1_vec@[0],
        vsetup.g2_0 == psetup.g2_vec@[0],
        vsetup.g_fin == psetup.g_fin,
    ensures
        ({
            let k = point.len() / 2;
            let rows = committed_rows::<E::G1>(psetup.g1_vec@, coeffs, k, k);
            let one = <E::G1 as Group>::Scalar::one_spec();
            match evaluation_proof_spec::<E, T>(absorbed, coeffs, rows, point, psetup) {
                Err(_) => true,
                Ok(p) => verify_evaluation_spec::<E, T>(
                    p,
                    seq![honest_commitment(psetup, coeffs, k)],
                    seq![one],
                    seq![polynomial_evaluation(coeffs, point)],
                    point,
                    vsetup,
                    absorbed,
                ) is Ok,
            }
        }),
{
    lemma_vmv_evaluation_is_polynomial_evaluation(coeffs, point);
    let d = point.len();
    let k = d / 2;
    let rows = committed_rows::<E::G1>(psetup.g1_vec@, coeffs, k, k);
    let one = <E::G1 as Group>::Scalar::one_spec();
    let s0 = dory_state_from_poly::<E>(point, rows);
    let v = v_vec_spec(coeffs, s0.s2, k, k);
    let msg = vmv_message_spec::<E>(s0, v, psetup);
    let a1 = absorbed + vmv_absorb::<T, E::G1, E::GT>(msg);
    let b1 = ProofBuilderView {
        vmv_message: Some(msg),
        absorbed: a1,
        ..empty_builder_view::<E::G1, E::G2, E::GT, <E::G1 as Group>::Scalar>(absorbed)
    };
    let s1 = vmv_state_spec::<E>(s0, v, psetup);
    assert((d - (d + 1) / 2) as nat == k);
    assert(evaluation_proof_spec::<E, T>(absorbed, coeffs, rows, point, psetup)
        == ip_prove_spec::<E, T>(b1, s1, psetup, k));
    if let Ok(p) = evaluation_proof_spec::<E, T>(absorbed, coeffs, rows, point, psetup) {
        let v0 = honest_initial_view::<E>(psetup, vsetup, coeffs, point);
        lemma_initial_tracking::<E>(psetup, vsetup, coeffs, point);
        vstd::arithmetic::power2::lemma_pow2_pos(k);
        let (b2, s2) = prove_rounds::<E, T>(b1, s1, psetup, k)->0;
        lemma_prove_rounds_append::<E, T>(b1, s1, psetup, k);
        lemma_verifier_replays_rounds::<E, T>(b1, s1, psetup, v0, vsetup, k);
        lemma_rounds_keep_tracking::<E, T>(b1, s1, psetup, v0, vsetup, max_log_n, k);
        assert(p.vmv_message == Some(msg));
        assert(p.first_messages == b2.first_messages);
        assert(p.second_messages == b2.second_messages);
        let (vk, a2) = verify_rounds::<E, T>(v0, vsetup, a1, b2.first_messages, b2.second_messages, 0, k)->Ok_0;
        {
            let fb = final_bases_spec::<E>(s2);
            let sp = ScalarProductMessage { e1: fb.v1_final, e2: fb.v2_final };
            let a3 = b2.absorbed + scalar_product_absorb::<T, E::G1, E::G2>(sp);
            let g = finalize_challenge_of::<T>(a3)->0;
            lemma_final_check_accepts::<E>(vk, s2, psetup, vsetup, g);
        }
    }
}

/// The honest commitment is additive in the polynomial: for coefficient sequences `p`, `q` and
/// `r` of one length, at most `2^(2k)`, with `r[i] = p[i] + q[i]`, the commitment to `r` is the
/// sum of those to `p` and `q`.
pub proof fn lemma_honest_commitment_additive<E: Pairing>(
    setup: ProverSetup<E>,
    p: Seq<<E::G1 as Group>::Scalar>,
    q: Seq<<E::G1 as Group>::Scalar>,
    r: Seq<<E::G1 as Group>::Scalar>,
    k: nat,
)
    requires
        p.len() == r.len(),
        q.len() == r.len(),
        forall|i: int| 0 <= i < r.len() ==> #[trigger] r[i] == p[i].add_spec(q[i]),
        r.len() <= pow2(k) * pow2(k),
        setup.g1_vec@.len() >= pow2(k),
    ensures
        honest_commitment(setup, r, k) == honest_commitment(setup, p, k).add_spec(
            honest_commitment(setup, q, k),
        ),
{
    let w = pow2(k);
    vstd::arithmetic::power2::lemma_pow2_pos(k);
    let g1 = setup.g1_vec@;
    let gw = g1.subrange(0, w as int);
    let g2w = setup.g2_vec@.subrange(0, w as int);
    lemma_commitment_additive::<E>(gw, g2w, p, q, r, w);
    lemma_num_rows_bound(r.len(), w, w);
    let cp = committed_rows::<E::G1>(g1, p, k, k);
    let cq = committed_rows::<E::G1>(g1, q, k, k);
    let cr = committed_rows::<E::G1>(g1, r, k, k);
    let id = E::G1::identity_spec();
    E::G1::lemma_group_wf(id, id, arbitrary());
    E::G1::lemma_add_identity(id);
    assert forall|j: int| 0 <= j < w implies #[trigger] cr[j] == cp[j].add_spec(cq[j]) by {}
    lemma_inner_pairing_additive::<E>(cp, cq, cr, g2w, w);
}

/// A multi-pairing is well formed.
proof fn lemma_inner_pairing_wf<E: Pairing>(a: Seq<E::G1>, b: Seq<E::G2>, n: nat)
    ensures
        inner_pairing::<E>(a, b, n).wf_spec(),
{
    let e = |x: E::G1, y: E::G2| E::pair_spec(x, y);
    lemma_pairing_sum_is_sum(e, a, b, n);
    lemma_sum_wf(|i: int| e(a[i], b[i]), n);
}

/// Batched completeness: for two polynomials `p` and `q` with as many coefficients, at most
/// `2^d`, `d` even, the honest proof for their sum at a point of well-formed coordinates is
/// accepted against the batch of the commitments to `p` and `q` with factors one and their
/// evaluations at the point (where the transcript yields every challenge).
pub proof fn lemma_batched_honest_proof_verifies<E: Pairing, T: Transcript<Scalar = <E::G1 as Group>::Scalar>>(
    absorbed: Seq<u8>,
    p: Seq<<E::G1 as Group>::Scalar>,
    q: Seq<<E::G1 as Group>::Scalar>,
    point: Seq<<E::G1 as Group>::Scalar>,
    psetup: ProverSetup<E>,
    vsetup: VerifierSetup<E>,
    max_log_n: nat,
)
    requires
        point.len() % 2 == 0,
        point.len() < usize::BITS,
        point.len() / 2 <= max_log_n,
        p.len() == q.len(),
        p.len() <= pow2(point.len()),
        forall|j: int| 0 <= j < point.len() ==> #[trigger] point[j].wf_spec(),
        psetup.g1_vec@.len() >= pow2(point.len() / 2),
        psetup.g2_vec@.len() >= pow2(point.len() / 2),
        setups_agree(psetup, vsetup, max_log_n),
        vsetup.g1_0 == psetup.g1_vec@[0],
        vsetup.g2_0 == psetup.g2_vec@[0],
        vsetup.g_fin == psetup.g_fin,
    ensures
        ({
            let k = point.len() / 2;
            let r = Seq::new(p.len(), |i: int| p[i].add_spec(q[i]));
            let rows = committed_rows::<E::G1>(psetup.g1_vec@, r, k, k);
            let one = <E::G1 as Group>::Scalar::one_spec();
            match evaluation_proof_spec::<E, T>(absorbed, r, rows, point, psetup) {
                Err(_) => true,
                Ok(pf) => verify_evaluation_spec::<E, T>(
                    pf,
                    seq![honest_commitment(psetup, p, k), honest_commitment(psetup, q, k)],
                    seq![one, one],
                    seq![polynomial_evaluation(p, point), polynomial_evaluation(q, point)],
                    point,
                    vsetup,
                    absorbed,
                ) is Ok,
            }
        }),
{
    let d = point.len();
    let k = d / 2;
    let w = pow2(k);
    let r = Seq::new(p.len(), |i: int| p[i].add_spec(q[i]));
    let one = <E::G1 as Group>::Scalar::one_spec();
    vstd::arithmetic::power2::lemma_pow2_adds(k, k);
    assert(k + k == d);
    lemma_honest_proof_verifies::<E, T>(absorbed, r, point, psetup, vsetup, max_log_n);
    lemma_honest_commitment_additive::<E>(psetup, p, q, r, k);
    lemma_polynomial_evaluation_additive(p, q, r, point);
    // the batched commitment
    let cp = honest_commitment(psetup, p, k);
    let cq = honest_commitment(psetup, q, k);
    let cr = honest_commitment(psetup, r, k);
    let g2w = psetup.g2_vec@.subrange(0, w as int);
    lemma_inner_pairing_wf::<E>(committed_rows::<E::G1>(psetup.g1_vec@, p, k, k), g2w, w);
    lemma_inner_pairing_wf::<E>(committed_rows::<E::G1>(psetup.g1_vec@, q, k, k), g2w, w);
    E::GT::lemma_scale_one(cp);
    E::GT::lemma_scale_one(cq);
    E::GT::lemma_group_wf(cp, cq, one);
    E::GT::lemma_scale_one(cr);
    lemma_identity_add(cp);
    lemma_identity_add(cr);
    assert(msm_spec::<E::GT>(seq![cp, cq], seq![one, one], 2) == cr) by {
        reveal_with_fuel(msm_spec, 3);
    }
    assert(msm_spec::<E::GT>(seq![cr], seq![one], 1) == cr) by {
        reveal_with_fuel(msm_spec, 2);
    }
    // the batched evaluation
    let ep = polynomial_evaluation(p, point);
    let eq = polynomial_evaluation(q, point);
    let er = polynomial_evaluation(r, point);
    lemma_polynomial_evaluation_wf(p, point);
    lemma_polynomial_evaluation_wf(q, point);
    lemma_polynomial_evaluation_wf(r, point);
    <E::G1 as Group>::Scalar::lemma_mul_one(ep);
    <E::G1 as Group>::Scalar::lemma_mul_one(eq);
    <E::G1 as Group>::Scalar::lemma_mul_one(er);
    <E::G1 as Group>::Scalar::lemma_add_comm(<E::G1 as Group>::Scalar::zero_spec(), ep);
    <E::G1 as Group>::Scalar::lemma_add_zero(ep);
    <E::G1 as Group>::Scalar::lemma_add_comm(<E::G1 as Group>::Scalar::zero_spec(), er);
    <E::G1 as Group>::Scalar::lemma_add_zero(er);
    assert(weighted_sum(seq![ep, eq], seq![one, one], 2) == er) by {
        reveal_with_fuel(weighted_sum, 3);
    }
    assert(weighted_sum(seq![er], seq![one], 1) == er) by {
        reveal_with_fuel(weighted_sum, 2);
    }
    assert(min_nat(2, 2) == 2);
    assert(min_nat(1, 1) == 1);
}

} // verus!
