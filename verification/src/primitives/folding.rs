//! Folding of evaluation vectors: `s ← α·s_L + s_R` on the evaluation vector of a point leaves
//! the evaluation vector of the point without its last coordinate, scaled by
//! `α·(1 − c) + c` for that coordinate `c`.
use vstd::arithmetic::power2::{lemma_pow2_unfold, pow2};
use vstd::prelude::*;

use crate::primitives::arithmetic::Field;
use crate::primitives::poly::{
    fold_eval_spec, folded_coordinate, lagrange_basis, lagrange_eval, lagrange_factor,
};

verus! {

/// The evaluation vector of the first `m` coordinates of `c`, each entry multiplied by `t`.
pub open spec fn scaled_lagrange<F: Field>(c: Seq<F>, m: nat, t: F) -> Seq<F> {
    Seq::new(pow2(m), |i: int| lagrange_eval(c.subrange(0, m as int), i as nat).mul_spec(t))
}

/// `α·s_L + s_R` for halves of length `h`.
pub open spec fn fold_scalar_vec<F: Field>(s: Seq<F>, alpha: F, h: nat) -> Seq<F> {
    Seq::new(h, |i: int| s[i].mul_spec(alpha).add_spec(s[i + h]))
}

/// The factor `α·(1 − c) + c` that folding with `α` contributes for the coordinate `c`.
pub open spec fn fold_factor<F: Field>(alpha: F, c: F) -> F {
    alpha.mul_spec(F::one_spec().sub_spec(c)).add_spec(c)
}

/// A basis function over `n` coordinates depends on those coordinates only.
pub proof fn lemma_lagrange_basis_congruent<F: Field>(p: Seq<F>, q: Seq<F>, n: nat, i: nat)
    requires
        1 <= n <= p.len(),
        n <= q.len(),
        forall|j: int| 0 <= j < n ==> #[trigger] p[j] == q[j],
    ensures
        lagrange_basis(p, n, i) == lagrange_basis(q, n, i),
    decreases n,
{
    if n > 1 {
        let half = pow2((n - 1) as nat);
        if i < half {
            lemma_lagrange_basis_congruent(p, q, (n - 1) as nat, i);
        } else {
            lemma_lagrange_basis_congruent(p, q, (n - 1) as nat, (i - half) as nat);
        }
    } else {
        assert(p[0] == q[0]);
    }
}

/// Adding a coordinate `c` to a point splits each entry of its evaluation vector in two: entry
/// `j` of the new vector is entry `j` of the old one times `1 − c`, and entry `j + 2^n` is
/// entry `j` times `c` (`n` the number of coordinates of the old point).
pub proof fn lemma_lagrange_eval_extend<F: Field>(p: Seq<F>, c: F, j: nat)
    requires
        j < pow2(p.len()),
        c.wf_spec(),
    ensures
        lagrange_eval(p.push(c), j) == lagrange_eval(p, j).mul_spec(F::one_spec().sub_spec(c)),
        lagrange_eval(p.push(c), j + pow2(p.len())) == lagrange_eval(p, j).mul_spec(c),
{
    let n = p.len();
    let q = p.push(c);
    let one = F::one_spec();
    assert(q[n as int] == c);
    if n == 0 {
        vstd::arithmetic::power2::lemma2_to64();
        assert(j == 0);
        F::lemma_ops_wf(one, c);
        F::lemma_mul_comm(one, one.sub_spec(c));
        F::lemma_mul_one(one.sub_spec(c));
        F::lemma_mul_comm(one, c);
        F::lemma_mul_one(c);
    } else {
        lemma_lagrange_basis_congruent(q, p, n, j);
        assert(q.len() == n + 1);
        assert((n + 1 - 1) as nat == n);
    }
}

/// The challenges past the first `k` do not matter to the product of the first `k` factors.
pub proof fn lemma_fold_eval_prefix<F: Field>(coords: Seq<F>, a: Seq<F>, b: Seq<F>, k: nat)
    requires
        k <= a.len(),
        k <= b.len(),
        forall|j: int| 0 <= j < k ==> #[trigger] a[j] == b[j],
    ensures
        fold_eval_spec(coords, a, k) == fold_eval_spec(coords, b, k),
    decreases k,
{
    if k > 0 {
        lemma_fold_eval_prefix(coords, a, b, (k - 1) as nat);
    }
}

/// `((B·u)·t)·α + (B·c)·t == B·(t·(α·u + c))`
proof fn lemma_fold_entry<F: Field>(b: F, u: F, c: F, t: F, alpha: F)
    ensures
        b.mul_spec(u).mul_spec(t).mul_spec(alpha).add_spec(b.mul_spec(c).mul_spec(t)) == b.mul_spec(
            t.mul_spec(alpha.mul_spec(u).add_spec(c)),
        ),
{
    // ((B·u)·t)·α == B·(t·(α·u))
    F::lemma_mul_assoc(b.mul_spec(u), t, alpha);
    F::lemma_mul_assoc(b, u, t.mul_spec(alpha));
    F::lemma_mul_assoc(u, t, alpha);
    F::lemma_mul_comm(u, t);
    F::lemma_mul_assoc(t, u, alpha);
    F::lemma_mul_comm(u, alpha);
    // (B·c)·t == B·(t·c)
    F::lemma_mul_assoc(b, c, t);
    F::lemma_mul_comm(c, t);
    // distribute
    F::lemma_mul_add_distrib(t, alpha.mul_spec(u), c);
    F::lemma_mul_add_distrib(b, t.mul_spec(alpha.mul_spec(u)), t.mul_spec(c));
}

/// `(u·t)·α + c·t == t·(α·u + c)`
proof fn lemma_fold_entry_base<F: Field>(u: F, c: F, t: F, alpha: F)
    ensures
        u.mul_spec(t).mul_spec(alpha).add_spec(c.mul_spec(t)) == t.mul_spec(
            alpha.mul_spec(u).add_spec(c),
        ),
{
    F::lemma_mul_comm(u, t);
    F::lemma_mul_assoc(t, u, alpha);
    F::lemma_mul_comm(u, alpha);
    F::lemma_mul_comm(c, t);
    F::lemma_mul_add_distrib(t, alpha.mul_spec(u), c);
}

/// One fold of a scaled evaluation vector over `m >= 1` coordinates with `α` leaves the scaled
/// evaluation vector over the first `m − 1` coordinates, the scale multiplied by
/// `α·(1 − c) + c` for the last coordinate `c`.
pub proof fn lemma_fold_scaled_lagrange<F: Field>(c: Seq<F>, m: nat, t: F, alpha: F)
    requires
        1 <= m <= c.len(),
    ensures
        fold_scalar_vec(scaled_lagrange(c, m, t), alpha, pow2((m - 1) as nat)) == scaled_lagrange(
            c,
            (m - 1) as nat,
            t.mul_spec(fold_factor(alpha, c[m - 1])),
        ),
{
    let h = pow2((m - 1) as nat);
    lemma_pow2_unfold(m);
    vstd::arithmetic::power2::lemma2_to64();
    let p = c.subrange(0, m as int);
    assert(p.len() == m);
    let q = c.subrange(0, (m - 1) as int);
    let s = scaled_lagrange(c, m, t);
    let lhs = fold_scalar_vec(s, alpha, h);
    let rhs = scaled_lagrange(c, (m - 1) as nat, t.mul_spec(fold_factor(alpha, c[m - 1])));
    let cm = c[m - 1];
    let u = F::one_spec().sub_spec(cm);
    assert forall|i: int| 0 <= i < h implies #[trigger] lhs[i] == rhs[i] by {
        let b = lagrange_eval(q, i as nat);
        assert((i + h - h) as nat == i as nat);
        if m == 1 {
            assert(h == 1);
            assert(i == 0);
            assert(lagrange_eval(p, i as nat) == lagrange_factor(p[0], false));
            assert(lagrange_eval(p, (i + h) as nat) == lagrange_factor(p[0], true));
            assert(b == F::one_spec());
            let tf = t.mul_spec(fold_factor(alpha, cm));
            F::lemma_ops_wf(t, fold_factor(alpha, cm));
            F::lemma_mul_comm(F::one_spec(), tf);
            F::lemma_mul_one(tf);
            lemma_fold_entry_base(u, cm, t, alpha);
        } else {
            lemma_lagrange_basis_congruent(p, q, (m - 1) as nat, i as nat);
            assert(lagrange_eval(p, i as nat) == b.mul_spec(lagrange_factor(p[m - 1], false)));
            assert(lagrange_eval(p, (i + h) as nat) == b.mul_spec(lagrange_factor(p[m - 1], true)));
            lemma_fold_entry(b, u, cm, t, alpha);
        }
    }
    assert(lhs =~= rhs);
}

/// Adding a challenge multiplies the product of factors by the factor of the coordinate folded
/// next: with `j` challenges taken from `m + j` coordinates, that is coordinate `m − 1`.
pub proof fn lemma_fold_eval_push<F: Field>(c: Seq<F>, alphas: Seq<F>, alpha: F)
    requires
        alphas.len() < c.len(),
    ensures
        fold_eval_spec(c, alphas.push(alpha), alphas.len() + 1) == fold_eval_spec(
            c,
            alphas,
            alphas.len(),
        ).mul_spec(fold_factor(alpha, c[c.len() - alphas.len() - 1])),
{
    let j = alphas.len();
    lemma_fold_eval_prefix(c, alphas.push(alpha), alphas, j);
    assert(folded_coordinate(c, j as int) == c[c.len() - 1 - j]);
}

} // verus!
