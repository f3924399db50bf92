//! Finite sums in a group, and the algebra of multi-scalar multiplications and multi-pairings
//! that follows from the group and pairing laws.
use vstd::prelude::*;

use crate::primitives::arithmetic::{msm_spec, pairing_sum, Field, Group};

verus! {

/// `t(0) + t(1) + … + t(n-1)`, folded from the identity.
pub open spec fn sum_of<G: Group>(t: spec_fn(int) -> G, n: nat) -> G
    decreases n,
{
    if n == 0 {
        G::identity_spec()
    } else {
        sum_of(t, (n - 1) as nat).add_spec(t(n - 1))
    }
}

/// A sum is well formed.
pub proof fn lemma_sum_wf<G: Group>(t: spec_fn(int) -> G, n: nat)
    ensures
        sum_of(t, n).wf_spec(),
    decreases n,
{
    if n == 0 {
        G::lemma_group_wf(G::identity_spec(), G::identity_spec(), arbitrary());
    } else {
        G::lemma_group_wf(sum_of(t, (n - 1) as nat), t(n - 1), arbitrary());
    }
}

/// Sums of terms that agree below `n` agree.
pub proof fn lemma_sum_congruent<G: Group>(t: spec_fn(int) -> G, u: spec_fn(int) -> G, n: nat)
    requires
        forall|i: int| 0 <= i < n ==> #[trigger] t(i) == u(i),
    ensures
        sum_of(t, n) == sum_of(u, n),
    decreases n,
{
    if n > 0 {
        lemma_sum_congruent(t, u, (n - 1) as nat);
    }
}

/// `(a + b) + (c + d) == (a + c) + (b + d)`
pub proof fn lemma_add_swap<G: Group>(a: G, b: G, c: G, d: G)
    ensures
        a.add_spec(b).add_spec(c.add_spec(d)) == a.add_spec(c).add_spec(b.add_spec(d)),
{
    G::lemma_add_assoc(a, b, c.add_spec(d));
    G::lemma_add_assoc(b, c, d);
    G::lemma_add_comm(b, c);
    G::lemma_add_assoc(c, b, d);
    G::lemma_add_assoc(a, c, b.add_spec(d));
}

/// The first `h` terms and the next `k` terms make the first `h + k`.
pub proof fn lemma_sum_split<G: Group>(t: spec_fn(int) -> G, h: nat, k: nat)
    ensures
        sum_of(t, h + k) == sum_of(t, h).add_spec(sum_of(|i: int| t(h + i), k)),
    decreases k,
{
    if k == 0 {
        lemma_sum_wf(t, h);
        G::lemma_add_identity(sum_of(t, h));
    } else {
        lemma_sum_split(t, h, (k - 1) as nat);
        let r = |i: int| t(h + i);
        assert(r(k - 1) == t(h + k - 1));
        G::lemma_add_assoc(sum_of(t, h), sum_of(r, (k - 1) as nat), t(h + k - 1));
        assert((h + k - 1) as nat == h + (k - 1));
    }
}

/// `Σ (t(i) + u(i)) == Σ t(i) + Σ u(i)`
pub proof fn lemma_sum_add<G: Group>(t: spec_fn(int) -> G, u: spec_fn(int) -> G, n: nat)
    ensures
        sum_of(|i: int| t(i).add_spec(u(i)), n) == sum_of(t, n).add_spec(sum_of(u, n)),
    decreases n,
{
    if n == 0 {
        G::lemma_group_wf(G::identity_spec(), G::identity_spec(), arbitrary());
        G::lemma_add_identity(G::identity_spec());
    } else {
        lemma_sum_add(t, u, (n - 1) as nat);
        lemma_add_swap(
            sum_of(t, (n - 1) as nat),
            sum_of(u, (n - 1) as nat),
            t(n - 1),
            u(n - 1),
        );
    }
}

/// `Σ t(i)·k == (Σ t(i))·k`
pub proof fn lemma_sum_scale<G: Group>(t: spec_fn(int) -> G, k: G::Scalar, n: nat)
    ensures
        sum_of(|i: int| t(i).scale_spec(k), n) == sum_of(t, n).scale_spec(k),
    decreases n,
{
    if n == 0 {
        G::lemma_identity_scale(k);
    } else {
        lemma_sum_scale(t, k, (n - 1) as nat);
        G::lemma_scale_add(sum_of(t, (n - 1) as nat), t(n - 1), k);
    }
}

/// A multi-scalar multiplication is the sum of its terms.
pub proof fn lemma_msm_is_sum<G: Group>(bases: Seq<G>, scalars: Seq<G::Scalar>, n: nat)
    ensures
        msm_spec::<G>(bases, scalars, n) == sum_of(|i: int| bases[i].scale_spec(scalars[i]), n),
    decreases n,
{
    if n > 0 {
        lemma_msm_is_sum(bases, scalars, (n - 1) as nat);
    }
}

/// A multi-pairing is the sum of its terms.
pub proof fn lemma_pairing_sum_is_sum<G1, G2, GT: Group>(
    e: spec_fn(G1, G2) -> GT,
    ps: Seq<G1>,
    qs: Seq<G2>,
    n: nat,
)
    ensures
        pairing_sum(e, ps, qs, n) == sum_of(|i: int| e(ps[i], qs[i]), n),
    decreases n,
{
    if n > 0 {
        lemma_pairing_sum_is_sum(e, ps, qs, (n - 1) as nat);
    }
}

/// `(a·k)·l == (a·l)·k`
pub proof fn lemma_scale_scale_comm<G: Group>(a: G, k: G::Scalar, l: G::Scalar)
    ensures
        a.scale_spec(k).scale_spec(l) == a.scale_spec(l).scale_spec(k),
{
    G::lemma_scale_mul(a, k, l);
    G::lemma_scale_mul(a, l, k);
    G::Scalar::lemma_mul_comm(k, l);
}

/// `Σ_{i<n} t(i)` in the field, folded from zero.
pub open spec fn field_sum<F: Field>(t: spec_fn(int) -> F, n: nat) -> F
    decreases n,
{
    if n == 0 {
        F::zero_spec()
    } else {
        field_sum(t, (n - 1) as nat).add_spec(t(n - 1))
    }
}

/// A field sum is well formed.
pub proof fn lemma_field_sum_wf<F: Field>(t: spec_fn(int) -> F, n: nat)
    ensures
        field_sum(t, n).wf_spec(),
    decreases n,
{
    if n == 0 {
        F::lemma_ops_wf(F::zero_spec(), F::zero_spec());
    } else {
        F::lemma_ops_wf(field_sum(t, (n - 1) as nat), t(n - 1));
    }
}

/// Field sums of terms that agree below `n` agree.
pub proof fn lemma_field_sum_congruent<F: Field>(t: spec_fn(int) -> F, u: spec_fn(int) -> F, n: nat)
    requires
        forall|i: int| 0 <= i < n ==> #[trigger] t(i) == u(i),
    ensures
        field_sum(t, n) == field_sum(u, n),
    decreases n,
{
    if n > 0 {
        lemma_field_sum_congruent(t, u, (n - 1) as nat);
    }
}

/// `(a + b) + (c + d) == (a + c) + (b + d)` in the field.
pub proof fn lemma_field_add_swap<F: Field>(a: F, b: F, c: F, d: F)
    ensures
        a.add_spec(b).add_spec(c.add_spec(d)) == a.add_spec(c).add_spec(b.add_spec(d)),
{
    F::lemma_add_assoc(a, b, c.add_spec(d));
    F::lemma_add_assoc(b, c, d);
    F::lemma_add_comm(b, c);
    F::lemma_add_assoc(c, b, d);
    F::lemma_add_assoc(a, c, b.add_spec(d));
}

/// The first `h` terms and the next `k` terms make the first `h + k`.
pub proof fn lemma_field_sum_split<F: Field>(t: spec_fn(int) -> F, h: nat, k: nat)
    ensures
        field_sum(t, h + k) == field_sum(t, h).add_spec(field_sum(|i: int| t(h + i), k)),
    decreases k,
{
    if k == 0 {
        lemma_field_sum_wf(t, h);
        F::lemma_add_zero(field_sum(t, h));
    } else {
        lemma_field_sum_split(t, h, (k - 1) as nat);
        let r = |i: int| t(h + i);
        assert(r(k - 1) == t(h + k - 1));
        F::lemma_add_assoc(field_sum(t, h), field_sum(r, (k - 1) as nat), t(h + k - 1));
        assert((h + k - 1) as nat == h + (k - 1));
    }
}

/// `Σ (t(i) + u(i)) == Σ t(i) + Σ u(i)` in the field.
pub proof fn lemma_field_sum_add<F: Field>(t: spec_fn(int) -> F, u: spec_fn(int) -> F, n: nat)
    ensures
        field_sum(|i: int| t(i).add_spec(u(i)), n) == field_sum(t, n).add_spec(field_sum(u, n)),
    decreases n,
{
    if n == 0 {
        F::lemma_ops_wf(F::zero_spec(), F::zero_spec());
        F::lemma_add_zero(F::zero_spec());
    } else {
        lemma_field_sum_add(t, u, (n - 1) as nat);
        lemma_field_add_swap(
            field_sum(t, (n - 1) as nat),
            field_sum(u, (n - 1) as nat),
            t(n - 1),
            u(n - 1),
        );
    }
}

/// `Σ t(i)·x == (Σ t(i))·x`
pub proof fn lemma_field_sum_mul<F: Field>(t: spec_fn(int) -> F, x: F, n: nat)
    ensures
        field_sum(|i: int| t(i).mul_spec(x), n) == field_sum(t, n).mul_spec(x),
    decreases n,
{
    if n == 0 {
        F::lemma_mul_comm(F::zero_spec(), x);
        F::lemma_mul_zero(x);
    } else {
        lemma_field_sum_mul(t, x, (n - 1) as nat);
        let s = field_sum(t, (n - 1) as nat);
        F::lemma_mul_comm(s.add_spec(t(n - 1)), x);
        F::lemma_mul_add_distrib(x, s, t(n - 1));
        F::lemma_mul_comm(x, s);
        F::lemma_mul_comm(x, t(n - 1));
    }
}

/// A sum over `rows·w` terms is the sum over the rows of the sums over each row's `w` terms.
pub proof fn lemma_field_sum_rows<F: Field>(t: spec_fn(int) -> F, rows: nat, w: nat)
    ensures
        field_sum(t, rows * w) == field_sum(|r: int| field_sum(|c: int| t(r * w + c), w), rows),
    decreases rows,
{
    if rows > 0 {
        lemma_field_sum_rows(t, (rows - 1) as nat, w);
        assert((rows - 1) * w + w == rows * w && (rows - 1) * w >= 0) by (nonlinear_arith)
            requires
                rows > 0,
        ;
        let h: nat = ((rows - 1) * w) as nat;
        assert(h == ((rows - 1) as nat) * w);
        assert(h + w == rows * w);
        lemma_field_sum_split(t, h, w);
        let row = |r: int| field_sum(|c: int| t(r * w + c), w);
        lemma_field_sum_congruent(|i: int| t(h + i), |c: int| t((rows - 1) * w + c), w);
        assert(row(rows - 1) == field_sum(|c: int| t((rows - 1) * w + c), w));
        assert(field_sum(row, rows) == field_sum(row, (rows - 1) as nat).add_spec(row(rows - 1)));
        assert(field_sum(t, (rows - 1) as nat * w) == field_sum(row, (rows - 1) as nat));
        assert(field_sum(t, h) == field_sum(row, (rows - 1) as nat));
        assert(field_sum(t, h + w) == field_sum(t, h).add_spec(field_sum(|i: int| t(h + i), w)));
    } else {
        assert(rows * w == 0) by (nonlinear_arith)
            requires
                rows == 0,
        ;
    }
}

/// `Σ_{a<m} Σ_{b<n} g(a, b) == Σ_{b<n} Σ_{a<m} g(a, b)`
pub proof fn lemma_field_sum_swap<F: Field>(g: spec_fn(int, int) -> F, m: nat, n: nat)
    ensures
        field_sum(|a: int| field_sum(|b: int| g(a, b), n), m) == field_sum(
            |b: int| field_sum(|a: int| g(a, b), m),
            n,
        ),
    decreases m,
{
    if m == 0 {
        lemma_field_sum_zero::<F>(n);
        lemma_field_sum_congruent(
            |b: int| field_sum(|a: int| g(a, b), 0),
            |b: int| F::zero_spec(),
            n,
        );
    } else {
        lemma_field_sum_swap(g, (m - 1) as nat, n);
        let prev = |b: int| field_sum(|a: int| g(a, b), (m - 1) as nat);
        let last = |b: int| g(m - 1, b);
        lemma_field_sum_add(prev, last, n);
        lemma_field_sum_congruent(
            |b: int| field_sum(|a: int| g(a, b), m),
            |b: int| prev(b).add_spec(last(b)),
            n,
        );
    }
}

/// A sum of zeros is zero.
pub proof fn lemma_field_sum_zero<F: Field>(n: nat)
    ensures
        field_sum(|i: int| F::zero_spec(), n) == F::zero_spec(),
    decreases n,
{
    if n > 0 {
        lemma_field_sum_zero::<F>((n - 1) as nat);
        F::lemma_ops_wf(F::zero_spec(), F::zero_spec());
        F::lemma_add_zero(F::zero_spec());
    }
}

} // verus!
