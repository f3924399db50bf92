//! The matrix form of a multilinear evaluation: laid out as a square matrix `M` of coefficients,
//! the evaluation at a point with `2k` coordinates is `Lᵀ·M·R`, with `R` the evaluation vector
//! of the low half of the point and `L` that of the high half.
use vstd::arithmetic::power2::{lemma_pow2_adds, lemma_pow2_pos, pow2};
use vstd::prelude::*;

use crate::primitives::arithmetic::Field;
use crate::primitives::folding::lemma_lagrange_basis_congruent;
use crate::primitives::poly::{
    lemma_basis_wf, padded_lagrange, column_sum, lagrange_basis, lagrange_eval, lagrange_factor, left_right_vecs, min_nat,
    partial_evaluation, polynomial_evaluation,
};
use crate::primitives::sums::{
    lemma_field_add_swap, field_sum, lemma_field_sum_congruent, lemma_field_sum_mul, lemma_field_sum_rows,
    lemma_field_sum_split, lemma_field_sum_swap, lemma_field_sum_wf, lemma_field_sum_zero,
};
use crate::protocol::evaluate::v_vec_spec;

verus! {

/// The evaluation `y = Lᵀ·M·R` that the VMV protocol proves for a point with `2k` coordinates:
/// `Σ_c v[c]·R[c]` for `v = Lᵀ·M`.
pub open spec fn vmv_evaluation<F: Field>(coeffs: Seq<F>, point: Seq<F>) -> F {
    let k = point.len() / 2;
    let lr = left_right_vecs(point, k, k);
    let v = v_vec_spec(coeffs, lr.0, k, k);
    field_sum(|c: int| v[c].mul_spec(lr.1[c]), pow2(k))
}

/// A basis function over `k + j` coordinates factors into the basis function over the first
/// `k` coordinates for the low `k` bits of the index and the one over the next `j` coordinates
/// for its high bits.
pub proof fn lemma_lagrange_basis_split<F: Field>(p: Seq<F>, k: nat, j: nat, r: nat, c: nat)
    requires
        k >= 1,
        j >= 1,
        k + j <= p.len(),
        c < pow2(k),
        r < pow2(j),
    ensures
        lagrange_basis(p, k + j, r * pow2(k) + c) == lagrange_basis(p, k, c).mul_spec(
            lagrange_basis(p.subrange(k as int, (k + j) as int), j, r),
        ),
    decreases j,
{
    let q = p.subrange(k as int, (k + j) as int);
    let n = k + j;
    let i = r * pow2(k) + c;
    let hk = pow2(k);
    let hj = pow2((j - 1) as nat);
    lemma_pow2_adds((j - 1) as nat, k);
    assert((n - 1) as nat == (j - 1) as nat + k);
    let half = pow2((n - 1) as nat);
    assert(half == hj * hk);
    lemma_pow2_pos(k);
    if j == 1 {
        assert(hj == 1) by {
            vstd::arithmetic::power2::lemma2_to64();
        }
        assert(pow2(1) == 2) by {
            vstd::arithmetic::power2::lemma2_to64();
        }
        assert(q[0] == p[n - 1]);
        if r == 0 {
            assert(i == c);
        } else {
            assert(r == 1);
            assert(i == hk + c);
        }
    } else {
        let qq = p.subrange(k as int, (k + j - 1) as int);
        lemma_lagrange_basis_congruent(q, qq, (j - 1) as nat, (if r < hj { r } else { (r - hj) as nat }));
        assert(q[j - 1] == p[n - 1]);
        assert(qq =~= p.subrange(k as int, (k + (j - 1)) as int));
        let a = lagrange_basis(p, k, c);
        if r < hj {
            assert(r * hk + c < hj * hk) by (nonlinear_arith)
                requires
                    r < hj,
                    c < hk,
            ;
            lemma_lagrange_basis_split(p, k, (j - 1) as nat, r, c);
            F::lemma_mul_assoc(
                a,
                lagrange_basis(qq, (j - 1) as nat, r),
                lagrange_factor(p[n - 1], false),
            );
        } else {
            let r2 = (r - hj) as nat;
            lemma_pow2_adds(1, (j - 1) as nat);
            assert(pow2(1) == 2) by {
                vstd::arithmetic::power2::lemma2_to64();
            }
            assert(r2 < hj);
            assert(r * hk + c - hj * hk == r2 * hk + c && r * hk + c >= hj * hk) by (nonlinear_arith)
                requires
                    r2 == r - hj,
                    r >= hj,
            ;
            lemma_lagrange_basis_split(p, k, (j - 1) as nat, r2, c);
            F::lemma_mul_assoc(
                a,
                lagrange_basis(qq, (j - 1) as nat, r2),
                lagrange_factor(p[n - 1], true),
            );
        }
    }
}

/// The evaluation vector of a point with `2k` coordinates, `k >= 1`, is the tensor product of
/// those of its low and its high half: entry `r·2^k + c` is `R[c]·L[r]`.
pub proof fn lemma_lagrange_eval_split<F: Field>(p: Seq<F>, k: nat, r: nat, c: nat)
    requires
        k >= 1,
        p.len() == 2 * k,
        c < pow2(k),
        r < pow2(k),
    ensures
        lagrange_eval(p, r * pow2(k) + c) == lagrange_eval(p.subrange(0, k as int), c).mul_spec(
            lagrange_eval(p.subrange(k as int, 2 * k as int), r),
        ),
{
    lemma_lagrange_basis_split(p, k, k, r, c);
    lemma_lagrange_basis_congruent(p, p.subrange(0, k as int), k, c);
    assert(p.subrange(k as int, (k + k) as int) =~= p.subrange(k as int, 2 * k as int));
}

/// A column sum is the field sum of its terms, a term past the end of the coefficients being
/// zero.
pub proof fn lemma_column_sum_as_field_sum<F: Field>(
    coeffs: Seq<F>,
    left: Seq<F>,
    width: nat,
    col: nat,
    rows: nat,
)
    ensures
        column_sum(coeffs, left, width, col, rows) == field_sum(
            |r: int|
                if r * width + col < coeffs.len() {
                    left[r].mul_spec(coeffs[r * width + col])
                } else {
                    F::zero_spec()
                },
            rows,
        ),
    decreases rows,
{
    if rows > 0 {
        let g = |r: int|
            if r * width + col < coeffs.len() {
                left[r].mul_spec(coeffs[r * width + col])
            } else {
                F::zero_spec()
            };
        lemma_column_sum_as_field_sum(coeffs, left, width, col, (rows - 1) as nat);
        lemma_field_sum_wf(g, (rows - 1) as nat);
        F::lemma_add_zero(field_sum(g, (rows - 1) as nat));
    }
}

/// The polynomial evaluation is the field sum of `coeffs[i]·lagrange_eval(point, i)` over any
/// range that covers the coefficients, a term past their end being zero.
pub proof fn lemma_evaluation_as_field_sum<F: Field>(coeffs: Seq<F>, point: Seq<F>, n: nat)
    requires
        coeffs.len() <= n,
    ensures
        polynomial_evaluation(coeffs, point) == field_sum(
            |i: int|
                if i < coeffs.len() {
                    coeffs[i].mul_spec(lagrange_eval(point, i as nat))
                } else {
                    F::zero_spec()
                },
            n,
        ),
{
    let len = coeffs.len();
    let t = |i: int|
        if i < len {
            coeffs[i].mul_spec(lagrange_eval(point, i as nat))
        } else {
            F::zero_spec()
        };
    lemma_partial_evaluation_as_field_sum(coeffs, point, t, len);
    lemma_field_sum_split(t, len, (n - len) as nat);
    lemma_field_sum_congruent(|i: int| t(len + i), |i: int| F::zero_spec(), (n - len) as nat);
    lemma_field_sum_zero::<F>((n - len) as nat);
    lemma_field_sum_wf(t, len);
    F::lemma_add_zero(field_sum(t, len));
    assert(len + (n - len) as nat == n);
}

/// The first `m` terms of the evaluation are the field sum of `t` over `m`, for terms `t` that
/// agree with them.
proof fn lemma_partial_evaluation_as_field_sum<F: Field>(
    coeffs: Seq<F>,
    point: Seq<F>,
    t: spec_fn(int) -> F,
    m: nat,
)
    requires
        m <= coeffs.len(),
        forall|i: int|
            0 <= i < m ==> #[trigger] t(i) == coeffs[i].mul_spec(lagrange_eval(point, i as nat)),
    ensures
        partial_evaluation(coeffs, point, m) == field_sum(t, m),
    decreases m,
{
    if m > 0 {
        lemma_partial_evaluation_as_field_sum(coeffs, point, t, (m - 1) as nat);
        assert(t(m - 1) == coeffs[m - 1].mul_spec(lagrange_eval(point, (m - 1) as nat)));
    }
}

/// Entry `row·2^k + col` of the evaluation vector of a point with `2k` coordinates is
/// `R[col]·L[row]` for the pair `(L, R)` that the VMV protocol uses.
proof fn lemma_tensor_entry<F: Field>(point: Seq<F>, row: nat, col: nat)
    requires
        point.len() % 2 == 0,
        row < pow2(point.len() / 2),
        col < pow2(point.len() / 2),
    ensures
        ({
            let k = point.len() / 2;
            let lr = left_right_vecs(point, k, k);
            lagrange_eval(point, row * pow2(k) + col) == lr.1[col as int].mul_spec(
                lr.0[row as int],
            )
        }),
{
    let k = point.len() / 2;
    if k == 0 {
        assert(pow2(0) == 1) by {
            vstd::arithmetic::power2::lemma2_to64();
        }
        F::lemma_ops_wf(F::one_spec(), F::one_spec());
        F::lemma_mul_one(F::one_spec());
        assert(row * pow2(k) + col == 0);
    } else {
        lemma_lagrange_eval_split(point, k, row, col);
        assert(point.len() - k == k);
    }
}

/// `(l·m)·r == m·(r·l)`
proof fn lemma_mul_rearrange<F: Field>(l: F, m: F, r: F)
    ensures
        l.mul_spec(m).mul_spec(r) == m.mul_spec(r.mul_spec(l)),
{
    F::lemma_mul_assoc(l, m, r);
    F::lemma_mul_comm(l, m.mul_spec(r));
    F::lemma_mul_assoc(m, r, l);
}

/// The evaluation `Lᵀ·M·R` that the VMV protocol proves, for a point with an even number `d` of
/// coordinates and at most `2^d` coefficients laid out in a `2^(d/2)` by `2^(d/2)` matrix, is the
/// evaluation of the polynomial at the point.
pub proof fn lemma_vmv_evaluation_is_polynomial_evaluation<F: Field>(coeffs: Seq<F>, point: Seq<F>)
    requires
        point.len() % 2 == 0,
        coeffs.len() <= pow2(point.len()),
    ensures
        vmv_evaluation(coeffs, point) == polynomial_evaluation(coeffs, point),
{
    let k = point.len() / 2;
    let w = pow2(k);
    let lr = left_right_vecs(point, k, k);
    let l = lr.0;
    let r = lr.1;
    let v = v_vec_spec(coeffs, l, k, k);
    let len = coeffs.len();
    lemma_pow2_adds(k, k);
    assert(k + k == point.len());
    lemma_pow2_pos(k);
    assert(l.len() == w);
    assert(min_nat(w, l.len()) == w);
    let g0 = |row: int, col: int|
        if row * w + col < len {
            l[row].mul_spec(coeffs[row * w + col])
        } else {
            F::zero_spec()
        };
    let e = |a: int, b: int| g0(b, a).mul_spec(r[a]);
    // each column: v[a]·R[a] == Σ_b e(a, b)
    assert forall|a: int| 0 <= a < w implies #[trigger] v[a].mul_spec(r[a]) == field_sum(
        |b: int| e(a, b),
        w,
    ) by {
        lemma_column_sum_as_field_sum(coeffs, l, w, a as nat, w);
        let c0 = |row: int|
            if row * w + a < coeffs.len() {
                l[row].mul_spec(coeffs[row * w + a])
            } else {
                F::zero_spec()
            };
        assert(v[a] == field_sum(c0, w));
        lemma_field_sum_mul(c0, r[a], w);
        lemma_field_sum_congruent(|i: int| c0(i).mul_spec(r[a]), |b: int| e(a, b), w);
    }
    lemma_field_sum_congruent(
        |a: int| v[a].mul_spec(r[a]),
        |a: int| field_sum(|b: int| e(a, b), w),
        w,
    );
    // exchange the two sums
    lemma_field_sum_swap(e, w, w);
    // the rows of the matrix
    let t = |i: int|
        if i < len {
            coeffs[i].mul_spec(lagrange_eval(point, i as nat))
        } else {
            F::zero_spec()
        };
    assert forall|a: int, b: int| 0 <= a < w && 0 <= b < w implies #[trigger] e(a, b) == t(
        b * w + a,
    ) by {
        assert(0 <= b * w + a) by (nonlinear_arith)
            requires
                0 <= a,
                0 <= b,
                0 <= w,
        ;
        lemma_tensor_entry(point, b as nat, a as nat);
        if b * w + a < len {
            lemma_mul_rearrange(l[b], coeffs[b * w + a], r[a]);
        } else {
            F::lemma_mul_comm(F::zero_spec(), r[a]);
            F::lemma_mul_zero(r[a]);
        }
    }
    lemma_sum_transposed(e, t, w, w);
    lemma_field_sum_rows(t, w, w);
    lemma_evaluation_as_field_sum(coeffs, point, w * w);
}

/// Summing `e(a, b)` over `a < w` for each `b < m` is summing row `b` of `t` for each `b`, where
/// `e(a, b)` is entry `b·w + a` of `t`.
proof fn lemma_sum_transposed<F: Field>(e: spec_fn(int, int) -> F, t: spec_fn(int) -> F, w: nat, m: nat)
    requires
        forall|a: int, b: int| 0 <= a < w && 0 <= b < m ==> #[trigger] e(a, b) == t(b * w + a),
    ensures
        field_sum(|b: int| field_sum(|a: int| e(a, b), w), m) == field_sum(
            |r: int| field_sum(|c: int| t(r * w + c), w),
            m,
        ),
    decreases m,
{
    if m > 0 {
        lemma_sum_transposed(e, t, w, (m - 1) as nat);
        lemma_field_sum_congruent(|a: int| e(a, m - 1), |c: int| t((m - 1) * w + c), w);
    }
}

/// The first `k` terms of the evaluation are additive in the coefficients.
proof fn lemma_partial_evaluation_additive<F: Field>(
    p: Seq<F>,
    q: Seq<F>,
    r: Seq<F>,
    point: Seq<F>,
    k: nat,
)
    requires
        k <= r.len(),
        p.len() == r.len(),
        q.len() == r.len(),
        forall|i: int| 0 <= i < r.len() ==> #[trigger] r[i] == p[i].add_spec(q[i]),
    ensures
        partial_evaluation(r, point, k) == partial_evaluation(p, point, k).add_spec(
            partial_evaluation(q, point, k),
        ),
    decreases k,
{
    if k == 0 {
        F::lemma_ops_wf(F::zero_spec(), F::zero_spec());
        F::lemma_add_zero(F::zero_spec());
    } else {
        lemma_partial_evaluation_additive(p, q, r, point, (k - 1) as nat);
        let x = lagrange_eval(point, (k - 1) as nat);
        let a = p[k - 1];
        let b = q[k - 1];
        assert(r[k - 1] == a.add_spec(b));
        F::lemma_mul_comm(a.add_spec(b), x);
        F::lemma_mul_add_distrib(x, a, b);
        F::lemma_mul_comm(x, a);
        F::lemma_mul_comm(x, b);
        lemma_field_add_swap(
            partial_evaluation(p, point, (k - 1) as nat),
            partial_evaluation(q, point, (k - 1) as nat),
            a.mul_spec(x),
            b.mul_spec(x),
        );
    }
}

/// Evaluation is linear: the evaluation of the sum of two polynomials with as many coefficients
/// is the sum of their evaluations.
pub proof fn lemma_polynomial_evaluation_additive<F: Field>(
    p: Seq<F>,
    q: Seq<F>,
    r: Seq<F>,
    point: Seq<F>,
)
    requires
        p.len() == r.len(),
        q.len() == r.len(),
        forall|i: int| 0 <= i < r.len() ==> #[trigger] r[i] == p[i].add_spec(q[i]),
    ensures
        polynomial_evaluation(r, point) == polynomial_evaluation(p, point).add_spec(
            polynomial_evaluation(q, point),
        ),
{
    lemma_partial_evaluation_additive(p, q, r, point, r.len());
}

/// An evaluation is well formed.
pub proof fn lemma_polynomial_evaluation_wf<F: Field>(coeffs: Seq<F>, point: Seq<F>)
    ensures
        polynomial_evaluation(coeffs, point).wf_spec(),
{
    let k = coeffs.len();
    if k == 0 {
        F::lemma_ops_wf(F::zero_spec(), F::zero_spec());
    } else {
        F::lemma_ops_wf(
            partial_evaluation(coeffs, point, (k - 1) as nat),
            coeffs[k - 1].mul_spec(lagrange_eval(point, (k - 1) as nat)),
        );
    }
}

/// `Lᵀ·M·R` for a matrix of `2^σ` columns and `2^ν` rows, `σ ≤ ν`, whose `R[a]·L[b]` is the
/// Lagrange basis value of entry `b·2^σ + a` wherever that entry holds a coefficient, is the
/// evaluation of the polynomial.
proof fn lemma_matrix_product_is_evaluation<F: Field>(
    coeffs: Seq<F>,
    point: Seq<F>,
    l: Seq<F>,
    r: Seq<F>,
    sigma: nat,
    nu: nat,
)
    requires
        sigma <= nu,
        l.len() == pow2(nu),
        r.len() == pow2(nu),
        coeffs.len() <= pow2(nu) * pow2(sigma),
        forall|a: int, b: int|
            0 <= a < pow2(sigma) && 0 <= b < pow2(nu) && b * pow2(sigma) + a < coeffs.len()
                ==> #[trigger] r[a].mul_spec(l[b]) == lagrange_eval(
                point,
                (b * pow2(sigma) + a) as nat,
            ),
    ensures
        field_sum(|c: int| v_vec_spec(coeffs, l, sigma, nu)[c].mul_spec(r[c]), pow2(nu))
            == polynomial_evaluation(coeffs, point),
{
    let w = pow2(sigma);
    let h = pow2(nu);
    let len = coeffs.len();
    lemma_pow2_pos(sigma);
    lemma_pow2_pos(nu);
    if sigma < nu {
        vstd::arithmetic::power2::lemma_pow2_strictly_increases(sigma, nu);
    }
    let v = v_vec_spec(coeffs, l, sigma, nu);
    assert(min_nat(h, l.len()) == h);
    let tv = |c: int| v[c].mul_spec(r[c]);
    // the columns past 2^σ contribute nothing
    let hw = (h - w) as nat;
    lemma_field_sum_split(tv, w, hw);
    assert forall|i: int| 0 <= i < hw implies #[trigger] tv(w + i) == F::zero_spec() by {
        F::lemma_mul_comm(F::zero_spec(), r[w + i]);
        F::lemma_mul_zero(r[w + i]);
    }
    lemma_field_sum_congruent(|i: int| tv(w + i), |i: int| F::zero_spec(), hw);
    lemma_field_sum_zero::<F>(hw);
    lemma_field_sum_wf(tv, w);
    F::lemma_add_zero(field_sum(tv, w));
    assert(w + hw == h);
    let g0 = |row: int, col: int|
        if row * w + col < len {
            l[row].mul_spec(coeffs[row * w + col])
        } else {
            F::zero_spec()
        };
    let e = |a: int, b: int| g0(b, a).mul_spec(r[a]);
    // each column: v[a]·R[a] == Σ_b e(a, b)
    assert forall|a: int| 0 <= a < w implies #[trigger] tv(a) == field_sum(|b: int| e(a, b), h) by {
        lemma_column_sum_as_field_sum(coeffs, l, w, a as nat, h);
        let c0 = |row: int|
            if row * w + a < coeffs.len() {
                l[row].mul_spec(coeffs[row * w + a])
            } else {
                F::zero_spec()
            };
        assert(v[a] == field_sum(c0, h));
        lemma_field_sum_mul(c0, r[a], h);
        lemma_field_sum_congruent(|i: int| c0(i).mul_spec(r[a]), |b: int| e(a, b), h);
    }
    lemma_field_sum_congruent(tv, |a: int| field_sum(|b: int| e(a, b), h), w);
    // exchange the two sums
    lemma_field_sum_swap(e, w, h);
    // the rows of the matrix
    let t = |i: int|
        if i < len {
            coeffs[i].mul_spec(lagrange_eval(point, i as nat))
        } else {
            F::zero_spec()
        };
    assert forall|a: int, b: int| 0 <= a < w && 0 <= b < h implies #[trigger] e(a, b) == t(
        b * w + a,
    ) by {
        assert(0 <= b * w + a) by (nonlinear_arith)
            requires
                0 <= a,
                0 <= b,
                0 <= w,
        ;
        if b * w + a < len {
            assert(r[a].mul_spec(l[b]) == lagrange_eval(point, (b * w + a) as nat));
            lemma_mul_rearrange(l[b], coeffs[b * w + a], r[a]);
        } else {
            F::lemma_mul_comm(F::zero_spec(), r[a]);
            F::lemma_mul_zero(r[a]);
        }
    }
    lemma_sum_transposed(e, t, w, h);
    lemma_field_sum_rows(t, h, w);
    lemma_evaluation_as_field_sum(coeffs, point, h * w);
}

/// Entry `row·2^σ + col` of the evaluation vector of a point with `d` coordinates is
/// `R[col]·L[row]` for the pair `(L, R)` of `compute_left_right_vec`, with the split of the VMV
/// protocol: `ν = σ` for at most `2σ` coordinates and `ν = d − σ` beyond.
proof fn lemma_split_entry<F: Field>(b: Seq<F>, sigma: nat, nu: nat, row: nat, col: nat)
    requires
        nu == (if b.len() <= 2 * sigma {
            sigma
        } else {
            (b.len() - sigma) as nat
        }),
        col < pow2(sigma),
        row < pow2(nu),
        row * pow2(sigma) + col < pow2(b.len()),
        forall|j: int| 0 <= j < b.len() ==> #[trigger] b[j].wf_spec(),
    ensures
        ({
            let lr = left_right_vecs(b, sigma, nu);
            lr.1[col as int].mul_spec(lr.0[row as int]) == lagrange_eval(b, row * pow2(sigma) + col)
        }),
{
    let n = b.len();
    let w = pow2(sigma);
    let size = pow2(nu);
    let lr = left_right_vecs(b, sigma, nu);
    let one = F::one_spec();
    let empty = Seq::<F>::empty();
    let idx = row * w + col;
    lemma_pow2_pos(sigma);
    vstd::arithmetic::power2::lemma2_to64();
    F::lemma_ops_wf(one, one);
    if sigma < nu {
        vstd::arithmetic::power2::lemma_pow2_strictly_increases(sigma, nu);
    }
    if n == 0 {
        assert(row * w + col == 0);
        assert(row == 0) by (nonlinear_arith)
            requires
                row * w == 0,
                w > 0,
        ;
        F::lemma_mul_one(one);
        assert(lr.1[col as int].mul_spec(lr.0[row as int]) == lagrange_eval(b, idx));
    } else if n <= sigma {
        if n < sigma {
            vstd::arithmetic::power2::lemma_pow2_strictly_increases(n, sigma);
        }
        assert(row == 0) by (nonlinear_arith)
            requires
                row * w + col < w,
                w > 0,
        ;
        assert(lr.0 == padded_lagrange(empty, 1, size));
        assert(lr.0[0] == lagrange_eval(empty, 0));
        lemma_basis_wf(b, n, col);
        F::lemma_mul_one(lagrange_eval(b, col));
        assert(lr.1[col as int] == lagrange_eval(b, col));
        assert(lr.1[col as int].mul_spec(lr.0[row as int]) == lagrange_eval(b, idx));
    } else if sigma == 0 {
        assert(col == 0);
        assert(b.subrange(0, n as int) =~= b);
        assert(lr.1[0] == lagrange_eval(b.subrange(0, 0), 0));
        assert(b.subrange(0, 0).len() == 0);
        assert(lr.1[0] == one);
        assert(w == 1);
        assert(idx == row) by (nonlinear_arith)
            requires
                idx == row * w + col,
                w == 1,
                col == 0,
        ;
        lemma_basis_wf(b, n, row);
        F::lemma_mul_comm(one, lagrange_eval(b, row));
        F::lemma_mul_one(lagrange_eval(b, row));
        assert(lr.0[row as int] == lagrange_eval(b, row));
        assert(lr.1[col as int].mul_spec(lr.0[row as int]) == lagrange_eval(b, idx));
    } else {
        let j = (n - sigma) as nat;
        lemma_pow2_adds(j, sigma);
        assert(sigma + j == n);
        assert(row < pow2(j)) by (nonlinear_arith)
            requires
                row * w + col < pow2(j) * w,
                w > 0,
        ;
        lemma_lagrange_basis_split(b, sigma, j, row, col);
        lemma_lagrange_basis_congruent(b, b.subrange(0, sigma as int), sigma, col);
        if n <= 2 * sigma {
            assert(lr.1 == padded_lagrange(b.subrange(0, sigma as int), size, size));
            assert(lr.0 == padded_lagrange(b.subrange(sigma as int, n as int), pow2(j), size));
        } else {
            assert(lr.1 == padded_lagrange(b.subrange(0, sigma as int), w, size));
            assert(lr.0 == padded_lagrange(b.subrange(sigma as int, n as int), size, size));
        }
        assert(b.subrange(sigma as int, (sigma + j) as int) =~= b.subrange(sigma as int, n as int));
        assert(lr.1[col as int] == lagrange_eval(b.subrange(0, sigma as int), col));
        assert(lr.0[row as int] == lagrange_eval(b.subrange(sigma as int, n as int), row));
        assert(lr.1[col as int].mul_spec(lr.0[row as int]) == lagrange_eval(b, idx));
    }
}

/// The matrix form of `compute_left_right_vec` with the split of the VMV protocol (`ν = σ` for at
/// most `2σ` coordinates, `ν = d − σ` beyond): laid out in rows of `2^σ` columns, at most `2^d`
/// coefficients give `Lᵀ·M·R` (the sum over the columns of `v[c]·R[c]` for `v = Lᵀ·M`) equal to
/// the evaluation of the polynomial at the point.
pub proof fn lemma_left_right_vecs_give_evaluation<F: Field>(
    coeffs: Seq<F>,
    b: Seq<F>,
    sigma: nat,
    nu: nat,
)
    requires
        nu == (if b.len() <= 2 * sigma {
            sigma
        } else {
            (b.len() - sigma) as nat
        }),
        coeffs.len() <= pow2(b.len()),
        forall|j: int| 0 <= j < b.len() ==> #[trigger] b[j].wf_spec(),
    ensures
        ({
            let lr = left_right_vecs(b, sigma, nu);
            field_sum(|c: int| v_vec_spec(coeffs, lr.0, sigma, nu)[c].mul_spec(lr.1[c]), pow2(nu))
                == polynomial_evaluation(coeffs, b)
        }),
{
    let n = b.len();
    let lr = left_right_vecs(b, sigma, nu);
    let w = pow2(sigma);
    lemma_pow2_adds(nu, sigma);
    if n < nu + sigma {
        vstd::arithmetic::power2::lemma_pow2_strictly_increases(n, nu + sigma);
    }
    assert forall|a: int, bb: int|
        0 <= a < w && 0 <= bb < pow2(nu) && bb * w + a < coeffs.len() implies #[trigger] lr.1[a].mul_spec(
        lr.0[bb],
    ) == lagrange_eval(b, (bb * w + a) as nat) by {
        lemma_split_entry(b, sigma, nu, bb as nat, a as nat);
    }
    lemma_matrix_product_is_evaluation(coeffs, b, lr.0, lr.1, sigma, nu);
}

} // verus!
