//! (multilinear) polynomial utlities
use vstd::arithmetic::power2::{
    lemma2_to64, lemma_pow2_adds, lemma_pow2_pos, lemma_pow2_strictly_increases, lemma_pow2_unfold, pow2,
};
use vstd::arithmetic::div_mod::lemma_fundamental_div_mod_converse;
use vstd::bits::{lemma_usize_pow2_no_overflow, lemma_usize_shl_is_mul};
use vstd::prelude::*;

use crate::primitives::arithmetic::{msm_spec, Field, Group, MultiScalarMul};

verus! {

/// `2^k` as a machine integer.
pub fn pow2_usize(k: usize) -> (r: usize)
    requires
        k < usize::BITS,
    ensures
        r == pow2(k as nat),
        r > 0,
{
    proof {
        lemma_usize_pow2_no_overflow(k as nat);
        lemma_usize_shl_is_mul(1, k);
    }
    1usize << k
}

/// The Lagrange factor of a coordinate `c`: `c` when the bit is set, `1 - c` otherwise.
pub open spec fn lagrange_factor<F: Field>(c: F, bit: bool) -> F {
    if bit {
        c
    } else {
        F::one_spec().sub_spec(c)
    }
}

/// The multilinear Lagrange basis function with index `i` over the first `n >= 1` coordinates
/// of `point`, evaluated at `point`: the product, taken from the first coordinate on, of the
/// factors of the coordinates for the bits of `i` (bit `j` of `i` goes with coordinate `j`).
pub open spec fn lagrange_basis<F: Field>(point: Seq<F>, n: nat, i: nat) -> F
    decreases n,
{
    if n <= 1 {
        lagrange_factor(point[0], i == 1)
    } else {
        let half = pow2((n - 1) as nat);
        if i < half {
            lagrange_basis(point, (n - 1) as nat, i).mul_spec(
                lagrange_factor(point[n - 1], false),
            )
        } else {
            lagrange_basis(point, (n - 1) as nat, (i - half) as nat).mul_spec(
                lagrange_factor(point[n - 1], true),
            )
        }
    }
}

/// Entry `i` of the evaluation vector of `point`: the basis function `i` evaluated at `point`
/// (the constant one for a point without coordinates).
pub open spec fn lagrange_eval<F: Field>(point: Seq<F>, i: nat) -> F {
    if point.len() == 0 {
        F::one_spec()
    } else {
        lagrange_basis(point, point.len(), i)
    }
}

/// A vector of length `size` holding the evaluation vector of `point` in its first `prefix`
/// entries and zero after them.
pub open spec fn padded_lagrange<F: Field>(point: Seq<F>, prefix: nat, size: nat) -> Seq<F> {
    Seq::new(size, |i: int| if i < prefix { lagrange_eval(point, i as nat) } else { F::zero_spec() })
}

/// One round of the doubling in `multilinear_lagrange_vec`: the entries below
/// `min(len, 2^(c+1))` hold the basis over `c + 1` coordinates.
proof fn lemma_lagrange_step<F: Field>(point: Seq<F>, c: nat, i: nat)
    requires
        c >= 1,
    ensures
        i < pow2(c) ==> lagrange_basis(point, c + 1, i) == lagrange_basis(point, c, i).mul_spec(
            lagrange_factor(point[c as int], false),
        ),
        pow2(c) <= i ==> lagrange_basis(point, c + 1, i) == lagrange_basis(
            point,
            c,
            (i - pow2(c)) as nat,
        ).mul_spec(lagrange_factor(point[c as int], true)),
{
}

/// Computes the evaluation vector for a multilinear polynomial at a given point.
///
/// The evaluation vector contains the values of all 2^n multilinear Lagrange basis functions
/// evaluated at the given point. These basis functions are products of the form:
/// (1-x₁)^b₁ * x₁^(1-b₁) * (1-x₂)^b₂ * x₂^(1-b₂) * ... where each bᵢ ∈ {0,1}
///
/// To evaluate a multilinear polynomial with coefficients `coeffs` at `point`:
/// result = coeffs · evaluation_vector
pub fn multilinear_lagrange_vec<F: Field>(v: &mut Vec<F>, point: &[F])
    requires
        point@.len() < usize::BITS,
        old(v)@.len() <= pow2(point@.len()),
    ensures
        final(v)@.len() == old(v)@.len(),
        forall|i: int|
            0 <= i < final(v)@.len() ==> #[trigger] final(v)@[i] == lagrange_eval(point@, i as nat),
{
    let len = v.len();
    // empty point means constant polynomial (all basis functions = 1)
    if point.len() == 0 || len == 0 {
        let one = F::one();
        let mut j: usize = 0;
        while j < len
            invariant
                v@.len() == len,
                j <= len,
                point@.len() == 0 || len == 0,
                one == F::one_spec(),
                forall|k: int| 0 <= k < j ==> #[trigger] v@[k] == lagrange_eval(point@, k as nat),
            decreases len - j,
        {
            v.set(j, one);
            j = j + 1;
        }
        return;
    }
    // Initialize for first variable: basis functions [1-x₀, x₀]

    let one = F::one();
    let one_minus_p0 = one.sub(&point[0]);
    v.set(0, one_minus_p0);
    if len > 1 {
        v.set(1, point[0]);
    }
    proof {
        lemma2_to64();
    }
    // For each subsequent variable, double the active portion of the evaluation vector
    // by splitting each existing value into (value * (1-pᵢ)) and (value * pᵢ)

    let n = point.len();
    let mut c: usize = 1;
    while c < n
        invariant
            1 <= c <= n,
            n == point@.len(),
            n < usize::BITS,
            v@.len() == len,
            len <= pow2(n as nat),
            len > 0,
            one == F::one_spec(),
            forall|i: int|
                0 <= i < len && i < pow2(c as nat) ==> #[trigger] v@[i] == lagrange_basis(
                    point@,
                    c as nat,
                    i as nat,
                ),
        decreases n - c,
    {
        let p = point[c];
        let mid = pow2_usize(c);
        // Size of active portion after previous variables
        let one_minus_p = one.sub(&p);
        proof {
            lemma_pow2_unfold((c + 1) as nat);
        }
        if mid >= len {
            // No right portion if we've filled the vector, just multiply all by (1-p)
            let ghost prev = v@;
            let mut i: usize = 0;
            while i < len
                invariant
                    i <= len,
                    len <= mid,
                    mid == pow2(c as nat),
                    v@.len() == len,
                    prev.len() == len,
                    c >= 1,
                    c < n,
                    n == point@.len(),
                    p == point@[c as int],
                    one_minus_p == F::one_spec().sub_spec(p),
                    forall|j: int|
                        0 <= j < len && j < pow2(c as nat) ==> #[trigger] prev[j] == lagrange_basis(
                            point@,
                            c as nat,
                            j as nat,
                        ),
                    forall|j: int|
                        0 <= j < i ==> #[trigger] v@[j] == lagrange_basis(
                            point@,
                            (c + 1) as nat,
                            j as nat,
                        ),
                    forall|j: int| i <= j < len ==> #[trigger] v@[j] == prev[j],
                decreases len - i,
            {
                let nv = v[i].mul(&one_minus_p);
                proof {
                    lemma_lagrange_step(point@, c as nat, i as nat);
                }
                v.set(i, nv);
                i = i + 1;
            }
        } else {
            let ghost prev = v@;
            let k = if mid < len - mid {
                mid
            } else {
                len - mid
            };
            // Transform paired elements
            let mut i: usize = 0;
            while i < k
                invariant
                    i <= k,
                    k <= mid,
                    k <= len - mid,
                    mid < len,
                    mid == pow2(c as nat),
                    v@.len() == len,
                    prev.len() == len,
                    c >= 1,
                    c < n,
                    n == point@.len(),
                    p == point@[c as int],
                    one_minus_p == F::one_spec().sub_spec(p),
                    forall|j: int|
                        0 <= j < mid ==> #[trigger] prev[j] == lagrange_basis(
                            point@,
                            c as nat,
                            j as nat,
                        ),
                    forall|j: int|
                        0 <= j < i ==> #[trigger] v@[j] == lagrange_basis(
                            point@,
                            (c + 1) as nat,
                            j as nat,
                        ),
                    forall|j: int|
                        0 <= j < i ==> #[trigger] v@[mid + j] == lagrange_basis(
                            point@,
                            (c + 1) as nat,
                            (mid + j) as nat,
                        ),
                    forall|j: int| i <= j < mid ==> #[trigger] v@[j] == prev[j],
                decreases k - i,
            {
                let li = v[i];
                let ri = li.mul(&p);
                let nl = li.mul(&one_minus_p);
                proof {
                    lemma_lagrange_step(point@, c as nat, i as nat);
                    lemma_lagrange_step(point@, c as nat, (mid + i) as nat);
                }
                v.set(mid + i, ri);
                v.set(i, nl);
                i = i + 1;
            }
            // Handle remaining left elements (when left is longer than right)
            let mut i: usize = k;
            while i < mid
                invariant
                    k <= i <= mid,
                    k <= len - mid,
                    k == mid || k == len - mid,
                    mid < len,
                    mid == pow2(c as nat),
                    v@.len() == len,
                    prev.len() == len,
                    c >= 1,
                    c < n,
                    n == point@.len(),
                    p == point@[c as int],
                    one_minus_p == F::one_spec().sub_spec(p),
                    forall|j: int|
                        0 <= j < mid ==> #[trigger] prev[j] == lagrange_basis(
                            point@,
                            c as nat,
                            j as nat,
                        ),
                    forall|j: int|
                        0 <= j < i ==> #[trigger] v@[j] == lagrange_basis(
                            point@,
                            (c + 1) as nat,
                            j as nat,
                        ),
                    forall|j: int|
                        0 <= j < k ==> #[trigger] v@[mid + j] == lagrange_basis(
                            point@,
                            (c + 1) as nat,
                            (mid + j) as nat,
                        ),
                    forall|j: int| i <= j < mid ==> #[trigger] v@[j] == prev[j],
                decreases mid - i,
            {
                let nv = v[i].mul(&one_minus_p);
                proof {
                    lemma_lagrange_step(point@, c as nat, i as nat);
                }
                v.set(i, nv);
                i = i + 1;
            }
            proof {
                assert forall|j: int|
                    0 <= j < len && j < pow2((c + 1) as nat) implies #[trigger] v@[j]
                    == lagrange_basis(point@, (c + 1) as nat, j as nat) by {
                    if j >= mid {
                        assert(v@[mid + (j - mid)] == lagrange_basis(
                            point@,
                            (c + 1) as nat,
                            (mid + (j - mid)) as nat,
                        ));
                    }
                }
            }
        }
        c = c + 1;
    }
}

/// A vector of `n` copies of `x`.
pub fn filled_vec<T: Copy>(x: T, n: usize) -> (r: Vec<T>)
    ensures
        r@.len() == n,
        forall|i: int| 0 <= i < n ==> #[trigger] r@[i] == x,
{
    let mut r: Vec<T> = Vec::new();
    let mut i: usize = 0;
    while i < n
        invariant
            i <= n,
            r@.len() == i,
            forall|j: int| 0 <= j < i ==> #[trigger] r@[j] == x,
        decreases n - i,
    {
        r.push(x);
        i = i + 1;
    }
    r
}

/// Writes the evaluation vector of `point` into the first `prefix` entries of `target`.
fn lagrange_into_prefix<F: Field>(target: &mut Vec<F>, prefix: usize, point: &[F])
    requires
        prefix <= old(target)@.len(),
        prefix <= pow2(point@.len()),
        point@.len() < usize::BITS,
    ensures
        final(target)@.len() == old(target)@.len(),
        forall|i: int|
            0 <= i < prefix ==> #[trigger] final(target)@[i] == lagrange_eval(point@, i as nat),
        forall|i: int|
            prefix <= i < old(target)@.len() ==> #[trigger] final(target)@[i] == old(target)@[i],
{
    let mut tmp = filled_vec(F::zero(), prefix);
    multilinear_lagrange_vec(&mut tmp, point);
    let ghost orig = target@;
    let mut i: usize = 0;
    while i < prefix
        invariant
            i <= prefix,
            prefix <= orig.len(),
            target@.len() == orig.len(),
            tmp@.len() == prefix,
            forall|j: int| 0 <= j < prefix ==> #[trigger] tmp@[j] == lagrange_eval(point@, j as nat),
            forall|j: int| 0 <= j < i ==> #[trigger] target@[j] == lagrange_eval(point@, j as nat),
            forall|j: int| i <= j < orig.len() ==> #[trigger] target@[j] == orig[j],
        decreases prefix - i,
    {
        target.set(i, tmp[i]);
        i = i + 1;
    }
}

/// The pair `(L, R)` computed by `compute_left_right_vec` for a point, σ and ν.
pub open spec fn left_right_vecs<F: Field>(b: Seq<F>, sigma: nat, nu: nat) -> (Seq<F>, Seq<F>) {
    let n = b.len();
    let size = pow2(nu);
    if n == 0 {
        (padded_lagrange(b, 1, size), padded_lagrange(b, 1, size))
    } else if n <= sigma {
        (padded_lagrange(Seq::<F>::empty(), 1, size), padded_lagrange(b, pow2(n), size))
    } else if n - sigma <= sigma {
        (
            padded_lagrange(b.subrange(nu as int, n as int), pow2((n - nu) as nat), size),
            padded_lagrange(b.subrange(0, nu as int), size, size),
        )
    } else {
        (
            padded_lagrange(b.subrange(sigma as int, n as int), size, size),
            padded_lagrange(b.subrange(0, sigma as int), pow2(sigma), size),
        )
    }
}

/// Whether `compute_left_right_vec` runs to completion on these arguments (each slice it takes
/// lies within its vector).
pub open spec fn left_right_vec_defined(n: nat, sigma: nat, nu: nat) -> bool {
    &&& nu < usize::BITS
    &&& n == 0 || n > sigma || n <= nu
    &&& n <= sigma || n - sigma > sigma || (nu <= n && n - nu <= nu)
    &&& n <= sigma || n - sigma <= sigma || (sigma <= nu && nu <= n - sigma && n - sigma
        < usize::BITS)
}

/// Compute vectors L and R for matrix-based polynomial evaluation
/// Given a polynomial arranged as a matrix M, computes L and R such that:
/// polynomial_evaluation(b_point) = L^T × M × R
pub fn compute_left_right_vec<F: Field>(
    b_point: &[F],
    sigma: usize,  // log₂(max_columns) - matrix width
    nu: usize,  // log₂(vector_length) - matrix length
) -> (r: (Vec<F>, Vec<F>))
    requires
        left_right_vec_defined(b_point@.len(), sigma as nat, nu as nat),
    ensures
        (r.0@, r.1@) == left_right_vecs(b_point@, sigma as nat, nu as nat),
{
    let size = pow2_usize(nu);
    let zero = F::zero();
    let mut right_vec = filled_vec(zero, size);  // Column evaluation vector
    let mut left_vec = filled_vec(zero, size);  // Row evaluation vector
    let point_dim = b_point.len();
    let ghost empty = Seq::<F>::empty();
    proof {
        lemma_pow2_pos(nu as nat);
    }
    if point_dim == 0 {
        // Case 1: Constant polynomial (0 variables)
        let one = F::one();
        right_vec.set(0, one);
        left_vec.set(0, one);
        // Matrix is 1×1, so L^T × M × R = 1 × M[0,0] × 1
        assert(left_vec@ =~= padded_lagrange(b_point@, 1, size as nat));
        assert(right_vec@ =~= padded_lagrange(b_point@, 1, size as nat));
    } else if point_dim <= sigma {
        // Case 2: All variables fit in columns (single row needed)
        // All variables determine column position
        let prefix = pow2_usize(point_dim);
        proof {
            if point_dim < nu {
                lemma_pow2_strictly_increases(point_dim as nat, nu as nat);
            }
        }
        lagrange_into_prefix(&mut right_vec, prefix, b_point);
        let one = F::one();
        left_vec.set(0, one);  // Only need first row
        // L^T × M × R = [1, 0, ...] × M × R
        assert(left_vec@ =~= padded_lagrange(empty, 1, size as nat));
        assert(right_vec@ =~= padded_lagrange(b_point@, prefix as nat, size as nat));
    } else if point_dim - sigma <= sigma {
        // Case 3: Variables split between rows and columns (no padding)
        // Split variables: first `nu` for columns, rest for rows
        let cols = &b_point[0..nu];
        lagrange_into_prefix(&mut right_vec, size, cols);  // Column vars
        let rows = &b_point[nu..point_dim];
        let prefix = pow2_usize(point_dim - nu);
        proof {
            if point_dim - nu < nu {
                lemma_pow2_strictly_increases((point_dim - nu) as nat, nu as nat);
            }
        }
        lagrange_into_prefix(&mut left_vec, prefix, rows);
        // Row vars
        // L^T × M × R where both L and R have meaningful entries
        assert(left_vec@ =~= padded_lagrange(
            b_point@.subrange(nu as int, point_dim as int),
            prefix as nat,
            size as nat,
        ));
        assert(right_vec@ =~= padded_lagrange(
            b_point@.subrange(0, nu as int),
            size as nat,
            size as nat,
        ));
    } else {
        // Case 4: Too many variables - need column padding
        // Use max column capacity, put remaining variables in rows
        let cols = &b_point[0..sigma];
        let prefix = pow2_usize(sigma);
        proof {
            if sigma < nu {
                lemma_pow2_strictly_increases(sigma as nat, nu as nat);
            }
            if nu < point_dim - sigma {
                lemma_pow2_strictly_increases(nu as nat, (point_dim - sigma) as nat);
            }
        }
        lagrange_into_prefix(&mut right_vec, prefix, cols);  // First σ vars → columns
        let rows = &b_point[sigma..point_dim];
        lagrange_into_prefix(&mut left_vec, size, rows);  // Remaining vars → rows
        // Matrix has padded columns but we only use the first 2^σ columns
        assert(left_vec@ =~= padded_lagrange(
            b_point@.subrange(sigma as int, point_dim as int),
            size as nat,
            size as nat,
        ));
        assert(right_vec@ =~= padded_lagrange(
            b_point@.subrange(0, sigma as int),
            prefix as nat,
            size as nat,
        ));
    }
    (left_vec, right_vec)
}

/// `s` extended with zeros to length `size` (truncated to `size` if longer).
pub open spec fn zero_padded<F: Field>(s: Seq<F>, size: nat) -> Seq<F> {
    Seq::new(size, |i: int| if i < s.len() { s[i] } else { F::zero_spec() })
}

/// The pair `(l_coords, r_coords)` computed by `compute_l_r_tensors`.
pub open spec fn l_r_tensors<F: Field>(b: Seq<F>, sigma: nat, nu: nat) -> (Seq<F>, Seq<F>) {
    let n = b.len();
    let size = pow2(nu);
    if n == 0 {
        (zero_padded(Seq::<F>::empty(), size), zero_padded(Seq::<F>::empty(), size))
    } else if n <= sigma {
        (zero_padded(Seq::<F>::empty(), size), zero_padded(b, size))
    } else if n <= 2 * sigma {
        (zero_padded(b.subrange(nu as int, n as int), size), zero_padded(b.subrange(0, nu as int), size))
    } else {
        (zero_padded(b.subrange(sigma as int, n as int), size), zero_padded(b.subrange(0, sigma as int), size))
    }
}

/// Whether `compute_l_r_tensors` runs to completion on these arguments: every slice it takes
/// lies within its vector, and where there are more than `2σ` coordinates the row coordinates
/// fill the row vector exactly.
pub open spec fn l_r_tensors_defined(n: nat, sigma: nat, nu: nat) -> bool {
    &&& nu < usize::BITS
    &&& n == 0 || n > sigma || n <= pow2(nu)
    &&& n <= sigma || n > 2 * sigma || (nu <= n && n - nu <= pow2(nu))
    &&& n <= 2 * sigma || (sigma <= pow2(nu) && n - sigma == pow2(nu))
}

/// Splits evaluation point coordinates into left/right tensors for matrix operations.
/// Outputs can be fed to `multilinear_lagrange_vec` to get the same result as `compute_left_right_vec`.
pub fn compute_l_r_tensors<F: Field>(b_point: &[F], sigma: usize, nu: usize) -> (r: (
    Vec<F>,
    Vec<F>,
))
    requires
        l_r_tensors_defined(b_point@.len(), sigma as nat, nu as nat),
    ensures
        (r.0@, r.1@) == l_r_tensors(b_point@, sigma as nat, nu as nat),
{
    let size = pow2_usize(nu);
    let zero = F::zero();
    let mut r_coords = filled_vec(zero, size);  // Column coordinates
    let mut l_coords = filled_vec(zero, size);  // Row coordinates
    let num_vars = b_point.len();
    let ghost empty = Seq::<F>::empty();
    if num_vars == 0 {
        assert(r_coords@ =~= zero_padded(empty, size as nat));
        assert(l_coords@ =~= zero_padded(empty, size as nat));
    } else if num_vars <= sigma {
        // All variables → columns
        copy_into_prefix(&mut r_coords, b_point);
        assert(r_coords@ =~= zero_padded(b_point@, size as nat));
        assert(l_coords@ =~= zero_padded(empty, size as nat));
    } else if num_vars - sigma <= sigma {
        // Split variables between rows and columns: the first `nu` for columns, the rest for rows
        proof {
            lemma_pow2_strictly_increases_self(nu as nat);
        }
        copy_into_prefix(&mut r_coords, &b_point[0..nu]);
        copy_into_prefix(&mut l_coords, &b_point[nu..num_vars]);
        assert(r_coords@ =~= zero_padded(b_point@.subrange(0, nu as int), size as nat));
        assert(l_coords@ =~= zero_padded(
            b_point@.subrange(nu as int, num_vars as int),
            size as nat,
        ));
    } else {
        // Too many variables: max columns, rest → rows
        copy_into_prefix(&mut r_coords, &b_point[0..sigma]);
        copy_into_prefix(&mut l_coords, &b_point[sigma..num_vars]);
        assert(r_coords@ =~= zero_padded(b_point@.subrange(0, sigma as int), size as nat));
        assert(l_coords@ =~= zero_padded(
            b_point@.subrange(sigma as int, num_vars as int),
            size as nat,
        ));
    }
    (l_coords, r_coords)
}

/// Copies `src` over the first `src.len()` entries of `dst`.
fn copy_into_prefix<T: Copy>(dst: &mut Vec<T>, src: &[T])
    requires
        src@.len() <= old(dst)@.len(),
    ensures
        final(dst)@.len() == old(dst)@.len(),
        forall|i: int| 0 <= i < src@.len() ==> #[trigger] final(dst)@[i] == src@[i],
        forall|i: int|
            src@.len() <= i < old(dst)@.len() ==> #[trigger] final(dst)@[i] == old(dst)@[i],
{
    let ghost orig = dst@;
    let mut i: usize = 0;
    while i < src.len()
        invariant
            i <= src@.len(),
            src@.len() <= orig.len(),
            dst@.len() == orig.len(),
            forall|j: int| 0 <= j < i ==> #[trigger] dst@[j] == src@[j],
            forall|j: int| i <= j < orig.len() ==> #[trigger] dst@[j] == orig[j],
        decreases src@.len() - i,
    {
        dst.set(i, src[i]);
        i = i + 1;
    }
}

/// The Lagrange basis only reads the coordinates it ranges over.
proof fn lemma_basis_prefix<F: Field>(p1: Seq<F>, p2: Seq<F>, k: nat, i: nat)
    requires
        k >= 1,
        p1.len() >= k,
        p2.len() >= k,
        forall|j: int| 0 <= j < k ==> p1[j] == p2[j],
    ensures
        lagrange_basis(p1, k, i) == lagrange_basis(p2, k, i),
    decreases k,
{
    if k > 1 {
        let half = pow2((k - 1) as nat);
        if i < half {
            lemma_basis_prefix(p1, p2, (k - 1) as nat, i);
        } else {
            lemma_basis_prefix(p1, p2, (k - 1) as nat, (i - half) as nat);
        }
    }
}

/// Basis values are well formed when the coordinates are.
pub(crate) proof fn lemma_basis_wf<F: Field>(p: Seq<F>, k: nat, i: nat)
    requires
        k >= 1,
        p.len() >= k,
        forall|j: int| 0 <= j < p.len() ==> (#[trigger] p[j]).wf_spec(),
    ensures
        lagrange_basis(p, k, i).wf_spec(),
    decreases k,
{
    F::lemma_ops_wf(F::one_spec(), p[(k - 1) as int]);
    if k > 1 {
        let half = pow2((k - 1) as nat);
        let f = lagrange_factor(p[k - 1], i >= half);
        if i < half {
            F::lemma_ops_wf(lagrange_basis(p, (k - 1) as nat, i), f);
        } else {
            F::lemma_ops_wf(lagrange_basis(p, (k - 1) as nat, (i - half) as nat), f);
        }
    } else {
        F::lemma_ops_wf(F::one_spec(), p[0]);
    }
}

/// The basis over a point extended with zero coordinates is the basis over the point itself on
/// the indices it reaches, and zero beyond them.
proof fn lemma_basis_zero_padded<F: Field>(s: Seq<F>, m: nat, k: nat, i: nat)
    requires
        s.len() <= k <= m,
        k >= 1,
        i < pow2(k),
        forall|j: int| 0 <= j < s.len() ==> (#[trigger] s[j]).wf_spec(),
    ensures
        lagrange_basis(zero_padded(s, m), k, i) == (if i < pow2(s.len()) {
            lagrange_eval(s, i)
        } else {
            F::zero_spec()
        }),
    decreases k,
{
    let p = zero_padded(s, m);
    F::lemma_ops_wf(F::one_spec(), F::one_spec());
    assert forall|j: int| 0 <= j < p.len() implies (#[trigger] p[j]).wf_spec() by {}
    if k == s.len() {
        lemma_basis_prefix(p, s, k, i);
    } else if k == 1 {
        // s is empty: the only coordinate is zero.
        lemma2_to64();
        F::lemma_sub_zero(F::one_spec());
    } else {
        lemma_pow2_unfold(k);
        let half = pow2((k - 1) as nat);
        assert(p[k - 1] == F::zero_spec());
        if s.len() < k - 1 {
            lemma_pow2_strictly_increases(s.len(), (k - 1) as nat);
        }
        if i < half {
            lemma_basis_zero_padded(s, m, (k - 1) as nat, i);
            lemma_basis_wf(p, (k - 1) as nat, i);
            F::lemma_sub_zero(F::one_spec());
            F::lemma_mul_one(lagrange_basis(p, (k - 1) as nat, i));
        } else {
            F::lemma_mul_zero(lagrange_basis(p, (k - 1) as nat, (i - half) as nat));
        }
    }
}

/// Evaluation vector of a zero-padded point of `m >= 1` coordinates.
proof fn lemma_eval_zero_padded<F: Field>(s: Seq<F>, m: nat, i: nat)
    requires
        s.len() <= m,
        m >= 1,
        i < pow2(m),
        forall|j: int| 0 <= j < s.len() ==> (#[trigger] s[j]).wf_spec(),
    ensures
        lagrange_eval(zero_padded(s, m), i) == (if i < pow2(s.len()) {
            lagrange_eval(s, i)
        } else {
            F::zero_spec()
        }),
{
    lemma_basis_zero_padded(s, m, m, i);
}

/// Feeding the outputs of `compute_l_r_tensors` to `multilinear_lagrange_vec` (with vectors of
/// length `2^ν`) gives the outputs of `compute_left_right_vec`, wherever both functions are
/// defined.
pub proof fn lemma_l_r_tensors_give_left_right_vecs<F: Field>(b: Seq<F>, sigma: nat, nu: nat)
    requires
        l_r_tensors_defined(b.len(), sigma, nu),
        left_right_vec_defined(b.len(), sigma, nu),
        forall|j: int| 0 <= j < b.len() ==> (#[trigger] b[j]).wf_spec(),
    ensures
        Seq::new(pow2(nu), |i: int| lagrange_eval(l_r_tensors(b, sigma, nu).0, i as nat))
            == left_right_vecs(b, sigma, nu).0,
        Seq::new(pow2(nu), |i: int| lagrange_eval(l_r_tensors(b, sigma, nu).1, i as nat))
            == left_right_vecs(b, sigma, nu).1,
{
    let n = b.len();
    let size = pow2(nu);
    let (l, r) = l_r_tensors(b, sigma, nu);
    let (lv, rv) = left_right_vecs(b, sigma, nu);
    let empty = Seq::<F>::empty();
    lemma_pow2_pos(nu);
    lemma2_to64();
    lemma_pow2_strictly_increases_self(size);
    if n == 0 {
        assert forall|i: int| 0 <= i < size implies lagrange_eval(l, i as nat) == lv[i] by {
            lemma_eval_zero_padded(empty, size, i as nat);
        }
        assert forall|i: int| 0 <= i < size implies lagrange_eval(r, i as nat) == rv[i] by {
            lemma_eval_zero_padded(empty, size, i as nat);
        }
    } else if n <= sigma {
        assert forall|i: int| 0 <= i < size implies lagrange_eval(l, i as nat) == lv[i] by {
            lemma_eval_zero_padded(empty, size, i as nat);
        }
        assert forall|i: int| 0 <= i < size implies lagrange_eval(r, i as nat) == rv[i] by {
            lemma_eval_zero_padded(b, size, i as nat);
        }
    } else if n <= 2 * sigma {
        lemma_pow2_strictly_increases_self(nu);
        let rows = b.subrange(nu as int, n as int);
        let cols = b.subrange(0, nu as int);
        assert forall|i: int| 0 <= i < size implies lagrange_eval(l, i as nat) == lv[i] by {
            lemma_eval_zero_padded(rows, size, i as nat);
        }
        assert forall|i: int| 0 <= i < size implies lagrange_eval(r, i as nat) == rv[i] by {
            lemma_eval_zero_padded(cols, size, i as nat);
        }
    } else {
        let rows = b.subrange(sigma as int, n as int);
        let cols = b.subrange(0, sigma as int);
        assert(l =~= rows);
        assert forall|i: int| 0 <= i < size implies lagrange_eval(r, i as nat) == rv[i] by {
            lemma_eval_zero_padded(cols, size, i as nat);
        }
    }
    assert(Seq::new(pow2(nu), |i: int| lagrange_eval(l, i as nat)) =~= lv);
    assert(Seq::new(pow2(nu), |i: int| lagrange_eval(r, i as nat)) =~= rv);
}

/// Where the coordinates split between rows and columns (`σ < d ≤ 2σ`), the column tensor
/// starts with the first `ν` coordinates and the row tensor with the other `d − ν`; the
/// evaluation vector of the first is `R`, and that of the second is the first `2^(d−ν)` entries
/// of `L`.
pub proof fn lemma_l_r_tensors_split_prefixes<F: Field>(b: Seq<F>, sigma: nat, nu: nat)
    requires
        l_r_tensors_defined(b.len(), sigma, nu),
        left_right_vec_defined(b.len(), sigma, nu),
        sigma < b.len() <= 2 * sigma,
    ensures
        ({
            let n = b.len();
            let (l, r) = l_r_tensors(b, sigma, nu);
            let (lv, rv) = left_right_vecs(b, sigma, nu);
            &&& r.subrange(0, nu as int) == b.subrange(0, nu as int)
            &&& l.subrange(0, (n - nu) as int) == b.subrange(nu as int, n as int)
            &&& Seq::new(pow2(nu), |i: int| lagrange_eval(r.subrange(0, nu as int), i as nat)) == rv
            &&& Seq::new(
                pow2((n - nu) as nat),
                |i: int| lagrange_eval(l.subrange(0, (n - nu) as int), i as nat),
            ) == lv.subrange(0, pow2((n - nu) as nat) as int)
        }),
{
    let n = b.len();
    let (l, r) = l_r_tensors(b, sigma, nu);
    let (lv, rv) = left_right_vecs(b, sigma, nu);
    let m = (n - nu) as nat;
    lemma_pow2_strictly_increases_self(nu);
    if m < nu {
        lemma_pow2_strictly_increases(m, nu);
    }
    assert(r.subrange(0, nu as int) =~= b.subrange(0, nu as int));
    assert(l.subrange(0, m as int) =~= b.subrange(nu as int, n as int));
    assert(Seq::new(pow2(nu), |i: int| lagrange_eval(r.subrange(0, nu as int), i as nat)) =~= rv);
    assert(Seq::new(pow2(m), |i: int| lagrange_eval(l.subrange(0, m as int), i as nat))
        =~= lv.subrange(0, pow2(m) as int));
}

/// `k < 2^k`
proof fn lemma_pow2_strictly_increases_self(k: nat)
    ensures
        k < pow2(k),
    decreases k,
{
    if k == 0 {
        lemma2_to64();
    } else {
        lemma_pow2_strictly_increases_self((k - 1) as nat);
        lemma_pow2_unfold(k);
        lemma_pow2_pos((k - 1) as nat);
    }
}

/// Coefficient `i` of a coefficient sequence, `None` past its end.
pub open spec fn coeff_at<F>(coeffs: Seq<F>, i: int) -> Option<F> {
    if 0 <= i < coeffs.len() {
        Some(coeffs[i])
    } else {
        None
    }
}

/// `Σ_{r < rows} left[r] · M[r][col]` where `M` is `coeffs` laid out row by row with `width`
/// columns; a term whose coefficient lies past the end of `coeffs` is skipped.
pub open spec fn column_sum<F: Field>(
    coeffs: Seq<F>,
    left: Seq<F>,
    width: nat,
    col: nat,
    rows: nat,
) -> F
    decreases rows,
{
    if rows == 0 {
        F::zero_spec()
    } else {
        let prev = column_sum(coeffs, left, width, col, (rows - 1) as nat);
        let idx = (rows - 1) * width + col;
        if idx < coeffs.len() {
            prev.add_spec(left[rows - 1].mul_spec(coeffs[idx]))
        } else {
            prev
        }
    }
}

/// `Σ_{i < k} coeffs[i] · lagrange_eval(point, i)`, folded from zero.
pub open spec fn partial_evaluation<F: Field>(coeffs: Seq<F>, point: Seq<F>, k: nat) -> F
    decreases k,
{
    if k == 0 {
        F::zero_spec()
    } else {
        partial_evaluation(coeffs, point, (k - 1) as nat).add_spec(
            coeffs[k - 1].mul_spec(lagrange_eval(point, (k - 1) as nat)),
        )
    }
}

/// The evaluation of the multilinear polynomial with coefficients `coeffs` (in the Lagrange
/// basis) at `point`.
pub open spec fn polynomial_evaluation<F: Field>(coeffs: Seq<F>, point: Seq<F>) -> F {
    partial_evaluation(coeffs, point, coeffs.len())
}

/// The number of rows of length `row_len` needed for `total` coefficients.
pub open spec fn num_rows(total: nat, row_len: nat) -> nat {
    ((total + row_len - 1) as nat) / row_len
}

/// The coefficients of row `j` when `coeffs` is cut into rows of length `row_len`.
pub open spec fn row_of<F>(coeffs: Seq<F>, row_len: nat, j: nat) -> Seq<F> {
    let start = j * row_len;
    let end = if start + row_len <= coeffs.len() {
        start + row_len
    } else {
        coeffs.len()
    };
    coeffs.subrange(start as int, end as int)
}

/// The Pedersen commitment of each row of `coeffs` (rows of length `row_len`) under `gens`.
pub open spec fn row_commitments<G: Group>(
    gens: Seq<G>,
    coeffs: Seq<G::Scalar>,
    row_len: nat,
) -> Seq<G> {
    Seq::new(
        num_rows(coeffs.len(), row_len),
        |j: int|
            {
                let row = row_of(coeffs, row_len, j as nat);
                msm_spec::<G>(gens.subrange(0, row.len() as int), row, row.len())
            },
    )
}

/// multilinear polynomials trait for custom (optimized) primitive operations
/// We provide generic implementations as well
pub trait Polynomial<F: Field, G1: Group<Scalar = F>> {
    /// The coefficients of the polynomial.
    spec fn coeffs(&self) -> Seq<F>;

    /// The number of coefficients fits in a machine integer.
    proof fn lemma_coeffs_len(&self)
        ensures
            self.coeffs().len() <= usize::MAX,
    ;

    /// Gets coefficient at index
    fn get(&self, index: usize) -> (r: Option<F>)
        ensures
            r == coeff_at(self.coeffs(), index as int),
    ;

    /// Returns the number of coefficients in the polynomial
    fn len(&self) -> (r: usize)
        ensures
            r == self.coeffs().len(),
    {
        // Find length by checking until we hit None
        proof {
            self.lemma_coeffs_len();
        }
        let mut len: usize = 0;
        while self.get(len).is_some()
            invariant
                len <= self.coeffs().len(),
                self.coeffs().len() <= usize::MAX,
            decreases self.coeffs().len() - len,
        {
            len = len + 1;
        }
        len
    }

    /// Checks if polynomial is empty
    fn is_empty(&self) -> (b: bool)
        ensures
            b == (self.coeffs().len() == 0),
    {
        self.len() == 0
    }

    /// Evaluates the polynomial at a given point
    fn evaluate(&self, point: &[F]) -> (r: F)
        requires
            point@.len() < usize::BITS,
            self.coeffs().len() <= pow2(point@.len()),
        ensures
            r == polynomial_evaluation(self.coeffs(), point@),
    {
        let n = self.len();
        let mut eval_vec = filled_vec(F::zero(), n);
        let _expected_size = pow2_usize(point.len());
        multilinear_lagrange_vec(&mut eval_vec, point);
        // Compute inner product <coeffs, eval_vec>
        let mut result = F::zero();
        let mut i: usize = 0;
        while i < n
            invariant
                i <= n,
                n == self.coeffs().len(),
                eval_vec@.len() == n,
                forall|j: int|
                    0 <= j < n ==> #[trigger] eval_vec@[j] == lagrange_eval(point@, j as nat),
                result == partial_evaluation(self.coeffs(), point@, i as nat),
            decreases n - i,
        {
            if let Some(coeff) = self.get(i) {
                let t = coeff.mul(&eval_vec[i]);
                result = result.add(&t);
            }
            i = i + 1;
        }
        result
    }

    /// Commits to rows of the polynomial when viewed as a matrix
    fn commit_rows<M1: MultiScalarMul<G1>>(&self, g1_generators: &[G1], row_len: usize) -> (r: Vec<
        G1,
    >)
        requires
            row_len > 0,
            self.coeffs().len() + row_len <= usize::MAX,
            row_len <= g1_generators@.len() || self.coeffs().len() <= g1_generators@.len(),
        ensures
            r@ == row_commitments::<G1>(g1_generators@, self.coeffs(), row_len as nat),
    {
        let mut commitments: Vec<G1> = Vec::new();
        let total_len = self.len();
        let ghost coeffs = self.coeffs();
        let mut row_start: usize = 0;
        let ghost mut j: nat = 0;
        while row_start < total_len
            invariant
                total_len == coeffs.len(),
                coeffs == self.coeffs(),
                row_len > 0,
                total_len + row_len <= usize::MAX,
                row_len <= g1_generators@.len() || total_len <= g1_generators@.len(),
                row_start == j * row_len,
                row_start <= total_len + row_len,
                j > 0 ==> (j - 1) * row_len < total_len,
                commitments@.len() == j,
                forall|k: int|
                    0 <= k < j ==> #[trigger] commitments@[k] == ({
                        let row = row_of(coeffs, row_len as nat, k as nat);
                        msm_spec::<G1>(g1_generators@.subrange(0, row.len() as int), row, row.len())
                    }),
            decreases total_len + row_len - row_start,
        {
            let row_end = if row_start + row_len < total_len {
                row_start + row_len
            } else {
                total_len
            };
            // Collect row coefficients using get()
            let mut row_coeffs: Vec<F> = Vec::new();
            let mut i: usize = row_start;
            while i < row_end
                invariant
                    row_start <= i <= row_end,
                    row_end <= coeffs.len(),
                    coeffs == self.coeffs(),
                    row_coeffs@ == coeffs.subrange(row_start as int, i as int),
                decreases row_end - i,
            {
                if let Some(coeff) = self.get(i) {
                    row_coeffs.push(coeff);
                }
                assert(row_coeffs@ =~= coeffs.subrange(row_start as int, (i + 1) as int));
                i = i + 1;
            }
            assert(row_coeffs@ == row_of(coeffs, row_len as nat, j));
            let commitment = M1::msm(&g1_generators[0..row_coeffs.len()], &row_coeffs);
            commitments.push(commitment);
            row_start = row_start + row_len;
            proof {
                j = j + 1;
                assert(row_start == j * row_len) by (nonlinear_arith)
                    requires
                        row_start == (j - 1) * row_len + row_len,
                ;
            }
        }
        proof {
            lemma_num_rows(total_len as nat, row_len as nat, j);
        }
        assert(commitments@ =~= row_commitments::<G1>(g1_generators@, coeffs, row_len as nat));
        commitments
    }

    /// Computes the vector-matrix product L^T * M where M is the polynomial as a square matrix
    /// with `l_vec.len()` rows and columns.
    fn vector_matrix_product(&self, l_vec: &[F]) -> (r: Vec<F>)
        requires
            l_vec@.len() * l_vec@.len() <= usize::MAX,
        ensures
            r@.len() == l_vec@.len(),
            forall|col: int|
                0 <= col < l_vec@.len() ==> #[trigger] r@[col] == column_sum(
                    self.coeffs(),
                    l_vec@,
                    l_vec@.len(),
                    col as nat,
                    l_vec@.len(),
                ),
    {
        let n = l_vec.len();
        let mut result = filled_vec(F::zero(), n);
        let ghost coeffs = self.coeffs();
        let mut row: usize = 0;
        while row < n
            invariant
                row <= n,
                n == l_vec@.len(),
                n * n <= usize::MAX,
                coeffs == self.coeffs(),
                result@.len() == n,
                forall|c: int|
                    0 <= c < n ==> #[trigger] result@[c] == column_sum(
                        coeffs,
                        l_vec@,
                        n as nat,
                        c as nat,
                        row as nat,
                    ),
            decreases n - row,
        {
            let mut col: usize = 0;
            while col < n
                invariant
                    row < n,
                    col <= n,
                    n == l_vec@.len(),
                    n * n <= usize::MAX,
                    coeffs == self.coeffs(),
                    result@.len() == n,
                    forall|c: int|
                        0 <= c < col ==> #[trigger] result@[c] == column_sum(
                            coeffs,
                            l_vec@,
                            n as nat,
                            c as nat,
                            (row + 1) as nat,
                        ),
                    forall|c: int|
                        col <= c < n ==> #[trigger] result@[c] == column_sum(
                            coeffs,
                            l_vec@,
                            n as nat,
                            c as nat,
                            row as nat,
                        ),
                decreases n - col,
            {
                proof {
                    assert(row * n + col < n * n) by (nonlinear_arith)
                        requires
                            row < n,
                            col < n,
                    ;
                }
                let idx = row * n + col;
                if let Some(coeff) = self.get(idx) {
                    let product = l_vec[row].mul(&coeff);
                    let nv = result[col].add(&product);
                    result.set(col, nv);
                }
                col = col + 1;
            }
            row = row + 1;
        }
        result
    }
}

/// `num_rows` is the index of the first row past the coefficients.
proof fn lemma_num_rows(total: nat, row_len: nat, j: nat)
    requires
        row_len > 0,
        j * row_len >= total,
        j > 0 ==> (j - 1) * row_len < total,
    ensures
        num_rows(total, row_len) == j,
{
    let x = (total + row_len - 1) as nat;
    if j == 0 {
        assert(total == 0);
        lemma_fundamental_div_mod_converse(x as int, row_len as int, 0, x as int);
    } else {
        let r = x - j * row_len;
        assert(0 <= r < row_len) by (nonlinear_arith)
            requires
                x == total + row_len - 1,
                j * row_len >= total,
                (j - 1) * row_len < total,
                r == x - j * row_len,
        ;
        lemma_fundamental_div_mod_converse(x as int, row_len as int, j as int, r as int);
    }
}

/// Compute the evaluation of a multilinear polynomial at a given point
/// Uses the lagrange evaluation basis
/// Ref: Section 2.5 of Dory paper.
pub fn compute_polynomial_evaluation<F, G1, P>(poly: &P, point: &[F]) -> (r: F) where
    F: Field,
    G1: Group<Scalar = F>,
    P: Polynomial<F, G1>,

    requires
        point@.len() < usize::BITS,
        poly.coeffs().len() <= pow2(point@.len()),
    ensures
        r == polynomial_evaluation(poly.coeffs(), point@),
{
    poly.evaluate(point)
}

/// Computes v = L^T × M in Dory's VMV protocol
/// First step of Vector-Matrix-Vector: L^T * M
pub fn compute_v_vec<F, G1, P>(
    a: &P,  // Polynomial coefficients (flattened matrix M)
    left_vec: &[F],  // L vector (row evaluation weights)
    sigma: usize,  // log₂(columns) - matrix width
    nu: usize,  // log₂(rows) - matrix height
) -> (v: Vec<F>) where F: Field, G1: Group<Scalar = F>, P: Polynomial<F, G1>
    requires
        sigma < usize::BITS,
        nu < usize::BITS,
        min_nat(pow2(nu as nat), left_vec@.len()) * pow2(sigma as nat) <= usize::MAX,
    ensures
        v@.len() == pow2(nu as nat),
        forall|col: int|
            0 <= col < pow2(nu as nat) ==> #[trigger] v@[col] == (if col < pow2(sigma as nat) {
                column_sum(
                    a.coeffs(),
                    left_vec@,
                    pow2(sigma as nat),
                    col as nat,
                    min_nat(pow2(nu as nat), left_vec@.len()),
                )
            } else {
                F::zero_spec()
            }),
{
    let size = pow2_usize(nu);
    let mut v = filled_vec(F::zero(), size);  // Result: v = L^T × M
    let cols_per_row = pow2_usize(sigma);
    let rows = if size < left_vec.len() {
        size
    } else {
        left_vec.len()
    };
    let cols = if cols_per_row < size {
        cols_per_row
    } else {
        size
    };
    let ghost coeffs = a.coeffs();
    // Process each row of matrix M
    let mut row_idx: usize = 0;
    while row_idx < size && row_idx < left_vec.len()
        invariant
            row_idx <= rows,
            rows == min_nat(size as nat, left_vec@.len()),
            cols == min_nat(cols_per_row as nat, size as nat),
            size == pow2(nu as nat),
            cols_per_row == pow2(sigma as nat),
            rows * cols_per_row <= usize::MAX,
            coeffs == a.coeffs(),
            v@.len() == size,
            forall|c: int|
                0 <= c < size ==> #[trigger] v@[c] == (if c < cols_per_row {
                    column_sum(coeffs, left_vec@, cols_per_row as nat, c as nat, row_idx as nat)
                } else {
                    F::zero_spec()
                }),
        decreases rows - row_idx,
    {
        let l_weight = left_vec[row_idx];  // Weight for this row
        proof {
            assert(row_idx * cols_per_row + cols_per_row <= rows * cols_per_row) by (
            nonlinear_arith)
                requires
                    row_idx < rows,
            ;
        }
        let row_start = row_idx * cols_per_row;
        // Add weighted row to result: v += l_weight * row
        let mut col_idx: usize = 0;
        while col_idx < cols_per_row && col_idx < v.len()
            invariant
                col_idx <= cols,
                cols == min_nat(cols_per_row as nat, size as nat),
                row_idx < rows,
                rows <= left_vec@.len(),
                l_weight == left_vec@[row_idx as int],
                row_start == row_idx * cols_per_row,
                row_start + cols_per_row <= usize::MAX,
                size == pow2(nu as nat),
                cols_per_row == pow2(sigma as nat),
                coeffs == a.coeffs(),
                v@.len() == size,
                forall|c: int|
                    0 <= c < col_idx ==> #[trigger] v@[c] == column_sum(
                        coeffs,
                        left_vec@,
                        cols_per_row as nat,
                        c as nat,
                        (row_idx + 1) as nat,
                    ),
                forall|c: int|
                    col_idx <= c < size ==> #[trigger] v@[c] == (if c < cols_per_row {
                        column_sum(
                            coeffs,
                            left_vec@,
                            cols_per_row as nat,
                            c as nat,
                            row_idx as nat,
                        )
                    } else {
                        F::zero_spec()
                    }),
            decreases cols - col_idx,
        {
            let coeff_idx = row_start + col_idx;
            if let Some(a_coeff) = a.get(coeff_idx) {
                let product = l_weight.mul(&a_coeff);
                let nv = v[col_idx].add(&product);
                v.set(col_idx, nv);
            }
            col_idx = col_idx + 1;
        }
        row_idx = row_idx + 1;
    }
    v
}

/// The smaller of two naturals.
pub open spec fn min_nat(a: nat, b: nat) -> nat {
    if a <= b {
        a
    } else {
        b
    }
}

/// A polynomial given by the vector of its coefficients.
pub struct StandardPolynomial<F> {
    coeffs: Vec<F>,
}

impl<F: Field> StandardPolynomial<F> {
    /// The coefficients, as a sequence.
    pub closed spec fn coeff_seq(&self) -> Seq<F> {
        self.coeffs@
    }

    /// A polynomial with the given coefficients.
    pub fn new(coeffs: &[F]) -> (p: Self)
        ensures
            p.coeff_seq() == coeffs@,
    {
        let mut v: Vec<F> = Vec::new();
        let mut i: usize = 0;
        while i < coeffs.len()
            invariant
                i <= coeffs@.len(),
                v@ == coeffs@.subrange(0, i as int),
            decreases coeffs@.len() - i,
        {
            v.push(coeffs[i]);
            assert(v@ =~= coeffs@.subrange(0, (i + 1) as int));
            i = i + 1;
        }
        assert(v@ =~= coeffs@);
        StandardPolynomial { coeffs: v }
    }
}

impl<F: Field, G1: Group<Scalar = F>> Polynomial<F, G1> for StandardPolynomial<F> {
    open spec fn coeffs(&self) -> Seq<F> {
        self.coeff_seq()
    }

    proof fn lemma_coeffs_len(&self) {
        broadcast use vstd::std_specs::vec::axiom_spec_len;

        assert(self.coeffs@.len() == vstd::std_specs::vec::spec_vec_len(&self.coeffs));
    }

    fn get(&self, index: usize) -> (r: Option<F>) {
        if index < self.coeffs.len() {
            Some(self.coeffs[index])
        } else {
            None
        }
    }
}

/// The coordinate folded in round `i` when the coordinates are folded last-first (zero once
/// they run out).
pub open spec fn folded_coordinate<F: Field>(coords: Seq<F>, i: int) -> F {
    if i < coords.len() {
        coords[coords.len() - 1 - i]
    } else {
        F::zero_spec()
    }
}

/// `Π_{i < k} (α_i·(1 − c_i) + c_i)` folded from one, `c_i` the coordinate folded in round `i`.
pub open spec fn fold_eval_spec<F: Field>(coords: Seq<F>, alphas: Seq<F>, k: nat) -> F
    decreases k,
{
    if k == 0 {
        F::one_spec()
    } else {
        let c = folded_coordinate(coords, k - 1);
        fold_eval_spec(coords, alphas, (k - 1) as nat).mul_spec(
            alphas[k - 1].mul_spec(F::one_spec().sub_spec(c)).add_spec(c),
        )
    }
}

/// The single entry left of the evaluation vector of `coords` after it has been folded with
/// `s ← α·s_L + s_R` once per challenge in `alphas` (the last coordinate is folded first):
/// `Π_i (α_i·(1 − c_i) + c_i)`.
pub fn fold_eval_from_coords_and_alphas<F: Field>(coords: &[F], alphas: &[F]) -> (r: F)
    ensures
        r == fold_eval_spec(coords@, alphas@, alphas@.len()),
{
    let one = F::one();
    let zero = F::zero();
    let mut acc = one;
    let mut i: usize = 0;
    while i < alphas.len()
        invariant
            i <= alphas@.len(),
            one == F::one_spec(),
            zero == F::zero_spec(),
            acc == fold_eval_spec(coords@, alphas@, i as nat),
        decreases alphas@.len() - i,
    {
        let c = if i < coords.len() {
            coords[coords.len() - 1 - i]
        } else {
            zero
        };
        let t = alphas[i].mul(&one.sub(&c));
        let term = t.add(&c);
        acc = acc.mul(&term);
        i = i + 1;
    }
    acc
}

} // verus!
