//! Utilities related to the VMV commitment strategy for multilinear polynomials
//! Defines VMV states for both provers, verifiers
use vstd::arithmetic::power2::{lemma_pow2_adds, pow2};
use vstd::bits::lemma_usize_pow2_no_overflow;
use vstd::prelude::*;

use crate::primitives::arithmetic::{Group, Pairing};
use crate::primitives::poly::{
    compute_left_right_vec, compute_v_vec, left_right_vecs, pow2_usize, Polynomial,
};
use crate::protocol::evaluate::{is_power_of_two, repeat_each, repeat_each_vec, v_vec_spec};
use crate::protocol::setup::ProverSetup;
use crate::protocol::state::{DoryProverState, ProverView};

pub use crate::protocol::commit::commit_to_rows;

verus! {

/// Prover structure for computing commitment by VMV
pub struct VMVProverState<E: Pairing> where E::G2: Group<Scalar = <E::G1 as Group>::Scalar> {
    /// Evaluations of the columns of the matrix. That is, v = L^T * M.
    /// v[j] = <L, M[_, j]> = sum_{i=0}^{2^nu} L[i] M[i,j], where nu = floor(d / 2)
    pub(crate) v_vec: Vec<<E::G1 as Group>::Scalar>,
    /// Commitments to the rows of the matrix.
    /// `T_vec_prime[i] = <M[i, _], Gamma_1[nu]> = sum_{j=0}^{2^nu} M[i,j] Gamma_1[nu][j]`.
    pub(crate) t_vec_prime: Vec<E::G1>,
    /// The left vector, L of LMR.
    pub(crate) l_vec: Vec<<E::G1 as Group>::Scalar>,
    /// The right vector, R of LMR.
    pub(crate) r_vec: Vec<<E::G1 as Group>::Scalar>,
}

/// The contents of a [`VMVProverState`].
pub struct VMVProverView<E: Pairing> where E::G2: Group<Scalar = <E::G1 as Group>::Scalar> {
    pub v_vec: Seq<<E::G1 as Group>::Scalar>,
    pub t_vec_prime: Seq<E::G1>,
    pub l_vec: Seq<<E::G1 as Group>::Scalar>,
    pub r_vec: Seq<<E::G1 as Group>::Scalar>,
}

impl<E: Pairing> View for VMVProverState<E> where
    E::G2: Group<Scalar = <E::G1 as Group>::Scalar>,
 {
    type V = VMVProverView<E>;

    closed spec fn view(&self) -> VMVProverView<E> {
        VMVProverView {
            v_vec: self.v_vec@,
            t_vec_prime: self.t_vec_prime@,
            l_vec: self.l_vec@,
            r_vec: self.r_vec@,
        }
    }
}

/// Verifier analogue of VMVProverState
pub struct VMVVerifierState<E: Pairing> where E::G2: Group<Scalar = <E::G1 as Group>::Scalar> {
    /// The evaluation of the matrix. That is, y = LMR.
    pub(crate) y: <E::G1 as Group>::Scalar,
    /// The commitment to the entire matrix. That is, `T = <T_vec_prime, Gamma_2[nu]>`.
    pub(crate) t: E::GT,
    /// The evaluation point.
    pub(crate) eval_point: Vec<<E::G1 as Group>::Scalar>,
}

/// Compute the size of the matrix M that is derived from the coefficients
/// 2^nu is the side length of M: with at most `2 sigma` variables the matrix is square
/// (`ν = σ`); otherwise the columns are capped at `2^σ` and the remaining variables go to the
/// rows. Either way the matrix holds all `2^num_vars` coefficients.
pub fn compute_nu(num_vars: usize, sigma: usize) -> (r: usize)
    requires
        sigma * 2 <= usize::MAX,
    ensures
        r == if num_vars <= sigma * 2 {
            sigma as int
        } else {
            num_vars - sigma
        },
        r >= sigma,
        r + sigma >= num_vars,
{
    if num_vars <= sigma * 2 {
        // No padding needed: prefer square (ν = σ)
        sigma
    } else {
        // Padding needed: columns capped at 2^σ, remaining variables go to rows
        num_vars - sigma
    }
}

/// Build the prover state for the VMV protocol: `L`, `R` for the point, `v = Lᵀ·M` and the
/// row commitments. The point must have an even number of coordinates, so that the matrix is
/// square.
pub fn build_vmv_prover_state<E: Pairing, P: Polynomial<<E::G1 as Group>::Scalar, E::G1>>(
    polynomial: &P,  // Multilinear polynomial coefficients
    b_point: &[<E::G1 as Group>::Scalar],  // Evaluation point ( $v \in \mathbb{R}^d) for d variables
    row_commitments: Vec<E::G1>,
) -> (r: VMVProverState<E>) where E::G2: Group<Scalar = <E::G1 as Group>::Scalar>
    requires
        b_point@.len() < usize::BITS,
        b_point@.len() % 2 == 0,
    ensures
        ({
            let k = b_point@.len() / 2;
            let lr = left_right_vecs(b_point@, k, k);
            r@ == VMVProverView::<E> {
                v_vec: v_vec_spec(polynomial.coeffs(), lr.0, k, k),
                t_vec_prime: row_commitments@,
                l_vec: lr.0,
                r_vec: lr.1,
            }
        }),
{
    let sigma = (b_point.len() + 1) / 2;
    let nu = b_point.len() - sigma;
    proof {
        lemma_pow2_adds(nu as nat, sigma as nat);
        lemma_usize_pow2_no_overflow(b_point@.len() as nat);
    }
    let (l_vec, r_vec) = compute_left_right_vec(b_point, sigma, nu);
    let v_vec = compute_v_vec::<_, E::G1, P>(polynomial, l_vec.as_slice(), sigma, nu);
    assert(v_vec@ =~= v_vec_spec(polynomial.coeffs(), l_vec@, sigma as nat, nu as nat));
    VMVProverState { v_vec, t_vec_prime: row_commitments, l_vec, r_vec }
}

/// The first `n` entries of `s`.
fn take_prefix<T: Copy>(s: &Vec<T>, n: usize) -> (r: Vec<T>)
    requires
        n <= s@.len(),
    ensures
        r@ == s@.subrange(0, n as int),
{
    let mut r: Vec<T> = Vec::new();
    let mut i: usize = 0;
    while i < n
        invariant
            i <= n <= s@.len(),
            r@ == s@.subrange(0, i as int),
        decreases n - i,
    {
        r.push(s[i]);
        assert(r@ =~= s@.subrange(0, (i + 1) as int));
        i = i + 1;
    }
    r
}

/// `R` brought to length `target`: unchanged at that length, each entry repeated where
/// shorter, truncated where longer.
pub open spec fn fit_to_length<T>(r: Seq<T>, target: nat) -> Seq<T> {
    if r.len() == target {
        r
    } else if r.len() < target {
        repeat_each(r, target / r.len())
    } else {
        r.subrange(0, target as int)
    }
}

/// A power of two that fits in a machine word has an exponent below the word size.
proof fn lemma_exponent_below_bits(e: nat)
    requires
        pow2(e) <= usize::MAX,
    ensures
        e < usize::BITS,
{
    vstd::arithmetic::power2::lemma2_to64();
    if e >= usize::BITS {
        let b: nat = usize::BITS as nat;
        if e > b {
            vstd::arithmetic::power2::lemma_pow2_strictly_increases(b, e);
        }
        assert(pow2(b) > usize::MAX);
    }
}

/// `⌊log₂ n⌋` for `n ≥ 1`: the `ν` with `2^ν ≤ n < 2^(ν+1)`.
fn floor_log2(n: usize) -> (r: usize)
    requires
        n >= 1,
    ensures
        pow2(r as nat) <= n < pow2((r + 1) as nat),
        r < usize::BITS,
{
    let mut p: usize = 1;
    let mut nu: usize = 0;
    proof {
        vstd::arithmetic::power2::lemma2_to64();
    }
    while p <= n / 2
        invariant
            p == pow2(nu as nat),
            0 < p <= n,
            nu < usize::BITS,
        decreases n - p,
    {
        proof {
            vstd::arithmetic::power2::lemma_pow2_unfold((nu + 1) as nat);
            lemma_exponent_below_bits((nu + 1) as nat);
        }
        p = p * 2;
        nu = nu + 1;
    }
    proof {
        vstd::arithmetic::power2::lemma_pow2_unfold((nu + 1) as nat);
    }
    nu
}

/// Convert a VMVProverState to a ProverState: `v₁ = T'`, `s₁ = R` brought to length `2^ν`
/// (each entry repeated `2^(ν−σ)` times in place), `s₂ = L`, and `v₂` empty until Eval-VMV-RE
/// computes it. The number of rounds `ν` is `log₂|L|` (rounded down; zero for an empty `L`).
pub fn vmv_state_to_dory_prover_state<E: Pairing>(
    vmv_state: VMVProverState<E>,
    _prover_setup: &ProverSetup<E>,
) -> (r: (Vec<<E::G1 as Group>::Scalar>, DoryProverState<E>)) where
    E::G2: Group<Scalar = <E::G1 as Group>::Scalar>,

    requires
        is_power_of_two(vmv_state@.r_vec.len()),
    ensures
        r.0@ == vmv_state@.v_vec,
        vmv_state@.l_vec.len() == 0 ==> r.1@.nu == 0,
        vmv_state@.l_vec.len() > 0 ==> pow2(r.1@.nu) <= vmv_state@.l_vec.len() < pow2(
            r.1@.nu + 1,
        ),
        r.1@ == (ProverView::<E> {
            v1: vmv_state@.t_vec_prime,
            v2: Seq::empty(),
            s1: fit_to_length(vmv_state@.r_vec, pow2(r.1@.nu)),
            s2: vmv_state@.l_vec,
            nu: r.1@.nu,
            v2_scalars: None,
        }),
{
    let nu = if vmv_state.l_vec.len() == 0 {
        0
    } else {
        floor_log2(vmv_state.l_vec.len())
    };
    // Extract values from VMV state
    // Note: the paper has a typo and we want to actually set s1 = R, s2 = L (as we do below)
    let v_vec = vmv_state.v_vec;
    let r_vec = vmv_state.r_vec;
    let s2 = vmv_state.l_vec;  // length 2^nu
    let v1 = vmv_state.t_vec_prime;  // row commitments
    // Ensure s1 has length 2^nu by expanding r_vec (length 2^sigma) with block repetition
    proof {
        vstd::arithmetic::power2::lemma2_to64();
    }
    let target_len = pow2_usize(nu);
    let s1 = if r_vec.len() == target_len {
        r_vec
    } else if r_vec.len() < target_len {
        proof {
            let tl = target_len as int;
            let rl = r_vec@.len() as int;
            let k = choose|k: nat| pow2(k) == r_vec@.len();
            vstd::arithmetic::power2::lemma_pow2_pos(k);
            assert(rl > 0);
            vstd::arithmetic::div_mod::lemma_fundamental_div_mod(tl, rl);
            vstd::arithmetic::div_mod::lemma_mod_pos_bound(tl, rl);
            assert(rl * (tl / rl) <= tl) by (nonlinear_arith)
                requires
                    tl == rl * (tl / rl) + tl % rl,
                    tl % rl >= 0,
            ;
        }
        let repeat = target_len / r_vec.len();
        repeat_each_vec(&r_vec, repeat)
    } else {
        // Only where R is longer than 2^ν: truncate to that length
        take_prefix(&r_vec, target_len)
    };
    // eval_vmv_re will calculate v2
    let v2: Vec<E::G2> = Vec::new();
    // Create the ProverState
    let state = DoryProverState::new(v1, v2, s1, s2, nu);
    (v_vec, state)
}

} // verus!
