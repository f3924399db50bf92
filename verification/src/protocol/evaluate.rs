//! Contains the utility required to turn Dory arguments into a full-fledged PCS
//! Primarily makes use of the `eval_vmv_re` protocol
use vstd::arithmetic::div_mod::{lemma_div_is_ordered, lemma_fundamental_div_mod_converse};
use vstd::arithmetic::power2::{lemma_pow2_adds, lemma_pow2_strictly_increases, pow2};
use vstd::bits::lemma_usize_pow2_no_overflow;
use vstd::prelude::*;

use crate::error::DoryError;
use crate::messages::VMVMessage;
use crate::primitives::arithmetic::{msm_spec, Field, Group, MultiScalarMul, Pairing};
use crate::primitives::poly::{
    column_sum, compute_left_right_vec, compute_v_vec, left_right_vec_defined, left_right_vecs,
    min_nat, num_rows, pow2_usize, row_commitments, Polynomial,
};
use crate::primitives::transcript::Transcript;
use crate::protocol::builder::{
    empty_builder_view, vmv_absorb, DoryProofBuilder, DoryVerifyBuilder, ProofBuilderView,
    VerifyBuilderView,
};
use crate::protocol::commit::{commit_to_rows, committed_rows};
use crate::protocol::inner_product::{
    inner_product_prove, inner_product_verify, ip_prove_spec, ip_verify_spec,
};
use crate::protocol::setup::{copy_vec, ProverSetup, VerifierSetup};
use crate::protocol::state::{
    initial_verifier_view, DoryProverState, DoryVerifierState, ProverView, VerifierView,
};

verus! {

/* ---------------- vectors ---------------- */

/// Each entry of `s` repeated `times` times in place.
pub open spec fn repeat_each<T>(s: Seq<T>, times: nat) -> Seq<T> {
    Seq::new(s.len() * times, |i: int| s[i / times as int])
}

/// Whether `n` is a power of two.
pub open spec fn is_power_of_two(n: nat) -> bool {
    exists|k: nat| pow2(k) == n
}

/// Each entry of `s` repeated `times` times in place.
pub fn repeat_each_vec<T: Copy>(s: &Vec<T>, times: usize) -> (r: Vec<T>)
    requires
        s@.len() * times <= usize::MAX,
    ensures
        r@ == repeat_each(s@, times as nat),
{
    let mut out: Vec<T> = Vec::new();
    let mut j: usize = 0;
    while j < s.len()
        invariant
            j <= s@.len(),
            s@.len() * times <= usize::MAX,
            out@.len() == j * times,
            forall|i: int| 0 <= i < out@.len() ==> #[trigger] out@[i] == s@[i / times as int],
        decreases s@.len() - j,
    {
        let mut t: usize = 0;
        proof {
            assert((j + 1) * times <= s@.len() * times) by (nonlinear_arith)
                requires
                    j < s@.len(),
            ;
            assert((j + 1) * times == j * times + times) by (nonlinear_arith);
        }
        while t < times
            invariant
                j < s@.len(),
                t <= times,
                j * times + times <= usize::MAX,
                out@.len() == j * times + t,
                forall|i: int| 0 <= i < out@.len() ==> #[trigger] out@[i] == s@[i / times as int],
            decreases times - t,
        {
            proof {
                lemma_fundamental_div_mod_converse(
                    (j * times + t) as int,
                    times as int,
                    j as int,
                    t as int,
                );
            }
            out.push(s[j]);
            t = t + 1;
        }
        proof {
            assert((j + 1) * times == j * times + times) by (nonlinear_arith);
        }
        j = j + 1;
    }
    assert(out@ =~= repeat_each(s@, times as nat));
    out
}

/// A copy of a slice.
fn slice_to_vec<T: Copy>(s: &[T]) -> (r: Vec<T>)
    ensures
        r@ == s@,
{
    let mut r: Vec<T> = Vec::new();
    let mut i: usize = 0;
    while i < s.len()
        invariant
            i <= s@.len(),
            r@ == s@.subrange(0, i as int),
        decreases s@.len() - i,
    {
        r.push(s[i]);
        assert(r@ =~= s@.subrange(0, (i + 1) as int));
        i = i + 1;
    }
    assert(r@ =~= s@);
    r
}

/* ---------------- the prover's side ---------------- */

/// The evaluations of the columns of the matrix: `v = Lᵀ·M` for `coeffs` laid out in rows of
/// `2^sigma` columns, padded with zeros to `2^nu` entries.
pub open spec fn v_vec_spec<F: Field>(coeffs: Seq<F>, l: Seq<F>, sigma: nat, nu: nat) -> Seq<F> {
    Seq::new(
        pow2(nu),
        |c: int|
            if c < pow2(sigma) {
                column_sum(coeffs, l, pow2(sigma), c as nat, min_nat(pow2(nu), l.len()))
            } else {
                F::zero_spec()
            },
    )
}

/// The prover state built from a polynomial, an evaluation point and the row commitments:
/// `v₁ = T'`, `s₁ = R`, `s₂ = L` (the paper has a typo here), `v₂` empty until Eval-VMV-RE
/// computes it, and `ν = d − ⌈d/2⌉` rounds.
pub open spec fn dory_state_from_poly<E: Pairing>(
    point: Seq<<E::G1 as Group>::Scalar>,
    rows: Seq<E::G1>,
) -> ProverView<E> where E::G2: Group<Scalar = <E::G1 as Group>::Scalar> {
    let d = point.len();
    let sigma = (d + 1) / 2;
    let nu = (d - sigma) as nat;
    let lr = left_right_vecs(point, sigma, nu);
    ProverView { v1: rows, v2: Seq::empty(), s1: lr.1, s2: lr.0, nu, v2_scalars: None }
}

/// Build the Dory prover state for an evaluation proof: the vector `v = Lᵀ·M` and the prover
/// state of [`dory_state_from_poly`]. The point must have an even number of coordinates, so
/// that the matrix is square.
pub fn build_dory_prover_state_from_poly<E: Pairing, P: Polynomial<<E::G1 as Group>::Scalar, E::G1>>(
    polynomial: &P,
    point: &[<E::G1 as Group>::Scalar],
    row_commitments: Vec<E::G1>,
) -> (r: (Vec<<E::G1 as Group>::Scalar>, DoryProverState<E>)) where
    E::G2: Group<Scalar = <E::G1 as Group>::Scalar>,

    requires
        point@.len() < usize::BITS,
        point@.len() % 2 == 0,
    ensures
        r.0@ == v_vec_spec(
            polynomial.coeffs(),
            left_right_vecs(point@, point@.len() / 2, point@.len() / 2).0,
            point@.len() / 2,
            point@.len() / 2,
        ),
        r.1@ == dory_state_from_poly::<E>(point@, row_commitments@),
{
    let d = point.len();
    let sigma = (d + 1) / 2;
    let nu = d - sigma;
    proof {
        lemma_pow2_adds(nu as nat, sigma as nat);
        lemma_usize_pow2_no_overflow(d as nat);
    }
    let (l_vec, r_vec) = compute_left_right_vec(point, sigma, nu);
    proof {
        assert(l_vec@.len() == pow2(nu as nat));
    }
    let v_vec = compute_v_vec::<_, E::G1, P>(polynomial, l_vec.as_slice(), sigma, nu);
    assert(v_vec@ =~= v_vec_spec(polynomial.coeffs(), l_vec@, sigma as nat, nu as nat));
    // eval_vmv_re will calculate v2
    let v2: Vec<E::G2> = Vec::new();
    let state = DoryProverState::new(row_commitments, v2, r_vec, l_vec, nu);
    assert(state@ =~= dory_state_from_poly::<E>(point@, row_commitments@));
    (v_vec, state)
}

/// `⟨Γ₁[..|v|], v⟩`, the identity where `v` is empty or longer than `Γ₁`.
pub open spec fn gamma1_v<E: Pairing>(
    setup: ProverSetup<E>,
    v: Seq<<E::G1 as Group>::Scalar>,
) -> E::G1 {
    if v.len() == 0 || setup.g1_vec@.len() < v.len() {
        E::G1::identity_spec()
    } else {
        msm_spec::<E::G1>(setup.g1_vec@.subrange(0, v.len() as int), v, v.len())
    }
}

/// The VMV message: `D₂ = e(⟨Γ₁, v⟩, Γ₂,fin)` and `E₁ = ⟨T', L⟩ = ⟨v₁, s₂⟩`.
pub open spec fn vmv_message_spec<E: Pairing>(
    state: ProverView<E>,
    v: Seq<<E::G1 as Group>::Scalar>,
    setup: ProverSetup<E>,
) -> VMVMessage<E::G1, E::GT> where E::G2: Group<Scalar = <E::G1 as Group>::Scalar> {
    VMVMessage {
        d2: E::pair_spec(gamma1_v::<E>(setup, v), setup.g_fin),
        e1: msm_spec::<E::G1>(state.v1, state.s2, state.v1.len()),
    }
}

/// `[base·v[0], base·v[1], …]`
pub open spec fn scaled_base<G: Group>(base: G, v: Seq<G::Scalar>) -> Seq<G> {
    Seq::new(v.len(), |i: int| base.scale_spec(v[i]))
}

/// The prover state after Eval-VMV-RE: `v₂ = v·Γ₂,fin`, each entry repeated to reach length
/// `2^ν` where `v` is shorter; the first-round scalars are dropped where it was repeated.
pub open spec fn vmv_state_spec<E: Pairing>(
    state: ProverView<E>,
    v: Seq<<E::G1 as Group>::Scalar>,
    setup: ProverSetup<E>,
) -> ProverView<E> where E::G2: Group<Scalar = <E::G1 as Group>::Scalar> {
    let target = pow2(state.nu);
    let base = v.len();
    let v2 = scaled_base::<E::G2>(setup.g_fin, v);
    let v2_expanded = if base > 0 && target > base {
        repeat_each(v2, target / base)
    } else {
        v2
    };
    let expanded = v2_expanded.len() == target && base != target;
    ProverView {
        v2: v2_expanded,
        v2_scalars: if expanded {
            None
        } else {
            state.v2_scalars
        },
        ..state
    }
}

/// Implements the Eval-VMV-RE protocol from Dory Section 5
/// Proves the VMV relation: polynomial(point) = L^T × M × R
///
/// Note: Randomness terms (rD2, rE1) are omitted since we don't need hiding (yet)
fn eval_vmv_re_prove<
    E: Pairing,
    T: Transcript<Scalar = <E::G1 as Group>::Scalar>,
    M1: MultiScalarMul<E::G1>,
    M2: MultiScalarMul<E::G2>,
>(
    proof_builder: DoryProofBuilder<E::G1, E::G2, E::GT, <E::G1 as Group>::Scalar, T>,
    prover_state: DoryProverState<E>,
    v_vec: &[<E::G1 as Group>::Scalar],
    prover_setup: &ProverSetup<E>,
) -> (r: (DoryProofBuilder<E::G1, E::G2, E::GT, <E::G1 as Group>::Scalar, T>, DoryProverState<E>)) where
    E::G2: Group<Scalar = <E::G1 as Group>::Scalar>,
    E::GT: Group<Scalar = <E::G1 as Group>::Scalar>,

    requires
        prover_state.v1@.len() == prover_state.s2@.len(),
        prover_state.nu < usize::BITS,
        v_vec@.len() == 0 || (is_power_of_two(v_vec@.len()) && pow2(prover_state.nu as nat)
            % v_vec@.len() == 0),
    ensures
        ({
            let msg = vmv_message_spec::<E>(prover_state@, v_vec@, *prover_setup);
            r.0@ == (ProofBuilderView {
                vmv_message: Some(msg),
                absorbed: proof_builder@.absorbed + vmv_absorb::<T, E::G1, E::GT>(msg),
                ..proof_builder@
            })
        }),
        r.1@ == vmv_state_spec::<E>(prover_state@, v_vec@, *prover_setup),
{
    let mut prover_state = prover_state;
    // D₂ = e(⟨Γ₁[nu], ~v⟩, Γ₂,fin)
    // Slice Γ₁ by the width of v_vec (2^σ), not by ν. This is robust when σ ≠ ν.
    let gamma1_v_inner_product = if v_vec.len() == 0 || prover_setup.g1_vec().len()
        < v_vec.len() {
        E::G1::identity()
    } else {
        let g1_bases_for_sigma = &prover_setup.g1_vec()[0..v_vec.len()];
        M1::msm(g1_bases_for_sigma, v_vec)
    };
    let d2 = E::pair(&gamma1_v_inner_product, prover_setup.g_fin());
    // E₁ = ⟨T~₀, ~L⟩
    let e1 = M1::msm(prover_state.v1.as_slice(), prover_state.s2.as_slice());
    // Create VMV message for transcript (e2 is calculated by the verifier)
    let vmv_message = VMVMessage { d2, e1 };
    let proof_builder = proof_builder.append_vmv_message(vmv_message);
    // Transform intermediate vector ~v into G2 elements for next phase
    // v₂ = ~v · Γ₂,fin (scalar multiplication in G2)
    let updated_v2 = M2::fixed_base_vector_msm(prover_setup.g_fin(), v_vec);
    assert(updated_v2@ =~= scaled_base::<E::G2>(prover_setup.g_fin, v_vec@));
    // If ν > σ, expand v2 by repeating each entry 2^(ν-σ) times to reach length 2^ν.
    let target_len = pow2_usize(prover_state.nu);
    let base_len = updated_v2.len();
    let v2_expanded = if base_len > 0 && target_len > base_len {
        let repeat = target_len / base_len;
        proof {
            vstd::arithmetic::div_mod::lemma_fundamental_div_mod(
                target_len as int,
                base_len as int,
            );
            assert(base_len * repeat <= target_len) by (nonlinear_arith)
                requires
                    target_len % base_len == 0,
                    target_len == base_len * (target_len / base_len) + target_len % base_len,
                    repeat == target_len / base_len,
            ;
        }
        repeat_each_vec(&updated_v2, repeat)
    } else {
        updated_v2
    };
    // Use expanded v2 and disable scalar shortcut if expansion occurred to avoid length mismatch
    let expanded = v2_expanded.len() == target_len && base_len != target_len;
    prover_state.v2 = v2_expanded;
    if expanded {
        prover_state.v2_scalars = None;
    }
    (proof_builder, prover_state)
}

/// The row commitments used by an evaluation proof: those given, or those of
/// [`commit_to_rows`].
pub open spec fn proof_rows<E: Pairing>(
    coeffs: Seq<<E::G1 as Group>::Scalar>,
    row_commitments: Option<Vec<E::G1>>,
    point: Seq<<E::G1 as Group>::Scalar>,
    setup: ProverSetup<E>,
) -> Seq<E::G1> {
    match row_commitments {
        Some(t) => t@,
        None => committed_rows::<E::G1>(
            setup.g1_vec@,
            coeffs,
            (point.len() + 1) / 2,
            (point.len() - (point.len() + 1) / 2) as nat,
        ),
    }
}

/// The proof built by `create_evaluation_proof` on a transcript that has absorbed `absorbed`:
/// the VMV message, then the inner-product argument on the state of Eval-VMV-RE.
pub open spec fn evaluation_proof_spec<E: Pairing, T: Transcript<Scalar = <E::G1 as Group>::Scalar>>(
    absorbed: Seq<u8>,
    coeffs: Seq<<E::G1 as Group>::Scalar>,
    rows: Seq<E::G1>,
    point: Seq<<E::G1 as Group>::Scalar>,
    setup: ProverSetup<E>,
) -> Result<ProofBuilderView<E::G1, E::G2, E::GT, <E::G1 as Group>::Scalar>, DoryError> where
    E::G2: Group<Scalar = <E::G1 as Group>::Scalar>,
    E::GT: Group<Scalar = <E::G1 as Group>::Scalar>,
 {
    let d = point.len();
    let sigma = (d + 1) / 2;
    let nu = (d - sigma) as nat;
    let s0 = dory_state_from_poly::<E>(point, rows);
    let v = v_vec_spec(coeffs, s0.s2, sigma, nu);
    let msg = vmv_message_spec::<E>(s0, v, setup);
    let b1 = ProofBuilderView {
        vmv_message: Some(msg),
        absorbed: absorbed + vmv_absorb::<T, E::G1, E::GT>(msg),
        ..empty_builder_view::<E::G1, E::G2, E::GT, <E::G1 as Group>::Scalar>(absorbed)
    };
    ip_prove_spec::<E, T>(b1, vmv_state_spec::<E>(s0, v, setup), setup, nu)
}

/// `⌈total / row_len⌉ ≤ rows` where `total ≤ row_len · rows`.
pub(crate) proof fn lemma_num_rows_bound(total: nat, row_len: nat, rows: nat)
    requires
        row_len > 0,
        total <= row_len * rows,
    ensures
        num_rows(total, row_len) <= rows,
{
    lemma_div_is_ordered(
        (total + row_len - 1) as int,
        (row_len * rows + row_len - 1) as int,
        row_len as int,
    );
    assert(row_len * rows + row_len - 1 == rows * row_len + (row_len - 1)) by (nonlinear_arith);
    lemma_fundamental_div_mod_converse(
        (row_len * rows + row_len - 1) as int,
        row_len as int,
        rows as int,
        (row_len - 1) as int,
    );
}

/// Create a new Dory evaluation proof
///
/// The point must have an even number `d` of coordinates, so that the matrix is square with
/// `2^(d/2)` rows and columns; the row commitments, where given, must be one per row; where not
/// given, the polynomial must have at most `2^d` coefficients. The generators must be at least
/// `2^(d/2)` long.
pub fn create_evaluation_proof<
    E: Pairing,
    T: Transcript<Scalar = <E::G1 as Group>::Scalar>,
    M1: MultiScalarMul<E::G1>,
    M2: MultiScalarMul<E::G2>,
    P: Polynomial<<E::G1 as Group>::Scalar, E::G1>,
>(
    initial_transcript: T,  // DoryProofBuilder takes ownership of the transcript
    polynomial: &P,
    row_commitments: Option<Vec<E::G1>>,
    point: &[<E::G1 as Group>::Scalar],
    prover_setup: &ProverSetup<E>,
) -> (r: Result<DoryProofBuilder<E::G1, E::G2, E::GT, <E::G1 as Group>::Scalar, T>, DoryError>) where
    E::G2: Group<Scalar = <E::G1 as Group>::Scalar>,
    E::GT: Group<Scalar = <E::G1 as Group>::Scalar>,

    requires
        point@.len() < usize::BITS,
        point@.len() % 2 == 0,
        prover_setup.g1_vec@.len() >= pow2(point@.len() / 2),
        prover_setup.g2_vec@.len() >= pow2(point@.len() / 2),
        row_commitments matches Some(t) ==> t@.len() == pow2(point@.len() / 2),
        row_commitments is None ==> polynomial.coeffs().len() <= pow2(point@.len() as nat),
    ensures
        match evaluation_proof_spec::<E, T>(
            initial_transcript.absorbed(),
            polynomial.coeffs(),
            proof_rows::<E>(polynomial.coeffs(), row_commitments, point@, *prover_setup),
            point@,
            *prover_setup,
        ) {
            Ok(v) => r matches Ok(b) && b@ == v,
            Err(e) => r matches Err(e2) && e2 == e,
        },
{
    // 1. Set σ = (d + 1) / 2 and ν = d - σ
    let d = point.len();
    let sigma = (d + 1) / 2;
    let nu = d - sigma;
    proof {
        lemma_pow2_adds(nu as nat, sigma as nat);
        lemma_usize_pow2_no_overflow(d as nat);
        vstd::arithmetic::power2::lemma_pow2_pos(nu as nat);
        vstd::arithmetic::power2::lemma_pow2_pos(sigma as nat);
    }
    // 2. Compute row commits (T` in the paper?)
    let ghost coeffs = polynomial.coeffs();
    let t_vec_prime = match row_commitments {
        Some(t) => t,
        None => {
            proof {
                assert(d + 1 < usize::BITS);
                lemma_usize_pow2_no_overflow((d + 1) as nat);
                vstd::arithmetic::power2::lemma_pow2_unfold((d + 1) as nat);
                if sigma < d {
                    lemma_pow2_strictly_increases(sigma as nat, d as nat);
                }
                assert(coeffs.len() + pow2(sigma as nat) <= usize::MAX);
            }
            let rows = commit_to_rows::<E, M1, P>(polynomial, sigma, nu, prover_setup);
            proof {
                lemma_num_rows_bound(coeffs.len(), pow2(sigma as nat), pow2(nu as nat));
            }
            rows
        },
    };
    assert(t_vec_prime@.len() == pow2(nu as nat));
    // 3. Build prover state directly
    let (v_vec, prover_state) = build_dory_prover_state_from_poly::<E, P>(
        polynomial,
        point,
        t_vec_prime,
    );
    // 4. Initialize the DoryProofBuilder
    let proof_builder = DoryProofBuilder::new(initial_transcript);
    // 5. Initial commitments
    proof {
        assert(pow2(nu as nat) == v_vec@.len());
        assert(is_power_of_two(v_vec@.len()));
        vstd::arithmetic::div_mod::lemma_mod_self_0(v_vec@.len() as int);
    }
    let (final_proof_builder, proof_state) = eval_vmv_re_prove::<E, T, M1, M2>(
        proof_builder,
        prover_state,
        v_vec.as_slice(),
        prover_setup,
    );
    proof {
        assert(proof_state@.v2 =~= scaled_base::<E::G2>(prover_setup.g_fin, v_vec@));
    }
    // prove!
    inner_product_prove::<E, T, M1, M2>(final_proof_builder, proof_state, prover_setup, nu)
}

/* ---------------- the verifier's side ---------------- */

/// `Σ_{i < n} e[i]·f[i]`, folded from zero.
pub open spec fn weighted_sum<F: Field>(e: Seq<F>, f: Seq<F>, n: nat) -> F
    decreases n,
{
    if n == 0 {
        F::zero_spec()
    } else {
        weighted_sum(e, f, (n - 1) as nat).add_spec(e[n - 1].mul_spec(f[n - 1]))
    }
}

/// A weighted sum reads only the first `n` pairs.
proof fn lemma_weighted_sum_prefix<F: Field>(e: Seq<F>, f: Seq<F>, e2: Seq<F>, f2: Seq<F>, n: nat)
    requires
        forall|i: int| 0 <= i < n ==> #[trigger] e[i] == e2[i] && f[i] == f2[i],
    ensures
        weighted_sum(e, f, n) == weighted_sum(e2, f2, n),
    decreases n,
{
    if n > 0 {
        lemma_weighted_sum_prefix(e, f, e2, f2, (n - 1) as nat);
        assert(e[n - 1] == e2[n - 1] && f[n - 1] == f2[n - 1]);
    }
}

/// A weighted sum is well formed.
pub proof fn lemma_weighted_sum_wf<F: Field>(e: Seq<F>, f: Seq<F>, n: nat)
    ensures
        weighted_sum(e, f, n).wf_spec(),
{
    if n == 0 {
        F::lemma_ops_wf(F::zero_spec(), F::zero_spec());
    } else {
        F::lemma_ops_wf(weighted_sum(e, f, (n - 1) as nat), e[n - 1].mul_spec(f[n - 1]));
    }
}

/// Batching is additive: the weighted sum of a batch made of two batches, evaluations with
/// evaluations and factors with factors, is the sum of their weighted sums.
pub proof fn lemma_weighted_sum_append<F: Field>(e1: Seq<F>, f1: Seq<F>, e2: Seq<F>, f2: Seq<F>, n2: nat)
    requires
        e1.len() == f1.len(),
        n2 <= e2.len(),
        n2 <= f2.len(),
    ensures
        weighted_sum(e1 + e2, f1 + f2, e1.len() + n2) == weighted_sum(e1, f1, e1.len()).add_spec(
            weighted_sum(e2, f2, n2),
        ),
    decreases n2,
{
    let n1 = e1.len();
    if n2 == 0 {
        lemma_weighted_sum_prefix(e1 + e2, f1 + f2, e1, f1, n1);
        lemma_weighted_sum_wf(e1, f1, n1);
        F::lemma_add_zero(weighted_sum(e1, f1, n1));
    } else {
        lemma_weighted_sum_append(e1, f1, e2, f2, (n2 - 1) as nat);
        assert((e1 + e2)[n1 + n2 - 1] == e2[n2 - 1]);
        assert((f1 + f2)[n1 + n2 - 1] == f2[n2 - 1]);
        assert((n1 + n2 - 1) as nat == n1 + (n2 - 1) as nat);
        F::lemma_add_assoc(
            weighted_sum(e1, f1, n1),
            weighted_sum(e2, f2, (n2 - 1) as nat),
            e2[n2 - 1].mul_spec(f2[n2 - 1]),
        );
    }
}

/// The product of evaluations and batching factors, over the pairs that both have.
fn batched_evaluation<F: Field>(evaluations: &[F], batching_factors: &[F]) -> (r: F)
    ensures
        r == weighted_sum(
            evaluations@,
            batching_factors@,
            min_nat(evaluations@.len(), batching_factors@.len()),
        ),
{
    let n = if evaluations.len() < batching_factors.len() {
        evaluations.len()
    } else {
        batching_factors.len()
    };
    let mut acc = F::zero();
    let mut i: usize = 0;
    while i < n
        invariant
            i <= n,
            n == min_nat(evaluations@.len(), batching_factors@.len()),
            acc == weighted_sum(evaluations@, batching_factors@, i as nat),
        decreases n - i,
    {
        let t = evaluations[i].mul(&batching_factors[i]);
        acc = acc.add(&t);
        i = i + 1;
    }
    acc
}

/// Verifier analogue of `eval_vmv_re` protocol in the paper: absorbs the VMV message and builds
/// the verifier state with `D₁ = T`, `D₂`, `E₁` from the message and `E₂ = y·Γ₂,fin`.
fn eval_vmv_re_verify<E: Pairing, T: Transcript<Scalar = <E::G1 as Group>::Scalar>>(
    verify_builder: DoryVerifyBuilder<E::G1, E::G2, E::GT, <E::G1 as Group>::Scalar, T>,
    y: <E::G1 as Group>::Scalar,
    b_points: &[<E::G1 as Group>::Scalar],
    t: E::GT,
    verifier_setup: &VerifierSetup<E>,
) -> (r: (DoryVerifyBuilder<E::G1, E::G2, E::GT, <E::G1 as Group>::Scalar, T>, DoryVerifierState<E>)) where
    E::G2: Group<Scalar = <E::G1 as Group>::Scalar>,
    E::GT: Group<Scalar = <E::G1 as Group>::Scalar>,

    requires
        verify_builder@.vmv_msg is Some,
    ensures
        ({
            let vmv = verify_builder@.vmv_msg->0;
            &&& r.0@ == (VerifyBuilderView {
                absorbed: verify_builder@.absorbed + vmv_absorb::<T, E::G1, E::GT>(vmv),
                ..verify_builder@
            })
            &&& r.1@ == initial_verifier_view::<E>(
                t,
                vmv.d2,
                vmv.e1,
                verifier_setup.g_fin.scale_spec(y),
                b_points@,
            )
        }),
{
    let mut verify_builder = verify_builder;
    let vmv_message = verify_builder.process_vmv_message();
    // Messages from prover
    let d_2 = vmv_message.d2;
    let e_1 = vmv_message.e1;
    // Construct verifier state directly
    let d_1 = t;
    let e_2 = verifier_setup.g_fin.scale(&y);
    let final_verifier_state = DoryVerifierState::new(d_1, d_2, e_1, e_2, slice_to_vec(b_points));
    (verify_builder, final_verifier_state)
}

/// The outcome of `verify_evaluation_proof`, before errors are mapped to `InvalidProof`: the
/// inner-product verification of the proof, from the state that Eval-VMV-RE builds out of the
/// batched commitment `Σ cᵢ·fᵢ`, the batched evaluation `Σ yᵢ·fᵢ` and the VMV message, over a
/// transcript that has absorbed `absorbed` and then the VMV message.
pub open spec fn verify_evaluation_spec<E: Pairing, T: Transcript<Scalar = <E::G1 as Group>::Scalar>>(
    proof: ProofBuilderView<E::G1, E::G2, E::GT, <E::G1 as Group>::Scalar>,
    commitment_batch: Seq<E::GT>,
    batching_factors: Seq<<E::G1 as Group>::Scalar>,
    evaluations: Seq<<E::G1 as Group>::Scalar>,
    b_points: Seq<<E::G1 as Group>::Scalar>,
    verifier_setup: VerifierSetup<E>,
    absorbed: Seq<u8>,
) -> Result<(), nat> where
    E::G2: Group<Scalar = <E::G1 as Group>::Scalar>,
    E::GT: Group<Scalar = <E::G1 as Group>::Scalar>,
 {
    let a_commit = msm_spec::<E::GT>(commitment_batch, batching_factors, commitment_batch.len());
    let y = weighted_sum(
        evaluations,
        batching_factors,
        min_nat(evaluations.len(), batching_factors.len()),
    );
    let vmv = proof.vmv_message->0;
    let v0 = initial_verifier_view::<E>(
        a_commit,
        vmv.d2,
        vmv.e1,
        verifier_setup.g_fin.scale_spec(y),
        b_points,
    );
    let bv = VerifyBuilderView {
        first_messages: proof.first_messages,
        second_messages: proof.second_messages,
        scalar_msg: proof.final_message->0,
        vmv_msg: proof.vmv_message,
        final_bases: proof.final_bases,
        absorbed: absorbed + vmv_absorb::<T, E::G1, E::GT>(vmv),
    };
    ip_verify_spec::<E, T>(v0, verifier_setup, bv, (b_points.len() - (b_points.len() + 1) / 2) as nat)
}

/// Verify a dory evaluation proof
///
/// The proof must carry the scalar-product and VMV messages and one message of each kind per
/// round; the point must have an even number of coordinates and the setup must hold Δ values
/// for its rounds. Any failure of the inner-product verification is reported as
/// `InvalidProof`.
pub fn verify_evaluation_proof<
    E: Pairing,
    T: Transcript<Scalar = <E::G1 as Group>::Scalar>,
    M1: MultiScalarMul<E::G1>,
    M2: MultiScalarMul<E::G2>,
    MGT: MultiScalarMul<E::GT>,
>(
    proof: DoryProofBuilder<E::G1, E::G2, E::GT, <E::G1 as Group>::Scalar, T>,
    commitment_batch: &[E::GT],
    batching_factors: &[<E::G1 as Group>::Scalar],
    evaluations: &[<E::G1 as Group>::Scalar],
    b_points: &[<E::G1 as Group>::Scalar],
    verifier_setup: &VerifierSetup<E>,
    transcript: T,
) -> (r: Result<(), DoryError>) where
    E::G2: Group<Scalar = <E::G1 as Group>::Scalar>,
    E::GT: Group<Scalar = <E::G1 as Group>::Scalar>,

    requires
        commitment_batch@.len() == batching_factors@.len(),
        proof.final_message is Some,
        proof.vmv_message is Some,
        b_points@.len() % 2 == 0,
        b_points@.len() / 2 <= proof.first_messages@.len(),
        b_points@.len() / 2 <= proof.second_messages@.len(),
        b_points@.len() / 2 < verifier_setup.delta_1l@.len(),
        b_points@.len() / 2 < verifier_setup.delta_1r@.len(),
        b_points@.len() / 2 < verifier_setup.delta_2l@.len(),
        b_points@.len() / 2 < verifier_setup.delta_2r@.len(),
    ensures
        match verify_evaluation_spec::<E, T>(
            proof@,
            commitment_batch@,
            batching_factors@,
            evaluations@,
            b_points@,
            *verifier_setup,
            transcript.absorbed(),
        ) {
            Ok(_) => r is Ok,
            Err(_) => r == Err::<(), DoryError>(DoryError::InvalidProof),
        },
{
    // 1. Compute the MSM of commits and the factors
    let a_commit = MGT::msm(commitment_batch, batching_factors);
    // 2. Compute the product of evaluations and batching factors (batching factors should be 1)
    let product = batched_evaluation(evaluations, batching_factors);
    // 3. Set σ = (d + 1) / 2 and ν = d - σ
    let d = b_points.len();
    let sigma = (d + 1) / 2;
    let nu = d - sigma;
    // 4. Create verifier builder from proof
    let verify_builder = DoryVerifyBuilder::new_from_proof(proof, transcript);
    // 5. Eval VMV re verifier side (construct verifier state directly)
    let (verify_builder, verifier_state) = eval_vmv_re_verify::<E, T>(
        verify_builder,
        product,
        b_points,
        a_commit,
        verifier_setup,
    );
    // 6. Dory inner product verify
    match inner_product_verify(verify_builder, verifier_state, verifier_setup, nu) {
        Ok(()) => Ok(()),
        Err(_) => Err(DoryError::InvalidProof),
    }
}

} // verus!
