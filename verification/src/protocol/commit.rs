//! Multilinear polynomial commitmnets as a matrix
use vstd::arithmetic::power2::pow2;
use vstd::prelude::*;

use crate::primitives::arithmetic::{msm_spec, Field, Group, MultiScalarMul, Pairing};
use crate::primitives::poly::{num_rows, pow2_usize, row_commitments, row_of, Polynomial};
use crate::primitives::sums::{
    lemma_msm_is_sum, lemma_pairing_sum_is_sum, lemma_sum_add, lemma_sum_congruent, sum_of,
};
use crate::protocol::setup::{inner_pairing, ProverSetup};

verus! {

/// `s` extended with the identity up to length `n` (unchanged if it is already that long).
pub open spec fn padded_with_identity<G: Group>(s: Seq<G>, n: nat) -> Seq<G> {
    if s.len() >= n {
        s
    } else {
        s + Seq::new((n - s.len()) as nat, |i: int| G::identity_spec())
    }
}

/// The row commitments `T'` of `coeffs` laid out in rows of `2^sigma` columns, under
/// `Γ₁[..2^sigma]`, padded with the identity to `2^nu` rows.
pub open spec fn committed_rows<G: Group>(
    g1: Seq<G>,
    coeffs: Seq<G::Scalar>,
    sigma: nat,
    nu: nat,
) -> Seq<G> {
    padded_with_identity(
        row_commitments::<G>(g1.subrange(0, pow2(sigma) as int), coeffs, pow2(sigma)),
        pow2(nu),
    )
}

/// Dory's 2-tier homomorphic commitment to multilinear polynomial arranged as matrix
/// Tier 1: Row commitments in G1, Tier 2: Multi-pairing to GT
/// See page 12 of the paper.
///
/// The rows have `2^sigma` columns and are committed under `Γ₁[..2^sigma]`; the commitment is
/// the multi-pairing of the row commitments with `Γ₂` from row `offset / 2^sigma` on.
/// Returns the commitment and the row commitments, which come in handy for the opening proof.
pub fn compute_polynomial_commitment<
    E: Pairing,
    M1: MultiScalarMul<E::G1>,
    P: Polynomial<<E::G1 as Group>::Scalar, E::G1>,
>(
    poly: &P,  // Polynomial
    offset: usize,  // Starting position in matrix
    sigma: usize,  // log₂(matrix_width)
    prover_setup: &ProverSetup<E>,
) -> (r: (E::GT, Vec<E::G1>))
    requires
        sigma < usize::BITS,
        pow2(sigma as nat) <= prover_setup.g1_vec@.len(),
        poly.coeffs().len() + pow2(sigma as nat) <= usize::MAX,
        (offset as nat) / pow2(sigma as nat) + row_commitments::<E::G1>(
            prover_setup.g1_vec@.subrange(0, pow2(sigma as nat) as int),
            poly.coeffs(),
            pow2(sigma as nat),
        ).len() <= prover_setup.g2_vec@.len(),
    ensures
        r.1@ == row_commitments::<E::G1>(
            prover_setup.g1_vec@.subrange(0, pow2(sigma as nat) as int),
            poly.coeffs(),
            pow2(sigma as nat),
        ),
        r.0 == inner_pairing::<E>(
            r.1@,
            prover_setup.g2_vec@.subrange(
                ((offset as nat) / pow2(sigma as nat)) as int,
                ((offset as nat) / pow2(sigma as nat) + r.1@.len()) as int,
            ),
            r.1@.len(),
        ),
{
    let num_columns = pow2_usize(sigma);
    let rows_offset = offset / num_columns;  // Row start position
    let row_len = num_columns;
    let gens = &prover_setup.g1_vec()[0..row_len];
    assert(gens@ == prover_setup.g1_vec@.subrange(0, pow2(sigma as nat) as int));
    let row_commitments = poly.commit_rows::<M1>(gens, row_len);
    assert(rows_offset == (offset as nat) / pow2(sigma as nat));
    let _g2_len = prover_setup.g2_vec.len();
    // --- TIER 2: Multi-pairing to combine row commitments ---
    let g2_elements = &prover_setup.g2_vec()[rows_offset..rows_offset + row_commitments.len()];
    let commitment = E::multi_pair(row_commitments.as_slice(), g2_elements);
    // Return `row_commitments` because they will come in handy for the opening proof
    (commitment, row_commitments)
}

/// Compute the size split (ν, σ) from variable count and chosen σ
/// 2^ν is the number of rows; 2^σ the number of columns.
/// The split is symmetric: σ must be `⌈d/2⌉`, and ν is `⌊d/2⌋`.
pub fn compute_nu(num_vars: usize, sigma: usize) -> (r: usize)
    requires
        num_vars < usize::MAX,
        sigma == (num_vars + 1) / 2,
    ensures
        r == num_vars / 2,
        r + sigma == num_vars,
        r <= sigma <= r + 1,
{
    // Enforce symmetric split: sigma = ceil(d/2), nu = floor(d/2)
    let d = num_vars;
    let enforced_nu = d / 2;  // floor(d/2)
    enforced_nu
}

/// Compute the (Pedersen) commitments to the rows of the matrix M that is derived from coeffs `a`.
/// This produces T` in the paper: rows of `2^sigma` columns committed under `Γ₁[..2^sigma]`,
/// padded with the identity to at least `2^nu` rows.
pub fn commit_to_rows<E: Pairing, M1: MultiScalarMul<E::G1>, P: Polynomial<
    <E::G1 as Group>::Scalar,
    E::G1,
>>(polynomial: &P, sigma: usize, nu: usize, prover_setup: &ProverSetup<E>) -> (r: Vec<E::G1>)
    requires
        sigma < usize::BITS,
        nu < usize::BITS,
        pow2(sigma as nat) <= prover_setup.g1_vec@.len(),
        polynomial.coeffs().len() + pow2(sigma as nat) <= usize::MAX,
    ensures
        r@ == committed_rows::<E::G1>(
            prover_setup.g1_vec@,
            polynomial.coeffs(),
            sigma as nat,
            nu as nat,
        ),
{
    // Use Γ₁[σ] as bases to commit each row of length 2^σ
    let row_len = pow2_usize(sigma);
    let bases = &prover_setup.g1_vec()[0..row_len];
    let mut res = polynomial.commit_rows::<M1>(bases, row_len);
    let ghost rows = res@;
    // Pad with identity elements if needed
    let target = pow2_usize(nu);
    while res.len() < target
        invariant
            target == pow2(nu as nat),
            rows.len() <= res@.len() <= target || (res@.len() == rows.len() && rows.len() >= target),
            res@.subrange(0, rows.len() as int) == rows,
            forall|i: int| rows.len() <= i < res@.len() ==> #[trigger] res@[i] == E::G1::identity_spec(),
        decreases target - res@.len(),
    {
        res.push(E::G1::identity());
        assert(res@.subrange(0, rows.len() as int) =~= rows);
    }
    assert(res@ =~= padded_with_identity(rows, pow2(nu as nat)));
    res
}

/// Row `j` of `len` coefficients in rows of `w` starts inside them exactly when `j` is below
/// the number of rows.
pub(crate) proof fn lemma_row_starts_inside(len: nat, w: nat, j: nat)
    requires
        w > 0,
    ensures
        j < num_rows(len, w) <==> j * w < len,
{
    let x = (len + w - 1) as int;
    vstd::arithmetic::div_mod::lemma_fundamental_div_mod(x, w as int);
    vstd::arithmetic::div_mod::lemma_mod_pos_bound(x, w as int);
    let q = x / (w as int);
    let r = x % (w as int);
    assert(num_rows(len, w) == q);
    assert(j < q <==> j * w < len) by (nonlinear_arith)
        requires
            w > 0,
            x == w * q + r,
            0 <= r < w,
            x == len + w - 1,
    ;
}

/// An MSM is additive in its scalars: with `s[i] = s₁[i] + s₂[i]` below `n`,
/// `⟨b, s⟩ == ⟨b, s₁⟩ + ⟨b, s₂⟩`.
proof fn lemma_msm_additive<G: Group>(
    bases: Seq<G>,
    s: Seq<G::Scalar>,
    s1: Seq<G::Scalar>,
    s2: Seq<G::Scalar>,
    n: nat,
)
    requires
        forall|i: int| 0 <= i < n ==> #[trigger] s[i] == s1[i].add_spec(s2[i]),
    ensures
        msm_spec::<G>(bases, s, n) == msm_spec::<G>(bases, s1, n).add_spec(
            msm_spec::<G>(bases, s2, n),
        ),
{
    let t1 = |i: int| bases[i].scale_spec(s1[i]);
    let t2 = |i: int| bases[i].scale_spec(s2[i]);
    lemma_msm_is_sum(bases, s, n);
    lemma_msm_is_sum(bases, s1, n);
    lemma_msm_is_sum(bases, s2, n);
    lemma_sum_add(t1, t2, n);
    assert forall|i: int| 0 <= i < n implies #[trigger] bases[i].scale_spec(s[i]) == t1(i).add_spec(
        t2(i),
    ) by {
        G::lemma_scale_field_add(bases[i], s1[i], s2[i]);
    }
    lemma_sum_congruent(|i: int| bases[i].scale_spec(s[i]), |i: int| t1(i).add_spec(t2(i)), n);
}

/// The commitment is additive in the polynomial: for coefficient sequences `p`, `q` and `r` of
/// one length with `r[i] = p[i] + q[i]`, each row commitment of `r` is the sum of those of `p`
/// and `q`, and so is the multi-pairing of the rows with `Γ₂`.
pub proof fn lemma_commitment_additive<E: Pairing>(
    gens: Seq<E::G1>,
    g2: Seq<E::G2>,
    p: Seq<<E::G1 as Group>::Scalar>,
    q: Seq<<E::G1 as Group>::Scalar>,
    r: Seq<<E::G1 as Group>::Scalar>,
    w: nat,
)
    requires
        w > 0,
        p.len() == r.len(),
        q.len() == r.len(),
        forall|i: int| 0 <= i < r.len() ==> #[trigger] r[i] == p[i].add_spec(q[i]),
    ensures
        ({
            let rp = row_commitments::<E::G1>(gens, p, w);
            let rq = row_commitments::<E::G1>(gens, q, w);
            let rr = row_commitments::<E::G1>(gens, r, w);
            &&& rr.len() == rp.len()
            &&& rr.len() == rq.len()
            &&& forall|k: int| 0 <= k < rr.len() ==> #[trigger] rr[k] == rp[k].add_spec(rq[k])
            &&& inner_pairing::<E>(rr, g2, rr.len()) == inner_pairing::<E>(rp, g2, rp.len()).add_spec(
                inner_pairing::<E>(rq, g2, rq.len()),
            )
        }),
{
    let rp = row_commitments::<E::G1>(gens, p, w);
    let rq = row_commitments::<E::G1>(gens, q, w);
    let rr = row_commitments::<E::G1>(gens, r, w);
    let n = rr.len();
    assert forall|k: int| 0 <= k < n implies #[trigger] rr[k] == rp[k].add_spec(rq[k]) by {
        let row_r = row_of(r, w, k as nat);
        let row_p = row_of(p, w, k as nat);
        let row_q = row_of(q, w, k as nat);
        let rl = row_r.len();
        lemma_row_starts_inside(r.len(), w, k as nat);
        assert forall|i: int| 0 <= i < rl implies #[trigger] row_r[i] == row_p[i].add_spec(
            row_q[i],
        ) by {
            assert(row_r[i] == r[k * w + i]);
            assert(row_p[i] == p[k * w + i]);
            assert(row_q[i] == q[k * w + i]);
        }
        lemma_msm_additive(gens.subrange(0, rl as int), row_r, row_p, row_q, rl);
    }
    lemma_inner_pairing_additive::<E>(rp, rq, rr, g2, n);
}

/// A multi-pairing is additive in its first argument: with `a[i] = b[i] + c[i]` below `n`,
/// `⟨a, g⟩ == ⟨b, g⟩ + ⟨c, g⟩`.
pub proof fn lemma_inner_pairing_additive<E: Pairing>(
    b: Seq<E::G1>,
    c: Seq<E::G1>,
    a: Seq<E::G1>,
    g2: Seq<E::G2>,
    n: nat,
)
    requires
        forall|i: int| 0 <= i < n ==> #[trigger] a[i] == b[i].add_spec(c[i]),
    ensures
        inner_pairing::<E>(a, g2, n) == inner_pairing::<E>(b, g2, n).add_spec(
            inner_pairing::<E>(c, g2, n),
        ),
{
    let e = |x: E::G1, y: E::G2| E::pair_spec(x, y);
    lemma_pairing_sum_is_sum(e, a, g2, n);
    lemma_pairing_sum_is_sum(e, b, g2, n);
    lemma_pairing_sum_is_sum(e, c, g2, n);
    let tb = |i: int| e(b[i], g2[i]);
    let tc = |i: int| e(c[i], g2[i]);
    lemma_sum_add(tb, tc, n);
    assert forall|i: int| 0 <= i < n implies #[trigger] e(a[i], g2[i]) == tb(i).add_spec(tc(i)) by {
        E::lemma_pair_add_left(b[i], c[i], g2[i]);
    }
    lemma_sum_congruent(|i: int| e(a[i], g2[i]), |i: int| tb(i).add_spec(tc(i)), n);
}

} // verus!
