//! Multilinear polynomial commitmnets as a matrix
use vstd::arithmetic::power2::pow2;
use vstd::prelude::*;

use crate::primitives::arithmetic::{Group, MultiScalarMul, Pairing};
use crate::primitives::poly::{row_commitments, Polynomial};
use crate::protocol::setup::{inner_pairing, ProverSetup};

verus! {

/// Dory's 2-tier homomorphic commitment to multilinear polynomial arranged as matrix
/// Tier 1: Row commitments in G1, Tier 2: Multi-pairing to GT
/// See page 12 of the paper.
///
/// The rows have `2^sigma` columns and are committed under `Γ₁[..2^sigma]`; the commitment is
/// the multi-pairing of the row commitments with `Γ₂` from row `offset / 2^sigma` on.
pub fn compute_polynomial_commitment<
    E: Pairing,
    M1: MultiScalarMul<E::G1>,
    P: Polynomial<<E::G1 as Group>::Scalar, E::G1>,
>(
    poly: &P,  // Polynomial
    offset: usize,  // Starting position in matrix
    sigma: usize,  // log₂(matrix_width)
    prover_setup: &ProverSetup<E>,
) -> (r: E::GT)
    requires
        sigma < usize::BITS,
        pow2(sigma as nat) <= prover_setup.g1_vec@.len(),
        poly.coeffs().len() + pow2(sigma as nat) <= usize::MAX,
        (offset as nat) / pow2(sigma as nat) + row_commitments::<E::G1>(
            prover_setup.g1_vec@.subrange(0, pow2(sigma as nat) as int),
            poly.coeffs(),
            pow2(sigma as nat),
        ).len() <= prover_setup.g2_vec@.len(),
    ensures
        ({
            let rows = row_commitments::<E::G1>(
                prover_setup.g1_vec@.subrange(0, pow2(sigma as nat) as int),
                poly.coeffs(),
                pow2(sigma as nat),
            );
            let start = (offset as nat) / pow2(sigma as nat);
            r == inner_pairing::<E>(
                rows,
                prover_setup.g2_vec@.subrange(start as int, (start + rows.len()) as int),
                rows.len(),
            )
        }),
{
    let (commitment, _row_commitments) = crate::protocol::commit::compute_polynomial_commitment::<
        E,
        M1,
        P,
    >(poly, offset, sigma, prover_setup);
    commitment  // Final commitment in GT
}

} // verus!
