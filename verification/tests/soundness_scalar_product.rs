use dory::arithmetic::{DummyMsm, Field, Group, MultiScalarMul, Pairing};
use dory::bn254::{Fr, FrAdditive, FrPairing};
use dory::builder::{DoryProofBuilder, DoryVerifyBuilder};
use dory::inner_product::{inner_product_prove, inner_product_verify};
use dory::poly::multilinear_lagrange_vec;
use dory::setup::{ProverSetup, VerifierSetup};
use dory::state::{DoryProverState, DoryVerifierState};
use dory::toy_transcript::ToyTranscript;

type Builder = DoryProofBuilder<FrAdditive, FrAdditive, FrAdditive, Fr, ToyTranscript>;
type VBuilder = DoryVerifyBuilder<FrAdditive, FrAdditive, FrAdditive, Fr, ToyTranscript>;

const DOMAIN: &[u8] = b"scalar_product_test";
const LOG_N: usize = 4;

/// A deterministic stand-in for a random scalar.
fn rnd(seed: u64, i: u64) -> Fr {
    Fr::from_u64(seed.wrapping_mul(1_000_003).wrapping_add(i.wrapping_mul(i).wrapping_mul(7919)) + 1)
}

fn rnd_g(seed: u64, i: u64) -> FrAdditive {
    FrAdditive(rnd(seed, i))
}

fn msm(bases: &[FrAdditive], scalars: &[Fr]) -> FrAdditive {
    <DummyMsm as MultiScalarMul<FrAdditive>>::msm(bases, scalars)
}

fn setup() -> ProverSetup<FrPairing> {
    let n = 1usize << LOG_N;
    let g1: Vec<FrAdditive> = (0..n as u64).map(|i| rnd_g(1, i)).collect();
    let g2: Vec<FrAdditive> = (0..n as u64).map(|i| rnd_g(2, i)).collect();
    ProverSetup::new(g1, g2, rnd_g(3, 0), LOG_N)
}

/// Prover and verifier states for an inner-product argument over random vectors `v₁`, `v₂`,
/// with `s₁`, `s₂` the evaluation vectors of the two halves of a random point.
fn environment(
    ps: &ProverSetup<FrPairing>,
    seed: u64,
) -> (DoryProverState<FrPairing>, DoryVerifierState<FrPairing>) {
    let n = 1usize << LOG_N;
    let v1: Vec<FrAdditive> = (0..n as u64).map(|i| rnd_g(seed, i)).collect();
    let v2: Vec<FrAdditive> = (0..n as u64).map(|i| rnd_g(seed + 100, i)).collect();
    let point: Vec<Fr> = (0..2 * LOG_N as u64).map(|i| rnd(seed + 200, i)).collect();
    let mut s1 = vec![Fr::zero(); n];
    multilinear_lagrange_vec(&mut s1, &point[..LOG_N]);
    let mut s2 = vec![Fr::zero(); n];
    multilinear_lagrange_vec(&mut s2, &point[LOG_N..]);
    let d_1 = FrPairing::multi_pair(&v1, &ps.g2_vec[..n]);
    let d_2 = FrPairing::multi_pair(&ps.g1_vec[..n], &v2);
    let e_1 = msm(&v1, &s2);
    let e_2 = msm(&v2, &s1);
    let prover_state = DoryProverState::new(v1, v2, s1, s2, LOG_N);
    let mut verifier_state = DoryVerifierState::<FrPairing>::new(d_1, d_2, e_1, e_2, point);
    // the batched check reads D₂ as the VMV step leaves it: e(E₁, Γ₂,fin)
    verifier_state.d_2_orig = FrPairing::pair(&e_1, &ps.g_fin);
    (prover_state, verifier_state)
}

fn prove(ps: &ProverSetup<FrPairing>, st: DoryProverState<FrPairing>) -> Builder {
    inner_product_prove::<FrPairing, ToyTranscript, DummyMsm, DummyMsm>(
        Builder::new_with_toy_transcript(DOMAIN),
        st,
        ps,
        LOG_N,
    )
    .expect("the transcript yields invertible challenges")
}

fn verify(proof: Builder, vst: DoryVerifierState<FrPairing>, vs: &VerifierSetup<FrPairing>) -> Result<(), usize> {
    let vb = VBuilder::new_from_proof(proof, ToyTranscript::new(DOMAIN));
    inner_product_verify::<FrPairing, ToyTranscript>(vb, vst, vs, LOG_N)
}

#[test]
fn honest_scalar_product_proof_verifies() {
    let ps = setup();
    let (st, vst) = environment(&ps, 10);
    let proof = prove(&ps, st);
    assert_eq!(verify(proof, vst, &ps.to_verifier_setup()), Ok(()));
}

#[test]
fn test_wrong_v1_final() {
    let ps = setup();
    let (st, vst) = environment(&ps, 10);
    let mut proof = prove(&ps, st);
    let mut fb = proof.final_bases.unwrap();
    fb.v1_final = rnd_g(77, 1);
    proof.final_bases = Some(fb);
    assert!(verify(proof, vst, &ps.to_verifier_setup()).is_err(), "Verification should fail with wrong v1'");
}

#[test]
fn test_wrong_v2_final() {
    let ps = setup();
    let (st, vst) = environment(&ps, 10);
    let mut proof = prove(&ps, st);
    let mut fb = proof.final_bases.unwrap();
    fb.v2_final = rnd_g(77, 2);
    proof.final_bases = Some(fb);
    assert!(verify(proof, vst, &ps.to_verifier_setup()).is_err(), "Verification should fail with wrong v2'");
}

#[test]
fn test_both_final_bases_wrong() {
    let ps = setup();
    let (st, vst) = environment(&ps, 10);
    let mut proof = prove(&ps, st);
    let mut fb = proof.final_bases.unwrap();
    fb.v1_final = rnd_g(77, 3);
    fb.v2_final = rnd_g(77, 4);
    proof.final_bases = Some(fb);
    assert!(
        verify(proof, vst, &ps.to_verifier_setup()).is_err(),
        "Verification should fail with both final bases corrupted"
    );
}

#[test]
fn test_scaled_final_bases() {
    let ps = setup();
    let (st, vst) = environment(&ps, 10);
    let mut proof = prove(&ps, st);
    let mut fb = proof.final_bases.unwrap();
    // v₁'·k and v₂'·k⁻¹ keep e(v₁', v₂'); only the other checks can catch them
    let scale = rnd(77, 5);
    let scale_inv = scale.inv().unwrap();
    fb.v1_final = fb.v1_final.scale(&scale);
    fb.v2_final = fb.v2_final.scale(&scale_inv);
    assert_eq!(
        FrPairing::pair(&fb.v1_final, &fb.v2_final),
        FrPairing::pair(&proof.final_bases.unwrap().v1_final, &proof.final_bases.unwrap().v2_final)
    );
    proof.final_bases = Some(fb);
    assert!(
        verify(proof, vst, &ps.to_verifier_setup()).is_err(),
        "Verification should fail with scaled final bases"
    );
}

#[test]
fn test_relationship_attack_final_bases() {
    let ps = setup();
    let (st1, _) = environment(&ps, 10);
    let (st2, vst2) = environment(&ps, 20);
    let proof1 = prove(&ps, st1);
    let mut proof2 = prove(&ps, st2);
    // move v₁' of the first proof into the second
    let mut fb2 = proof2.final_bases.unwrap();
    fb2.v1_final = proof1.final_bases.unwrap().v1_final;
    proof2.final_bases = Some(fb2);
    assert!(verify(proof2, vst2, &ps.to_verifier_setup()).is_err());
}

#[test]
fn test_missing_final_bases() {
    let ps = setup();
    let (st, vst) = environment(&ps, 10);
    let mut proof = prove(&ps, st);
    proof.final_bases = None;
    assert!(verify(proof, vst, &ps.to_verifier_setup()).is_err());
}

#[test]
fn test_pairing_check_via_final_bases_tamper() {
    let ps = setup();
    let (st, vst) = environment(&ps, 10);
    let mut proof = prove(&ps, st);
    let mut fb = proof.final_bases.unwrap();
    // tamper v₁' to break both the linear and the pairing check
    fb.v1_final = rnd_g(77, 6);
    proof.final_bases = Some(fb);
    assert!(verify(proof, vst, &ps.to_verifier_setup()).is_err());
}

#[test]
fn test_tamper_after_valid_rounds() {
    let ps = setup();
    let (st, vst) = environment(&ps, 10);
    let mut proof = prove(&ps, st);
    // every round is valid; only the final base v₁' is shifted
    let mut fb = proof.final_bases.unwrap();
    fb.v1_final = fb.v1_final.add(&rnd_g(77, 7));
    proof.final_bases = Some(fb);
    assert!(verify(proof, vst, &ps.to_verifier_setup()).is_err());
}
