use dory::arithmetic::{DummyMsm, Field, Group, MultiScalarMul, Pairing};
use dory::bn254::{Fr, FrAdditive, FrPairing};
use dory::builder::{DoryProofBuilder, DoryVerifyBuilder};
use dory::inner_product::{inner_product_prove, inner_product_verify};
use dory::poly::multilinear_lagrange_vec;
use dory::setup::ProverSetup;
use dory::state::{DoryProverState, DoryVerifierState};
use dory::toy_transcript::ToyTranscript;

type Builder = DoryProofBuilder<FrAdditive, FrAdditive, FrAdditive, Fr, ToyTranscript>;
type VBuilder = DoryVerifyBuilder<FrAdditive, FrAdditive, FrAdditive, Fr, ToyTranscript>;

fn rnd(seed: u64, i: u64) -> Fr {
    Fr::from_u64(seed.wrapping_mul(1_000_003).wrapping_add(i.wrapping_mul(i).wrapping_mul(7919)) + 1)
}

#[test]
fn test_inner_product_verify_should_fail() {
    let domain = b"test_domain";
    let log_n = 5;
    let n = 1usize << log_n;
    let g1: Vec<FrAdditive> = (0..n as u64).map(|i| FrAdditive(rnd(1, i))).collect();
    let g2: Vec<FrAdditive> = (0..n as u64).map(|i| FrAdditive(rnd(2, i))).collect();
    let ps = ProverSetup::<FrPairing>::new(g1, g2, FrAdditive(rnd(3, 0)), log_n);
    let vs = ps.to_verifier_setup();
    let v1: Vec<FrAdditive> = (0..n as u64).map(|i| FrAdditive(rnd(4, i))).collect();
    let v2: Vec<FrAdditive> = (0..n as u64).map(|i| FrAdditive(rnd(5, i))).collect();
    let point: Vec<Fr> = (0..2 * log_n as u64).map(|i| rnd(6, i)).collect();
    let mut s1 = vec![Fr::zero(); n];
    multilinear_lagrange_vec(&mut s1, &point[..log_n]);
    let mut s2 = vec![Fr::zero(); n];
    multilinear_lagrange_vec(&mut s2, &point[log_n..]);
    let d_1 = FrPairing::multi_pair(&v1, &ps.g2_vec[..n]);
    let d_2 = FrPairing::multi_pair(&ps.g1_vec[..n], &v2);
    let e_1 = <DummyMsm as MultiScalarMul<FrAdditive>>::msm(&v1, &s2);
    let e_2 = <DummyMsm as MultiScalarMul<FrAdditive>>::msm(&v2, &s1);
    let prover_state = DoryProverState::new(v1, v2, s1, s2, log_n);
    let mut verifier_state = DoryVerifierState::<FrPairing>::new(d_1, d_2, e_1, e_2, point);
    verifier_state.d_2_orig = FrPairing::pair(&e_1, &ps.g_fin);
    let mut proof = inner_product_prove::<FrPairing, ToyTranscript, DummyMsm, DummyMsm>(
        Builder::new_with_toy_transcript(domain),
        prover_state,
        &ps,
        log_n,
    )
    .unwrap();
    // Tampering with the first reduce message
    proof.first_messages[0].d1_left = proof.first_messages[0].d1_left.add(&FrAdditive(Fr::one()));
    let vb = VBuilder::new_from_proof(proof, ToyTranscript::new(domain));
    let result = inner_product_verify::<FrPairing, ToyTranscript>(vb, verifier_state, &vs, log_n);
    assert!(result.is_err(), "Corrupted first message should cause verification to fail");
}
