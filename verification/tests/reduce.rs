use dory::arithmetic::{DummyMsm, Field, MultiScalarMul, Pairing};
use dory::bn254::{Fr, FrAdditive, FrPairing};
use dory::builder::{DoryProofBuilder, DoryProof, DoryVerifyBuilder};
use dory::inner_product::{inner_product_prove, inner_product_verify};
use dory::messages::{FirstReduceChallenge, SecondReduceChallenge};
use dory::offload::{scale_gt_with_offload, OffloadContext};
use dory::setup::ProverSetup;
use dory::state::{DoryProverState, DoryVerifierState};
use dory::toy_transcript::ToyTranscript;
use dory::poly::{compute_left_right_vec, StandardPolynomial};
use dory::vmv::vmv_state::{build_vmv_prover_state, vmv_state_to_dory_prover_state};

type Builder = DoryProofBuilder<FrAdditive, FrAdditive, FrAdditive, Fr, ToyTranscript>;
type VBuilder = DoryVerifyBuilder<FrAdditive, FrAdditive, FrAdditive, Fr, ToyTranscript>;

fn fr(x: u64) -> Fr {
    Fr::from_u64(x)
}

fn g(xs: &[u64]) -> Vec<FrAdditive> {
    xs.iter().map(|&x| FrAdditive(fr(x))).collect()
}

fn s(xs: &[u64]) -> Vec<Fr> {
    xs.iter().map(|&x| fr(x)).collect()
}

fn msm(bases: &[FrAdditive], scalars: &[Fr]) -> FrAdditive {
    <DummyMsm as MultiScalarMul<FrAdditive>>::msm(bases, scalars)
}

fn setup() -> ProverSetup<FrPairing> {
    ProverSetup::new(g(&[3, 5, 7, 11]), g(&[13, 17, 19, 23]), FrAdditive(fr(29)), 2)
}

fn state() -> DoryProverState<FrPairing> {
    DoryProverState::new(g(&[1, 2, 3, 4]), g(&[5, 6, 7, 8]), s(&[9, 10, 11, 12]), s(&[13, 14, 15, 16]), 2)
}

#[test]
fn verifier_round_tracks_the_folded_prover_vectors() {
    let ps = setup();
    let vs = ps.to_verifier_setup();
    let st = state();
    let d1 = FrPairing::multi_pair(&st.v1, &ps.g2_vec[..4]);
    let d2 = FrPairing::multi_pair(&ps.g1_vec[..4], &st.v2);
    let e1 = msm(&st.v1, &st.s2);
    let e2 = msm(&st.v2, &st.s1);
    let mut verifier = DoryVerifierState::<FrPairing>::new(d1, d2, e1, e2, s(&[1, 2, 3, 4]));
    let (beta, alpha) = (fr(31), fr(37));
    let m1 = st.compute_first_reduce_message::<DummyMsm, DummyMsm>(&ps);
    let st = st.reduce_combine::<DummyMsm, DummyMsm>(&ps, FirstReduceChallenge { beta, beta_inverse: beta.inv().unwrap() });
    let m2 = st.compute_second_reduce_message::<DummyMsm, DummyMsm>(&ps);
    let st = st.reduce_fold::<DummyMsm, DummyMsm>(&ps, SecondReduceChallenge { alpha, alpha_inverse: alpha.inv().unwrap() });
    assert!(verifier.dory_reduce_verify_round(&vs, &m1, &m2, beta, alpha));
    assert_eq!(st.nu, 1);
    assert_eq!(verifier.nu, 1);
    assert_eq!(verifier.d_1, FrPairing::multi_pair(&st.v1, &ps.g2_vec[..2]));
    assert_eq!(verifier.d_2, FrPairing::multi_pair(&ps.g1_vec[..2], &st.v2));
    assert_eq!(verifier.e_1, msm(&st.v1, &st.s2));
    assert_eq!(verifier.e_2, msm(&st.v2, &st.s1));
    assert_eq!(verifier.alpha_challenges, vec![alpha]);
}

#[test]
fn folding_halves_the_vectors() {
    let ps = setup();
    let st = state();
    let alpha = fr(2);
    let st = st.reduce_fold::<DummyMsm, DummyMsm>(&ps, SecondReduceChallenge { alpha, alpha_inverse: alpha.inv().unwrap() });
    // v ← v_L + α·v_R, s ← α·s_L + s_R
    assert_eq!(st.v1, g(&[1 + 2 * 3, 2 + 2 * 4]));
    assert_eq!(st.v2, g(&[5 + 2 * 7, 6 + 2 * 8]));
    assert_eq!(st.s1, s(&[2 * 9 + 11, 2 * 10 + 12]));
    assert_eq!(st.s2, s(&[2 * 13 + 15, 2 * 14 + 16]));
    assert_eq!(st.nu, 1);
    let alpha = fr(5);
    let st = st.reduce_fold::<DummyMsm, DummyMsm>(&ps, SecondReduceChallenge { alpha, alpha_inverse: alpha.inv().unwrap() });
    assert_eq!(st.final_bases(), (FrAdditive(fr(7 + 5 * 10)), FrAdditive(fr(19 + 5 * 22))));
    let (v1, v2) = st.final_bases_ref();
    assert_eq!((*v1, *v2), st.final_bases());
}

#[test]
fn combining_adds_the_scaled_generators() {
    let ps = setup();
    let st = state();
    let beta = fr(3);
    let st = st.reduce_combine::<DummyMsm, DummyMsm>(&ps, FirstReduceChallenge { beta, beta_inverse: beta.inv().unwrap() });
    assert_eq!(st.v1, g(&[1 + 9, 2 + 15, 3 + 21, 4 + 33]));
    assert_eq!(st.v2, g(&[5 + 39, 6 + 51, 7 + 57, 8 + 69]));
    assert!(st.v2_scalars.is_none());
}

#[test]
fn first_message_with_first_round_scalars() {
    let ps = setup();
    let vs = s(&[2, 3, 4, 5]);
    let v2: Vec<FrAdditive> = vs.iter().map(|x| FrAdditive(fr(29).mul(x))).collect();
    let plain = DoryProverState::<FrPairing>::new(g(&[1, 2, 3, 4]), v2.clone(), s(&[1, 1, 1, 1]), s(&[1, 1, 1, 1]), 2);
    let with = DoryProverState::<FrPairing>::new_with_v2_scalars(g(&[1, 2, 3, 4]), v2, s(&[1, 1, 1, 1]), s(&[1, 1, 1, 1]), vs, 2);
    let a = plain.compute_first_reduce_message::<DummyMsm, DummyMsm>(&ps);
    let b = with.compute_first_reduce_message::<DummyMsm, DummyMsm>(&ps);
    assert_eq!(a, b);
}

#[test]
fn prover_and_verifier_builders_draw_the_same_challenges() {
    let ps = setup();
    let st = state();
    let m1 = st.compute_first_reduce_message::<DummyMsm, DummyMsm>(&ps);
    let prover = Builder::new_with_toy_transcript(b"fs");
    let (c1, prover) = prover.append_first_reduce_message(m1).unwrap();
    let proof = prover.build();
    let mut verifier = VBuilder::new_from_dory_proof(
        DoryProof { final_message: Some(dory::messages::ScalarProductMessage { e1: m1.e1_beta, e2: m1.e2_beta }), ..proof },
        ToyTranscript::new(b"fs"),
    );
    let v1 = verifier.process_first_reduce_message_at(0).unwrap();
    assert_eq!(c1, v1);
    assert_eq!(c1.beta.mul(&c1.beta_inverse), Fr::one());
    assert_eq!(verifier.rounds(), 1);
    assert_eq!(*verifier.first_message(0), m1);
}

#[test]
fn inner_product_argument_on_a_two_round_state() {
    let ps = setup();
    let vs = ps.to_verifier_setup();
    // s₁ = s₂ = one-hot at the last entry: the folded scalars are one for any challenges
    let st = DoryProverState::<FrPairing>::new(g(&[1, 2, 3, 4]), g(&[5, 6, 7, 8]), s(&[0, 0, 0, 1]), s(&[0, 0, 0, 1]), 2);
    let d1 = FrPairing::multi_pair(&st.v1, &ps.g2_vec[..4]);
    let d2 = FrPairing::multi_pair(&ps.g1_vec[..4], &st.v2);
    let e1 = msm(&st.v1, &st.s2);
    let e2 = msm(&st.v2, &st.s1);
    let builder = Builder::new_with_toy_transcript(b"ip");
    let proof = inner_product_prove::<FrPairing, ToyTranscript, DummyMsm, DummyMsm>(builder, st, &ps, 2).unwrap();
    assert_eq!(proof.first_messages.len(), 2);
    assert_eq!(proof.second_messages.len(), 2);
    let fb = proof.final_bases.unwrap();
    assert_eq!(proof.final_message.unwrap().e1, fb.v1_final);
    // D₂ as received equals e(E₁, Γ₂,fin) only in the VMV setting; here the batched check
    // needs D₂ = e(E₁, Γ₂,fin), so build the verifier state accordingly
    let d2_orig = FrPairing::pair(&e1, &vs.g_fin);
    let mut verifier = DoryVerifierState::<FrPairing>::new(d1, d2, e1, e2, s(&[1, 1, 1, 1]));
    verifier.d_2_orig = d2_orig;
    let vb = VBuilder::new_from_proof(proof, ToyTranscript::new(b"ip"));
    assert_eq!(inner_product_verify::<FrPairing, ToyTranscript>(vb, verifier, &vs, 2), Ok(()));
}

#[test]
fn offloaded_scaling_is_native_scaling() {
    let mut ctx = OffloadContext::new();
    assert!(!ctx.is_offloading_enabled());
    let x = FrAdditive(fr(6));
    assert_eq!(scale_gt_with_offload::<FrPairing>(&x, &fr(7), &mut ctx), FrAdditive(fr(42)));
    assert!(!OffloadContext::default().is_offloading_enabled());
}

#[test]
fn vmv_state_gives_one_round_per_row_coordinate() {
    let ps = setup();
    let coeffs: Vec<Fr> = (1..=16u64).map(Fr::from_u64).collect();
    let poly = StandardPolynomial::new(&coeffs);
    let point: Vec<Fr> = [2u64, 3, 5, 7].iter().map(|&x| Fr::from_u64(x)).collect();
    let rows = vec![FrAdditive(Fr::from_u64(1)); 4];
    let vmv = build_vmv_prover_state::<FrPairing, _>(&poly, &point, rows.clone());
    let (_, st) = vmv_state_to_dory_prover_state(vmv, &ps);
    let (l, r) = compute_left_right_vec(&point, 2, 2);
    // ν = log₂|L| = 2 rounds; s₁ = R and s₂ = L, both of length 2^ν
    assert_eq!(st.nu, 2);
    assert_eq!(st.s1, r);
    assert_eq!(st.s2, l);
    assert_eq!(st.v1, rows);
}
