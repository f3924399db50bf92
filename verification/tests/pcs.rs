use dory::arithmetic::{DummyMsm, Field, Group};
use dory::bn254::{Fr, FrAdditive, FrPairing};
use dory::builder::DoryProofBuilder;
use dory::commit::compute_polynomial_commitment;
use dory::error::DoryError;
use dory::evaluate::{create_evaluation_proof, verify_evaluation_proof};
use dory::poly::{Polynomial, StandardPolynomial};
use dory::setup::{ProverSetup, VerifierSetup};
use dory::toy_transcript::ToyTranscript;

type Builder = DoryProofBuilder<FrAdditive, FrAdditive, FrAdditive, Fr, ToyTranscript>;

fn fr(x: u64) -> Fr {
    Fr::from_u64(x)
}

fn setup(max_log_n: usize) -> ProverSetup<FrPairing> {
    let n = 1usize << max_log_n;
    let g1: Vec<FrAdditive> = (0..n).map(|i| FrAdditive(fr(3 + 2 * i as u64))).collect();
    let g2: Vec<FrAdditive> = (0..n).map(|i| FrAdditive(fr(5 + 7 * i as u64))).collect();
    ProverSetup::new(g1, g2, FrAdditive(fr(11)), max_log_n)
}

fn polynomial(num_vars: usize) -> StandardPolynomial<Fr> {
    let coeffs: Vec<Fr> = (0..(1u64 << num_vars)).map(|i| fr(i * i + 1)).collect();
    StandardPolynomial::new(&coeffs)
}

fn ones(num_vars: usize) -> Vec<Fr> {
    vec![Fr::one(); num_vars]
}

struct Instance {
    commitment: FrAdditive,
    evaluation: Fr,
    point: Vec<Fr>,
    verifier_setup: VerifierSetup<FrPairing>,
    proof: Builder,
}

fn prove(num_vars: usize, point: Vec<Fr>, with_rows: bool) -> Instance {
    prove_poly(num_vars, polynomial(num_vars), point, with_rows)
}

fn prove_poly(
    num_vars: usize,
    poly: StandardPolynomial<Fr>,
    point: Vec<Fr>,
    with_rows: bool,
) -> Instance {
    let prover_setup = setup(num_vars / 2);
    let (commitment, rows) = compute_polynomial_commitment::<FrPairing, DummyMsm, _>(
        &poly,
        0,
        num_vars / 2,
        &prover_setup,
    );
    let evaluation = <StandardPolynomial<Fr> as Polynomial<Fr, FrAdditive>>::evaluate(&poly, &point);
    let rows = if with_rows { Some(rows) } else { None };
    let proof = create_evaluation_proof::<FrPairing, ToyTranscript, DummyMsm, DummyMsm, _>(
        ToyTranscript::new(b"dory_pcs_test"),
        &poly,
        rows,
        &point,
        &prover_setup,
    )
    .expect("the transcript yields invertible challenges");
    Instance {
        commitment,
        evaluation,
        point,
        verifier_setup: prover_setup.to_verifier_setup(),
        proof,
    }
}

fn verify(inst: Instance) -> Result<(), DoryError> {
    verify_evaluation_proof::<FrPairing, ToyTranscript, DummyMsm, DummyMsm, DummyMsm>(
        inst.proof,
        &[inst.commitment],
        &[Fr::one()],
        &[inst.evaluation],
        &inst.point,
        &inst.verifier_setup,
        ToyTranscript::new(b"dory_pcs_test"),
    )
}

#[test]
fn honest_proof_at_the_all_ones_point_verifies() {
    for num_vars in [2usize, 4, 6] {
        assert_eq!(verify(prove(num_vars, ones(num_vars), true)), Ok(()));
        assert_eq!(verify(prove(num_vars, ones(num_vars), false)), Ok(()));
    }
}

#[test]
fn honest_proof_at_a_general_point_verifies() {
    let points: [Vec<u64>; 3] = [vec![2, 3], vec![5, 7, 11, 13], vec![17, 19, 23, 29, 31, 37]];
    for coords in points.iter() {
        let num_vars = coords.len();
        let point: Vec<Fr> = coords.iter().map(|&x| fr(x)).collect();
        assert_eq!(verify(prove(num_vars, point.clone(), true)), Ok(()));
        assert_eq!(verify(prove(num_vars, point, false)), Ok(()));
    }
}

#[test]
fn honest_proof_of_a_short_polynomial_verifies() {
    // fewer coefficients than the matrix holds: the missing rows and entries are zero
    for (num_vars, len) in [(2usize, 3u64), (4, 9), (4, 1)] {
        let coeffs: Vec<Fr> = (0..len).map(|i| fr(2 * i + 7)).collect();
        // the prover commits to the rows itself, padding them with the identity
        let poly = StandardPolynomial::new(&coeffs);
        let inst = prove_poly(num_vars, poly, ones(num_vars), false);
        // at the all-ones point the evaluation is the last coefficient of the full matrix, a
        // padding zero here
        assert_eq!(inst.evaluation, Fr::zero());
        assert_eq!(verify(inst), Ok(()));
    }
}

#[test]
fn honest_proof_with_no_variables_verifies() {
    assert_eq!(verify(prove(0, Vec::new(), true)), Ok(()));
}

#[test]
fn proof_has_one_message_pair_per_round() {
    let inst = prove(4, ones(4), true);
    let stats = inst.proof.proof_stats();
    assert_eq!(stats.rounds, 2);
    assert_eq!(stats.first_messages, 2);
    assert_eq!(stats.second_messages, 2);
    assert!(stats.has_final_message);
    assert!(stats.has_vmv_message);
    assert_eq!(stats.g1_elements, 2 + 4 + 1 + 1);
    assert_eq!(stats.g2_elements, 2 + 4 + 1);
    assert_eq!(stats.gt_elements, 8 + 4 + 2);
    assert!(inst.proof.final_bases.is_some());
}

#[test]
fn wrong_evaluation_is_rejected() {
    let mut inst = prove(4, ones(4), true);
    inst.evaluation = inst.evaluation.add(&Fr::one());
    assert_eq!(verify(inst), Err(DoryError::InvalidProof));
}

#[test]
fn verifier_with_another_domain_rejects() {
    let inst = prove(4, ones(4), true);
    let r = verify_evaluation_proof::<FrPairing, ToyTranscript, DummyMsm, DummyMsm, DummyMsm>(
        inst.proof,
        &[inst.commitment],
        &[Fr::one()],
        &[inst.evaluation],
        &inst.point,
        &inst.verifier_setup,
        ToyTranscript::new(b"another_domain"),
    );
    assert_eq!(r, Err(DoryError::InvalidProof));
}

#[test]
fn proof_round_trips_through_build() {
    let inst = prove(4, ones(4), true);
    let built = inst.proof.build();
    assert_eq!(built.first_messages, inst.proof.first_messages);
    assert_eq!(built.second_messages, inst.proof.second_messages);
    assert_eq!(built.final_message, inst.proof.final_message);
    assert_eq!(built.vmv_message, inst.proof.vmv_message);
    assert_eq!(built.final_bases, inst.proof.final_bases);
    let rebuilt = Builder::from_proof(built, ToyTranscript::new(b"dory_pcs_test"));
    let again = Instance { proof: rebuilt, ..inst };
    assert_eq!(verify(again), Ok(()));
}

#[test]
fn commitment_is_additive_in_the_polynomial() {
    let prover_setup = setup(2);
    let p = vec![fr(1), fr(2), fr(3), fr(4), fr(5)];
    let q = vec![fr(6), fr(7), fr(8), fr(9), fr(10)];
    let r: Vec<Fr> = p.iter().zip(q.iter()).map(|(a, b)| a.add(b)).collect();
    let commit = |c: &Vec<Fr>| {
        compute_polynomial_commitment::<FrPairing, DummyMsm, _>(
            &StandardPolynomial::new(c),
            0,
            2,
            &prover_setup,
        )
    };
    let (cp, rp) = commit(&p);
    let (cq, rq) = commit(&q);
    let (cr, rr) = commit(&r);
    assert_eq!(cr, cp.add(&cq));
    assert_eq!(rr.len(), rp.len());
    for k in 0..rr.len() {
        assert_eq!(rr[k], rp[k].add(&rq[k]));
    }
}
