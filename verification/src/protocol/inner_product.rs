//! Implementation of the extended Dory-Innerproduct protocol.
//! The protocol is outlined in sections 3.3 & 4.3 of the Dory paper.
use vstd::arithmetic::power2::{lemma_pow2_unfold, pow2};
use vstd::prelude::*;

use crate::error::DoryError;
use crate::messages::{
    FinalBasesMessage, FirstReduceMessage, ScalarProductMessage, SecondReduceMessage,
};
use crate::primitives::arithmetic::{Group, MultiScalarMul, Pairing};
use crate::primitives::transcript::Transcript;
use crate::protocol::builder::{
    final_bases_absorb, finalize_challenge_of, first_reduce_step, scalar_product_absorb,
    second_reduce_step, DoryProofBuilder, DoryVerifyBuilder, ProofBuilderView, VerifyBuilderView,
};
use crate::protocol::interactive_protocol::{
    combine_spec, finalize_accepts, first_reduce_message_spec, fold_spec,
    second_reduce_message_spec, verify_round_spec,
};
use crate::protocol::setup::{ProverSetup, VerifierSetup};
use crate::protocol::state::{DoryProverState, DoryVerifierState, ProverView, VerifierView};

verus! {

/// The builder and prover state after one round of Dory-Reduce: send the first message,
/// combine with β, send the second message and fold with α. `None` where the transcript yields
/// no invertible challenge.
#[verifier::opaque]
pub open spec fn prove_round_spec<E: Pairing, T: Transcript<Scalar = <E::G1 as Group>::Scalar>>(
    b: ProofBuilderView<E::G1, E::G2, E::GT, <E::G1 as Group>::Scalar>,
    s: ProverView<E>,
    setup: ProverSetup<E>,
) -> Option<(ProofBuilderView<E::G1, E::G2, E::GT, <E::G1 as Group>::Scalar>, ProverView<E>)> where
    E::G2: Group<Scalar = <E::G1 as Group>::Scalar>,
    E::GT: Group<Scalar = <E::G1 as Group>::Scalar>,
 {
    let m1 = first_reduce_message_spec::<E>(s, setup);
    match first_reduce_step::<T, E::G1, E::G2, E::GT>(b.absorbed, m1) {
        None => None,
        Some((c1, a1)) => {
            let s1 = combine_spec::<E>(s, setup, c1.beta);
            let m2 = second_reduce_message_spec::<E>(s1);
            match second_reduce_step::<T, E::G1, E::G2, E::GT>(a1, m2) {
                None => None,
                Some((c2, a2)) => Some(
                    (
                        ProofBuilderView {
                            first_messages: b.first_messages.push(m1),
                            second_messages: b.second_messages.push(m2),
                            absorbed: a2,
                            ..b
                        },
                        fold_spec::<E>(s1, c2.alpha),
                    ),
                ),
            }
        },
    }
}

/// The builder and prover state after `k` rounds of Dory-Reduce; `None` where the transcript
/// yields no invertible challenge.
pub open spec fn prove_rounds<E: Pairing, T: Transcript<Scalar = <E::G1 as Group>::Scalar>>(
    b: ProofBuilderView<E::G1, E::G2, E::GT, <E::G1 as Group>::Scalar>,
    s: ProverView<E>,
    setup: ProverSetup<E>,
    k: nat,
) -> Option<(ProofBuilderView<E::G1, E::G2, E::GT, <E::G1 as Group>::Scalar>, ProverView<E>)> where
    E::G2: Group<Scalar = <E::G1 as Group>::Scalar>,
    E::GT: Group<Scalar = <E::G1 as Group>::Scalar>,
    decreases k,
{
    if k == 0 {
        Some((b, s))
    } else {
        match prove_round_spec::<E, T>(b, s, setup) {
            None => None,
            Some((b2, s2)) => prove_rounds::<E, T>(b2, s2, setup, (k - 1) as nat),
        }
    }
}

/// The base-case elements `(v₁[0], v₂[0])` of a folded prover state.
pub open spec fn final_bases_spec<E: Pairing>(s: ProverView<E>) -> FinalBasesMessage<
    E::G1,
    E::G2,
> where E::G2: Group<Scalar = <E::G1 as Group>::Scalar> {
    FinalBasesMessage {
        v1_final: if s.v1.len() > 0 {
            s.v1[0]
        } else {
            E::G1::identity_spec()
        },
        v2_final: if s.v2.len() > 0 {
            s.v2[0]
        } else {
            E::G2::identity_spec()
        },
    }
}

/// The proof built by `inner_product_prove`: the reduce rounds, then the scalar-product message
/// `(E₁, E₂) = (v₁', v₂')`, the γ₁, γ₂ challenges (to keep the transcripts in step) and the
/// base-case elements `v₁'`, `v₂'`.
pub open spec fn ip_prove_spec<E: Pairing, T: Transcript<Scalar = <E::G1 as Group>::Scalar>>(
    b: ProofBuilderView<E::G1, E::G2, E::GT, <E::G1 as Group>::Scalar>,
    s: ProverView<E>,
    setup: ProverSetup<E>,
    k: nat,
) -> Result<ProofBuilderView<E::G1, E::G2, E::GT, <E::G1 as Group>::Scalar>, DoryError> where
    E::G2: Group<Scalar = <E::G1 as Group>::Scalar>,
    E::GT: Group<Scalar = <E::G1 as Group>::Scalar>,
 {
    match prove_rounds::<E, T>(b, s, setup, k) {
        None => Err(DoryError::ZeroChallenge),
        Some((b2, s2)) => {
            let fb = final_bases_spec::<E>(s2);
            let sp = ScalarProductMessage { e1: fb.v1_final, e2: fb.v2_final };
            let a3 = b2.absorbed + scalar_product_absorb::<T, E::G1, E::G2>(sp);
            match finalize_challenge_of::<T>(a3) {
                None => Err(DoryError::ZeroChallenge),
                Some(_) => Ok(
                    ProofBuilderView {
                        final_message: Some(sp),
                        s1_final: None,
                        s2_final: None,
                        final_bases: Some(fb),
                        absorbed: a3 + final_bases_absorb::<T, E::G1, E::G2>(fb),
                        ..b2
                    },
                ),
            }
        },
    }
}

/// One round of Dory-Reduce on the prover's side.
fn prove_round<
    E: Pairing,
    T: Transcript<Scalar = <E::G1 as Group>::Scalar>,
    M1: MultiScalarMul<E::G1>,
    M2: MultiScalarMul<E::G2>,
>(
    builder: DoryProofBuilder<E::G1, E::G2, E::GT, <E::G1 as Group>::Scalar, T>,
    state: DoryProverState<E>,
    setup: &ProverSetup<E>,
) -> (r: Result<
    (DoryProofBuilder<E::G1, E::G2, E::GT, <E::G1 as Group>::Scalar, T>, DoryProverState<E>),
    DoryError,
>) where
    E::G2: Group<Scalar = <E::G1 as Group>::Scalar>,
    E::GT: Group<Scalar = <E::G1 as Group>::Scalar>,

    requires
        state.nu >= 1,
        state@.sizes_ok(),
        state.v2_scalars matches Some(vs) ==> vs@.len() == pow2(state.nu as nat),
        setup.g1_vec@.len() >= pow2(state.nu as nat),
        setup.g2_vec@.len() >= pow2(state.nu as nat),
    ensures
        match prove_round_spec::<E, T>(builder@, state@, *setup) {
            Some((bv, sv)) => r matches Ok((b2, s2)) && b2@ == bv && s2@ == sv && s2.nu
                == state.nu - 1 && s2@.sizes_ok() && s2.v2_scalars is None,
            None => r matches Err(e) && e == DoryError::ZeroChallenge,
        },
{
    let ghost si = state@;
    proof {
        lemma_pow2_unfold(state.nu as nat);
        reveal(prove_round_spec);
    }
    let first_reduce_msg = state.compute_first_reduce_message::<M1, M2>(setup);
    let (challenge, b1) = match builder.append_first_reduce_message(first_reduce_msg) {
        Ok(x) => x,
        Err(e) => {
            return Err(e);
        },
    };
    let state1 = state.reduce_combine::<M1, M2>(setup, challenge);
    assert(state1@.v1.len() == si.v1.len());
    assert(state1@.v2.len() == si.v2.len());
    let second_reduce_msg = state1.compute_second_reduce_message::<M1, M2>(setup);
    let (challenge2, b2) = match b1.append_second_reduce_message(second_reduce_msg) {
        Ok(x) => x,
        Err(e) => {
            return Err(e);
        },
    };
    let folded_state = state1.reduce_fold::<M1, M2>(setup, challenge2);
    Ok((b2, folded_state))
}

/// Prover side of extended Dory-innerproduct
/// Follows very closely the prover side of the protocol on Page 24.
///
/// The state must hold `2^num_rounds` elements in each vector, and the generators must be at
/// least as long.
#[verifier::loop_isolation(false)]
pub fn inner_product_prove<
    E: Pairing,
    T: Transcript<Scalar = <E::G1 as Group>::Scalar>,
    M1: MultiScalarMul<E::G1>,
    M2: MultiScalarMul<E::G2>,
>(
    builder: DoryProofBuilder<E::G1, E::G2, E::GT, <E::G1 as Group>::Scalar, T>,
    state: DoryProverState<E>,
    setup: &ProverSetup<E>,
    num_rounds: usize,
) -> (r: Result<DoryProofBuilder<E::G1, E::G2, E::GT, <E::G1 as Group>::Scalar, T>, DoryError>) where
    E::G2: Group<Scalar = <E::G1 as Group>::Scalar>,
    E::GT: Group<Scalar = <E::G1 as Group>::Scalar>,

    requires
        state.nu == num_rounds,
        state@.sizes_ok(),
        state.v2_scalars matches Some(vs) ==> vs@.len() == pow2(state.nu as nat),
        setup.g1_vec@.len() >= pow2(state.nu as nat),
        setup.g2_vec@.len() >= pow2(state.nu as nat),
    ensures
        match ip_prove_spec::<E, T>(builder@, state@, *setup, num_rounds as nat) {
            Ok(v) => r matches Ok(b) && b@ == v,
            Err(e) => r matches Err(e2) && e2 == e,
        },
{
    let ghost b0 = builder@;
    let ghost s0 = state@;
    let mut builder = builder;
    let mut state = state;
    let mut i: usize = 0;
    while i < num_rounds
        invariant
            i <= num_rounds,
            state.nu == num_rounds - i,
            state@.sizes_ok(),
            state.v2_scalars matches Some(vs) ==> vs@.len() == pow2(state.nu as nat),
            setup.g1_vec@.len() >= pow2(state.nu as nat),
            setup.g2_vec@.len() >= pow2(state.nu as nat),
            prove_rounds::<E, T>(b0, s0, *setup, num_rounds as nat) == prove_rounds::<E, T>(
                builder@,
                state@,
                *setup,
                (num_rounds - i) as nat,
            ),
        decreases num_rounds - i,
    {
        proof {
            lemma_pow2_unfold(state.nu as nat);
        }
        let ghost bi = builder@;
        let ghost si = state@;
        let (b2, s2) = match prove_round::<E, T, M1, M2>(builder, state, setup) {
            Ok(x) => x,
            Err(e) => {
                assert(prove_rounds::<E, T>(bi, si, *setup, (num_rounds - i) as nat) is None);
                return Err(e);
            },
        };
        builder = b2;
        state = s2;
        i = i + 1;
    }
    // At base case, compute scalar-product message (E1, E2) and append
    let (v1_final, v2_final) = state.final_bases();
    let e1e2 = ScalarProductMessage { e1: v1_final, e2: v2_final };
    let builder = builder.append_scalar_product_message(e1e2, None, None);
    // Keep transcripts in sync: derive finalize challenge (prover does not send a message here).
    let (_finalize_challenge, builder) = match builder.challenge_finalize() {
        Ok(x) => x,
        Err(e) => {
            return Err(e);
        },
    };
    // At base case, expose v1', v2' from prover state and append to proof
    let final_bases = FinalBasesMessage { v1_final, v2_final };
    Ok(builder.append_final_bases(final_bases))
}

/* ---------------- the verifier's side ---------------- */

/// The verifier state and transcript after checking one round with messages `m1`, `m2`: β is
/// drawn after `m1` and α after `m2`, and the state is updated with them. `None` where the
/// transcript yields no invertible challenge.
#[verifier::opaque]
pub open spec fn verify_round_step<E: Pairing, T: Transcript<Scalar = <E::G1 as Group>::Scalar>>(
    v: VerifierView<E>,
    setup: VerifierSetup<E>,
    absorbed: Seq<u8>,
    m1: FirstReduceMessage<E::G1, E::G2, E::GT>,
    m2: SecondReduceMessage<E::G1, E::G2, E::GT>,
) -> Option<(VerifierView<E>, Seq<u8>)> where
    E::G2: Group<Scalar = <E::G1 as Group>::Scalar>,
    E::GT: Group<Scalar = <E::G1 as Group>::Scalar>,
 {
    match first_reduce_step::<T, E::G1, E::G2, E::GT>(absorbed, m1) {
        None => None,
        Some((c1, a1)) => match second_reduce_step::<T, E::G1, E::G2, E::GT>(a1, m2) {
            None => None,
            Some((c2, a2)) => Some((verify_round_spec::<E>(v, setup, m1, m2, c1.beta, c2.alpha), a2)),
        },
    }
}

/// The verifier state and transcript after checking rounds `i .. i + k` of a proof; `Err(j)`
/// where the transcript yields no invertible challenge in round `j`.
pub open spec fn verify_rounds<E: Pairing, T: Transcript<Scalar = <E::G1 as Group>::Scalar>>(
    v: VerifierView<E>,
    setup: VerifierSetup<E>,
    absorbed: Seq<u8>,
    firsts: Seq<FirstReduceMessage<E::G1, E::G2, E::GT>>,
    seconds: Seq<SecondReduceMessage<E::G1, E::G2, E::GT>>,
    i: nat,
    k: nat,
) -> Result<(VerifierView<E>, Seq<u8>), nat> where
    E::G2: Group<Scalar = <E::G1 as Group>::Scalar>,
    E::GT: Group<Scalar = <E::G1 as Group>::Scalar>,
    decreases k,
{
    if k == 0 {
        Ok((v, absorbed))
    } else {
        match verify_round_step::<E, T>(v, setup, absorbed, firsts[i as int], seconds[i as int]) {
            None => Err(i),
            Some((v2, a2)) => verify_rounds::<E, T>(
                v2,
                setup,
                a2,
                firsts,
                seconds,
                i + 1,
                (k - 1) as nat,
            ),
        }
    }
}

/// The outcome of `inner_product_verify`: `Ok` where every round is processed and the final
/// check accepts; `Err(j)` naming the round whose challenge could not be drawn, or the number
/// of rounds in the proof where the final challenge cannot be drawn or the final check rejects.
/// Before the final challenge the verifier absorbs the scalar-product message, as the prover
/// did; afterwards it takes the base-case elements of the proof.
pub open spec fn ip_verify_spec<E: Pairing, T: Transcript<Scalar = <E::G1 as Group>::Scalar>>(
    v: VerifierView<E>,
    setup: VerifierSetup<E>,
    bv: VerifyBuilderView<E::G1, E::G2, E::GT>,
    k: nat,
) -> Result<(), nat> where
    E::G2: Group<Scalar = <E::G1 as Group>::Scalar>,
    E::GT: Group<Scalar = <E::G1 as Group>::Scalar>,
 {
    match verify_rounds::<E, T>(
        v,
        setup,
        bv.absorbed,
        bv.first_messages,
        bv.second_messages,
        0,
        k,
    ) {
        Err(i) => Err(i),
        Ok((v2, a2)) => {
            let a3 = a2 + scalar_product_absorb::<T, E::G1, E::G2>(bv.scalar_msg);
            match finalize_challenge_of::<T>(a3) {
                None => Err(bv.first_messages.len()),
                Some(g) => {
                    let v3 = match bv.final_bases {
                        Some(fb) => VerifierView {
                            v1_final: Some(fb.v1_final),
                            v2_final: Some(fb.v2_final),
                            ..v2
                        },
                        None => v2,
                    };
                    if finalize_accepts::<E>(v3, setup, g) {
                        Ok(())
                    } else {
                        Err(bv.first_messages.len())
                    }
                },
            }
        },
    }
}

/// One round of Dory-Reduce on the verifier's side: draws β and α for the messages of round
/// `idx` and updates the state.
fn verify_round<E: Pairing, T: Transcript<Scalar = <E::G1 as Group>::Scalar>>(
    builder: &mut DoryVerifyBuilder<E::G1, E::G2, E::GT, <E::G1 as Group>::Scalar, T>,
    state: &mut DoryVerifierState<E>,
    setup: &VerifierSetup<E>,
    idx: usize,
) -> (r: bool) where
    E::G2: Group<Scalar = <E::G1 as Group>::Scalar>,
    E::GT: Group<Scalar = <E::G1 as Group>::Scalar>,

    requires
        idx < old(builder)@.first_messages.len(),
        idx < old(builder)@.second_messages.len(),
        old(state).nu >= 1,
        old(state).nu < setup.delta_1l@.len(),
        old(state).nu < setup.delta_1r@.len(),
        old(state).nu < setup.delta_2l@.len(),
        old(state).nu < setup.delta_2r@.len(),
    ensures
        match verify_round_step::<E, T>(
            old(state)@,
            *setup,
            old(builder)@.absorbed,
            old(builder)@.first_messages[idx as int],
            old(builder)@.second_messages[idx as int],
        ) {
            Some((v2, a2)) => r && final(state)@ == v2 && final(builder)@ == (VerifyBuilderView {
                absorbed: a2,
                ..old(builder)@
            }) && final(state).nu == old(state).nu - 1,
            None => !r,
        },
{
    proof {
        reveal(verify_round_step);
    }
    // First update transcript to derive challenges (mut borrow only)
    let first = match builder.process_first_reduce_message_at(idx) {
        Ok(c) => c,
        Err(_) => {
            return false;
        },
    };
    let second = match builder.process_second_reduce_message_at(idx) {
        Ok(c) => c,
        Err(_) => {
            return false;
        },
    };
    // Then borrow messages immutably for state update
    let m1 = builder.first_message(idx);
    let m2 = builder.second_message(idx);
    state.dory_reduce_verify_round(setup, m1, m2, first.beta, second.alpha)
}

/// Verifier analogue for the extended Dory-innerproduct
///
/// The proof must carry `num_rounds` messages of each kind, the state must expect exactly
/// `num_rounds` rounds, and the setup must hold Δ values for them.
#[verifier::loop_isolation(false)]
pub fn inner_product_verify<E: Pairing, T: Transcript<Scalar = <E::G1 as Group>::Scalar>>(
    builder: DoryVerifyBuilder<E::G1, E::G2, E::GT, <E::G1 as Group>::Scalar, T>,
    state: DoryVerifierState<E>,
    setup: &VerifierSetup<E>,
    num_rounds: usize,
) -> (r: Result<(), usize>) where
    E::G2: Group<Scalar = <E::G1 as Group>::Scalar>,
    E::GT: Group<Scalar = <E::G1 as Group>::Scalar>,

    requires
        num_rounds <= builder@.first_messages.len(),
        num_rounds <= builder@.second_messages.len(),
        state.nu == num_rounds,
        state.nu < setup.delta_1l@.len(),
        state.nu < setup.delta_1r@.len(),
        state.nu < setup.delta_2l@.len(),
        state.nu < setup.delta_2r@.len(),
    ensures
        match ip_verify_spec::<E, T>(state@, *setup, builder@, num_rounds as nat) {
            Ok(_) => r is Ok,
            Err(i) => r matches Err(j) && j == i,
        },
{
    let ghost bv0 = builder@;
    let ghost v0 = state@;
    let mut builder = builder;
    let mut state = state;
    // We first check each of the log(n) rounds until we reduce to a statement of size 1
    let mut idx: usize = 0;
    while idx < num_rounds
        invariant
            idx <= num_rounds,
            state.nu == num_rounds - idx,
            builder@.first_messages == bv0.first_messages,
            builder@.second_messages == bv0.second_messages,
            builder@.scalar_msg == bv0.scalar_msg,
            builder@.final_bases == bv0.final_bases,
            verify_rounds::<E, T>(
                v0,
                *setup,
                bv0.absorbed,
                bv0.first_messages,
                bv0.second_messages,
                0,
                num_rounds as nat,
            ) == verify_rounds::<E, T>(
                state@,
                *setup,
                builder@.absorbed,
                bv0.first_messages,
                bv0.second_messages,
                idx as nat,
                (num_rounds - idx) as nat,
            ),
        decreases num_rounds - idx,
    {
        let ghost vi = state@;
        let ghost ai = builder@.absorbed;
        if !verify_round(&mut builder, &mut state, setup, idx) {
            assert(verify_rounds::<E, T>(
                vi,
                *setup,
                ai,
                bv0.first_messages,
                bv0.second_messages,
                idx as nat,
                (num_rounds - idx) as nat,
            ) == Err::<(VerifierView<E>, Seq<u8>), nat>(idx as nat));
            return Err(idx);
        }
        idx = idx + 1;
    }
    // The prover absorbed its scalar-product message before the final challenge
    let _scalar_msg = builder.absorb_scalar_product_message();
    // Finalize (deferred pairing and linear checks)
    let finalize_challenge = match builder.challenge_finalize() {
        Ok(c) => c,
        Err(_) => {
            return Err(builder.rounds());
        },
    };
    match builder.process_final_bases() {
        Some(fb) => state.set_final_bases(fb.v1_final, fb.v2_final),
        None => {},
    }
    if !state.finalize(setup, finalize_challenge) {
        return Err(builder.rounds());
    }
    Ok(())
}

/* ---------------- laws ---------------- */

/// The reduce rounds only append messages: `k` of each kind, after those already there.
pub proof fn lemma_prove_rounds_append<E: Pairing, T: Transcript<Scalar = <E::G1 as Group>::Scalar>>(
    b: ProofBuilderView<E::G1, E::G2, E::GT, <E::G1 as Group>::Scalar>,
    s: ProverView<E>,
    setup: ProverSetup<E>,
    k: nat,
) where
    E::G2: Group<Scalar = <E::G1 as Group>::Scalar>,
    E::GT: Group<Scalar = <E::G1 as Group>::Scalar>,

    requires
        prove_rounds::<E, T>(b, s, setup, k) is Some,
    ensures
        ({
            let b2 = (prove_rounds::<E, T>(b, s, setup, k)->0).0;
            &&& b2.first_messages.len() == b.first_messages.len() + k
            &&& b2.second_messages.len() == b.second_messages.len() + k
            &&& b2.first_messages.subrange(0, b.first_messages.len() as int) == b.first_messages
            &&& b2.second_messages.subrange(0, b.second_messages.len() as int)
                == b.second_messages
            &&& b2.vmv_message == b.vmv_message
        }),
    decreases k,
{
    if k > 0 {
        reveal(prove_round_spec);
        let (b1, s1) = prove_round_spec::<E, T>(b, s, setup)->0;
        lemma_prove_rounds_append::<E, T>(b1, s1, setup, (k - 1) as nat);
        let b2 = (prove_rounds::<E, T>(b, s, setup, k)->0).0;
        assert(b2.first_messages.subrange(0, b.first_messages.len() as int) =~= b2.first_messages.subrange(
            0,
            b1.first_messages.len() as int,
        ).subrange(0, b.first_messages.len() as int));
        assert(b2.second_messages.subrange(0, b.second_messages.len() as int) =~= b2.second_messages.subrange(
            0,
            b1.second_messages.len() as int,
        ).subrange(0, b.second_messages.len() as int));
        assert(b1.first_messages.subrange(0, b.first_messages.len() as int) =~= b.first_messages);
        assert(b1.second_messages.subrange(0, b.second_messages.len() as int) =~= b.second_messages);
    }
}

/// Fiat–Shamir replay of the reduce rounds: a verifier whose transcript starts where the
/// prover's did, reading the messages the prover appended, draws a challenge in every round
/// (it never fails where the prover did not) and ends with the prover's transcript.
pub proof fn lemma_verifier_replays_rounds<E: Pairing, T: Transcript<Scalar = <E::G1 as Group>::Scalar>>(
    b: ProofBuilderView<E::G1, E::G2, E::GT, <E::G1 as Group>::Scalar>,
    s: ProverView<E>,
    psetup: ProverSetup<E>,
    v: VerifierView<E>,
    vsetup: VerifierSetup<E>,
    k: nat,
) where
    E::G2: Group<Scalar = <E::G1 as Group>::Scalar>,
    E::GT: Group<Scalar = <E::G1 as Group>::Scalar>,

    requires
        b.first_messages.len() == b.second_messages.len(),
        prove_rounds::<E, T>(b, s, psetup, k) is Some,
    ensures
        ({
            let b2 = (prove_rounds::<E, T>(b, s, psetup, k)->0).0;
            verify_rounds::<E, T>(
                v,
                vsetup,
                b.absorbed,
                b2.first_messages,
                b2.second_messages,
                b.first_messages.len(),
                k,
            ) matches Ok((_, a2)) && a2 == b2.absorbed
        }),
    decreases k,
{
    if k > 0 {
        reveal(prove_round_spec);
        reveal(verify_round_step);
        let (b1, s1) = prove_round_spec::<E, T>(b, s, psetup)->0;
        let b2 = (prove_rounds::<E, T>(b, s, psetup, k)->0).0;
        let i = b.first_messages.len();
        lemma_prove_rounds_append::<E, T>(b1, s1, psetup, (k - 1) as nat);
        assert(b2.first_messages[i as int] == b2.first_messages.subrange(
            0,
            b1.first_messages.len() as int,
        )[i as int]);
        assert(b2.second_messages[i as int] == b2.second_messages.subrange(
            0,
            b1.second_messages.len() as int,
        )[i as int]);
        let v1 = (verify_round_step::<E, T>(
            v,
            vsetup,
            b.absorbed,
            b2.first_messages[i as int],
            b2.second_messages[i as int],
        )->0).0;
        lemma_verifier_replays_rounds::<E, T>(b1, s1, psetup, v1, vsetup, (k - 1) as nat);
    }
}

/// Fiat–Shamir replay of a whole proof: on a proof built by `inner_product_prove` from a fresh
/// builder, a verifier whose transcript starts where the prover's did draws every challenge the
/// prover drew, so it can only reject at the final check (with the number of rounds).
pub proof fn lemma_verifier_replays_proof<E: Pairing, T: Transcript<Scalar = <E::G1 as Group>::Scalar>>(
    b: ProofBuilderView<E::G1, E::G2, E::GT, <E::G1 as Group>::Scalar>,
    s: ProverView<E>,
    psetup: ProverSetup<E>,
    v: VerifierView<E>,
    vsetup: VerifierSetup<E>,
    k: nat,
) where
    E::G2: Group<Scalar = <E::G1 as Group>::Scalar>,
    E::GT: Group<Scalar = <E::G1 as Group>::Scalar>,

    requires
        b.first_messages.len() == 0,
        b.second_messages.len() == 0,
        ip_prove_spec::<E, T>(b, s, psetup, k) is Ok,
    ensures
        ({
            let p = ip_prove_spec::<E, T>(b, s, psetup, k)->Ok_0;
            let bv = VerifyBuilderView {
                first_messages: p.first_messages,
                second_messages: p.second_messages,
                scalar_msg: p.final_message->0,
                vmv_msg: p.vmv_message,
                final_bases: p.final_bases,
                absorbed: b.absorbed,
            };
            ip_verify_spec::<E, T>(v, vsetup, bv, k) matches Err(j) ==> j == k
        }),
{
    lemma_verifier_replays_rounds::<E, T>(b, s, psetup, v, vsetup, k);
    lemma_prove_rounds_append::<E, T>(b, s, psetup, k);
}

} // verus!
