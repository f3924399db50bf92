//! Dory follows an interactive model. Hence, a "proof" consists of some messages
//! between P and V. We use Prover and Verifier "builders" to manage these messages
//! and the fiat-shamir challenges throughout the implementation.
//!
//! Both builders absorb every message into their transcript in the same framing (see the
//! `*_absorb` functions below), so a verifier that replays a proof derives the prover's
//! challenges.
use vstd::prelude::*;
use vstd::string::StringSliceAdditionalSpecFns;

use crate::error::DoryError;
use crate::messages::{
    FinalBasesMessage, FinalizeChallenge, FirstReduceChallenge, FirstReduceMessage,
    FoldScalarsChallenge, ScalarProductChallenge, ScalarProductMessage, SecondReduceChallenge,
    SecondReduceMessage, VMVMessage,
};
use crate::primitives::arithmetic::{Field, Group};
use crate::primitives::bn254::Fr;
use crate::primitives::toy_transcript::ToyTranscript;
use crate::primitives::transcript::Transcript;
use crate::protocol::recursion_prelude::ExponentiationSteps;
use crate::protocol::setup::copy_vec;

verus! {

/* ---------------- what the transcripts absorb ---------------- */

/// The bytes absorbed for a labelled group element.
pub open spec fn group_frame<T: Transcript, G: Group>(label: Seq<u8>, g: G) -> Seq<u8> {
    T::frame(label, g.bytes_spec())
}

/// The bytes absorbed for a [`FirstReduceMessage`].
pub open spec fn first_reduce_absorb<T: Transcript, G1: Group, G2: Group, GT: Group>(
    m: FirstReduceMessage<G1, G2, GT>,
) -> Seq<u8> {
    group_frame::<T, GT>("d1_left".spec_bytes(), m.d1_left) + group_frame::<T, GT>(
        "d1_right".spec_bytes(),
        m.d1_right,
    ) + group_frame::<T, GT>("d2_left".spec_bytes(), m.d2_left) + group_frame::<T, GT>(
        "d2_right".spec_bytes(),
        m.d2_right,
    ) + group_frame::<T, G1>("e1_beta".spec_bytes(), m.e1_beta) + group_frame::<T, G2>(
        "e2_beta".spec_bytes(),
        m.e2_beta,
    )
}

/// The bytes absorbed for a [`SecondReduceMessage`].
pub open spec fn second_reduce_absorb<T: Transcript, G1: Group, G2: Group, GT: Group>(
    m: SecondReduceMessage<G1, G2, GT>,
) -> Seq<u8> {
    group_frame::<T, GT>("c_plus".spec_bytes(), m.c_plus) + group_frame::<T, GT>(
        "c_minus".spec_bytes(),
        m.c_minus,
    ) + group_frame::<T, G1>("e1_plus".spec_bytes(), m.e1_plus) + group_frame::<T, G1>(
        "e1_minus".spec_bytes(),
        m.e1_minus,
    ) + group_frame::<T, G2>("e2_plus".spec_bytes(), m.e2_plus) + group_frame::<T, G2>(
        "e2_minus".spec_bytes(),
        m.e2_minus,
    )
}

/// The bytes absorbed for a [`ScalarProductMessage`].
pub open spec fn scalar_product_absorb<T: Transcript, G1: Group, G2: Group>(
    m: ScalarProductMessage<G1, G2>,
) -> Seq<u8> {
    group_frame::<T, G1>("e1".spec_bytes(), m.e1) + group_frame::<T, G2>(
        "e2".spec_bytes(),
        m.e2,
    )
}

/// The bytes absorbed for a [`VMVMessage`].
pub open spec fn vmv_absorb<T: Transcript, G1: Group, GT: Group>(m: VMVMessage<G1, GT>) -> Seq<
    u8,
> {
    group_frame::<T, GT>("d2_eval_vmv".spec_bytes(), m.d2) + group_frame::<T, G1>(
        "e1_eval_vmv".spec_bytes(),
        m.e1,
    )
}

/// The bytes absorbed for a [`FinalBasesMessage`].
pub open spec fn final_bases_absorb<T: Transcript, G1: Group, G2: Group>(
    m: FinalBasesMessage<G1, G2>,
) -> Seq<u8> {
    group_frame::<T, G1>("v1_final".spec_bytes(), m.v1_final) + group_frame::<T, G2>(
        "v2_final".spec_bytes(),
        m.v2_final,
    )
}

/// A challenge and its inverse, drawn for `label` after absorbing `absorbed`; `None` where the
/// transcript yields no invertible challenge.
pub open spec fn drawn_challenge<T: Transcript>(absorbed: Seq<u8>, label: Seq<u8>) -> Option<
    (T::Scalar, T::Scalar),
> {
    match T::challenge_of(absorbed, label) {
        Some(c) => match c.inv_spec() {
            Some(ci) => Some((c, ci)),
            None => None,
        },
        None => None,
    }
}

/// β for a first message, with the transcript after absorbing it.
pub open spec fn first_reduce_step<T: Transcript, G1: Group, G2: Group, GT: Group>(
    absorbed: Seq<u8>,
    m: FirstReduceMessage<G1, G2, GT>,
) -> Option<(FirstReduceChallenge<T::Scalar>, Seq<u8>)> {
    let a = absorbed + first_reduce_absorb::<T, G1, G2, GT>(m);
    match drawn_challenge::<T>(a, "first_reduce_beta".spec_bytes()) {
        Some((beta, beta_inverse)) => Some((FirstReduceChallenge { beta, beta_inverse }, a)),
        None => None,
    }
}

/// α for a second message, with the transcript after absorbing it.
pub open spec fn second_reduce_step<T: Transcript, G1: Group, G2: Group, GT: Group>(
    absorbed: Seq<u8>,
    m: SecondReduceMessage<G1, G2, GT>,
) -> Option<(SecondReduceChallenge<T::Scalar>, Seq<u8>)> {
    let a = absorbed + second_reduce_absorb::<T, G1, G2, GT>(m);
    match drawn_challenge::<T>(a, "second_reduce_alpha".spec_bytes()) {
        Some((alpha, alpha_inverse)) => Some((SecondReduceChallenge { alpha, alpha_inverse }, a)),
        None => None,
    }
}

/// γ, γ⁻¹ of Fold-Scalars.
pub open spec fn fold_scalars_challenge_of<T: Transcript>(absorbed: Seq<u8>) -> Option<
    FoldScalarsChallenge<T::Scalar>,
> {
    match drawn_challenge::<T>(absorbed, "fold_scalars_gamma".spec_bytes()) {
        Some((gamma, gamma_inverse)) => Some(FoldScalarsChallenge { gamma, gamma_inverse }),
        None => None,
    }
}

/// d, d⁻¹ of Scalar-Product.
pub open spec fn scalar_product_challenge_of<T: Transcript>(absorbed: Seq<u8>) -> Option<
    ScalarProductChallenge<T::Scalar>,
> {
    match drawn_challenge::<T>(absorbed, "scalar_product_d".spec_bytes()) {
        Some((d, d_inverse)) => Some(ScalarProductChallenge { d, d_inverse }),
        None => None,
    }
}

/// γ₁, γ₂ of the final check.
pub open spec fn finalize_challenge_of<T: Transcript>(absorbed: Seq<u8>) -> Option<
    FinalizeChallenge<T::Scalar>,
> {
    match (
        T::challenge_of(absorbed, "finalize_gamma_1".spec_bytes()),
        T::challenge_of(absorbed, "finalize_gamma_2".spec_bytes()),
    ) {
        (Some(gamma_1), Some(gamma_2)) => Some(FinalizeChallenge { gamma_1, gamma_2 }),
        _ => None,
    }
}

/// Draws a challenge for `label` together with its inverse.
fn draw_challenge<T: Transcript>(transcript: &mut T, label: &str) -> (r: Option<
    (T::Scalar, T::Scalar),
>)
    ensures
        final(transcript).absorbed() == old(transcript).absorbed(),
        r == drawn_challenge::<T>(old(transcript).absorbed(), label.spec_bytes()),
        r matches Some((c, ci)) ==> c.mul_spec(ci) == T::Scalar::one_spec(),
{
    match transcript.challenge_scalar(label.as_bytes()) {
        Some(c) => match c.inv() {
            Some(ci) => Some((c, ci)),
            None => None,
        },
        None => None,
    }
}

/// Absorbs a [`FirstReduceMessage`].
fn absorb_first_reduce<T: Transcript, G1: Group, G2: Group, GT: Group>(
    transcript: &mut T,
    m: &FirstReduceMessage<G1, G2, GT>,
)
    ensures
        final(transcript).absorbed() == old(transcript).absorbed() + first_reduce_absorb::<
            T,
            G1,
            G2,
            GT,
        >(*m),
{
    transcript.append_group("d1_left".as_bytes(), &m.d1_left);
    transcript.append_group("d1_right".as_bytes(), &m.d1_right);
    transcript.append_group("d2_left".as_bytes(), &m.d2_left);
    transcript.append_group("d2_right".as_bytes(), &m.d2_right);
    transcript.append_group("e1_beta".as_bytes(), &m.e1_beta);
    transcript.append_group("e2_beta".as_bytes(), &m.e2_beta);
    assert(transcript.absorbed() =~= old(transcript).absorbed() + first_reduce_absorb::<
        T,
        G1,
        G2,
        GT,
    >(*m));
}

/// Absorbs a [`SecondReduceMessage`].
fn absorb_second_reduce<T: Transcript, G1: Group, G2: Group, GT: Group>(
    transcript: &mut T,
    m: &SecondReduceMessage<G1, G2, GT>,
)
    ensures
        final(transcript).absorbed() == old(transcript).absorbed() + second_reduce_absorb::<
            T,
            G1,
            G2,
            GT,
        >(*m),
{
    transcript.append_group("c_plus".as_bytes(), &m.c_plus);
    transcript.append_group("c_minus".as_bytes(), &m.c_minus);
    transcript.append_group("e1_plus".as_bytes(), &m.e1_plus);
    transcript.append_group("e1_minus".as_bytes(), &m.e1_minus);
    transcript.append_group("e2_plus".as_bytes(), &m.e2_plus);
    transcript.append_group("e2_minus".as_bytes(), &m.e2_minus);
    assert(transcript.absorbed() =~= old(transcript).absorbed() + second_reduce_absorb::<
        T,
        G1,
        G2,
        GT,
    >(*m));
}

/// Absorbs a [`ScalarProductMessage`].
fn absorb_scalar_product<T: Transcript, G1: Group, G2: Group>(
    transcript: &mut T,
    m: &ScalarProductMessage<G1, G2>,
)
    ensures
        final(transcript).absorbed() == old(transcript).absorbed() + scalar_product_absorb::<
            T,
            G1,
            G2,
        >(*m),
{
    transcript.append_group("e1".as_bytes(), &m.e1);
    transcript.append_group("e2".as_bytes(), &m.e2);
    assert(transcript.absorbed() =~= old(transcript).absorbed() + scalar_product_absorb::<
        T,
        G1,
        G2,
    >(*m));
}

/// Absorbs a [`VMVMessage`].
fn absorb_vmv<T: Transcript, G1: Group, GT: Group>(transcript: &mut T, m: &VMVMessage<G1, GT>)
    ensures
        final(transcript).absorbed() == old(transcript).absorbed() + vmv_absorb::<T, G1, GT>(*m),
{
    transcript.append_group("d2_eval_vmv".as_bytes(), &m.d2);
    transcript.append_group("e1_eval_vmv".as_bytes(), &m.e1);
    assert(transcript.absorbed() =~= old(transcript).absorbed() + vmv_absorb::<T, G1, GT>(*m));
}

/// Absorbs a [`FinalBasesMessage`].
fn absorb_final_bases<T: Transcript, G1: Group, G2: Group>(
    transcript: &mut T,
    m: &FinalBasesMessage<G1, G2>,
)
    ensures
        final(transcript).absorbed() == old(transcript).absorbed() + final_bases_absorb::<
            T,
            G1,
            G2,
        >(*m),
{
    transcript.append_group("v1_final".as_bytes(), &m.v1_final);
    transcript.append_group("v2_final".as_bytes(), &m.v2_final);
    assert(transcript.absorbed() =~= old(transcript).absorbed() + final_bases_absorb::<
        T,
        G1,
        G2,
    >(*m));
}

/// Draws γ₁, γ₂ of the final check.
fn draw_finalize<T: Transcript>(transcript: &mut T) -> (r: Option<FinalizeChallenge<T::Scalar>>)
    ensures
        final(transcript).absorbed() == old(transcript).absorbed(),
        r == finalize_challenge_of::<T>(old(transcript).absorbed()),
{
    let g1 = transcript.challenge_scalar("finalize_gamma_1".as_bytes());
    let g2 = transcript.challenge_scalar("finalize_gamma_2".as_bytes());
    match (g1, g2) {
        (Some(gamma_1), Some(gamma_2)) => Some(FinalizeChallenge { gamma_1, gamma_2 }),
        _ => None,
    }
}

/* ---------------- the proof ---------------- */

/// A serializable proof struct that contains all the messages exchanged
pub struct DoryProof<G1, G2, GT> {
    /// First prover messages for each round
    pub first_messages: Vec<FirstReduceMessage<G1, G2, GT>>,
    /// Second prover messages for each round
    pub second_messages: Vec<SecondReduceMessage<G1, G2, GT>>,
    /// Final scalar product message
    pub final_message: Option<ScalarProductMessage<G1, G2>>,
    /// Vector-matrix-vector message (for PCS)
    pub vmv_message: Option<VMVMessage<G1, GT>>,
    /// The base-case group elements after the reduce rounds
    pub final_bases: Option<FinalBasesMessage<G1, G2>>,
    /// GT exponentiation steps for recursion
    pub gt_exponentiation_steps: Option<Vec<ExponentiationSteps>>,
}

/// A copy of optional recursion steps.
fn copy_steps(s: &Option<Vec<ExponentiationSteps>>) -> (r: Option<Vec<ExponentiationSteps>>)
    ensures
        steps_view(r) == steps_view(*s),
{
    match s {
        Some(v) => Some(copy_vec(v)),
        None => None,
    }
}

/// The contents of optional recursion steps.
pub open spec fn steps_view(s: Option<Vec<ExponentiationSteps>>) -> Option<Seq<ExponentiationSteps>> {
    match s {
        Some(v) => Some(v@),
        None => None,
    }
}

/// The contents of a proof builder: the messages collected so far and what its transcript has
/// absorbed.
pub struct ProofBuilderView<G1, G2, GT, Scalar> {
    pub first_messages: Seq<FirstReduceMessage<G1, G2, GT>>,
    pub second_messages: Seq<SecondReduceMessage<G1, G2, GT>>,
    pub final_message: Option<ScalarProductMessage<G1, G2>>,
    pub vmv_message: Option<VMVMessage<G1, GT>>,
    pub final_bases: Option<FinalBasesMessage<G1, G2>>,
    pub gt_exponentiation_steps: Option<Seq<ExponentiationSteps>>,
    pub s1_final: Option<Scalar>,
    pub s2_final: Option<Scalar>,
    pub absorbed: Seq<u8>,
}

/// Concrete ProofBuilder to collect messages and perform transcript tasks
#[verifier::reject_recursive_types(Scalar)]
pub struct DoryProofBuilder<G1, G2, GT, Scalar, T> where
    G1: Group<Scalar = Scalar>,
    G2: Group<Scalar = Scalar>,
    GT: Group<Scalar = Scalar>,
    Scalar: Field,
    T: Transcript<Scalar = Scalar>,
 {
    /// First prover message for round i
    pub first_messages: Vec<FirstReduceMessage<G1, G2, GT>>,
    /// Second prover message for round i
    pub second_messages: Vec<SecondReduceMessage<G1, G2, GT>>,
    /// Last Scalar product message at end of protocol
    pub final_message: Option<ScalarProductMessage<G1, G2>>,
    /// vector-matrix-vector message, used to transform general dory into PCS
    pub vmv_message: Option<VMVMessage<G1, GT>>,
    /// The base-case group elements sent after the final challenge
    pub final_bases: Option<FinalBasesMessage<G1, G2>>,
    /// GT exponentiation steps for recursion
    pub gt_exponentiation_steps: Option<Vec<ExponentiationSteps>>,
    /// Final s1 scalar value
    pub s1_final: Option<Scalar>,
    /// Final s2 scalar value
    pub s2_final: Option<Scalar>,
    /// Fiat shamir
    pub transcript: T,
}

impl<G1, G2, GT, Scalar, T> View for DoryProofBuilder<G1, G2, GT, Scalar, T> where
    G1: Group<Scalar = Scalar>,
    G2: Group<Scalar = Scalar>,
    GT: Group<Scalar = Scalar>,
    Scalar: Field,
    T: Transcript<Scalar = Scalar>,
 {
    type V = ProofBuilderView<G1, G2, GT, Scalar>;

    open spec fn view(&self) -> ProofBuilderView<G1, G2, GT, Scalar> {
        ProofBuilderView {
            first_messages: self.first_messages@,
            second_messages: self.second_messages@,
            final_message: self.final_message,
            vmv_message: self.vmv_message,
            final_bases: self.final_bases,
            gt_exponentiation_steps: steps_view(self.gt_exponentiation_steps),
            s1_final: self.s1_final,
            s2_final: self.s2_final,
            absorbed: self.transcript.absorbed(),
        }
    }
}

/// A builder over a transcript that has absorbed `absorbed`, with no message yet.
pub open spec fn empty_builder_view<G1, G2, GT, Scalar>(absorbed: Seq<u8>) -> ProofBuilderView<
    G1,
    G2,
    GT,
    Scalar,
> {
    ProofBuilderView {
        first_messages: Seq::empty(),
        second_messages: Seq::empty(),
        final_message: None,
        vmv_message: None,
        final_bases: None,
        gt_exponentiation_steps: None,
        s1_final: None,
        s2_final: None,
        absorbed,
    }
}

/// A builder holding the messages of `proof`, over a transcript that has absorbed `absorbed`.
pub open spec fn proof_builder_view<G1, G2, GT, Scalar>(
    proof: DoryProof<G1, G2, GT>,
    absorbed: Seq<u8>,
) -> ProofBuilderView<G1, G2, GT, Scalar> {
    ProofBuilderView {
        first_messages: proof.first_messages@,
        second_messages: proof.second_messages@,
        final_message: proof.final_message,
        vmv_message: proof.vmv_message,
        final_bases: proof.final_bases,
        gt_exponentiation_steps: steps_view(proof.gt_exponentiation_steps),
        s1_final: None,
        s2_final: None,
        absorbed,
    }
}

impl<G1, G2, GT> DoryProof<G1, G2, GT> {
    /// The proof carries the same messages as the builder view `b`.
    pub open spec fn holds_messages_of<Scalar>(self, b: ProofBuilderView<G1, G2, GT, Scalar>) -> bool {
        &&& self.first_messages@ == b.first_messages
        &&& self.second_messages@ == b.second_messages
        &&& self.final_message == b.final_message
        &&& self.vmv_message == b.vmv_message
        &&& self.final_bases == b.final_bases
        &&& steps_view(self.gt_exponentiation_steps) == b.gt_exponentiation_steps
    }
}

/// The number of group elements of each kind in a proof.
#[derive(Copy, Clone, Debug, PartialEq, Eq)]
pub struct ProofStats {
    /// Number of rounds
    pub rounds: usize,
    /// First reduce messages
    pub first_messages: usize,
    /// Second reduce messages
    pub second_messages: usize,
    /// Whether the final message is present
    pub has_final_message: bool,
    /// Whether the VMV message is present
    pub has_vmv_message: bool,
    /// G1 elements in the proof
    pub g1_elements: u128,
    /// G2 elements in the proof
    pub g2_elements: u128,
    /// GT elements in the proof
    pub gt_elements: u128,
}

impl<G1, G2, GT, Scalar, T> DoryProofBuilder<G1, G2, GT, Scalar, T> where
    G1: Group<Scalar = Scalar>,
    G2: Group<Scalar = Scalar>,
    GT: Group<Scalar = Scalar>,
    Scalar: Field,
    T: Transcript<Scalar = Scalar>,
 {
    /// Constructor from new transcript (without setup for non-recursion mode)
    pub fn new(transcript: T) -> (r: Self)
        ensures
            r@ == empty_builder_view::<G1, G2, GT, Scalar>(transcript.absorbed()),
            r.transcript == transcript,
    {
        Self {
            first_messages: Vec::new(),
            second_messages: Vec::new(),
            final_message: None,
            vmv_message: None,
            final_bases: None,
            gt_exponentiation_steps: None,
            s1_final: None,
            s2_final: None,
            transcript,
        }
    }

    /// Build a serializable Dory proof
    pub fn build(&self) -> (r: DoryProof<G1, G2, GT>)
        ensures
            r.holds_messages_of(self@),
    {
        DoryProof {
            first_messages: copy_vec(&self.first_messages),
            second_messages: copy_vec(&self.second_messages),
            final_message: self.final_message,
            vmv_message: self.vmv_message,
            final_bases: self.final_bases,
            gt_exponentiation_steps: copy_steps(&self.gt_exponentiation_steps),
        }
    }

    /// Create a DoryProofBuilder from a DoryProof and a fresh transcript
    pub fn from_proof(proof: DoryProof<G1, G2, GT>, transcript: T) -> (r: Self)
        ensures
            r@ == proof_builder_view::<G1, G2, GT, Scalar>(proof, transcript.absorbed()),
            r.transcript == transcript,
    {
        Self {
            first_messages: proof.first_messages,
            second_messages: proof.second_messages,
            final_message: proof.final_message,
            vmv_message: proof.vmv_message,
            final_bases: proof.final_bases,
            gt_exponentiation_steps: proof.gt_exponentiation_steps,
            s1_final: None,
            s2_final: None,
            transcript,
        }
    }

    /// Create a DoryProofBuilder from a DoryProof with a default transcript
    pub fn from_proof_no_transcript(proof: DoryProof<G1, G2, GT>) -> (r: Self) where T: Default
        ensures
            r@ == proof_builder_view::<G1, G2, GT, Scalar>(proof, r@.absorbed),
            call_ensures(T::default, (), r.transcript),
    {
        Self::from_proof(proof, T::default())
    }

    /// Append a [`FirstReduceMessage`] to the proof and transcript and return a
    /// [`FirstReduceChallenge`] drawn from the transcript; `Err(ZeroChallenge)` where the
    /// transcript yields no invertible β.
    pub fn append_first_reduce_message(self, message: FirstReduceMessage<G1, G2, GT>) -> (r:
        Result<(FirstReduceChallenge<Scalar>, Self), DoryError>)
        ensures
            match first_reduce_step::<T, G1, G2, GT>(self@.absorbed, message) {
                Some((c, a)) => r matches Ok((c2, b)) && c2 == c && b@ == (ProofBuilderView {
                    first_messages: self@.first_messages.push(message),
                    absorbed: a,
                    ..self@
                }),
                None => r == Err::<(FirstReduceChallenge<Scalar>, Self), DoryError>(
                    DoryError::ZeroChallenge,
                ),
            },
            r matches Ok((c, _)) ==> c.beta.mul_spec(c.beta_inverse) == Scalar::one_spec(),
    {
        let mut b = self;
        absorb_first_reduce(&mut b.transcript, &message);
        match draw_challenge(&mut b.transcript, "first_reduce_beta") {
            Some((beta, beta_inverse)) => {
                b.first_messages.push(message);
                Ok((FirstReduceChallenge { beta, beta_inverse }, b))
            },
            None => Err(DoryError::ZeroChallenge),
        }
    }

    /// Append a [`SecondReduceMessage`] to the proof and transcript and return a
    /// [`SecondReduceChallenge`] drawn from the transcript; `Err(ZeroChallenge)` where the
    /// transcript yields no invertible α.
    pub fn append_second_reduce_message(self, message: SecondReduceMessage<G1, G2, GT>) -> (r:
        Result<(SecondReduceChallenge<Scalar>, Self), DoryError>)
        ensures
            match second_reduce_step::<T, G1, G2, GT>(self@.absorbed, message) {
                Some((c, a)) => r matches Ok((c2, b)) && c2 == c && b@ == (ProofBuilderView {
                    second_messages: self@.second_messages.push(message),
                    absorbed: a,
                    ..self@
                }),
                None => r == Err::<(SecondReduceChallenge<Scalar>, Self), DoryError>(
                    DoryError::ZeroChallenge,
                ),
            },
            r matches Ok((c, _)) ==> c.alpha.mul_spec(c.alpha_inverse) == Scalar::one_spec(),
    {
        let mut b = self;
        absorb_second_reduce(&mut b.transcript, &message);
        match draw_challenge(&mut b.transcript, "second_reduce_alpha") {
            Some((alpha, alpha_inverse)) => {
                b.second_messages.push(message);
                Ok((SecondReduceChallenge { alpha, alpha_inverse }, b))
            },
            None => Err(DoryError::ZeroChallenge),
        }
    }

    /// Draw a [`FoldScalarsChallenge`] from the transcript.
    pub fn challenge_fold_scalars(self) -> (r: Result<(FoldScalarsChallenge<Scalar>, Self), DoryError>)
        ensures
            match fold_scalars_challenge_of::<T>(self@.absorbed) {
                Some(c) => r matches Ok((c2, b)) && c2 == c && b@ == self@,
                None => r == Err::<(FoldScalarsChallenge<Scalar>, Self), DoryError>(
                    DoryError::ZeroChallenge,
                ),
            },
            r matches Ok((c, _)) ==> c.gamma.mul_spec(c.gamma_inverse) == Scalar::one_spec(),
    {
        let mut b = self;
        match draw_challenge(&mut b.transcript, "fold_scalars_gamma") {
            Some((gamma, gamma_inverse)) => Ok((FoldScalarsChallenge { gamma, gamma_inverse }, b)),
            None => Err(DoryError::ZeroChallenge),
        }
    }

    /// Draw a [`ScalarProductChallenge`] from the transcript.
    pub fn challenge_scalar_product_scalars(self) -> (r: Result<
        (ScalarProductChallenge<Scalar>, Self),
        DoryError,
    >)
        ensures
            match scalar_product_challenge_of::<T>(self@.absorbed) {
                Some(c) => r matches Ok((c2, b)) && c2 == c && b@ == self@,
                None => r == Err::<(ScalarProductChallenge<Scalar>, Self), DoryError>(
                    DoryError::ZeroChallenge,
                ),
            },
            r matches Ok((c, _)) ==> c.d.mul_spec(c.d_inverse) == Scalar::one_spec(),
    {
        let mut b = self;
        match draw_challenge(&mut b.transcript, "scalar_product_d") {
            Some((d, d_inverse)) => Ok((ScalarProductChallenge { d, d_inverse }, b)),
            None => Err(DoryError::ZeroChallenge),
        }
    }

    /// Draw the batching challenges γ₁, γ₂ of the final check; the prover sends no message here,
    /// it keeps its transcript in step with the verifier's.
    pub fn challenge_finalize(self) -> (r: Result<(FinalizeChallenge<Scalar>, Self), DoryError>)
        ensures
            match finalize_challenge_of::<T>(self@.absorbed) {
                Some(c) => r matches Ok((c2, b)) && c2 == c && b@ == self@,
                None => r == Err::<(FinalizeChallenge<Scalar>, Self), DoryError>(
                    DoryError::ZeroChallenge,
                ),
            },
    {
        let mut b = self;
        match draw_finalize(&mut b.transcript) {
            Some(c) => Ok((c, b)),
            None => Err(DoryError::ZeroChallenge),
        }
    }

    /// Append a [`ScalarProductMessage`] to the proof and transcript.
    /// The optional scalars are used for recursion tracking.
    pub fn append_scalar_product_message(
        self,
        message: ScalarProductMessage<G1, G2>,
        s1_final: Option<Scalar>,
        s2_final: Option<Scalar>,
    ) -> (r: Self)
        ensures
            r@ == (ProofBuilderView {
                final_message: Some(message),
                s1_final,
                s2_final,
                absorbed: self@.absorbed + scalar_product_absorb::<T, G1, G2>(message),
                ..self@
            }),
    {
        let mut b = self;
        absorb_scalar_product(&mut b.transcript, &message);
        b.s1_final = s1_final;
        b.s2_final = s2_final;
        b.final_message = Some(message);
        b
    }

    /// Append a [`VMVMessage`] to the proof and transcript.
    pub fn append_vmv_message(self, message: VMVMessage<G1, GT>) -> (r: Self)
        ensures
            r@ == (ProofBuilderView {
                vmv_message: Some(message),
                absorbed: self@.absorbed + vmv_absorb::<T, G1, GT>(message),
                ..self@
            }),
    {
        let mut b = self;
        absorb_vmv(&mut b.transcript, &message);
        b.vmv_message = Some(message);
        b
    }

    /// Append the base-case group elements to the proof and transcript.
    pub fn append_final_bases(self, message: FinalBasesMessage<G1, G2>) -> (r: Self)
        ensures
            r@ == (ProofBuilderView {
                final_bases: Some(message),
                absorbed: self@.absorbed + final_bases_absorb::<T, G1, G2>(message),
                ..self@
            }),
    {
        let mut b = self;
        absorb_final_bases(&mut b.transcript, &message);
        b.final_bases = Some(message);
        b
    }

    /// Statistics about the proof structure: the number of rounds and of group elements of each
    /// kind (E₁β, E₁₊, E₁₋, E₁ and the VMV E₁ in G1; E₂β, E₂₊, E₂₋ and E₂ in G2; D₁L, D₁R, D₂L,
    /// D₂R, C₊, C₋ and the VMV C and D₂ in GT).
    pub fn proof_stats(&self) -> (r: ProofStats)
        ensures
            r.rounds == self.first_messages@.len(),
            r.first_messages == self.first_messages@.len(),
            r.second_messages == self.second_messages@.len(),
            r.has_final_message == self.final_message is Some,
            r.has_vmv_message == self.vmv_message is Some,
            r.g1_elements == self.first_messages@.len() + 2 * self.second_messages@.len() + (
            if self.final_message is Some {
                1int
            } else {
                0int
            }) + (if self.vmv_message is Some {
                1int
            } else {
                0int
            }),
            r.g2_elements == self.first_messages@.len() + 2 * self.second_messages@.len() + (
            if self.final_message is Some {
                1int
            } else {
                0int
            }),
            r.gt_elements == 4 * self.first_messages@.len() + 2 * self.second_messages@.len() + (
            if self.vmv_message is Some {
                2int
            } else {
                0int
            }),
    {
        let n1 = self.first_messages.len() as u128;
        let n2 = self.second_messages.len() as u128;
        let fin: u128 = if self.final_message.is_some() {
            1
        } else {
            0
        };
        let vmv: u128 = if self.vmv_message.is_some() {
            1
        } else {
            0
        };
        ProofStats {
            rounds: self.first_messages.len(),
            first_messages: self.first_messages.len(),
            second_messages: self.second_messages.len(),
            has_final_message: self.final_message.is_some(),
            has_vmv_message: self.vmv_message.is_some(),
            g1_elements: n1 + 2 * n2 + fin + vmv,
            g2_elements: n1 + 2 * n2 + fin,
            gt_elements: 4 * n1 + 2 * n2 + 2 * vmv,
        }
    }
}

impl<G1, G2, GT> DoryProofBuilder<G1, G2, GT, Fr, ToyTranscript> where
    G1: Group<Scalar = Fr>,
    G2: Group<Scalar = Fr>,
    GT: Group<Scalar = Fr>,
 {
    /// Constructor to create with ToyTranscript for testing (non-recursion)
    pub fn new_with_toy_transcript(domain: &[u8]) -> (r: Self)
        ensures
            r@ == empty_builder_view::<G1, G2, GT, Fr>(domain@),
    {
        Self::new(ToyTranscript::new(domain))
    }
}

/* ---------------- the verifier's side ---------------- */

/// The contents of a verify builder: the messages of the proof being checked and what the
/// verifier's transcript has absorbed.
pub struct VerifyBuilderView<G1, G2, GT> {
    pub first_messages: Seq<FirstReduceMessage<G1, G2, GT>>,
    pub second_messages: Seq<SecondReduceMessage<G1, G2, GT>>,
    pub scalar_msg: ScalarProductMessage<G1, G2>,
    pub vmv_msg: Option<VMVMessage<G1, GT>>,
    pub final_bases: Option<FinalBasesMessage<G1, G2>>,
    pub absorbed: Seq<u8>,
}

/// Concrete Dory verify builder
#[verifier::reject_recursive_types(Scalar)]
pub struct DoryVerifyBuilder<G1, G2, GT, Scalar, T> where
    G1: Group<Scalar = Scalar>,
    G2: Group<Scalar = Scalar>,
    GT: Group<Scalar = Scalar>,
    Scalar: Field,
    T: Transcript<Scalar = Scalar>,
 {
    transcript: T,
    first_messages: Vec<FirstReduceMessage<G1, G2, GT>>,
    second_messages: Vec<SecondReduceMessage<G1, G2, GT>>,
    scalar_msg: ScalarProductMessage<G1, G2>,
    vmv_msg: Option<VMVMessage<G1, GT>>,
    final_bases: Option<FinalBasesMessage<G1, G2>>,
}

impl<G1, G2, GT, Scalar, T> View for DoryVerifyBuilder<G1, G2, GT, Scalar, T> where
    G1: Group<Scalar = Scalar>,
    G2: Group<Scalar = Scalar>,
    GT: Group<Scalar = Scalar>,
    Scalar: Field,
    T: Transcript<Scalar = Scalar>,
 {
    type V = VerifyBuilderView<G1, G2, GT>;

    closed spec fn view(&self) -> VerifyBuilderView<G1, G2, GT> {
        VerifyBuilderView {
            first_messages: self.first_messages@,
            second_messages: self.second_messages@,
            scalar_msg: self.scalar_msg,
            vmv_msg: self.vmv_msg,
            final_bases: self.final_bases,
            absorbed: self.transcript.absorbed(),
        }
    }
}

/// The verify builder of a proof, over a transcript that has absorbed `absorbed`.
pub open spec fn verify_builder_view<G1, G2, GT>(
    proof: DoryProof<G1, G2, GT>,
    absorbed: Seq<u8>,
) -> VerifyBuilderView<G1, G2, GT> {
    VerifyBuilderView {
        first_messages: proof.first_messages@,
        second_messages: proof.second_messages@,
        scalar_msg: proof.final_message->0,
        vmv_msg: proof.vmv_message,
        final_bases: proof.final_bases,
        absorbed,
    }
}

/// The result of a reduce-round step: the challenge, or `ZeroChallenge`.
pub open spec fn step_result<C>(step: Option<(C, Seq<u8>)>) -> Result<C, DoryError> {
    match step {
        Some((c, _)) => Ok(c),
        None => Err(DoryError::ZeroChallenge),
    }
}

/// The result of a challenge draw: the challenge, or `ZeroChallenge`.
pub open spec fn draw_result<C>(c: Option<C>) -> Result<C, DoryError> {
    match c {
        Some(c) => Ok(c),
        None => Err(DoryError::ZeroChallenge),
    }
}

impl<G1, G2, GT, Scalar, T> DoryVerifyBuilder<G1, G2, GT, Scalar, T> where
    G1: Group<Scalar = Scalar>,
    G2: Group<Scalar = Scalar>,
    GT: Group<Scalar = Scalar>,
    Scalar: Field,
    T: Transcript<Scalar = Scalar>,
 {
    /// Build from a serializable `DoryProof` and a fresh transcript.
    /// This is useful when you have a serialized proof that you want to verify.
    /// The proof must have a final (scalar product) message.
    pub fn new_from_dory_proof(proof: DoryProof<G1, G2, GT>, transcript: T) -> (r: Self)
        requires
            proof.final_message is Some,
        ensures
            r@ == verify_builder_view(proof, transcript.absorbed()),
    {
        let scalar_msg = match proof.final_message {
            Some(m) => m,
            None => {
                proof { assert(false); }
                ScalarProductMessage { e1: G1::identity(), e2: G2::identity() }
            },
        };
        Self {
            transcript,
            first_messages: proof.first_messages,
            second_messages: proof.second_messages,
            scalar_msg,
            vmv_msg: proof.vmv_message,
            final_bases: proof.final_bases,
        }
    }

    /// Build from a *proof* (any concrete `DoryProofBuilder`) and a fresh transcript.
    /// The caller is responsible for providing a fresh transcript with the correct domain.
    /// The proof must contain the scalar-product message.
    pub fn new_from_proof(proof: DoryProofBuilder<G1, G2, GT, Scalar, T>, transcript: T) -> (r: Self)
        requires
            proof.final_message is Some,
        ensures
            r@ == (VerifyBuilderView {
                first_messages: proof@.first_messages,
                second_messages: proof@.second_messages,
                scalar_msg: proof@.final_message->0,
                vmv_msg: proof@.vmv_message,
                final_bases: proof@.final_bases,
                absorbed: transcript.absorbed(),
            }),
    {
        let DoryProofBuilder { first_messages, second_messages, final_message, vmv_message, final_bases, .. } = proof;
        let scalar_msg = match final_message {
            Some(m) => m,
            None => {
                proof { assert(false); }
                ScalarProductMessage { e1: G1::identity(), e2: G2::identity() }
            },
        };
        Self { transcript, first_messages, second_messages, scalar_msg, vmv_msg: vmv_message, final_bases }
    }

    /// Number of rounds (nu)
    pub fn rounds(&self) -> (r: usize)
        ensures
            r == self@.first_messages.len(),
    {
        self.first_messages.len()
    }

    /// Returns the messages for round[idx]
    pub fn take_round(&self, idx: usize) -> (r: (
        FirstReduceMessage<G1, G2, GT>,
        SecondReduceMessage<G1, G2, GT>,
    ))
        requires
            idx < self@.first_messages.len(),
            idx < self@.second_messages.len(),
        ensures
            r == (self@.first_messages[idx as int], self@.second_messages[idx as int]),
    {
        (self.first_messages[idx], self.second_messages[idx])
    }

    /// Getter for first msg
    pub fn first_message(&self, idx: usize) -> (r: &FirstReduceMessage<G1, G2, GT>)
        requires
            idx < self@.first_messages.len(),
        ensures
            *r == self@.first_messages[idx as int],
    {
        &self.first_messages[idx]
    }

    /// Getter for second msg
    pub fn second_message(&self, idx: usize) -> (r: &SecondReduceMessage<G1, G2, GT>)
        requires
            idx < self@.second_messages.len(),
        ensures
            *r == self@.second_messages[idx as int],
    {
        &self.second_messages[idx]
    }

    /// Consume a FirstReduceMessage, append it to the transcript,
    /// and return β, β⁻¹.
    pub fn process_first_reduce_message(&mut self, m: &FirstReduceMessage<G1, G2, GT>) -> (r: Result<
        FirstReduceChallenge<Scalar>,
        DoryError,
    >)
        ensures
            final(self)@ == (VerifyBuilderView {
                absorbed: old(self)@.absorbed + first_reduce_absorb::<T, G1, G2, GT>(*m),
                ..old(self)@
            }),
            r == step_result(first_reduce_step::<T, G1, G2, GT>(old(self)@.absorbed, *m)),
            r matches Ok(c) ==> c.beta.mul_spec(c.beta_inverse) == Scalar::one_spec(),
    {
        absorb_first_reduce(&mut self.transcript, m);
        match draw_challenge(&mut self.transcript, "first_reduce_beta") {
            Some((beta, beta_inverse)) => Ok(FirstReduceChallenge { beta, beta_inverse }),
            None => Err(DoryError::ZeroChallenge),
        }
    }

    /// Consume the FirstReduceMessage of round `idx`, append it to the transcript, and return
    /// β, β⁻¹.
    pub fn process_first_reduce_message_at(&mut self, idx: usize) -> (r: Result<
        FirstReduceChallenge<Scalar>,
        DoryError,
    >)
        requires
            idx < old(self)@.first_messages.len(),
        ensures
            final(self)@ == (VerifyBuilderView {
                absorbed: old(self)@.absorbed + first_reduce_absorb::<T, G1, G2, GT>(
                    old(self)@.first_messages[idx as int],
                ),
                ..old(self)@
            }),
            r == step_result(
                first_reduce_step::<T, G1, G2, GT>(
                    old(self)@.absorbed,
                    old(self)@.first_messages[idx as int],
                ),
            ),
    {
        let m = self.first_messages[idx];
        self.process_first_reduce_message(&m)
    }

    /// Consume a SecondReduceMessage, append, and return α, α⁻¹.
    pub fn process_second_reduce_message(&mut self, m: &SecondReduceMessage<G1, G2, GT>) -> (r:
        Result<SecondReduceChallenge<Scalar>, DoryError>)
        ensures
            final(self)@ == (VerifyBuilderView {
                absorbed: old(self)@.absorbed + second_reduce_absorb::<T, G1, G2, GT>(*m),
                ..old(self)@
            }),
            r == step_result(second_reduce_step::<T, G1, G2, GT>(old(self)@.absorbed, *m)),
            r matches Ok(c) ==> c.alpha.mul_spec(c.alpha_inverse) == Scalar::one_spec(),
    {
        absorb_second_reduce(&mut self.transcript, m);
        match draw_challenge(&mut self.transcript, "second_reduce_alpha") {
            Some((alpha, alpha_inverse)) => Ok(SecondReduceChallenge { alpha, alpha_inverse }),
            None => Err(DoryError::ZeroChallenge),
        }
    }

    /// Consume the SecondReduceMessage of round `idx`, append it to the transcript, and return
    /// α, α⁻¹.
    pub fn process_second_reduce_message_at(&mut self, idx: usize) -> (r: Result<
        SecondReduceChallenge<Scalar>,
        DoryError,
    >)
        requires
            idx < old(self)@.second_messages.len(),
        ensures
            final(self)@ == (VerifyBuilderView {
                absorbed: old(self)@.absorbed + second_reduce_absorb::<T, G1, G2, GT>(
                    old(self)@.second_messages[idx as int],
                ),
                ..old(self)@
            }),
            r == step_result(
                second_reduce_step::<T, G1, G2, GT>(
                    old(self)@.absorbed,
                    old(self)@.second_messages[idx as int],
                ),
            ),
    {
        let m = self.second_messages[idx];
        self.process_second_reduce_message(&m)
    }

    /// Derive γ, γ⁻¹ after all rounds are ingested.
    pub fn challenge_fold_scalars(&mut self) -> (r: Result<FoldScalarsChallenge<Scalar>, DoryError>)
        ensures
            final(self)@ == old(self)@,
            r == draw_result(fold_scalars_challenge_of::<T>(old(self)@.absorbed)),
            r matches Ok(c) ==> c.gamma.mul_spec(c.gamma_inverse) == Scalar::one_spec(),
    {
        match draw_challenge(&mut self.transcript, "fold_scalars_gamma") {
            Some((gamma, gamma_inverse)) => Ok(FoldScalarsChallenge { gamma, gamma_inverse }),
            None => Err(DoryError::ZeroChallenge),
        }
    }

    /// Derive d, d^-1 after all rounds are ingested.
    pub fn challenge_scalar_product_scalars(&mut self) -> (r: Result<
        ScalarProductChallenge<Scalar>,
        DoryError,
    >)
        ensures
            final(self)@ == old(self)@,
            r == draw_result(scalar_product_challenge_of::<T>(old(self)@.absorbed)),
            r matches Ok(c) ==> c.d.mul_spec(c.d_inverse) == Scalar::one_spec(),
    {
        match draw_challenge(&mut self.transcript, "scalar_product_d") {
            Some((d, d_inverse)) => Ok(ScalarProductChallenge { d, d_inverse }),
            None => Err(DoryError::ZeroChallenge),
        }
    }

    /// Derive the batching challenges γ₁, γ₂ of the final check.
    pub fn challenge_finalize(&mut self) -> (r: Result<FinalizeChallenge<Scalar>, DoryError>)
        ensures
            final(self)@ == old(self)@,
            r == draw_result(finalize_challenge_of::<T>(old(self)@.absorbed)),
    {
        match draw_finalize(&mut self.transcript) {
            Some(c) => Ok(c),
            None => Err(DoryError::ZeroChallenge),
        }
    }

    /// Provide the final scalar-product message that the prover sent.
    pub fn process_scalar_product_message(&self) -> (r: &ScalarProductMessage<G1, G2>)
        ensures
            *r == self@.scalar_msg,
    {
        &self.scalar_msg
    }

    /// Append the final scalar-product message to the transcript, as the prover did, and
    /// return it.
    pub fn absorb_scalar_product_message(&mut self) -> (r: ScalarProductMessage<G1, G2>)
        ensures
            r == old(self)@.scalar_msg,
            final(self)@ == (VerifyBuilderView {
                absorbed: old(self)@.absorbed + scalar_product_absorb::<T, G1, G2>(
                    old(self)@.scalar_msg,
                ),
                ..old(self)@
            }),
    {
        let m = self.scalar_msg;
        absorb_scalar_product(&mut self.transcript, &m);
        m
    }

    /// Process a [`VMVMessage`]: append it to the transcript and return it. The proof must
    /// carry one.
    pub fn process_vmv_message(&mut self) -> (r: VMVMessage<G1, GT>)
        requires
            old(self)@.vmv_msg is Some,
        ensures
            r == old(self)@.vmv_msg->0,
            final(self)@ == (VerifyBuilderView {
                absorbed: old(self)@.absorbed + vmv_absorb::<T, G1, GT>(r),
                ..old(self)@
            }),
    {
        let message = match self.vmv_msg {
            Some(m) => m,
            None => {
                proof { assert(false); }
                VMVMessage { d2: GT::identity(), e1: G1::identity() }
            },
        };
        absorb_vmv(&mut self.transcript, &message);
        message
    }

    /// Process the base-case group elements: append them to the transcript, as the prover did,
    /// and return them; `None` where the proof carries none.
    pub fn process_final_bases(&mut self) -> (r: Option<FinalBasesMessage<G1, G2>>)
        ensures
            r == old(self)@.final_bases,
            final(self)@ == (VerifyBuilderView {
                absorbed: match r {
                    Some(m) => old(self)@.absorbed + final_bases_absorb::<T, G1, G2>(m),
                    None => old(self)@.absorbed,
                },
                ..old(self)@
            }),
    {
        match self.final_bases {
            Some(m) => {
                absorb_final_bases(&mut self.transcript, &m);
                Some(m)
            },
            None => None,
        }
    }
}

} // verus!
