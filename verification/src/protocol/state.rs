//! Defines the structures which manage state during interactive execution of the prover and verifier
use vstd::prelude::*;

use crate::primitives::arithmetic::{Group, Pairing};

verus! {

/// The mathematical content of a prover state.
pub struct ProverView<E: Pairing> where E::G2: Group<Scalar = <E::G1 as Group>::Scalar> {
    pub v1: Seq<E::G1>,
    pub v2: Seq<E::G2>,
    pub s1: Seq<<E::G1 as Group>::Scalar>,
    pub s2: Seq<<E::G1 as Group>::Scalar>,
    pub nu: nat,
    pub v2_scalars: Option<Seq<<E::G1 as Group>::Scalar>>,
}

impl<E: Pairing> ProverView<E> where E::G2: Group<Scalar = <E::G1 as Group>::Scalar> {
    /// All four vectors have length `2^nu`: the state is ready for `nu` more rounds.
    pub open spec fn sizes_ok(self) -> bool {
        &&& self.nu < usize::BITS
        &&& self.v1.len() == vstd::arithmetic::power2::pow2(self.nu)
        &&& self.v2.len() == vstd::arithmetic::power2::pow2(self.nu)
        &&& self.s1.len() == vstd::arithmetic::power2::pow2(self.nu)
        &&& self.s2.len() == vstd::arithmetic::power2::pow2(self.nu)
    }
}

/// The mathematical content of a verifier state.
pub struct VerifierView<E: Pairing> where E::G2: Group<Scalar = <E::G1 as Group>::Scalar> {
    pub d_1: E::GT,
    pub d_2: E::GT,
    pub d_2_orig: E::GT,
    pub e_1: E::G1,
    pub e_1_orig: E::G1,
    pub e_2: E::G2,
    pub eval_point: Seq<<E::G1 as Group>::Scalar>,
    pub eval_point_left: Seq<<E::G1 as Group>::Scalar>,
    pub eval_point_right: Seq<<E::G1 as Group>::Scalar>,
    pub alpha_challenges: Seq<<E::G1 as Group>::Scalar>,
    pub v1_final: Option<E::G1>,
    pub v2_final: Option<E::G2>,
    pub round_num: nat,
    pub nu: nat,
}

/// --------- Concrete ProverState and VerifierState ---------------------
///
/// The prover state primarily stores the $v_i$ and $s_i$ vectors of the extended Dory
/// inner-product argument.
pub struct DoryProverState<E: Pairing> where
    E::G2: Group<Scalar = <E::G1 as Group>::Scalar>,
 {
    // these follow notation from the paper
    /// v1 - P witness
    pub v1: Vec<E::G1>,
    /// v2 - P witness
    pub v2: Vec<E::G2>,
    /// s1 - scalars for extended Dory IP (see Section 4)
    pub s1: Vec<<E::G1 as Group>::Scalar>,
    /// s2 - scalars for extended Dory IP (see Section 4)
    pub s2: Vec<<E::G1 as Group>::Scalar>,
    /// number of rounds
    pub nu: usize,
    /// Optional scalar vector v for PCS first-round optimization where v2 = v · Γ2_fin
    pub v2_scalars: Option<Vec<<E::G1 as Group>::Scalar>>,
}

impl<E: Pairing> View for DoryProverState<E> where
    E::G2: Group<Scalar = <E::G1 as Group>::Scalar>,
 {
    type V = ProverView<E>;

    open spec fn view(&self) -> ProverView<E> {
        ProverView {
            v1: self.v1@,
            v2: self.v2@,
            s1: self.s1@,
            s2: self.s2@,
            nu: self.nu as nat,
            v2_scalars: match self.v2_scalars {
                Some(vs) => Some(vs@),
                None => None,
            },
        }
    }
}

impl<E: Pairing> View for DoryVerifierState<E> where
    E::G2: Group<Scalar = <E::G1 as Group>::Scalar>,
 {
    type V = VerifierView<E>;

    open spec fn view(&self) -> VerifierView<E> {
        VerifierView {
            d_1: self.d_1,
            d_2: self.d_2,
            d_2_orig: self.d_2_orig,
            e_1: self.e_1,
            e_1_orig: self.e_1_orig,
            e_2: self.e_2,
            eval_point: self.eval_point@,
            eval_point_left: self.eval_point_left@,
            eval_point_right: self.eval_point_right@,
            alpha_challenges: self.alpha_challenges@,
            v1_final: self.v1_final,
            v2_final: self.v2_final,
            round_num: self.round_num as nat,
            nu: self.nu as nat,
        }
    }
}

impl<E: Pairing> DoryProverState<E> where E::G2: Group<Scalar = <E::G1 as Group>::Scalar> {
    /// Constructor
    pub fn new(
        v1: Vec<E::G1>,
        v2: Vec<E::G2>,
        s1: Vec<<E::G1 as Group>::Scalar>,
        s2: Vec<<E::G1 as Group>::Scalar>,
        nu: usize,
    ) -> (r: Self)
        ensures
            r@ == (ProverView::<E> {
                v1: v1@,
                v2: v2@,
                s1: s1@,
                s2: s2@,
                nu: nu as nat,
                v2_scalars: None,
            }),
    {
        Self { v1, v2, s1, s2, nu, v2_scalars: None }
    }

    /// Constructor with PCS first-round scalar vector for v2
    pub fn new_with_v2_scalars(
        v1: Vec<E::G1>,
        v2: Vec<E::G2>,
        s1: Vec<<E::G1 as Group>::Scalar>,
        s2: Vec<<E::G1 as Group>::Scalar>,
        v2_scalars: Vec<<E::G1 as Group>::Scalar>,
        nu: usize,
    ) -> (r: Self)
        ensures
            r@ == (ProverView::<E> {
                v1: v1@,
                v2: v2@,
                s1: s1@,
                s2: s2@,
                nu: nu as nat,
                v2_scalars: Some(v2_scalars@),
            }),
    {
        Self { v1, v2, s1, s2, nu, v2_scalars: Some(v2_scalars) }
    }
}

/// Verifier state.
/// We track each commitment to be mutated during the interactive protocol
pub struct DoryVerifierState<E: Pairing> where
    E::G2: Group<Scalar = <E::G1 as Group>::Scalar>,
 {
    /// The commitment to v1: <v1,Γ_2>.
    pub d_1: E::GT,
    /// The commitment to v2: <Γ_1,v2>.
    pub d_2: E::GT,
    /// D₂ as received from VMV-Reduce (kept unchanged for Nemo-Finalize)
    pub d_2_orig: E::GT,
    // extended use case:
    /// The commitment to s1: <v1,s2>.
    pub e_1: E::G1,
    /// E₁ as received from VMV-Reduce (kept unchanged for Nemo-Finalize)
    pub e_1_orig: E::G1,
    /// The commitment to s2: <s1,v2>.
    pub e_2: E::G2,
    /// We only store the underlying evaluation point, not the tensored vector
    pub eval_point: Vec<<E::G1 as Group>::Scalar>,
    /// The coordinates of the evaluation point that `s₁` is the evaluation vector of
    pub eval_point_left: Vec<<E::G1 as Group>::Scalar>,
    /// The coordinates of the evaluation point that `s₂` is the evaluation vector of
    pub eval_point_right: Vec<<E::G1 as Group>::Scalar>,
    /// Sequence of α challenges sampled across the IP reduction rounds
    pub alpha_challenges: Vec<<E::G1 as Group>::Scalar>,
    /// Base-case group elements provided by prover at the end of IP rounds
    pub v1_final: Option<E::G1>,
    /// Base-case group elements provided by prover at the end of IP rounds
    pub v2_final: Option<E::G2>,
    /// Current round number (should be sigma reduce rounds in total).
    pub round_num: usize,
    /// The number of reduce rounds still to be verified.
    pub nu: usize,
}

/// The verifier state built by `DoryVerifierState::new`.
pub open spec fn initial_verifier_view<E: Pairing>(
    d_1: E::GT,
    d_2: E::GT,
    e_1: E::G1,
    e_2: E::G2,
    eval_point: Seq<<E::G1 as Group>::Scalar>,
) -> VerifierView<E> where E::G2: Group<Scalar = <E::G1 as Group>::Scalar> {
    let half = (eval_point.len() / 2) as int;
    VerifierView {
        d_1,
        d_2,
        d_2_orig: d_2,
        e_1,
        e_1_orig: e_1,
        e_2,
        eval_point,
        eval_point_left: eval_point.subrange(0, half),
        eval_point_right: eval_point.subrange(half, eval_point.len() as int),
        alpha_challenges: Seq::empty(),
        v1_final: None,
        v2_final: None,
        round_num: (eval_point.len() + 1) / 2,
        nu: (eval_point.len() + 1) / 2,
    }
}

impl<E: Pairing> DoryVerifierState<E> where E::G2: Group<Scalar = <E::G1 as Group>::Scalar> {
    /// Constructor
    pub fn new(
        d_1: E::GT,
        d_2: E::GT,
        e_1: E::G1,
        e_2: E::G2,
        eval_point: Vec<<E::G1 as Group>::Scalar>,
    ) -> (r: Self)
        ensures
            r@ == initial_verifier_view::<E>(d_1, d_2, e_1, e_2, eval_point@),
    {
        let len = eval_point.len();
        let round_num = len / 2 + len % 2;
        let mut left_half: Vec<<E::G1 as Group>::Scalar> = Vec::new();
        let mut right_half: Vec<<E::G1 as Group>::Scalar> = Vec::new();
        let half = len / 2;
        let mut i: usize = 0;
        while i < len
            invariant
                i <= len,
                len == eval_point@.len(),
                half == len / 2,
                i <= half ==> left_half@ == eval_point@.subrange(0, i as int),
                i > half ==> left_half@ == eval_point@.subrange(0, half as int),
                i <= half ==> right_half@.len() == 0,
                i > half ==> right_half@ == eval_point@.subrange(half as int, i as int),
            decreases len - i,
        {
            if i < half {
                left_half.push(eval_point[i]);
                assert(left_half@ =~= eval_point@.subrange(0, (i + 1) as int));
            } else {
                right_half.push(eval_point[i]);
                assert(right_half@ =~= eval_point@.subrange(half as int, (i + 1) as int));
            }
            i = i + 1;
        }
        if len <= half {
            assert(right_half@ =~= eval_point@.subrange(half as int, len as int));
        }
        let alpha_challenges: Vec<<E::G1 as Group>::Scalar> = Vec::new();
        Self {
            d_1,
            d_2,
            d_2_orig: d_2,
            e_1,
            e_1_orig: e_1,
            e_2,
            eval_point,
            eval_point_left: left_half,
            eval_point_right: right_half,
            alpha_challenges,
            v1_final: None,
            v2_final: None,
            round_num,
            nu: round_num,
        }
    }
}

} // verus!
