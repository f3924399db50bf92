//! The messages exchanged by the prover and the verifier, and the verifier challenges.
use vstd::prelude::*;

verus! {

/// The first prover message in the Dory-Reduce portion (Section 3.2) of the Dory protocol.
///
/// This consists of $D_{1L}$, $D_{1R}$, $D_{2L}$, $D_{2R}$, $E_{1\beta}$, and $E_{2\beta}$.
#[derive(Copy, Clone, Debug, Default, Eq, Hash, PartialEq)]
pub struct FirstReduceMessage<G1, G2, GT> {
    /// $D_{1L}$
    pub d1_left: GT,
    /// $D_{1R}$
    pub d1_right: GT,
    /// $D_{2L}$
    pub d2_left: GT,
    /// $D_{2R}$
    pub d2_right: GT,
    /// $E_{1\beta}$ (extension - Section 4.2 of paper)
    pub e1_beta: G1,
    /// $E_{2\beta}$ (extension - Section 4.2 of paper)
    pub e2_beta: G2,
}

/// The the first verifier challenge in the Dory-Reduce portion (Section 3.2) of the Dory protocol.
///
/// The challenge, $\beta$, is a random scalar. Additionally, $\beta$ must be non-zero because
/// the protocol uses $\beta^{-1}$, which we also include here.
#[derive(Copy, Clone, Debug, Default, Eq, Hash, PartialEq)]
pub struct FirstReduceChallenge<Scalar> {
    /// $\beta$
    pub beta: Scalar,
    /// $\beta^{-1}$
    pub beta_inverse: Scalar,
}

/// The second prover message in the Dory-Reduce portion (Section 3.2) of the Dory protocol.
///
/// This consists of $C_+$, $C_-$, $E_{1+}$, $E_{1-}$, $E_{2+}$, and $E_{2-}$.
#[derive(Copy, Clone, Debug, Default, Eq, Hash, PartialEq)]
pub struct SecondReduceMessage<G1, G2, GT> {
    /// $C_+$
    pub c_plus: GT,
    /// $C_-$
    pub c_minus: GT,
    /// $E_{1+}$ (extension - Section 4.2 of paper)
    pub e1_plus: G1,
    /// $E_{1-}$ (extension - Section 4.2 of paper)
    pub e1_minus: G1,
    /// $E_{2+}$ (extension - Section 4.2 of paper)
    pub e2_plus: G2,
    /// $E_{2-}$ (extension - Section 4.2 of paper)
    pub e2_minus: G2,
}

/// The second verifier challenge in the Dory-Reduce portion (Section 3.2) of the Dory protocol.
///
/// The challenge, $\alpha$, is a random scalar. Additionally, $\alpha$ must be non-zero because
/// the protocol uses $\alpha^{-1}$, which we also include here.
#[derive(Copy, Clone, Debug, Default, Eq, Hash, PartialEq)]
pub struct SecondReduceChallenge<Scalar> {
    /// $\alpha$
    pub alpha: Scalar,
    /// $\alpha^{-1}$
    pub alpha_inverse: Scalar,
}

/// The verifier challenge in the Fold-Scalars portion (Section 4.1) of the Dory protocol.
///
/// The challenge, $\gamma$, is a random scalar. Additionally, $\gamma$ must be non-zero because
/// the protocol uses $\gamma^{-1}$, which we also include here.
#[derive(Copy, Clone, Debug, Default, Eq, Hash, PartialEq)]
pub struct FoldScalarsChallenge<Scalar> {
    /// $\gamma$
    pub gamma: Scalar,
    /// $\gamma^{-1}$
    pub gamma_inverse: Scalar,
}

/// The prover message in the Scalar-Product portion (Section 3.1) of the Dory protocol.
///
/// This consists of $E_1$ and $E_2$.
#[derive(Copy, Clone, Debug, Default, Eq, Hash, PartialEq)]
pub struct ScalarProductMessage<G1, G2> {
    /// $E_1$
    pub e1: G1,
    /// $E_2$
    pub e2: G2,
}

/// The verifier challenge of the Scalar-Product portion (Section 3.1): $d$ and $d^{-1}$.
#[derive(Copy, Clone, Debug, Default, Eq, Hash, PartialEq)]
pub struct ScalarProductChallenge<Scalar> {
    /// $d$
    pub d: Scalar,
    /// $d^{-1}$
    pub d_inverse: Scalar,
}

/// The pair of batching challenges $\gamma_1$, $\gamma_2$ of the final verification step.
#[derive(Copy, Clone, Debug, Default, Eq, Hash, PartialEq)]
pub struct FinalizeChallenge<Scalar> {
    /// $\gamma_1$
    pub gamma_1: Scalar,
    /// $\gamma_2$
    pub gamma_2: Scalar,
}

/// The base-case group elements $v_1'$, $v_2'$ that the prover holds after all reduce rounds.
#[derive(Copy, Clone, Debug, Default, Eq, Hash, PartialEq)]
pub struct FinalBasesMessage<G1, G2> {
    /// $v_1'$
    pub v1_final: G1,
    /// $v_2'$
    pub v2_final: G2,
}

/// The prover message of the Eval-VMV-RE protocol (Section 5): $D_2$ and $E_1$.
#[derive(Copy, Clone, Debug, Default, Eq, Hash, PartialEq)]
pub struct VMVMessage<G1, GT> {
    /// $D_2 = e(\langle \Gamma_1, v \rangle, \Gamma_{2,fin})$
    pub d2: GT,
    /// $E_1 = \langle T', L \rangle$
    pub e1: G1,
}

} // verus!
