//! Abstract algebra used by Dory: prime fields, groups, pairings and multi-scalar multiplication.
//!
//! Each trait carries a specification of its operations (`*_spec` functions). The verified
//! algorithms of this crate are stated over these specifications, and every implementation of a
//! trait inside this crate is verified against them.
use vstd::prelude::*;

verus! {

/// Field elements F_p
pub trait Field: Sized + Copy {
    /// The additive identity.
    spec fn zero_spec() -> Self;

    /// The multiplicative identity.
    spec fn one_spec() -> Self;

    /// Field addition.
    spec fn add_spec(self, rhs: Self) -> Self;

    /// Field subtraction.
    spec fn sub_spec(self, rhs: Self) -> Self;

    /// Field multiplication.
    spec fn mul_spec(self, rhs: Self) -> Self;

    /// Multiplicative inverse; `None` for zero and for any element without an inverse.
    spec fn inv_spec(self) -> Option<Self>;

    /// Embedding of an unsigned integer.
    spec fn from_u64_spec(val: u64) -> Self;

    /// Embedding of a signed integer.
    spec fn from_i64_spec(val: i64) -> Self;

    /// Canonical little-endian byte encoding.
    spec fn bytes_spec(self) -> Seq<u8>;

    /// Whether this is a well-formed (canonical) element; every element produced at run time is.
    spec fn wf_spec(self) -> bool;

    /// The results of the field operations, zero and one are well formed.
    proof fn lemma_ops_wf(a: Self, b: Self)
        ensures
            a.add_spec(b).wf_spec(),
            a.sub_spec(b).wf_spec(),
            a.mul_spec(b).wf_spec(),
            Self::zero_spec().wf_spec(),
            Self::one_spec().wf_spec(),
    ;

    /// `a · a⁻¹ == 1` wherever `a` has an inverse.
    proof fn lemma_mul_inverse(a: Self)
        requires
            a.wf_spec(),
        ensures
            a.inv_spec() matches Some(x) ==> a.mul_spec(x) == Self::one_spec(),
    ;

    /// `a * 1 == a`
    proof fn lemma_mul_one(a: Self)
        requires
            a.wf_spec(),
        ensures
            a.mul_spec(Self::one_spec()) == a,
    ;

    /// `a * 0 == 0`
    proof fn lemma_mul_zero(a: Self)
        ensures
            a.mul_spec(Self::zero_spec()) == Self::zero_spec(),
    ;

    /// `a - 0 == a`
    proof fn lemma_sub_zero(a: Self)
        requires
            a.wf_spec(),
        ensures
            a.sub_spec(Self::zero_spec()) == a,
    ;

    /// `1 - 1 == 0`
    proof fn lemma_one_sub_one()
        ensures
            Self::one_spec().sub_spec(Self::one_spec()) == Self::zero_spec(),
    ;

    /// `(a + b) + c == a + (b + c)`
    proof fn lemma_add_assoc(a: Self, b: Self, c: Self)
        ensures
            a.add_spec(b).add_spec(c) == a.add_spec(b.add_spec(c)),
    ;

    /// `a + b == b + a`
    proof fn lemma_add_comm(a: Self, b: Self)
        ensures
            a.add_spec(b) == b.add_spec(a),
    ;

    /// `(a * b) * c == a * (b * c)`
    proof fn lemma_mul_assoc(a: Self, b: Self, c: Self)
        ensures
            a.mul_spec(b).mul_spec(c) == a.mul_spec(b.mul_spec(c)),
    ;

    /// `a * b == b * a`
    proof fn lemma_mul_comm(a: Self, b: Self)
        ensures
            a.mul_spec(b) == b.mul_spec(a),
    ;

    /// `a * (b + c) == a * b + a * c`
    proof fn lemma_mul_add_distrib(a: Self, b: Self, c: Self)
        ensures
            a.mul_spec(b.add_spec(c)) == a.mul_spec(b).add_spec(a.mul_spec(c)),
    ;

    /// `a + 0 == a`
    proof fn lemma_add_zero(a: Self)
        requires
            a.wf_spec(),
        ensures
            a.add_spec(Self::zero_spec()) == a,
    ;

    fn zero() -> (r: Self)
        ensures
            r == Self::zero_spec(),
    ;

    fn one() -> (r: Self)
        ensures
            r == Self::one_spec(),
    ;

    fn is_zero(&self) -> (b: bool)
        ensures
            b == (*self == Self::zero_spec()),
    ;

    fn add(&self, rhs: &Self) -> (r: Self)
        ensures
            r == self.add_spec(*rhs),
    ;

    fn sub(&self, rhs: &Self) -> (r: Self)
        ensures
            r == self.sub_spec(*rhs),
    ;

    fn mul(&self, rhs: &Self) -> (r: Self)
        ensures
            r == self.mul_spec(*rhs),
    ;

    fn inv(&self) -> (r: Option<Self>)
        ensures
            r == self.inv_spec(),
            r is None <==> *self == Self::zero_spec(),
            r matches Some(x) ==> self.mul_spec(x) == Self::one_spec(),
    ;

    fn from_u64(val: u64) -> (r: Self)
        ensures
            r == Self::from_u64_spec(val),
    ;

    fn from_i64(val: i64) -> (r: Self)
        ensures
            r == Self::from_i64_spec(val),
    ;

    /// Equality of field elements.
    fn equals(&self, other: &Self) -> (b: bool)
        ensures
            b == (*self == *other),
    ;

    /// Canonical little-endian byte encoding.
    fn to_bytes_le(&self) -> (r: Vec<u8>)
        ensures
            r@ == self.bytes_spec(),
    ;
}

/// Group elements G1 / G2 / GT
pub trait Group: Sized + Copy {
    type Scalar: Field;

    /// The neutral element.
    spec fn identity_spec() -> Self;

    /// The group law.
    spec fn add_spec(self, rhs: Self) -> Self;

    /// The inverse element.
    spec fn neg_spec(self) -> Self;

    /// Scalar multiplication.
    spec fn scale_spec(self, k: Self::Scalar) -> Self;

    /// Canonical compressed byte encoding.
    spec fn bytes_spec(self) -> Seq<u8>;

    /// Whether this is a well-formed element; every element produced at run time is.
    spec fn wf_spec(self) -> bool;

    /// The identity, sums and multiples are well formed.
    proof fn lemma_group_wf(a: Self, b: Self, k: Self::Scalar)
        ensures
            Self::identity_spec().wf_spec(),
            a.add_spec(b).wf_spec(),
            a.scale_spec(k).wf_spec(),
    ;

    /// `(a + b) + c == a + (b + c)`
    proof fn lemma_add_assoc(a: Self, b: Self, c: Self)
        ensures
            a.add_spec(b).add_spec(c) == a.add_spec(b.add_spec(c)),
    ;

    /// `a + b == b + a`
    proof fn lemma_add_comm(a: Self, b: Self)
        ensures
            a.add_spec(b) == b.add_spec(a),
    ;

    /// `a + 0 == a`
    proof fn lemma_add_identity(a: Self)
        requires
            a.wf_spec(),
        ensures
            a.add_spec(Self::identity_spec()) == a,
    ;

    /// `a·0 == 0`
    proof fn lemma_scale_zero(a: Self)
        ensures
            a.scale_spec(Self::Scalar::zero_spec()) == Self::identity_spec(),
    ;

    /// `a·1 == a`
    proof fn lemma_scale_one(a: Self)
        requires
            a.wf_spec(),
        ensures
            a.scale_spec(Self::Scalar::one_spec()) == a,
    ;

    /// `0·k == 0`
    proof fn lemma_identity_scale(k: Self::Scalar)
        ensures
            Self::identity_spec().scale_spec(k) == Self::identity_spec(),
    ;

    /// `(a + b)·k == a·k + b·k`
    proof fn lemma_scale_add(a: Self, b: Self, k: Self::Scalar)
        ensures
            a.add_spec(b).scale_spec(k) == a.scale_spec(k).add_spec(b.scale_spec(k)),
    ;

    /// `a·(k + l) == a·k + a·l`
    proof fn lemma_scale_field_add(a: Self, k: Self::Scalar, l: Self::Scalar)
        ensures
            a.scale_spec(k.add_spec(l)) == a.scale_spec(k).add_spec(a.scale_spec(l)),
    ;

    /// `(a·k)·l == a·(k·l)`
    proof fn lemma_scale_mul(a: Self, k: Self::Scalar, l: Self::Scalar)
        ensures
            a.scale_spec(k).scale_spec(l) == a.scale_spec(k.mul_spec(l)),
    ;

    fn identity() -> (r: Self)
        ensures
            r == Self::identity_spec(),
    ;

    fn add(&self, rhs: &Self) -> (r: Self)
        ensures
            r == self.add_spec(*rhs),
    ;

    fn neg(&self) -> (r: Self)
        ensures
            r == self.neg_spec(),
    ;

    fn scale(&self, k: &Self::Scalar) -> (r: Self)
        ensures
            r == self.scale_spec(*k),
    ;

    /// Equality of group elements.
    fn equals(&self, other: &Self) -> (b: bool)
        ensures
            b == (*self == *other),
    ;

    /// Canonical compressed byte encoding.
    fn to_bytes(&self) -> (r: Vec<u8>)
        ensures
            r@ == self.bytes_spec(),
    ;
}

/// `Π e(ps[i], qs[i])` over the first `n` pairs for the map `e`, written additively and folded
/// from the identity.
pub open spec fn pairing_sum<G1, G2, GT: Group>(
    e: spec_fn(G1, G2) -> GT,
    ps: Seq<G1>,
    qs: Seq<G2>,
    n: nat,
) -> GT
    decreases n,
{
    if n == 0 {
        GT::identity_spec()
    } else {
        pairing_sum(e, ps, qs, (n - 1) as nat).add_spec(e(ps[n - 1], qs[n - 1]))
    }
}

/// Pairing group G1, G2, GT
pub trait Pairing: Sized {
    type G1: Group;
    type G2: Group<Scalar = <Self::G1 as Group>::Scalar>;
    type GT: Group<Scalar = <Self::G1 as Group>::Scalar>;

    /// e : G1 × G2 → GT
    spec fn pair_spec(p: Self::G1, q: Self::G2) -> Self::GT;

    /// Pairings are well formed.
    proof fn lemma_pair_wf(p: Self::G1, q: Self::G2)
        ensures
            Self::pair_spec(p, q).wf_spec(),
    ;

    /// `e(0, q) == 0`
    proof fn lemma_pair_identity_left(q: Self::G2)
        ensures
            Self::pair_spec(Self::G1::identity_spec(), q) == Self::GT::identity_spec(),
    ;

    /// `e(p + q, r) == e(p, r) + e(q, r)`
    proof fn lemma_pair_add_left(p: Self::G1, q: Self::G1, r: Self::G2)
        ensures
            Self::pair_spec(p.add_spec(q), r) == Self::pair_spec(p, r).add_spec(
                Self::pair_spec(q, r),
            ),
    ;

    /// `e(p, q + r) == e(p, q) + e(p, r)`
    proof fn lemma_pair_add_right(p: Self::G1, q: Self::G2, r: Self::G2)
        ensures
            Self::pair_spec(p, q.add_spec(r)) == Self::pair_spec(p, q).add_spec(
                Self::pair_spec(p, r),
            ),
    ;

    /// `e(p·k, q) == e(p, q)·k`
    proof fn lemma_pair_scale_left(p: Self::G1, q: Self::G2, k: <Self::G1 as Group>::Scalar)
        ensures
            Self::pair_spec(p.scale_spec(k), q) == Self::pair_spec(p, q).scale_spec(k),
    ;

    /// `e(p, q·k) == e(p, q)·k`
    proof fn lemma_pair_scale_right(p: Self::G1, q: Self::G2, k: <Self::G1 as Group>::Scalar)
        ensures
            Self::pair_spec(p, q.scale_spec(k)) == Self::pair_spec(p, q).scale_spec(k),
    ;

    /// e : G1 × G2 → GT
    fn pair(p: &Self::G1, q: &Self::G2) -> (r: Self::GT)
        ensures
            r == Self::pair_spec(*p, *q),
    ;

    /// Multi-pairing: computes the product of pairings
    /// Π e(p_i, q_i)
    fn multi_pair(ps: &[Self::G1], qs: &[Self::G2]) -> (r: Self::GT)
        requires
            ps@.len() == qs@.len(),
        ensures
            r == pairing_sum(|p: Self::G1, q: Self::G2| Self::pair_spec(p, q), ps@, qs@, ps@.len()),
    {
        if ps.len() == 0 {
            return Self::GT::identity();
        }
        let mut acc = Self::GT::identity();
        let mut i: usize = 0;
        while i < ps.len()
            invariant
                ps@.len() == qs@.len(),
                i <= ps@.len(),
                acc == pairing_sum(
                    |p: Self::G1, q: Self::G2| Self::pair_spec(p, q),
                    ps@,
                    qs@,
                    i as nat,
                ),
            decreases ps@.len() - i,
        {
            let e = Self::pair(&ps[i], &qs[i]);
            acc = acc.add(&e);
            i = i + 1;
        }
        acc
    }
}

/// `Σ bases[i]·scalars[i]` over the first `n` terms, folded from the identity.
pub open spec fn msm_spec<G: Group>(bases: Seq<G>, scalars: Seq<G::Scalar>, n: nat) -> G
    decreases n,
{
    if n == 0 {
        G::identity_spec()
    } else {
        msm_spec::<G>(bases, scalars, (n - 1) as nat).add_spec(
            bases[n - 1].scale_spec(scalars[n - 1]),
        )
    }
}

/// Multi-scalar multiplication and its vectorised variants.
pub trait MultiScalarMul<G: Group> {
    /// `Σ bases[i]·scalars[i]`
    fn msm(bases: &[G], scalars: &[G::Scalar]) -> (r: G)
        requires
            bases@.len() == scalars@.len(),
        ensures
            r == msm_spec::<G>(bases@, scalars@, bases@.len()),
    ;

    /// Fixed-base vectorized scalar multiplication where the same base is scaled by each scalar individually
    /// Computes: [base * scalars[0], base * scalars[1], ..., base * scalars[n-1]]
    fn fixed_base_vector_msm(base: &G, scalars: &[G::Scalar]) -> (r: Vec<G>)
        ensures
            r@.len() == scalars@.len(),
            forall|i: int| 0 <= i < scalars@.len() ==> r@[i] == base.scale_spec(#[trigger] scalars@[i]),
    {
        let mut out: Vec<G> = Vec::new();
        let mut i: usize = 0;
        while i < scalars.len()
            invariant
                i <= scalars@.len(),
                out@.len() == i,
                forall|j: int| 0 <= j < i ==> out@[j] == base.scale_spec(#[trigger] scalars@[j]),
            decreases scalars@.len() - i,
        {
            out.push(base.scale(&scalars[i]));
            i = i + 1;
        }
        out
    }

    /// Fixed-scalar variable-base vectorized multiplication with add: vs[i] = vs[i] + scalar * bases[i]
    /// Modifies vs in place by adding the scaled bases
    fn fixed_scalar_variable_with_add(bases: &[G], vs: &mut Vec<G>, scalar: &G::Scalar)
        requires
            bases@.len() == old(vs)@.len(),
        ensures
            final(vs)@.len() == old(vs)@.len(),
            forall|i: int|
                0 <= i < old(vs)@.len() ==> final(vs)@[i] == (#[trigger] old(vs)@[i]).add_spec(
                    bases@[i].scale_spec(*scalar),
                ),
    {
        let ghost orig = vs@;
        let mut i: usize = 0;
        while i < vs.len()
            invariant
                bases@.len() == orig.len(),
                vs@.len() == orig.len(),
                i <= orig.len(),
                forall|j: int|
                    0 <= j < i ==> vs@[j] == (#[trigger] orig[j]).add_spec(
                        bases@[j].scale_spec(*scalar),
                    ),
                forall|j: int| i <= j < orig.len() ==> vs@[j] == orig[j],
            decreases orig.len() - i,
        {
            let t = bases[i].scale(scalar);
            let nv = vs[i].add(&t);
            vs.set(i, nv);
            i = i + 1;
        }
    }

    /// Fixed-scalar vectorized multiplication with add: vs[i] = scalar * vs[i] + addends[i]
    /// Modifies vs in place by scaling each element and adding the corresponding addend
    fn fixed_scalar_scale_with_add(vs: &mut Vec<G>, addends: &[G], scalar: &G::Scalar)
        requires
            addends@.len() == old(vs)@.len(),
        ensures
            final(vs)@.len() == old(vs)@.len(),
            forall|i: int|
                0 <= i < old(vs)@.len() ==> final(vs)@[i] == (#[trigger] old(vs)@[i]).scale_spec(
                    *scalar,
                ).add_spec(addends@[i]),
    {
        let ghost orig = vs@;
        let mut i: usize = 0;
        while i < vs.len()
            invariant
                addends@.len() == orig.len(),
                vs@.len() == orig.len(),
                i <= orig.len(),
                forall|j: int|
                    0 <= j < i ==> vs@[j] == (#[trigger] orig[j]).scale_spec(*scalar).add_spec(
                        addends@[j],
                    ),
                forall|j: int| i <= j < orig.len() ==> vs@[j] == orig[j],
            decreases orig.len() - i,
        {
            let t = vs[i].scale(scalar);
            let nv = t.add(&addends[i]);
            vs.set(i, nv);
            i = i + 1;
        }
    }
}

/// Multi-scalar multiplication by the schoolbook method: one scaling and one addition per term.
pub struct DummyMsm;

impl<G: Group> MultiScalarMul<G> for DummyMsm {
    fn msm(bases: &[G], scalars: &[G::Scalar]) -> (r: G) {
        let mut acc = G::identity();
        let mut i: usize = 0;
        while i < bases.len()
            invariant
                bases@.len() == scalars@.len(),
                i <= bases@.len(),
                acc == msm_spec::<G>(bases@, scalars@, i as nat),
            decreases bases@.len() - i,
        {
            let t = bases[i].scale(&scalars[i]);
            acc = acc.add(&t);
            i = i + 1;
        }
        acc
    }
}

} // verus!
