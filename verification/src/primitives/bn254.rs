//! The scalar field `Fr` of the BN254 curve.
//!
//! An element is held as its canonical little-endian 64-bit limbs (the integer is always below the
//! field modulus). The arithmetic itself is done by `ark_bn254::Fr`; each call is a trusted
//! function whose contract is the modular operation it performs.
use ark_ff::Field as ArkField;
use ark_ff::{BigInt, BigInteger, PrimeField};
use ark_serialize::CanonicalSerialize;
use vstd::arithmetic::div_mod::*;
use vstd::arithmetic::power2::pow2;
use vstd::prelude::*;

use crate::primitives::arithmetic::{Field, Group, Pairing};

verus! {

/// The order of the BN254 scalar field (a prime).
pub open spec fn fr_modulus() -> nat {
    21888242871839275222246405745257275088548364400416034343698204186575808495617nat
}

/// The base of the limb representation, 2^64.
pub open spec fn limb_base() -> nat {
    0x1_0000_0000_0000_0000nat
}

/// The integer held by little-endian 64-bit limbs.
pub open spec fn limbs_value(l: [u64; 4]) -> nat {
    l[0] as nat + limb_base() * (l[1] as nat + limb_base() * (l[2] as nat + limb_base()
        * l[3] as nat))
}

/// The little-endian 64-bit limbs of an integer below 2^256.
pub open spec fn limbs_of(n: nat) -> [u64; 4] {
    let b = limb_base();
    [
        (n % b) as u64,
        ((n / b) % b) as u64,
        ((n / b / b) % b) as u64,
        ((n / b / b / b) % b) as u64,
    ]
}

/// The integer held by a little-endian byte string.
pub open spec fn le_bytes_value(s: Seq<u8>) -> nat
    decreases s.len(),
{
    if s.len() == 0 {
        0
    } else {
        s[0] as nat + 256 * le_bytes_value(s.drop_first())
    }
}

/// The 32-byte little-endian encoding of four 64-bit limbs.
pub open spec fn limbs_le_bytes(l: [u64; 4]) -> Seq<u8> {
    Seq::new(32, |i: int| ((l[i / 8] as nat / pow2((8 * (i % 8)) as nat)) % 256) as u8)
}

/// The multiplicative inverse of `a` modulo the field order.
pub open spec fn fr_inverse_value(a: nat) -> nat {
    (choose|x: nat| #[trigger] is_fr_inverse(a, x)) % fr_modulus()
}

/// `x` is an inverse of `a` modulo the field order.
pub open spec fn is_fr_inverse(a: nat, x: nat) -> bool {
    x < fr_modulus() && (a * x) % fr_modulus() == 1
}

/// An integer has at most one inverse below the field order: `x ≡ x·(a·y) = (a·x)·y ≡ y`.
proof fn lemma_fr_inverse_unique(a: nat, x: nat, y: nat)
    requires
        is_fr_inverse(a, x),
        is_fr_inverse(a, y),
    ensures
        x == y,
{
    let m = fr_modulus() as int;
    lemma_modulus_small();
    lemma_mul_mod_noop_right(x as int, (a * y) as int, m);
    lemma_mul_mod_noop_left((a * x) as int, y as int, m);
    assert(x * (a * y) == (a * x) * y) by (nonlinear_arith);
    lemma_small_mod(x, m as nat);
    lemma_small_mod(y, m as nat);
}

/// The residue of a signed integer modulo the field order.
pub open spec fn fr_signed_value(v: int) -> nat {
    if v >= 0 {
        (v % fr_modulus() as int) as nat
    } else {
        (fr_modulus() as int + v) as nat
    }
}

proof fn lemma_limbs_roundtrip(n: nat)
    requires
        n < limb_base() * limb_base() * limb_base() * limb_base(),
    ensures
        limbs_value(limbs_of(n)) == n,
{
    let b = limb_base() as int;
    let x = n as int;
    let q1 = x / b;
    let q2 = q1 / b;
    let q3 = q2 / b;
    lemma_fundamental_div_mod(x, b);
    lemma_fundamental_div_mod(q1, b);
    lemma_fundamental_div_mod(q2, b);
    lemma_mod_pos_bound(x, b);
    lemma_mod_pos_bound(q1, b);
    lemma_mod_pos_bound(q2, b);
    assert(q1 < b * b * b) by (nonlinear_arith)
        requires
            x == b * q1 + x % b,
            0 <= x % b,
            x < b * b * b * b,
            b > 0,
    ;
    assert(q2 < b * b) by (nonlinear_arith)
        requires
            q1 == b * q2 + q1 % b,
            0 <= q1 % b,
            q1 < b * b * b,
            b > 0,
    ;
    assert(q3 < b) by (nonlinear_arith)
        requires
            q2 == b * q3 + q2 % b,
            0 <= q2 % b,
            q2 < b * b,
            b > 0,
    ;
    assert(q1 >= 0 && q2 >= 0 && q3 >= 0) by (nonlinear_arith)
        requires
            x >= 0,
            b > 0,
            q1 == x / b,
            q2 == q1 / b,
            q3 == q2 / b,
    {
        lemma_div_pos_is_pos(x, b);
        lemma_div_pos_is_pos(q1, b);
        lemma_div_pos_is_pos(q2, b);
    }
    lemma_small_mod(q3 as nat, b as nat);
}

proof fn lemma_div_pos_is_pos(x: int, d: int)
    requires
        x >= 0,
        d > 0,
    ensures
        x / d >= 0,
{
}

proof fn lemma_modulus_small()
    ensures
        fr_modulus() < limb_base() * limb_base() * limb_base() * limb_base(),
        fr_modulus() > 1,
{
    assert(limb_base() * limb_base() * limb_base() * limb_base()
        == 0x1_0000_0000_0000_0000_0000_0000_0000_0000_0000_0000_0000_0000_0000_0000_0000_0000nat);
}

/// A canonical residue below the modulus has its limbs as its own representation.
proof fn lemma_canonical(n: nat)
    requires
        n < fr_modulus(),
    ensures
        limbs_value(limbs_of(n)) == n,
{
    lemma_modulus_small();
    lemma_limbs_roundtrip(n);
}

/// Adds in `ark_bn254::Fr`: the result is `(a + b) mod r` in canonical limbs.
#[verifier::external_body]
fn ark_fr_add(a: [u64; 4], b: [u64; 4]) -> (r: [u64; 4])
    requires
        limbs_value(a) < fr_modulus(),
        limbs_value(b) < fr_modulus(),
    ensures
        r == limbs_of((limbs_value(a) + limbs_value(b)) % fr_modulus()),
{
    let x = ark_bn254::Fr::from_bigint(BigInt::new(a)).unwrap();
    let y = ark_bn254::Fr::from_bigint(BigInt::new(b)).unwrap();
    (x + y).into_bigint().0
}

/// Subtracts in `ark_bn254::Fr`: the result is `(a - b) mod r` in canonical limbs.
#[verifier::external_body]
fn ark_fr_sub(a: [u64; 4], b: [u64; 4]) -> (r: [u64; 4])
    requires
        limbs_value(a) < fr_modulus(),
        limbs_value(b) < fr_modulus(),
    ensures
        r == limbs_of(((limbs_value(a) + fr_modulus()) - limbs_value(b)) as nat % fr_modulus()),
{
    let x = ark_bn254::Fr::from_bigint(BigInt::new(a)).unwrap();
    let y = ark_bn254::Fr::from_bigint(BigInt::new(b)).unwrap();
    (x - y).into_bigint().0
}

/// Multiplies in `ark_bn254::Fr`: the result is `(a * b) mod r` in canonical limbs.
#[verifier::external_body]
fn ark_fr_mul(a: [u64; 4], b: [u64; 4]) -> (r: [u64; 4])
    requires
        limbs_value(a) < fr_modulus(),
        limbs_value(b) < fr_modulus(),
    ensures
        r == limbs_of((limbs_value(a) * limbs_value(b)) % fr_modulus()),
{
    let x = ark_bn254::Fr::from_bigint(BigInt::new(a)).unwrap();
    let y = ark_bn254::Fr::from_bigint(BigInt::new(b)).unwrap();
    (x * y).into_bigint().0
}

/// `ark_ff::Field::inverse` on `ark_bn254::Fr`: `None` for zero, otherwise the canonical limbs of
/// an inverse of `a` modulo r.
#[verifier::external_body]
fn ark_fr_inverse(a: [u64; 4]) -> (r: Option<[u64; 4]>)
    requires
        limbs_value(a) < fr_modulus(),
    ensures
        r is None <==> limbs_value(a) == 0,
        r matches Some(l) ==> is_fr_inverse(limbs_value(a), limbs_value(l)),
{
    let x = ark_bn254::Fr::from_bigint(BigInt::new(a)).unwrap();
    x.inverse().map(|y| y.into_bigint().0)
}

/// `From<i64>` for `ark_bn254::Fr`: the residue of `v` modulo r, in canonical limbs.
#[verifier::external_body]
fn ark_fr_from_i64(v: i64) -> (r: [u64; 4])
    ensures
        r == limbs_of(fr_signed_value(v as int)),
{
    ark_bn254::Fr::from(v).into_bigint().0
}

/// `PrimeField::from_le_bytes_mod_order` on `ark_bn254::Fr`: the little-endian integer of the
/// bytes reduced modulo r, in canonical limbs.
#[verifier::external_body]
fn ark_fr_from_le_bytes_mod_order(bytes: &[u8]) -> (r: [u64; 4])
    ensures
        r == limbs_of(le_bytes_value(bytes@) % fr_modulus()),
{
    ark_bn254::Fr::from_le_bytes_mod_order(bytes).into_bigint().0
}

/// `BigInteger::to_bytes_le` on the canonical integer of an `ark_bn254::Fr`: the 32 little-endian
/// bytes of the limbs.
#[verifier::external_body]
fn ark_fr_to_bytes_le(a: [u64; 4]) -> (r: Vec<u8>)
    requires
        limbs_value(a) < fr_modulus(),
    ensures
        r@ == limbs_le_bytes(a),
{
    let x = ark_bn254::Fr::from_bigint(BigInt::new(a)).unwrap();
    x.into_bigint().to_bytes_le()
}

/// An element of the BN254 scalar field.
#[derive(Clone, Copy, Debug, PartialEq, Eq, Hash)]
pub struct Fr {
    limbs: [u64; 4],
}

impl Fr {
    #[verifier::type_invariant]
    spec fn canonical(self) -> bool {
        limbs_value(self.limbs) < fr_modulus()
    }

    /// The residue held by this element.
    pub closed spec fn value(self) -> nat {
        limbs_value(self.limbs)
    }

    /// The element holding the residue of `n`.
    pub closed spec fn from_value(n: nat) -> Fr {
        Fr { limbs: limbs_of(n % fr_modulus()) }
    }

    /// Whether this is a canonical element (every element produced at run time is).
    pub closed spec fn is_canonical(self) -> bool {
        limbs_value(self.limbs) < fr_modulus()
    }

    pub proof fn lemma_from_value(n: nat)
        ensures
            Fr::from_value(n).value() == n % fr_modulus(),
            Fr::from_value(n).is_canonical(),
    {
        lemma_canonical(n % fr_modulus());
    }

    /// Numbers with the same residue give the same element.
    pub proof fn lemma_from_value_congruent(m: nat, n: nat)
        requires
            m % fr_modulus() == n % fr_modulus(),
        ensures
            Fr::from_value(m) == Fr::from_value(n),
    {
    }

    pub proof fn lemma_value_determines(a: Fr, b: Fr)
        requires
            a.is_canonical(),
            b.is_canonical(),
            a.value() == b.value(),
        ensures
            a == b,
    {
        lemma_modulus_small();
        let b4 = limb_base() * limb_base() * limb_base() * limb_base();
        assert(limbs_value(a.limbs) < b4);
        assert(limbs_of(limbs_value(a.limbs)) =~= a.limbs) by {
            Self::lemma_limbs_of_value(a.limbs);
        }
        assert(limbs_of(limbs_value(b.limbs)) =~= b.limbs) by {
            Self::lemma_limbs_of_value(b.limbs);
        }
    }

    proof fn lemma_limbs_of_value(l: [u64; 4])
        ensures
            limbs_of(limbs_value(l)) == l,
    {
        let b = limb_base() as int;
        let l0 = l[0] as int;
        let l1 = l[1] as int;
        let l2 = l[2] as int;
        let l3 = l[3] as int;
        let t3 = l3;
        let t2 = l2 + b * t3;
        let t1 = l1 + b * t2;
        let t0 = l0 + b * t1;
        assert(t1 >= 0 && t2 >= 0) by (nonlinear_arith)
            requires
                l1 >= 0,
                l2 >= 0,
                l3 >= 0,
                b > 0,
                t2 == l2 + b * l3,
                t1 == l1 + b * t2,
        ;
        lemma_fundamental_div_mod_converse(t0, b, t1, l0);
        lemma_fundamental_div_mod_converse(t1, b, t2, l1);
        lemma_fundamental_div_mod_converse(t2, b, t3, l2);
        lemma_small_mod(l3 as nat, b as nat);
        assert(limbs_value(l) == t0);
    }

    /// The element with the given canonical limbs, if they are below the modulus.
    pub fn from_limbs(limbs: [u64; 4]) -> (r: Option<Fr>)
        ensures
            r is Some <==> limbs_value(limbs) < fr_modulus(),
            r matches Some(x) ==> x.value() == limbs_value(limbs),
    {
        if limbs[3] < 0x30644e72e131a029 {
            proof {
                let b = limb_base();
                assert(limbs_value(limbs) < fr_modulus()) by (nonlinear_arith)
                    requires
                        limbs[3] < 0x30644e72e131a029,
                        b == 0x1_0000_0000_0000_0000nat,
                        limbs[0] < b,
                        limbs[1] < b,
                        limbs[2] < b,
                ;
            }
            return Some(Fr { limbs });
        }
        let f = Fr { limbs: [0u64, 0u64, 0u64, 0u64] };
        let m = Self::modulus_limbs();
        // Compare from the most significant limb down.
        let mut i: usize = 4;
        while i > 0
            invariant
                i <= 4,
                limbs_value(m) == fr_modulus(),
                forall|j: int| i <= j < 4 ==> limbs[j] == m[j],
            decreases i,
        {
            let k = i - 1;
            if limbs[k] < m[k] {
                proof {
                    Self::lemma_less_at(limbs, m, k as int);
                }
                return Some(Fr { limbs });
            }
            if limbs[k] > m[k] {
                proof {
                    Self::lemma_less_at(m, limbs, k as int);
                }
                return None;
            }
            i = k;
        }
        proof {
            assert(limbs =~= m);
        }
        None
    }

    /// The limbs of the modulus.
    fn modulus_limbs() -> (m: [u64; 4])
        ensures
            limbs_value(m) == fr_modulus(),
    {
        let m = [0x43e1f593f0000001u64, 0x2833e84879b97091u64, 0xb85045b68181585du64, 0x30644e72e131a029u64];
        assert(limbs_value(m) == fr_modulus());
        m
    }

    /// If two limb arrays agree above position `k` and `a[k] < b[k]`, then `a < b`.
    proof fn lemma_less_at(a: [u64; 4], b: [u64; 4], k: int)
        requires
            0 <= k < 4,
            a[k] < b[k],
            forall|j: int| k < j < 4 ==> a[j] == b[j],
        ensures
            limbs_value(a) < limbs_value(b),
    {
        let bb = limb_base() as int;
        let a0 = a[0] as int;
        let a1 = a[1] as int;
        let a2 = a[2] as int;
        let a3 = a[3] as int;
        let b0 = b[0] as int;
        let b1 = b[1] as int;
        let b2 = b[2] as int;
        let b3 = b[3] as int;
        if k == 3 {
            assert(a0 + bb * (a1 + bb * (a2 + bb * a3)) < b0 + bb * (b1 + bb * (b2 + bb * b3)))
                by (nonlinear_arith)
                requires
                    bb == 0x1_0000_0000_0000_0000int,
                    0 <= a0 < bb,
                    0 <= a1 < bb,
                    0 <= a2 < bb,
                    0 <= b0 < bb,
                    0 <= b1 < bb,
                    0 <= b2 < bb,
                    a3 < b3,
            ;
        } else if k == 2 {
            assert(a0 + bb * (a1 + bb * (a2 + bb * a3)) < b0 + bb * (b1 + bb * (b2 + bb * b3)))
                by (nonlinear_arith)
                requires
                    bb == 0x1_0000_0000_0000_0000int,
                    0 <= a0 < bb,
                    0 <= a1 < bb,
                    0 <= b0 < bb,
                    0 <= b1 < bb,
                    a2 < b2,
                    a3 == b3,
            ;
        } else if k == 1 {
            assert(a0 + bb * (a1 + bb * (a2 + bb * a3)) < b0 + bb * (b1 + bb * (b2 + bb * b3)))
                by (nonlinear_arith)
                requires
                    bb == 0x1_0000_0000_0000_0000int,
                    0 <= a0 < bb,
                    0 <= b0 < bb,
                    a1 < b1,
                    a2 == b2,
                    a3 == b3,
            ;
        } else {
            assert(a0 + bb * (a1 + bb * (a2 + bb * a3)) < b0 + bb * (b1 + bb * (b2 + bb * b3)))
                by (nonlinear_arith)
                requires
                    a0 < b0,
                    a1 == b1,
                    a2 == b2,
                    a3 == b3,
            ;
        }
    }

    /// The canonical little-endian limbs of this element.
    pub fn limbs(&self) -> (r: [u64; 4])
        ensures
            limbs_value(r) == self.value(),
            limbs_value(r) < fr_modulus(),
    {
        proof {
            use_type_invariant(self);
        }
        self.limbs
    }

    /// Reads bytes in little-endian, and converts them to a field element, reducing modulo the
    /// field order.
    pub fn from_le_bytes_mod_order(bytes: &[u8]) -> (r: Fr)
        ensures
            r == Fr::from_value(le_bytes_value(bytes@)),
    {
        let limbs = ark_fr_from_le_bytes_mod_order(bytes);
        proof {
            lemma_canonical(le_bytes_value(bytes@) % fr_modulus());
        }
        Fr { limbs }
    }
}

impl Field for Fr {
    open spec fn zero_spec() -> Self {
        Fr::from_value(0)
    }

    open spec fn one_spec() -> Self {
        Fr::from_value(1)
    }

    open spec fn add_spec(self, rhs: Self) -> Self {
        Fr::from_value(self.value() + rhs.value())
    }

    open spec fn sub_spec(self, rhs: Self) -> Self {
        Fr::from_value(((self.value() + fr_modulus()) - rhs.value()) as nat)
    }

    open spec fn mul_spec(self, rhs: Self) -> Self {
        Fr::from_value(self.value() * rhs.value())
    }

    open spec fn inv_spec(self) -> Option<Self> {
        if self.value() % fr_modulus() == 0 || !(exists|x: nat| #[trigger]
            is_fr_inverse(self.value(), x)) {
            None
        } else {
            Some(Fr::from_value(fr_inverse_value(self.value())))
        }
    }

    open spec fn from_u64_spec(val: u64) -> Self {
        Fr::from_value(val as nat)
    }

    open spec fn from_i64_spec(val: i64) -> Self {
        Fr::from_value(fr_signed_value(val as int))
    }

    open spec fn bytes_spec(self) -> Seq<u8> {
        limbs_le_bytes(limbs_of(self.value()))
    }

    open spec fn wf_spec(self) -> bool {
        self.is_canonical()
    }

    proof fn lemma_ops_wf(a: Self, b: Self) {
        Fr::lemma_from_value(a.value() + b.value());
        Fr::lemma_from_value(((a.value() + fr_modulus()) - b.value()) as nat);
        Fr::lemma_from_value(a.value() * b.value());
        Fr::lemma_from_value(0);
        Fr::lemma_from_value(1);
    }

    proof fn lemma_mul_inverse(a: Self) {
        if let Some(x) = a.inv_spec() {
            let x0 = choose|y: nat| #[trigger] is_fr_inverse(a.value(), y);
            lemma_modulus_small();
            lemma_small_mod(x0, fr_modulus());
            Fr::lemma_from_value(x0);
            assert(x.value() == x0);
            lemma_small_mod(1, fr_modulus());
            Fr::lemma_from_value_congruent(a.value() * x0, 1);
        }
    }

    proof fn lemma_mul_one(a: Self) {
        Fr::lemma_from_value(1);
        lemma_modulus_small();
        lemma_small_mod(1, fr_modulus());
        Fr::lemma_from_value(a.value());
        lemma_small_mod(a.value(), fr_modulus());
        Fr::lemma_value_determines(Fr::from_value(a.value() * 1), a);
    }

    proof fn lemma_mul_zero(a: Self) {
        Fr::lemma_from_value(0);
        lemma_small_mod(0, fr_modulus());
        assert(a.value() * 0 == 0);
    }

    proof fn lemma_sub_zero(a: Self) {
        Fr::lemma_from_value(0);
        lemma_small_mod(0, fr_modulus());
        let x = ((a.value() + fr_modulus()) - 0) as nat;
        lemma_fundamental_div_mod_converse(x as int, fr_modulus() as int, 1, a.value() as int);
        Fr::lemma_from_value(x);
        Fr::lemma_value_determines(Fr::from_value(x), a);
    }

    proof fn lemma_add_assoc(a: Self, b: Self, c: Self) {
        let m = fr_modulus() as int;
        let (x, y, z) = (a.value() as int, b.value() as int, c.value() as int);
        lemma_modulus_small();
        Fr::lemma_from_value((x + y) as nat);
        Fr::lemma_from_value((y + z) as nat);
        lemma_add_mod_noop_right(z, x + y, m);
        lemma_add_mod_noop_right(x, y + z, m);
        assert((z + (x + y)) % m == (x + (y + z)) % m);
        Fr::lemma_from_value_congruent(
            ((x + y) % m + z) as nat,
            (x + (y + z) % m) as nat,
        );
    }

    proof fn lemma_add_comm(a: Self, b: Self) {
        assert(a.value() + b.value() == b.value() + a.value());
    }

    proof fn lemma_mul_assoc(a: Self, b: Self, c: Self) {
        let m = fr_modulus() as int;
        let (x, y, z) = (a.value() as int, b.value() as int, c.value() as int);
        lemma_modulus_small();
        Fr::lemma_from_value((x * y) as nat);
        Fr::lemma_from_value((y * z) as nat);
        lemma_mul_mod_noop_left(x * y, z, m);
        lemma_mul_mod_noop_right(x, y * z, m);
        vstd::arithmetic::mul::lemma_mul_is_associative(x, y, z);
        vstd::arithmetic::mul::lemma_mul_nonnegative(x, y);
        vstd::arithmetic::mul::lemma_mul_nonnegative(y, z);
        vstd::arithmetic::mul::lemma_mul_nonnegative((x * y) % m, z);
        vstd::arithmetic::mul::lemma_mul_nonnegative(x, (y * z) % m);
        Fr::lemma_from_value_congruent(
            (((x * y) % m) * z) as nat,
            (x * ((y * z) % m)) as nat,
        );
    }

    proof fn lemma_mul_comm(a: Self, b: Self) {
        vstd::arithmetic::mul::lemma_mul_is_commutative(a.value() as int, b.value() as int);
    }

    proof fn lemma_mul_add_distrib(a: Self, b: Self, c: Self) {
        let m = fr_modulus() as int;
        let (x, y, z) = (a.value() as int, b.value() as int, c.value() as int);
        lemma_modulus_small();
        Fr::lemma_from_value((y + z) as nat);
        Fr::lemma_from_value((x * y) as nat);
        Fr::lemma_from_value((x * z) as nat);
        vstd::arithmetic::mul::lemma_mul_nonnegative(x, y);
        vstd::arithmetic::mul::lemma_mul_nonnegative(x, z);
        vstd::arithmetic::mul::lemma_mul_nonnegative(x, (y + z) % m);
        lemma_mul_mod_noop_right(x, y + z, m);
        vstd::arithmetic::mul::lemma_mul_is_distributive_add(x, y, z);
        lemma_add_mod_noop(x * y, x * z, m);
        Fr::lemma_from_value_congruent(
            (x * ((y + z) % m)) as nat,
            ((x * y) % m + (x * z) % m) as nat,
        );
    }

    proof fn lemma_add_zero(a: Self) {
        Fr::lemma_from_value(0);
        lemma_small_mod(0, fr_modulus());
        Fr::lemma_from_value(a.value());
        Fr::lemma_value_determines(Fr::from_value(a.value() + 0), a);
    }

    proof fn lemma_one_sub_one() {
        Fr::lemma_from_value(1);
        lemma_modulus_small();
        lemma_small_mod(1, fr_modulus());
        let x = ((1 + fr_modulus()) - 1) as nat;
        lemma_fundamental_div_mod_converse(x as int, fr_modulus() as int, 1, 0);
        lemma_small_mod(0, fr_modulus());
    }

    fn zero() -> (r: Self) {
        proof {
            lemma_canonical(0);
        }
        Fr { limbs: [0u64, 0u64, 0u64, 0u64] }
    }

    fn one() -> (r: Self) {
        proof {
            lemma_canonical(1);
            lemma_modulus_small();
        }
        Fr { limbs: [1u64, 0u64, 0u64, 0u64] }
    }

    fn is_zero(&self) -> (b: bool) {
        proof {
            use_type_invariant(self);
            lemma_canonical(0);
        }
        let b = self.limbs[0] == 0 && self.limbs[1] == 0 && self.limbs[2] == 0 && self.limbs[3] == 0;
        proof {
            if *self == Self::zero_spec() {
                assert(self.limbs =~= [0u64, 0u64, 0u64, 0u64]);
            }
            if b {
                assert(self.limbs =~= [0u64, 0u64, 0u64, 0u64]);
                lemma_modulus_small();
                assert(limbs_of(0) =~= [0u64, 0u64, 0u64, 0u64]);
            }
        }
        b
    }

    fn add(&self, rhs: &Self) -> (r: Self) {
        proof {
            use_type_invariant(self);
            use_type_invariant(rhs);
        }
        let limbs = ark_fr_add(self.limbs, rhs.limbs);
        proof {
            lemma_canonical((self.value() + rhs.value()) % fr_modulus());
            lemma_mod_mod_mod(self.value() + rhs.value());
        }
        Fr { limbs }
    }

    fn sub(&self, rhs: &Self) -> (r: Self) {
        proof {
            use_type_invariant(self);
            use_type_invariant(rhs);
        }
        let limbs = ark_fr_sub(self.limbs, rhs.limbs);
        proof {
            let x = ((self.value() + fr_modulus()) - rhs.value()) as nat;
            lemma_canonical(x % fr_modulus());
            lemma_mod_mod_mod(x);
        }
        Fr { limbs }
    }

    fn mul(&self, rhs: &Self) -> (r: Self) {
        proof {
            use_type_invariant(self);
            use_type_invariant(rhs);
        }
        let limbs = ark_fr_mul(self.limbs, rhs.limbs);
        proof {
            lemma_canonical((self.value() * rhs.value()) % fr_modulus());
            lemma_mod_mod_mod(self.value() * rhs.value());
        }
        Fr { limbs }
    }

    fn inv(&self) -> (r: Option<Self>) {
        proof {
            use_type_invariant(self);
            lemma_small_mod(self.value(), fr_modulus());
            lemma_canonical(0);
        }
        match ark_fr_inverse(self.limbs) {
            None => {
                proof {
                    assert(self.limbs =~= limbs_of(0)) by {
                        Fr::lemma_limbs_of_value(self.limbs);
                    }
                }
                None
            },
            Some(limbs) => {
                proof {
                    let y = limbs_value(limbs);
                    let x0 = choose|x: nat| #[trigger] is_fr_inverse(self.value(), x);
                    assert(is_fr_inverse(self.value(), y));
                    lemma_fr_inverse_unique(self.value(), x0, y);
                    lemma_small_mod(y, fr_modulus());
                    assert(fr_inverse_value(self.value()) == y);
                    Fr::lemma_limbs_of_value(limbs);
                    lemma_small_mod(1, fr_modulus());
                    if *self == Self::zero_spec() {
                        assert(self.value() == 0);
                    }
                }
                Some(Fr { limbs })
            },
        }
    }

    fn from_u64(val: u64) -> (r: Self) {
        proof {
            lemma_modulus_small();
            assert(val < fr_modulus());
            lemma_small_mod(val as nat, fr_modulus());
            lemma_canonical(val as nat);
        }
        Fr { limbs: [val, 0u64, 0u64, 0u64] }
    }

    fn from_i64(val: i64) -> (r: Self) {
        let limbs = ark_fr_from_i64(val);
        proof {
            let x = fr_signed_value(val as int);
            assert(x < fr_modulus());
            lemma_small_mod(x, fr_modulus());
            lemma_canonical(x);
        }
        Fr { limbs }
    }

    fn equals(&self, other: &Self) -> (b: bool) {
        let b = self.limbs[0] == other.limbs[0] && self.limbs[1] == other.limbs[1]
            && self.limbs[2] == other.limbs[2] && self.limbs[3] == other.limbs[3];
        proof {
            if b {
                assert(self.limbs =~= other.limbs);
            }
        }
        b
    }

    fn to_bytes_le(&self) -> (r: Vec<u8>) {
        proof {
            use_type_invariant(self);
            Fr::lemma_limbs_of_value(self.limbs);
        }
        ark_fr_to_bytes_le(self.limbs)
    }
}

proof fn lemma_mod_mod_mod(x: nat)
    ensures
        (x % fr_modulus()) % fr_modulus() == x % fr_modulus(),
{
    lemma_mod_pos_bound(x as int, fr_modulus() as int);
    lemma_small_mod(x % fr_modulus(), fr_modulus());
}

/// `CanonicalSerialize::serialize_compressed` on an `ark_bn254::Fr`: the 32 little-endian bytes of
/// its canonical integer.
#[verifier::external_body]
fn ark_fr_serialize_compressed(a: [u64; 4]) -> (r: Vec<u8>)
    requires
        limbs_value(a) < fr_modulus(),
    ensures
        r@ == limbs_le_bytes(a),
{
    let x = ark_bn254::Fr::from_bigint(BigInt::new(a)).unwrap();
    let mut bytes = Vec::new();
    x.serialize_compressed(&mut bytes).unwrap();
    bytes
}

/// The additive group of the scalar field, with scalar multiplication by field elements.
#[derive(Clone, Copy, Debug, PartialEq, Eq, Hash)]
pub struct FrAdditive(pub Fr);

impl Group for FrAdditive {
    type Scalar = Fr;

    open spec fn identity_spec() -> Self {
        FrAdditive(Fr::zero_spec())
    }

    open spec fn add_spec(self, rhs: Self) -> Self {
        FrAdditive(self.0.add_spec(rhs.0))
    }

    open spec fn neg_spec(self) -> Self {
        FrAdditive(Fr::zero_spec().sub_spec(self.0))
    }

    open spec fn scale_spec(self, k: Fr) -> Self {
        FrAdditive(self.0.mul_spec(k))
    }

    open spec fn bytes_spec(self) -> Seq<u8> {
        self.0.bytes_spec()
    }

    open spec fn wf_spec(self) -> bool {
        self.0.wf_spec()
    }

    proof fn lemma_group_wf(a: Self, b: Self, k: Fr) {
        Fr::lemma_ops_wf(a.0, b.0);
        Fr::lemma_ops_wf(a.0, k);
    }

    proof fn lemma_add_assoc(a: Self, b: Self, c: Self) {
        Fr::lemma_add_assoc(a.0, b.0, c.0);
    }

    proof fn lemma_add_comm(a: Self, b: Self) {
        Fr::lemma_add_comm(a.0, b.0);
    }

    proof fn lemma_add_identity(a: Self) {
        Fr::lemma_add_zero(a.0);
    }

    proof fn lemma_scale_zero(a: Self) {
        Fr::lemma_mul_zero(a.0);
    }

    proof fn lemma_scale_one(a: Self) {
        Fr::lemma_mul_one(a.0);
    }

    proof fn lemma_identity_scale(k: Fr) {
        Fr::lemma_mul_comm(Fr::zero_spec(), k);
        Fr::lemma_mul_zero(k);
    }

    proof fn lemma_scale_add(a: Self, b: Self, k: Fr) {
        Fr::lemma_mul_comm(a.0.add_spec(b.0), k);
        Fr::lemma_mul_add_distrib(k, a.0, b.0);
        Fr::lemma_mul_comm(a.0, k);
        Fr::lemma_mul_comm(b.0, k);
    }

    proof fn lemma_scale_field_add(a: Self, k: Fr, l: Fr) {
        Fr::lemma_mul_add_distrib(a.0, k, l);
    }

    proof fn lemma_scale_mul(a: Self, k: Fr, l: Fr) {
        Fr::lemma_mul_assoc(a.0, k, l);
    }

    fn identity() -> (r: Self) {
        FrAdditive(Fr::zero())
    }

    fn add(&self, rhs: &Self) -> (r: Self) {
        FrAdditive(Field::add(&self.0, &rhs.0))
    }

    fn neg(&self) -> (r: Self) {
        let z = Fr::zero();
        FrAdditive(Field::sub(&z, &self.0))
    }

    fn scale(&self, k: &Fr) -> (r: Self) {
        FrAdditive(Field::mul(&self.0, k))
    }

    fn equals(&self, other: &Self) -> (b: bool) {
        Field::equals(&self.0, &other.0)
    }

    fn to_bytes(&self) -> (r: Vec<u8>) {
        proof {
            use_type_invariant(&self.0);
            Fr::lemma_limbs_of_value(self.0.limbs);
        }
        ark_fr_serialize_compressed(self.0.limbs)
    }
}

/// The multiplication map `Fr × Fr → Fr`, a bilinear map on the additive group of the field.
pub struct FrPairing;

impl Pairing for FrPairing {
    type G1 = FrAdditive;
    type G2 = FrAdditive;
    type GT = FrAdditive;

    open spec fn pair_spec(p: FrAdditive, q: FrAdditive) -> FrAdditive {
        FrAdditive(p.0.mul_spec(q.0))
    }

    proof fn lemma_pair_wf(p: FrAdditive, q: FrAdditive) {
        Fr::lemma_ops_wf(p.0, q.0);
    }

    proof fn lemma_pair_identity_left(q: FrAdditive) {
        Fr::lemma_mul_comm(Fr::zero_spec(), q.0);
        Fr::lemma_mul_zero(q.0);
    }

    proof fn lemma_pair_add_left(p: FrAdditive, q: FrAdditive, r: FrAdditive) {
        FrAdditive::lemma_scale_add(p, q, r.0);
    }

    proof fn lemma_pair_add_right(p: FrAdditive, q: FrAdditive, r: FrAdditive) {
        Fr::lemma_mul_add_distrib(p.0, q.0, r.0);
    }

    proof fn lemma_pair_scale_left(p: FrAdditive, q: FrAdditive, k: Fr) {
        Fr::lemma_mul_assoc(p.0, k, q.0);
        Fr::lemma_mul_comm(k, q.0);
        Fr::lemma_mul_assoc(p.0, q.0, k);
    }

    proof fn lemma_pair_scale_right(p: FrAdditive, q: FrAdditive, k: Fr) {
        Fr::lemma_mul_assoc(p.0, q.0, k);
    }

    fn pair(p: &FrAdditive, q: &FrAdditive) -> (r: FrAdditive) {
        FrAdditive(Field::mul(&p.0, &q.0))
    }
}

} // verus!
