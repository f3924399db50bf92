//! Simple toy Fiat–Shamir transcript for testing.
//!
//! The transcript keeps every byte it has absorbed; a challenge is the Blake2s256 digest of those
//! bytes followed by the challenge label, read as a little-endian integer and reduced into the
//! BN254 scalar field. This is the digest a Blake2s256 hasher fed with the same bytes in order
//! would produce.
use blake2::{Blake2s256, Digest};
use vstd::arithmetic::power2::pow2;
use vstd::prelude::*;

use crate::primitives::arithmetic::Field;
use crate::primitives::bn254::{le_bytes_value, Fr};
use crate::primitives::transcript::Transcript;

verus! {

/// The Blake2s256 digest of a byte string.
pub uninterp spec fn blake2s256(data: Seq<u8>) -> Seq<u8>;

/// `Blake2s256::digest`: the digest of `data`, named `blake2s256(data)`, 32 bytes long.
#[verifier::external_body]
fn blake2s256_digest(data: &[u8]) -> (r: Vec<u8>)
    ensures
        r@ == blake2s256(data@),
        r@.len() == 32,
{
    Blake2s256::digest(data).to_vec()
}

/// The 8 little-endian bytes of a 64-bit integer.
pub open spec fn u64_le_bytes(x: u64) -> Seq<u8> {
    Seq::new(8, |i: int| ((x >> ((8 * i) as u64)) & 0xffu64) as u8)
}

/// `label ‖ le64(bytes.len()) ‖ bytes`
pub open spec fn toy_frame(label: Seq<u8>, bytes: Seq<u8>) -> Seq<u8> {
    label + u64_le_bytes(bytes.len() as u64) + bytes
}

/// The field element drawn from the digest of `absorbed ‖ label`.
pub open spec fn toy_challenge_value(absorbed: Seq<u8>, label: Seq<u8>) -> Fr {
    Fr::from_value(le_bytes_value(blake2s256(absorbed + label)))
}

/// The two little-endian 64-bit limbs of the first 16 bytes of the digest of
/// `absorbed ‖ label`.
pub open spec fn toy_challenge_limbs(absorbed: Seq<u8>, label: Seq<u8>) -> (nat, nat) {
    let d = blake2s256(absorbed + label);
    (le_bytes_value(d.subrange(0, 8)), le_bytes_value(d.subrange(8, 16)))
}

/// Hash-based transcript using bn254 Fr field and Blake2s256 hasher.
#[derive(Clone)]
pub struct ToyTranscript {
    data: Vec<u8>,
}

/// Appends `s` to `v`.
fn append_slice(v: &mut Vec<u8>, s: &[u8])
    ensures
        final(v)@ == old(v)@ + s@,
{
    let ghost orig = v@;
    let mut i: usize = 0;
    while i < s.len()
        invariant
            i <= s@.len(),
            v@ == orig + s@.subrange(0, i as int),
        decreases s@.len() - i,
    {
        v.push(s[i]);
        assert(v@ =~= orig + s@.subrange(0, (i + 1) as int));
        i = i + 1;
    }
    assert(s@.subrange(0, s@.len() as int) =~= s@);
}

/// The 8 little-endian bytes of `x`.
fn u64_to_le_bytes(x: u64) -> (r: Vec<u8>)
    ensures
        r@ == u64_le_bytes(x),
{
    let mut r: Vec<u8> = Vec::new();
    let mut i: u64 = 0;
    while i < 8
        invariant
            i <= 8,
            r@.len() == i,
            forall|j: int| 0 <= j < i ==> #[trigger] r@[j] == u64_le_bytes(x)[j],
        decreases 8 - i,
    {
        let b = ((x >> (8 * i)) & 0xff) as u8;
        r.push(b);
        i = i + 1;
    }
    assert(r@ =~= u64_le_bytes(x));
    r
}

/// Reads 8 little-endian bytes of `d` from `start` as a 64-bit integer.
fn read_u64_le(d: &Vec<u8>, start: usize) -> (r: u64)
    requires
        start + 8 <= d@.len(),
    ensures
        r == le_bytes_value(d@.subrange(start as int, start + 8)),
{
    let mut acc: u64 = 0;
    let mut i: usize = 8;
    let n = d.len();
    proof {
        vstd::arithmetic::power2::lemma2_to64();
        assert(d@.subrange(start + 8, start + 8).len() == 0);
    }
    while i > 0
        invariant
            i <= 8,
            start + 8 <= d@.len(),
            n == d@.len(),
            acc == le_bytes_value(d@.subrange(start + i, start + 8)),
            acc < pow2((8 * (8 - i)) as nat),
        decreases i,
    {
        let k = i - 1;
        let byte = d[start + k];
        proof {
            let sub = d@.subrange(start + k, start + 8);
            assert(sub.drop_first() =~= d@.subrange(start + i, start + 8));
            lemma_pow256_step((8 - i) as nat);
            assert(acc * 256 + byte < pow2((8 * (8 - k)) as nat)) by (nonlinear_arith)
                requires
                    acc < pow2((8 * (8 - i)) as nat),
                    byte < 256,
                    pow2((8 * (8 - k)) as nat) == 256 * pow2((8 * (8 - i)) as nat),
            ;
            lemma_pow2_64_bound((8 - k) as nat);
        }
        acc = acc * 256 + byte as u64;
        i = k;
    }
    acc
}

/// `2^(8(j+1)) = 256 · 2^(8j)`
proof fn lemma_pow256_step(j: nat)
    ensures
        pow2(8 * (j + 1)) == 256 * pow2(8 * j),
{
    vstd::arithmetic::power2::lemma_pow2_adds(8 * j, 8);
    vstd::arithmetic::power2::lemma2_to64();
    assert(8 * (j + 1) == 8 * j + 8);
}

/// `2^(8j) ≤ 2^64` for `j ≤ 8`
proof fn lemma_pow2_64_bound(j: nat)
    requires
        j <= 8,
    ensures
        pow2(8 * j) <= 0x1_0000_0000_0000_0000,
{
    vstd::arithmetic::power2::lemma2_to64();
    if j < 8 {
        vstd::arithmetic::power2::lemma_pow2_strictly_increases(8 * j, 64);
    }
}

impl ToyTranscript {
    /// The bytes absorbed so far.
    pub closed spec fn state(&self) -> Seq<u8> {
        self.data@
    }

    /// Constructor over some `domain`
    pub fn new(domain_label: &[u8]) -> (r: Self)
        ensures
            r.state() == domain_label@,
            r.absorbed() == domain_label@,
    {
        let mut data: Vec<u8> = Vec::new();
        append_slice(&mut data, domain_label);
        assert(data@ =~= domain_label@);
        Self { data }
    }

    /// The digest of the absorbed bytes followed by `label`.
    fn digest_with(&self, label: &[u8]) -> (r: Vec<u8>)
        ensures
            r@ == blake2s256(self.data@ + label@),
            r@.len() == 32,
    {
        let mut buf = crate::protocol::setup::copy_vec(&self.data);
        append_slice(&mut buf, label);
        blake2s256_digest(buf.as_slice())
    }
}

impl Transcript for ToyTranscript {
    type Scalar = Fr;

    closed spec fn absorbed(&self) -> Seq<u8> {
        self.data@
    }

    open spec fn frame(label: Seq<u8>, bytes: Seq<u8>) -> Seq<u8> {
        toy_frame(label, bytes)
    }

    open spec fn challenge_of(absorbed: Seq<u8>, label: Seq<u8>) -> Option<Fr> {
        let fe = toy_challenge_value(absorbed, label);
        if fe == Fr::zero_spec() {
            None
        } else {
            Some(fe)
        }
    }

    open spec fn challenge_u128_of(absorbed: Seq<u8>, label: Seq<u8>) -> Option<[u64; 2]> {
        let (a, b) = toy_challenge_limbs(absorbed, label);
        if a == 0 && b == 0 {
            None
        } else {
            Some([a as u64, b as u64])
        }
    }

    fn append_bytes(&mut self, label: &[u8], bytes: &[u8]) {
        append_slice(&mut self.data, label);
        let len = u64_to_le_bytes(bytes.len() as u64);
        append_slice(&mut self.data, len.as_slice());
        append_slice(&mut self.data, bytes);
        assert(self.data@ =~= old(self).data@ + toy_frame(label@, bytes@));
    }

    fn challenge_scalar(&mut self, label: &[u8]) -> (r: Option<Fr>) {
        let digest = self.digest_with(label);
        let fe = Fr::from_le_bytes_mod_order(digest.as_slice());
        if fe.is_zero() {
            None
        } else {
            Some(fe)
        }
    }

    fn challenge_u128(&mut self, label: &[u8]) -> (r: Option<[u64; 2]>) {
        // Derive 16 bytes and split into two little-endian u64 limbs
        let digest = self.digest_with(label);
        let a = read_u64_le(&digest, 0);
        let b = read_u64_le(&digest, 8);
        if a == 0 && b == 0 {
            None
        } else {
            Some([a, b])
        }
    }

    fn reset(&mut self, domain_label: &[u8]) {
        let mut data: Vec<u8> = Vec::new();
        append_slice(&mut data, domain_label);
        assert(data@ =~= domain_label@);
        self.data = data;
    }
}

} // verus!
