//! The proof over the Ristretto group built on Curve25519: both slots sit in
//! this one group.

use crate::encoding::{
    append_bytes, ct_bytes_eq, lemma_add_back, lemma_le_nat_injective, lemma_one_encoding,
    lemma_sub_mod_noop, one_encoding, le_nat,
    EntropySource, NOTHING_UP_MY_SLEEVE_Q1, NOTHING_UP_MY_SLEEVE_Q2,
};
use sha2::Digest;
use vstd::prelude::*;

verus! {

/// The order l = 2^252 + 27742317777372353535851937790883648493 of the
/// Ristretto group and of its scalar field.
pub open spec fn modulus() -> nat {
    let b: nat = 0x1_0000_0000_0000_0000;
    ((0x1000_0000_0000_0000 * b + 0) * b + 0x14de_f9de_a2f7_9cd6) * b + 0x5812_631a_5cf5_d3ed
}

/// An element of the scalar field, held as its canonical 32-byte
/// little-endian encoding.
#[derive(Clone, Copy, Debug, PartialEq, Eq)]
pub struct Scalar {
    bytes: [u8; 32],
}

/// Relies on `Scalar::from_bytes_mod_order_wide`: the 64 bytes are read as a
/// little-endian integer and reduced modulo l; `to_bytes` encodes the result.
#[verifier::external_body]
fn reduce_wide(b: &[u8; 64]) -> (r: [u8; 32])
    ensures
        le_nat(r@) == le_nat(b@) % modulus(),
{
    curve25519_dalek::Scalar::from_bytes_mod_order_wide(b).to_bytes()
}

/// Relies on scalar multiplication modulo l of `curve25519_dalek::Scalar` (`*`).
#[verifier::external_body]
fn field_mul(a: &[u8; 32], b: &[u8; 32]) -> (r: [u8; 32])
    requires
        le_nat(a@) < modulus(),
        le_nat(b@) < modulus(),
    ensures
        le_nat(r@) == (le_nat(a@) * le_nat(b@)) % modulus(),
{
    let a = curve25519_dalek::Scalar::from_canonical_bytes(*a).unwrap();
    let b = curve25519_dalek::Scalar::from_canonical_bytes(*b).unwrap();
    (a * b).to_bytes()
}

/// Relies on scalar subtraction modulo l of `curve25519_dalek::Scalar` (`-`).
#[verifier::external_body]
fn field_sub(a: &[u8; 32], b: &[u8; 32]) -> (r: [u8; 32])
    requires
        le_nat(a@) < modulus(),
        le_nat(b@) < modulus(),
    ensures
        le_nat(r@) as int == (le_nat(a@) - le_nat(b@)) % (modulus() as int),
{
    let a = curve25519_dalek::Scalar::from_canonical_bytes(*a).unwrap();
    let b = curve25519_dalek::Scalar::from_canonical_bytes(*b).unwrap();
    (a - b).to_bytes()
}

impl Scalar {
    #[verifier::type_invariant]
    closed spec fn canonical(&self) -> bool {
        le_nat(self.bytes@) < modulus()
    }

    /// The canonical little-endian encoding of the scalar.
    pub closed spec fn encoding(&self) -> Seq<u8> {
        self.bytes@
    }

    /// The scalar as an integer in `[0, l)`.
    pub open spec fn value(&self) -> nat {
        le_nat(self.encoding())
    }

    /// The canonical little-endian encoding of the scalar: 32 bytes, whose
    /// value lies below l.
    pub fn to_bytes(&self) -> (r: [u8; 32])
        ensures
            r@ == self.encoding(),
            r@.len() == 32,
            self.value() < modulus(),
    {
        proof {
            use_type_invariant(self);
        }
        self.bytes
    }

    /// The scalar one.
    pub fn one() -> (r: Scalar)
        ensures
            r.encoding() == one_encoding(),
            r.value() == 1,
    {
        let bytes: [u8; 32] = [
            1, 0, 0, 0, 0, 0, 0, 0, 0, 0, 0, 0, 0, 0, 0, 0, 0, 0, 0, 0, 0, 0, 0, 0, 0, 0, 0, 0, 0, 0,
            0, 0,
        ];
        proof {
            assert(bytes@ =~= one_encoding());
            lemma_one_encoding();
        }
        Scalar { bytes }
    }

    /// The scalar whose value is the little-endian integer `b`, reduced modulo
    /// l: also the map from a hash output to the challenge.
    pub fn from_bytes_mod_order_wide(b: &[u8; 64]) -> (r: Scalar)
        ensures
            r.value() == le_nat(b@) % modulus(),
    {
        Scalar { bytes: reduce_wide(b) }
    }

    /// A uniformly random scalar: 64 bytes from `rng`, reduced modulo l.
    pub fn random<R: EntropySource>(rng: &mut R) -> (r: Scalar) {
        let wide = rng.fill_wide();
        Scalar::from_bytes_mod_order_wide(&wide)
    }

    /// The product `self * o` modulo l.
    pub fn mul(&self, o: &Scalar) -> (r: Scalar)
        ensures
            r.value() == (self.value() * o.value()) % modulus(),
    {
        proof {
            use_type_invariant(self);
            use_type_invariant(o);
        }
        Scalar { bytes: field_mul(&self.bytes, &o.bytes) }
    }

    /// The difference `self - o` modulo l.
    pub fn sub(&self, o: &Scalar) -> (r: Scalar)
        ensures
            r.value() as int == (self.value() - o.value()) % (modulus() as int),
    {
        proof {
            use_type_invariant(self);
            use_type_invariant(o);
        }
        let bytes = field_sub(&self.bytes, &o.bytes);
        proof {
            vstd::arithmetic::div_mod::lemma_mod_bound(
                le_nat(self.bytes@) - le_nat(o.bytes@),
                modulus() as int,
            );
        }
        Scalar { bytes }
    }
}

/// Whether `CompressedRistretto::decompress` accepts the bytes.
pub uninterp spec fn ristretto_decodes(enc: Seq<u8>) -> bool;

/// The encoding of `RistrettoPoint::hash_from_bytes::<Sha512>` of `msg`.
pub uninterp spec fn ristretto_hash_of(msg: Seq<u8>) -> Seq<u8>;

/// The encoding of the Ristretto base point times the scalar encoded by `s`.
pub uninterp spec fn ristretto_mul_base_of(s: Seq<u8>) -> Seq<u8>;

/// The encoding of the element encoded by `p` times the scalar encoded by `s`.
pub uninterp spec fn ristretto_mul_of(p: Seq<u8>, s: Seq<u8>) -> Seq<u8>;

/// The encoding of the sum of the elements encoded by `a` and `b`.
pub uninterp spec fn ristretto_add_of(a: Seq<u8>, b: Seq<u8>) -> Seq<u8>;

/// Relies on `RistrettoPoint::hash_from_bytes::<Sha512>`, and on `compress`,
/// whose output `decompress` accepts.
#[verifier::external_body]
fn ristretto_hash(msg: &[u8]) -> (r: [u8; 32])
    ensures
        r@ == ristretto_hash_of(msg@),
        ristretto_decodes(r@),
{
    curve25519_dalek::RistrettoPoint::hash_from_bytes::<sha2::Sha512>(msg).compress().to_bytes()
}

/// Relies on `RISTRETTO_BASEPOINT_POINT * Scalar`, and on `compress`, whose
/// output `decompress` accepts.
#[verifier::external_body]
fn ristretto_mul_base(s: &[u8; 32]) -> (r: [u8; 32])
    requires
        le_nat(s@) < modulus(),
    ensures
        r@ == ristretto_mul_base_of(s@),
        ristretto_decodes(r@),
{
    let s = curve25519_dalek::Scalar::from_canonical_bytes(*s).unwrap();
    (curve25519_dalek::constants::RISTRETTO_BASEPOINT_POINT * s).compress().to_bytes()
}

/// Relies on `RistrettoPoint * Scalar`, and on `compress`, whose output
/// `decompress` accepts.
#[verifier::external_body]
fn ristretto_mul(p: &[u8; 32], s: &[u8; 32]) -> (r: [u8; 32])
    requires
        ristretto_decodes(p@),
        le_nat(s@) < modulus(),
    ensures
        r@ == ristretto_mul_of(p@, s@),
        ristretto_decodes(r@),
{
    let p = curve25519_dalek::ristretto::CompressedRistretto(*p).decompress().unwrap();
    let s = curve25519_dalek::Scalar::from_canonical_bytes(*s).unwrap();
    (p * s).compress().to_bytes()
}

/// Relies on `RistrettoPoint + RistrettoPoint`, and on `compress`, whose
/// output `decompress` accepts.
#[verifier::external_body]
fn ristretto_add(a: &[u8; 32], b: &[u8; 32]) -> (r: [u8; 32])
    requires
        ristretto_decodes(a@),
        ristretto_decodes(b@),
    ensures
        r@ == ristretto_add_of(a@, b@),
        ristretto_decodes(r@),
{
    let a = curve25519_dalek::ristretto::CompressedRistretto(*a).decompress().unwrap();
    let b = curve25519_dalek::ristretto::CompressedRistretto(*b).decompress().unwrap();
    (a + b).compress().to_bytes()
}

/// An element of the Ristretto group, held as its 32-byte compressed encoding.
#[derive(Clone, Copy, Debug, PartialEq, Eq)]
pub struct RistrettoElement {
    enc: [u8; 32],
}

impl RistrettoElement {
    #[verifier::type_invariant]
    closed spec fn decodes(&self) -> bool {
        ristretto_decodes(self.enc@)
    }

    /// The canonical compressed encoding of the element.
    pub closed spec fn encoding(&self) -> Seq<u8> {
        self.enc@
    }

    /// The base point times `s`.
    pub fn mul_base(s: &Scalar) -> (r: Self)
        ensures
            r.encoding() == ristretto_mul_base_of(s.encoding()),
    {
        proof {
            use_type_invariant(s);
        }
        RistrettoElement { enc: ristretto_mul_base(&s.bytes) }
    }

    /// The Ristretto base point.
    pub fn generator() -> (r: Self)
        ensures
            r.encoding() == ristretto_mul_base_of(one_encoding()),
    {
        RistrettoElement::mul_base(&Scalar::one())
    }

    /// Hashes `msg` onto the group with SHA-512.
    pub fn hash_from_bytes(msg: &[u8]) -> (r: Self)
        ensures
            r.encoding() == ristretto_hash_of(msg@),
    {
        RistrettoElement { enc: ristretto_hash(msg) }
    }

    /// The canonical compressed encoding of the element.
    pub fn to_bytes(&self) -> (r: [u8; 32])
        ensures
            r@ == self.encoding(),
            r@.len() == 32,
            ristretto_decodes(r@),
    {
        proof {
            use_type_invariant(self);
        }
        self.enc
    }

    /// The element times `s`.
    pub fn mul_scalar(&self, s: &Scalar) -> (r: Self)
        ensures
            r.encoding() == ristretto_mul_of(self.encoding(), s.encoding()),
    {
        proof {
            use_type_invariant(self);
            use_type_invariant(s);
        }
        RistrettoElement { enc: ristretto_mul(&self.enc, &s.bytes) }
    }

    /// The sum of the element and `o`.
    pub fn add_point(&self, o: &Self) -> (r: Self)
        ensures
            r.encoding() == ristretto_add_of(self.encoding(), o.encoding()),
    {
        proof {
            use_type_invariant(self);
            use_type_invariant(o);
        }
        RistrettoElement { enc: ristretto_add(&self.enc, &o.enc) }
    }
}

/// The 64-byte SHA-512 digest of `data`.
pub uninterp spec fn sha512_of(data: Seq<u8>) -> Seq<u8>;

/// Relies on `sha2::Sha512::digest`, whose output is 64 bytes long.
#[verifier::external_body]
fn sha512(data: &[u8]) -> (r: [u8; 64])
    ensures
        r@ == sha512_of(data@),
{
    <[u8; 64]>::try_from(sha2::Sha512::digest(data).as_slice()).unwrap()
}

/// The challenge value for the prover's first messages, encoded by `w1` and
/// `w2`, and the nonce encoded by `nonce`: SHA-512 of the three encodings in that
/// order, read as a little-endian integer and reduced modulo l.
pub open spec fn challenge_of(w1: Seq<u8>, w2: Seq<u8>, nonce: Seq<u8>) -> nat {
    le_nat(sha512_of(w1 + w2 + nonce)) % modulus()
}

/// Derives the challenge from the prover's first messages and the nonce. The
/// result depends on the three encodings alone.
pub fn challenge(w1: &RistrettoElement, w2: &RistrettoElement, nonce: &Scalar) -> (c: Scalar)
    ensures
        c.value() == challenge_of(w1.encoding(), w2.encoding(), nonce.encoding()),
{
    let mut transcript: Vec<u8> = Vec::new();
    let first = w1.to_bytes();
    append_bytes(&mut transcript, first.as_slice());
    let second = w2.to_bytes();
    append_bytes(&mut transcript, second.as_slice());
    let nonce_bytes = nonce.to_bytes();
    append_bytes(&mut transcript, nonce_bytes.as_slice());
    assert(transcript@ == w1.encoding() + w2.encoding() + nonce.encoding());
    let digest = sha512(transcript.as_slice());
    Scalar::from_bytes_mod_order_wide(&digest)
}

/// The encoding of the auxiliary point of the first slot.
pub open spec fn aux1() -> Seq<u8> {
    ristretto_hash_of(NOTHING_UP_MY_SLEEVE_Q1@)
}

/// The encoding of the auxiliary point of the second slot.
pub open spec fn aux2() -> Seq<u8> {
    ristretto_hash_of(NOTHING_UP_MY_SLEEVE_Q2@)
}

/// The encoding of `base * x + aux * r`, each argument given by its encoding.
pub open spec fn commit_of(x: Seq<u8>, r: Seq<u8>, aux: Seq<u8>) -> Seq<u8> {
    ristretto_add_of(ristretto_mul_base_of(x), ristretto_mul_of(aux, r))
}

/// The encoding of `base * d + aux * e + com * c`: what the verifier rebuilds
/// of a first message from responses `d`, `e`, challenge `c` and a public
/// commitment `com`.
pub open spec fn rebuild_of(d: Seq<u8>, e: Seq<u8>, c: Seq<u8>, aux: Seq<u8>, com: Seq<u8>) -> Seq<
    u8,
> {
    ristretto_add_of(
        ristretto_add_of(ristretto_mul_base_of(d), ristretto_mul_of(aux, e)),
        ristretto_mul_of(com, c),
    )
}

/// A Pedersen commitment `base * x + aux * r` in the Ristretto group.
#[derive(Clone, Copy, Debug)]
pub struct Commitment(pub RistrettoElement);

impl Commitment {
    /// Commits to `x` with blinding factor `r1` and auxiliary point `other`.
    pub fn new(x: Scalar, r1: Scalar, other: RistrettoElement) -> (c: Self)
        ensures
            c.0.encoding() == commit_of(x.encoding(), r1.encoding(), other.encoding()),
    {
        Commitment(RistrettoElement::mul_base(&x).add_point(&other.mul_scalar(&r1)))
    }
}

/// The transcript `(c, d, d1, d2)`: the challenge, the response for the shared
/// secret, and the responses for the two blinding factors.
#[derive(Clone, Copy, Debug, PartialEq, Eq)]
pub struct EqProof {
    c: Scalar,
    d: Scalar,
    d1: Scalar,
    d2: Scalar,
}

impl View for EqProof {
    type V = (Scalar, Scalar, Scalar, Scalar);

    closed spec fn view(&self) -> (Scalar, Scalar, Scalar, Scalar) {
        (self.c, self.d, self.d1, self.d2)
    }
}

/// `p` is the transcript that masks `w`, `n1`, `n2` give for secret `x`,
/// blinding factors `r1`, `r2` and `nonce`: the challenge is derived from the
/// first messages `w1 = base * w + aux1 * n1` and `w2 = base * w + aux2 * n2`,
/// and `d = w - c * x`, `d1 = n1 - c * r1`, `d2 = n2 - c * r2` modulo l.
pub open spec fn is_response(
    p: (Scalar, Scalar, Scalar, Scalar),
    x: Scalar,
    r1: Scalar,
    r2: Scalar,
    nonce: Scalar,
    w: Scalar,
    n1: Scalar,
    n2: Scalar,
) -> bool {
    let w1 = commit_of(w.encoding(), n1.encoding(), aux1());
    let w2 = commit_of(w.encoding(), n2.encoding(), aux2());
    let c = p.0.value();
    let q = modulus() as int;
    &&& c == challenge_of(w1, w2, nonce.encoding())
    &&& p.1.value() as int == (w.value() - c * x.value()) % q
    &&& p.2.value() as int == (n1.value() - c * r1.value()) % q
    &&& p.3.value() as int == (n2.value() - c * r2.value()) % q
}

/// Whether the verifier accepts transcript `p` for commitments encoded by `b`
/// and `c` and `nonce`: the challenge derived again from the rebuilt first
/// messages equals the transcript's challenge.
pub open spec fn accepts(
    p: (Scalar, Scalar, Scalar, Scalar),
    b: Seq<u8>,
    c: Seq<u8>,
    nonce: Scalar,
) -> bool {
    let lhs = rebuild_of(p.1.encoding(), p.2.encoding(), p.0.encoding(), aux1(), b);
    let rhs = rebuild_of(p.1.encoding(), p.3.encoding(), p.0.encoding(), aux2(), c);
    p.0.value() == challenge_of(lhs, rhs, nonce.encoding())
}

impl EqProof {
    /// The proof for secret `x`, blinding factors `r1`, `r2` and `nonce`, built
    /// from the masks `w`, `n1`, `n2`.
    pub fn with_masks(
        x: Scalar,
        r1: Scalar,
        r2: Scalar,
        nonce: Scalar,
        w: Scalar,
        n1: Scalar,
        n2: Scalar,
    ) -> (p: EqProof)
        ensures
            is_response(p@, x, r1, r2, nonce, w, n1, n2),
    {
        let q1 = RistrettoElement::hash_from_bytes(NOTHING_UP_MY_SLEEVE_Q1.as_slice());
        let q2 = RistrettoElement::hash_from_bytes(NOTHING_UP_MY_SLEEVE_Q2.as_slice());
        let w1 = Commitment::new(w, n1, q1).0;
        let w2 = Commitment::new(w, n2, q2).0;
        let c = challenge(&w1, &w2, &nonce);
        let d = w.sub(&c.mul(&x));
        let d1 = n1.sub(&c.mul(&r1));
        let d2 = n2.sub(&c.mul(&r2));
        proof {
            let q = modulus() as int;
            lemma_sub_mod_noop(w.value() as int, (c.value() * x.value()) as int, q);
            lemma_sub_mod_noop(n1.value() as int, (c.value() * r1.value()) as int, q);
            lemma_sub_mod_noop(n2.value() as int, (c.value() * r2.value()) as int, q);
        }
        EqProof { c, d, d1, d2 }
    }

    /// Proves that the commitments to `x` with blinding factors `r1` (slot 1)
    /// and `r2` (slot 2) hide the same secret, bound to `nonce`. The masks are
    /// drawn from `rng`; whatever it hands out, the proof is the one that those
    /// masks give.
    pub fn new<R: EntropySource>(x: Scalar, r1: Scalar, r2: Scalar, nonce: Scalar, rng: &mut R) -> (p:
        EqProof)
        ensures
            exists|w: Scalar, n1: Scalar, n2: Scalar| is_response(p@, x, r1, r2, nonce, w, n1, n2),
    {
        let w = Scalar::random(rng);
        let n1 = Scalar::random(rng);
        let n2 = Scalar::random(rng);
        let p = EqProof::with_masks(x, r1, r2, nonce, w, n1, n2);
        assert(is_response(p@, x, r1, r2, nonce, w, n1, n2));
        p
    }

    /// Checks the proof against commitment `b` (slot 1), commitment `c`
    /// (slot 2) and `nonce`. The final comparison runs in constant time.
    pub fn open(&self, b: Commitment, c: Commitment, nonce: Scalar) -> (r: bool)
        ensures
            r == accepts(self@, b.0.encoding(), c.0.encoding(), nonce),
    {
        let q1 = RistrettoElement::hash_from_bytes(NOTHING_UP_MY_SLEEVE_Q1.as_slice());
        let q2 = RistrettoElement::hash_from_bytes(NOTHING_UP_MY_SLEEVE_Q2.as_slice());
        let d = RistrettoElement::mul_base(&self.d);
        let lhs = d.add_point(&q1.mul_scalar(&self.d1)).add_point(&b.0.mul_scalar(&self.c));
        let rhs = d.add_point(&q2.mul_scalar(&self.d2)).add_point(&c.0.mul_scalar(&self.c));
        let expected = challenge(&lhs, &rhs, &nonce);
        let mine = self.c.to_bytes();
        let theirs = expected.to_bytes();
        let r = ct_bytes_eq(mine.as_slice(), theirs.as_slice());
        proof {
            if self.c.value() == expected.value() {
                lemma_le_nat_injective(mine@, theirs@);
            }
        }
        r
    }
}

/// Completeness at the level of exponents: in a transcript built from masks
/// `w`, `n1`, `n2`, the responses and the challenge give the masks back,
/// `d + c * x = w`, `d1 + c * r1 = n1` and `d2 + c * r2 = n2` modulo l. So for
/// commitments to `x` with `r1` and `r2`, the verifier's
/// `base * d + aux * d1 + commitment * c` is, by the group laws,
/// `base * w + aux * n1`: the prover's first message.
pub proof fn lemma_responses_recombine(
    p: (Scalar, Scalar, Scalar, Scalar),
    x: Scalar,
    r1: Scalar,
    r2: Scalar,
    nonce: Scalar,
    w: Scalar,
    n1: Scalar,
    n2: Scalar,
)
    requires
        is_response(p, x, r1, r2, nonce, w, n1, n2),
        w.value() < modulus(),
        n1.value() < modulus(),
        n2.value() < modulus(),
    ensures
        (p.1.value() + p.0.value() * x.value()) % modulus() == w.value(),
        (p.2.value() + p.0.value() * r1.value()) % modulus() == n1.value(),
        (p.3.value() + p.0.value() * r2.value()) % modulus() == n2.value(),
{
    let q = modulus() as int;
    let c = p.0.value();
    lemma_add_back(w.value() as int, (c * x.value()) as int, q);
    lemma_add_back(n1.value() as int, (c * r1.value()) as int, q);
    lemma_add_back(n2.value() as int, (c * r2.value()) as int, q);
}


/// Scalars of equal value have equal encodings.
pub proof fn lemma_value_fixes_encoding(a: Scalar, b: Scalar)
    requires
        a.value() == b.value(),
    ensures
        a.encoding() == b.encoding(),
{
    lemma_le_nat_injective(a.encoding(), b.encoding());
}

/// Generation is reproducible: two transcripts built from the same secret,
/// blinding factors, nonce and masks (as a source seeded alike hands out) are
/// equal byte for byte, in `c`, `d`, `d1` and `d2`.
pub proof fn lemma_transcript_reproducible(
    p: (Scalar, Scalar, Scalar, Scalar),
    p2: (Scalar, Scalar, Scalar, Scalar),
    x: Scalar,
    r1: Scalar,
    r2: Scalar,
    nonce: Scalar,
    w: Scalar,
    n1: Scalar,
    n2: Scalar,
)
    requires
        is_response(p, x, r1, r2, nonce, w, n1, n2),
        is_response(p2, x, r1, r2, nonce, w, n1, n2),
    ensures
        p.0.encoding() == p2.0.encoding(),
        p.1.encoding() == p2.1.encoding(),
        p.2.encoding() == p2.2.encoding(),
        p.3.encoding() == p2.3.encoding(),
{
    lemma_value_fixes_encoding(p.0, p2.0);
    lemma_value_fixes_encoding(p.1, p2.1);
    lemma_value_fixes_encoding(p.2, p2.2);
    lemma_value_fixes_encoding(p.3, p2.3);
}

} // verus!
