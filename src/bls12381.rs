//! The proof over BLS12-381, whose two source groups G1 and G2 share one
//! scalar field: each slot of a proof may sit in either group.

use crate::encoding::{
    append_bytes, be_nat, ct_bytes_eq, lemma_add_back, lemma_le_nat_injective, lemma_one_encoding,
    lemma_sub_mod_noop, one_encoding,
    le_nat, EntropySource, NOTHING_UP_MY_SLEEVE_Q1, NOTHING_UP_MY_SLEEVE_Q2,
};
use bls12_381_plus::elliptic_curve::hash2curve::ExpandMsgXmd;
use sha2::Digest;
use vstd::prelude::*;

verus! {

/// The order q of the scalar field of BLS12-381.
pub open spec fn modulus() -> nat {
    let b: nat = 0x1_0000_0000_0000_0000;
    ((0x73ed_a753_299d_7d48 * b + 0x3339_d808_09a1_d805) * b + 0x53bd_a402_fffe_5bfe) * b
        + 0xffff_ffff_0000_0001
}

/// An element of the scalar field, held as its canonical 32-byte
/// little-endian encoding.
#[derive(Clone, Copy, Debug, PartialEq, Eq)]
pub struct Scalar {
    bytes: [u8; 32],
}

/// Relies on `Scalar::from_bytes_wide`: the 64 bytes are read as a
/// little-endian integer and reduced modulo q; `to_le_bytes` encodes the result.
#[verifier::external_body]
fn reduce_wide(b: &[u8; 64]) -> (r: [u8; 32])
    ensures
        le_nat(r@) == le_nat(b@) % modulus(),
{
    bls12_381_plus::Scalar::from_bytes_wide(b).to_le_bytes()
}

/// Relies on `Scalar::from_okm`: the 48 bytes are read as a big-endian
/// integer and reduced modulo q.
#[verifier::external_body]
fn reduce_okm(b: &[u8; 48]) -> (r: [u8; 32])
    ensures
        le_nat(r@) == be_nat(b@) % modulus(),
{
    bls12_381_plus::Scalar::from_okm(b).to_le_bytes()
}

/// Relies on field multiplication of `bls12_381_plus::Scalar` (`*`).
#[verifier::external_body]
fn field_mul(a: &[u8; 32], b: &[u8; 32]) -> (r: [u8; 32])
    requires
        le_nat(a@) < modulus(),
        le_nat(b@) < modulus(),
    ensures
        le_nat(r@) == (le_nat(a@) * le_nat(b@)) % modulus(),
{
    let a = bls12_381_plus::Scalar::from_le_bytes(a).unwrap();
    let b = bls12_381_plus::Scalar::from_le_bytes(b).unwrap();
    (a * b).to_le_bytes()
}

/// Relies on field subtraction of `bls12_381_plus::Scalar` (`-`).
#[verifier::external_body]
fn field_sub(a: &[u8; 32], b: &[u8; 32]) -> (r: [u8; 32])
    requires
        le_nat(a@) < modulus(),
        le_nat(b@) < modulus(),
    ensures
        le_nat(r@) as int == (le_nat(a@) - le_nat(b@)) % (modulus() as int),
{
    let a = bls12_381_plus::Scalar::from_le_bytes(a).unwrap();
    let b = bls12_381_plus::Scalar::from_le_bytes(b).unwrap();
    (a - b).to_le_bytes()
}

impl Scalar {
    #[verifier::type_invariant]
    closed spec fn canonical(&self) -> bool {
        le_nat(self.bytes@) < modulus()
    }

    /// The canonical little-endian encoding of the scalar.
    pub closed spec fn encoding(&self) -> Seq<u8> {
        self.bytes@
    }

    /// The scalar as an integer in `[0, q)`.
    pub open spec fn value(&self) -> nat {
        le_nat(self.encoding())
    }

    /// The canonical little-endian encoding of the scalar: 32 bytes, whose
    /// value lies below q.
    pub fn to_bytes(&self) -> (r: [u8; 32])
        ensures
            r@ == self.encoding(),
            r@.len() == 32,
            self.value() < modulus(),
    {
        proof {
            use_type_invariant(self);
        }
        self.bytes
    }

    /// The scalar one.
    pub fn one() -> (r: Scalar)
        ensures
            r.encoding() == one_encoding(),
            r.value() == 1,
    {
        let bytes: [u8; 32] = [
            1, 0, 0, 0, 0, 0, 0, 0, 0, 0, 0, 0, 0, 0, 0, 0, 0, 0, 0, 0, 0, 0, 0, 0, 0, 0, 0, 0, 0, 0,
            0, 0,
        ];
        proof {
            assert(bytes@ =~= one_encoding());
            lemma_one_encoding();
        }
        Scalar { bytes }
    }

    /// The scalar whose value is the little-endian integer `b`, reduced modulo q.
    pub fn from_bytes_wide(b: &[u8; 64]) -> (r: Scalar)
        ensures
            r.value() == le_nat(b@) % modulus(),
    {
        Scalar { bytes: reduce_wide(b) }
    }

    /// The scalar whose value is the big-endian integer `b`, reduced modulo q:
    /// the map from a hash output to the challenge.
    pub fn from_okm(b: &[u8; 48]) -> (r: Scalar)
        ensures
            r.value() == be_nat(b@) % modulus(),
    {
        Scalar { bytes: reduce_okm(b) }
    }

    /// A uniformly random scalar: 64 bytes from `rng`, reduced modulo q.
    pub fn random<R: EntropySource>(rng: &mut R) -> (r: Scalar) {
        let wide = rng.fill_wide();
        Scalar::from_bytes_wide(&wide)
    }

    /// The product `self * o` in the field.
    pub fn mul(&self, o: &Scalar) -> (r: Scalar)
        ensures
            r.value() == (self.value() * o.value()) % modulus(),
    {
        proof {
            use_type_invariant(self);
            use_type_invariant(o);
        }
        Scalar { bytes: field_mul(&self.bytes, &o.bytes) }
    }

    /// The difference `self - o` in the field.
    pub fn sub(&self, o: &Scalar) -> (r: Scalar)
        ensures
            r.value() as int == (self.value() - o.value()) % (modulus() as int),
    {
        proof {
            use_type_invariant(self);
            use_type_invariant(o);
        }
        let bytes = field_sub(&self.bytes, &o.bytes);
        proof {
            vstd::arithmetic::div_mod::lemma_mod_bound(
                le_nat(self.bytes@) - le_nat(o.bytes@),
                modulus() as int,
            );
        }
        Scalar { bytes }
    }
}


/// Domain separation tag of hash-to-curve into G1: the ASCII text
/// "BLS12381G1_XMD:SHA-256_SSWU_RO_".
pub const DST_G1: [u8; 31] = [
    66, 76, 83, 49, 50, 51, 56, 49, 71, 49, 95, 88, 77, 68, 58, 83, 72, 65, 45, 50, 53, 54, 95, 83,
    83, 87, 85, 95, 82, 79, 95,
];

/// Domain separation tag of hash-to-curve into G2: the ASCII text
/// "BLS12381G2_XMD:SHA-256_SSWU_RO_".
pub const DST_G2: [u8; 31] = [
    66, 76, 83, 49, 50, 51, 56, 49, 71, 50, 95, 88, 77, 68, 58, 83, 72, 65, 45, 50, 53, 54, 95, 83,
    83, 87, 85, 95, 82, 79, 95,
];

/// A group in which one slot of a proof can sit: it has a canonical generator,
/// a hash onto the group, and a canonical compressed encoding of its elements.
/// Elements are modelled by their encodings.
pub trait Point: Sized {
    /// The canonical compressed encoding of the element.
    spec fn encoding(&self) -> Seq<u8>;

    /// The encoding of the element that the byte string `msg` hashes to.
    spec fn spec_hash(msg: Seq<u8>) -> Seq<u8>;

    /// The encoding of the generator times the scalar encoded by `s`.
    spec fn spec_mul_generator(s: Seq<u8>) -> Seq<u8>;

    /// The encoding of the element encoded by `p` times the scalar encoded by `s`.
    spec fn spec_mul(p: Seq<u8>, s: Seq<u8>) -> Seq<u8>;

    /// The encoding of the sum of the elements encoded by `a` and `b`.
    spec fn spec_add(a: Seq<u8>, b: Seq<u8>) -> Seq<u8>;

    /// The canonical generator times `s`.
    fn mul_generator(s: &Scalar) -> (r: Self)
        ensures
            r.encoding() == Self::spec_mul_generator(s.encoding()),
    ;

    /// The canonical generator of the group.
    fn generator() -> (r: Self)
        ensures
            r.encoding() == Self::spec_mul_generator(one_encoding()),
    {
        Self::mul_generator(&Scalar::one())
    }

    /// Hashes `msg` onto the group, under the group's domain separation tag.
    fn hash(msg: &[u8]) -> (r: Self)
        ensures
            r.encoding() == Self::spec_hash(msg@),
    ;

    /// The canonical compressed encoding of the element.
    fn to_bytes(&self) -> (r: Vec<u8>)
        ensures
            r@ == self.encoding(),
    ;

    /// The element times `s`.
    fn mul_scalar(&self, s: &Scalar) -> (r: Self)
        ensures
            r.encoding() == Self::spec_mul(self.encoding(), s.encoding()),
    ;

    /// The sum of the element and `o`.
    fn add_point(&self, o: &Self) -> (r: Self)
        ensures
            r.encoding() == Self::spec_add(self.encoding(), o.encoding()),
    ;
}

/// Whether `G1Projective::from_compressed` accepts the bytes.
pub uninterp spec fn g1_decodes(enc: Seq<u8>) -> bool;

/// The compressed encoding of `G1Projective::hash` (expand_message_xmd over
/// SHA-256) of `msg` under tag `dst`.
pub uninterp spec fn g1_hash_of(msg: Seq<u8>, dst: Seq<u8>) -> Seq<u8>;

/// The compressed encoding of the G1 generator times the scalar encoded by `s`.
pub uninterp spec fn g1_mul_generator_of(s: Seq<u8>) -> Seq<u8>;

/// The compressed encoding of the G1 element encoded by `p` times the scalar
/// encoded by `s`.
pub uninterp spec fn g1_mul_of(p: Seq<u8>, s: Seq<u8>) -> Seq<u8>;

/// The compressed encoding of the sum of the G1 elements encoded by `a` and `b`.
pub uninterp spec fn g1_add_of(a: Seq<u8>, b: Seq<u8>) -> Seq<u8>;

/// Relies on `G1Projective::hash` with `ExpandMsgXmd<Sha256>`, and on
/// `to_compressed`, whose output `from_compressed` accepts.
#[verifier::external_body]
fn g1_hash(msg: &[u8], dst: &[u8]) -> (r: [u8; 48])
    ensures
        r@ == g1_hash_of(msg@, dst@),
        g1_decodes(r@),
{
    bls12_381_plus::G1Projective::hash::<ExpandMsgXmd<sha2::Sha256>>(msg, dst).to_compressed()
}

/// Relies on `G1Projective::GENERATOR * Scalar`, and on `to_compressed`, whose
/// output `from_compressed` accepts.
#[verifier::external_body]
fn g1_mul_generator(s: &[u8; 32]) -> (r: [u8; 48])
    requires
        le_nat(s@) < modulus(),
    ensures
        r@ == g1_mul_generator_of(s@),
        g1_decodes(r@),
{
    let s = bls12_381_plus::Scalar::from_le_bytes(s).unwrap();
    (bls12_381_plus::G1Projective::GENERATOR * s).to_compressed()
}

/// Relies on `G1Projective * Scalar`, and on `to_compressed`, whose output
/// `from_compressed` accepts.
#[verifier::external_body]
fn g1_mul(p: &[u8; 48], s: &[u8; 32]) -> (r: [u8; 48])
    requires
        g1_decodes(p@),
        le_nat(s@) < modulus(),
    ensures
        r@ == g1_mul_of(p@, s@),
        g1_decodes(r@),
{
    let p = bls12_381_plus::G1Projective::from_compressed(p).unwrap();
    let s = bls12_381_plus::Scalar::from_le_bytes(s).unwrap();
    (p * s).to_compressed()
}

/// Relies on `G1Projective + G1Projective`, and on `to_compressed`, whose
/// output `from_compressed` accepts.
#[verifier::external_body]
fn g1_add(a: &[u8; 48], b: &[u8; 48]) -> (r: [u8; 48])
    requires
        g1_decodes(a@),
        g1_decodes(b@),
    ensures
        r@ == g1_add_of(a@, b@),
        g1_decodes(r@),
{
    let a = bls12_381_plus::G1Projective::from_compressed(a).unwrap();
    let b = bls12_381_plus::G1Projective::from_compressed(b).unwrap();
    (a + b).to_compressed()
}

/// An element of G1, held as its 48-byte compressed encoding.
#[derive(Clone, Copy, Debug, PartialEq, Eq)]
pub struct G1Element {
    enc: [u8; 48],
}

impl G1Element {
    #[verifier::type_invariant]
    closed spec fn decodes(&self) -> bool {
        g1_decodes(self.enc@)
    }
}

impl Point for G1Element {
    closed spec fn encoding(&self) -> Seq<u8> {
        self.enc@
    }

    open spec fn spec_hash(msg: Seq<u8>) -> Seq<u8> {
        g1_hash_of(msg, DST_G1@)
    }

    open spec fn spec_mul_generator(s: Seq<u8>) -> Seq<u8> {
        g1_mul_generator_of(s)
    }

    open spec fn spec_mul(p: Seq<u8>, s: Seq<u8>) -> Seq<u8> {
        g1_mul_of(p, s)
    }

    open spec fn spec_add(a: Seq<u8>, b: Seq<u8>) -> Seq<u8> {
        g1_add_of(a, b)
    }

    fn mul_generator(s: &Scalar) -> (r: Self) {
        proof {
            use_type_invariant(s);
        }
        G1Element { enc: g1_mul_generator(&s.bytes) }
    }

    fn hash(msg: &[u8]) -> (r: Self) {
        G1Element { enc: g1_hash(msg, DST_G1.as_slice()) }
    }

    fn to_bytes(&self) -> (r: Vec<u8>)
        ensures
            r@.len() == 48,
            g1_decodes(r@),
    {
        proof {
            use_type_invariant(self);
        }
        let mut v: Vec<u8> = Vec::new();
        append_bytes(&mut v, self.enc.as_slice());
        v
    }

    fn mul_scalar(&self, s: &Scalar) -> (r: Self) {
        proof {
            use_type_invariant(self);
            use_type_invariant(s);
        }
        G1Element { enc: g1_mul(&self.enc, &s.bytes) }
    }

    fn add_point(&self, o: &Self) -> (r: Self) {
        proof {
            use_type_invariant(self);
            use_type_invariant(o);
        }
        G1Element { enc: g1_add(&self.enc, &o.enc) }
    }
}

/// Whether `G2Projective::from_compressed` accepts the bytes.
pub uninterp spec fn g2_decodes(enc: Seq<u8>) -> bool;

/// The compressed encoding of `G2Projective::hash` (expand_message_xmd over
/// SHA-256) of `msg` under tag `dst`.
pub uninterp spec fn g2_hash_of(msg: Seq<u8>, dst: Seq<u8>) -> Seq<u8>;

/// The compressed encoding of the G2 generator times the scalar encoded by `s`.
pub uninterp spec fn g2_mul_generator_of(s: Seq<u8>) -> Seq<u8>;

/// The compressed encoding of the G2 element encoded by `p` times the scalar
/// encoded by `s`.
pub uninterp spec fn g2_mul_of(p: Seq<u8>, s: Seq<u8>) -> Seq<u8>;

/// The compressed encoding of the sum of the G2 elements encoded by `a` and `b`.
pub uninterp spec fn g2_add_of(a: Seq<u8>, b: Seq<u8>) -> Seq<u8>;

/// Relies on `G2Projective::hash` with `ExpandMsgXmd<Sha256>`, and on
/// `to_compressed`, whose output `from_compressed` accepts.
#[verifier::external_body]
fn g2_hash(msg: &[u8], dst: &[u8]) -> (r: [u8; 96])
    ensures
        r@ == g2_hash_of(msg@, dst@),
        g2_decodes(r@),
{
    bls12_381_plus::G2Projective::hash::<ExpandMsgXmd<sha2::Sha256>>(msg, dst).to_compressed()
}

/// Relies on `G2Projective::GENERATOR * Scalar`, and on `to_compressed`, whose
/// output `from_compressed` accepts.
#[verifier::external_body]
fn g2_mul_generator(s: &[u8; 32]) -> (r: [u8; 96])
    requires
        le_nat(s@) < modulus(),
    ensures
        r@ == g2_mul_generator_of(s@),
        g2_decodes(r@),
{
    let s = bls12_381_plus::Scalar::from_le_bytes(s).unwrap();
    (bls12_381_plus::G2Projective::GENERATOR * s).to_compressed()
}

/// Relies on `G2Projective * Scalar`, and on `to_compressed`, whose output
/// `from_compressed` accepts.
#[verifier::external_body]
fn g2_mul(p: &[u8; 96], s: &[u8; 32]) -> (r: [u8; 96])
    requires
        g2_decodes(p@),
        le_nat(s@) < modulus(),
    ensures
        r@ == g2_mul_of(p@, s@),
        g2_decodes(r@),
{
    let p = bls12_381_plus::G2Projective::from_compressed(p).unwrap();
    let s = bls12_381_plus::Scalar::from_le_bytes(s).unwrap();
    (p * s).to_compressed()
}

/// Relies on `G2Projective + G2Projective`, and on `to_compressed`, whose
/// output `from_compressed` accepts.
#[verifier::external_body]
fn g2_add(a: &[u8; 96], b: &[u8; 96]) -> (r: [u8; 96])
    requires
        g2_decodes(a@),
        g2_decodes(b@),
    ensures
        r@ == g2_add_of(a@, b@),
        g2_decodes(r@),
{
    let a = bls12_381_plus::G2Projective::from_compressed(a).unwrap();
    let b = bls12_381_plus::G2Projective::from_compressed(b).unwrap();
    (a + b).to_compressed()
}

/// An element of G2, held as its 96-byte compressed encoding.
#[derive(Clone, Copy, Debug, PartialEq, Eq)]
pub struct G2Element {
    enc: [u8; 96],
}

impl G2Element {
    #[verifier::type_invariant]
    closed spec fn decodes(&self) -> bool {
        g2_decodes(self.enc@)
    }
}

impl Point for G2Element {
    closed spec fn encoding(&self) -> Seq<u8> {
        self.enc@
    }

    open spec fn spec_hash(msg: Seq<u8>) -> Seq<u8> {
        g2_hash_of(msg, DST_G2@)
    }

    open spec fn spec_mul_generator(s: Seq<u8>) -> Seq<u8> {
        g2_mul_generator_of(s)
    }

    open spec fn spec_mul(p: Seq<u8>, s: Seq<u8>) -> Seq<u8> {
        g2_mul_of(p, s)
    }

    open spec fn spec_add(a: Seq<u8>, b: Seq<u8>) -> Seq<u8> {
        g2_add_of(a, b)
    }

    fn mul_generator(s: &Scalar) -> (r: Self) {
        proof {
            use_type_invariant(s);
        }
        G2Element { enc: g2_mul_generator(&s.bytes) }
    }

    fn hash(msg: &[u8]) -> (r: Self) {
        G2Element { enc: g2_hash(msg, DST_G2.as_slice()) }
    }

    fn to_bytes(&self) -> (r: Vec<u8>)
        ensures
            r@.len() == 96,
            g2_decodes(r@),
    {
        proof {
            use_type_invariant(self);
        }
        let mut v: Vec<u8> = Vec::new();
        append_bytes(&mut v, self.enc.as_slice());
        v
    }

    fn mul_scalar(&self, s: &Scalar) -> (r: Self) {
        proof {
            use_type_invariant(self);
            use_type_invariant(s);
        }
        G2Element { enc: g2_mul(&self.enc, &s.bytes) }
    }

    fn add_point(&self, o: &Self) -> (r: Self) {
        proof {
            use_type_invariant(self);
            use_type_invariant(o);
        }
        G2Element { enc: g2_add(&self.enc, &o.enc) }
    }
}


/// The 48-byte SHA-384 digest of `data`.
pub uninterp spec fn sha384_of(data: Seq<u8>) -> Seq<u8>;

/// Relies on `sha2::Sha384::digest`, whose output is 48 bytes long.
#[verifier::external_body]
fn sha384(data: &[u8]) -> (r: [u8; 48])
    ensures
        r@ == sha384_of(data@),
{
    <[u8; 48]>::try_from(sha2::Sha384::digest(data).as_slice()).unwrap()
}

/// The challenge value for the prover's first messages, encoded by `w1` and
/// `w2`, and the nonce encoded by `nonce`: SHA-384 of the three encodings in that
/// order, read as a big-endian integer and reduced modulo q.
pub open spec fn challenge_of(w1: Seq<u8>, w2: Seq<u8>, nonce: Seq<u8>) -> nat {
    be_nat(sha384_of(w1 + w2 + nonce)) % modulus()
}

/// Derives the challenge from the prover's first messages and the nonce. The
/// result depends on the three encodings alone.
pub fn challenge<Q1: Point, Q2: Point>(w1: &Q1, w2: &Q2, nonce: &Scalar) -> (c: Scalar)
    ensures
        c.value() == challenge_of(w1.encoding(), w2.encoding(), nonce.encoding()),
{
    let mut transcript = w1.to_bytes();
    let second = w2.to_bytes();
    append_bytes(&mut transcript, second.as_slice());
    let nonce_bytes = nonce.to_bytes();
    append_bytes(&mut transcript, nonce_bytes.as_slice());
    let digest = sha384(transcript.as_slice());
    Scalar::from_okm(&digest)
}

/// The encoding of the auxiliary point of the first slot in group `P`.
pub open spec fn aux1<P: Point>() -> Seq<u8> {
    P::spec_hash(NOTHING_UP_MY_SLEEVE_Q1@)
}

/// The encoding of the auxiliary point of the second slot in group `P`.
pub open spec fn aux2<P: Point>() -> Seq<u8> {
    P::spec_hash(NOTHING_UP_MY_SLEEVE_Q2@)
}

/// The encoding of `generator * x + aux * r` in group `P`, each argument given by
/// its encoding.
pub open spec fn commit_of<P: Point>(x: Seq<u8>, r: Seq<u8>, aux: Seq<u8>) -> Seq<u8> {
    P::spec_add(P::spec_mul_generator(x), P::spec_mul(aux, r))
}

/// The encoding of `generator * d + aux * e + com * c` in group `P`: what the
/// verifier rebuilds of a first message from responses `d`, `e`, challenge `c`
/// and a public commitment `com`.
pub open spec fn rebuild_of<P: Point>(
    d: Seq<u8>,
    e: Seq<u8>,
    c: Seq<u8>,
    aux: Seq<u8>,
    com: Seq<u8>,
) -> Seq<u8> {
    P::spec_add(P::spec_add(P::spec_mul_generator(d), P::spec_mul(aux, e)), P::spec_mul(com, c))
}

/// A Pedersen commitment `generator * x + aux * r` in group `P`.
#[derive(Clone, Copy, Debug)]
pub struct Commitment<P: Point>(pub P);

impl<P: Point> Commitment<P> {
    /// Commits to `x` with blinding factor `r1` and auxiliary point `other`.
    pub fn new(x: Scalar, r1: Scalar, other: P) -> (c: Self)
        ensures
            c.0.encoding() == commit_of::<P>(x.encoding(), r1.encoding(), other.encoding()),
    {
        Commitment(P::mul_generator(&x).add_point(&other.mul_scalar(&r1)))
    }
}

/// The transcript `(c, d, d1, d2)`: the challenge, the response for the shared
/// secret, and the responses for the two blinding factors.
#[derive(Clone, Copy, Debug, PartialEq, Eq)]
pub struct EqProof {
    c: Scalar,
    d: Scalar,
    d1: Scalar,
    d2: Scalar,
}

impl View for EqProof {
    type V = (Scalar, Scalar, Scalar, Scalar);

    closed spec fn view(&self) -> (Scalar, Scalar, Scalar, Scalar) {
        (self.c, self.d, self.d1, self.d2)
    }
}

/// `p` is the transcript that masks `w`, `n1`, `n2` give for secret `x`,
/// blinding factors `r1`, `r2` and `nonce`, with slot 1 in `Q1` and slot 2 in
/// `Q2`: the challenge is derived from the first messages
/// `w1 = generator * w + aux1 * n1` and `w2 = generator * w + aux2 * n2`, and
/// `d = w - c * x`, `d1 = n1 - c * r1`, `d2 = n2 - c * r2` in the field.
pub open spec fn is_response<Q1: Point, Q2: Point>(
    p: (Scalar, Scalar, Scalar, Scalar),
    x: Scalar,
    r1: Scalar,
    r2: Scalar,
    nonce: Scalar,
    w: Scalar,
    n1: Scalar,
    n2: Scalar,
) -> bool {
    let w1 = commit_of::<Q1>(w.encoding(), n1.encoding(), aux1::<Q1>());
    let w2 = commit_of::<Q2>(w.encoding(), n2.encoding(), aux2::<Q2>());
    let c = p.0.value();
    let q = modulus() as int;
    &&& c == challenge_of(w1, w2, nonce.encoding())
    &&& p.1.value() as int == (w.value() - c * x.value()) % q
    &&& p.2.value() as int == (n1.value() - c * r1.value()) % q
    &&& p.3.value() as int == (n2.value() - c * r2.value()) % q
}

/// Whether the verifier accepts transcript `p` for commitments encoded by `b`
/// (in `Q1`) and `c` (in `Q2`) and `nonce`: the challenge derived again from
/// the rebuilt first messages equals the transcript's challenge.
pub open spec fn accepts<Q1: Point, Q2: Point>(
    p: (Scalar, Scalar, Scalar, Scalar),
    b: Seq<u8>,
    c: Seq<u8>,
    nonce: Scalar,
) -> bool {
    let lhs = rebuild_of::<Q1>(p.1.encoding(), p.2.encoding(), p.0.encoding(), aux1::<Q1>(), b);
    let rhs = rebuild_of::<Q2>(p.1.encoding(), p.3.encoding(), p.0.encoding(), aux2::<Q2>(), c);
    p.0.value() == challenge_of(lhs, rhs, nonce.encoding())
}

impl EqProof {
    /// The proof for secret `x`, blinding factors `r1`, `r2` and `nonce`, built
    /// from the masks `w`, `n1`, `n2`.
    pub fn with_masks<Q1: Point, Q2: Point>(
        x: Scalar,
        r1: Scalar,
        r2: Scalar,
        nonce: Scalar,
        w: Scalar,
        n1: Scalar,
        n2: Scalar,
    ) -> (p: EqProof)
        ensures
            is_response::<Q1, Q2>(p@, x, r1, r2, nonce, w, n1, n2),
    {
        let q1 = Q1::hash(NOTHING_UP_MY_SLEEVE_Q1.as_slice());
        let q2 = Q2::hash(NOTHING_UP_MY_SLEEVE_Q2.as_slice());
        let w1 = Commitment::new(w, n1, q1).0;
        let w2 = Commitment::new(w, n2, q2).0;
        let c = challenge(&w1, &w2, &nonce);
        let d = w.sub(&c.mul(&x));
        let d1 = n1.sub(&c.mul(&r1));
        let d2 = n2.sub(&c.mul(&r2));
        proof {
            let q = modulus() as int;
            lemma_sub_mod_noop(w.value() as int, (c.value() * x.value()) as int, q);
            lemma_sub_mod_noop(n1.value() as int, (c.value() * r1.value()) as int, q);
            lemma_sub_mod_noop(n2.value() as int, (c.value() * r2.value()) as int, q);
        }
        EqProof { c, d, d1, d2 }
    }

    /// Proves that the commitments to `x` with blinding factors `r1` (slot 1, in
    /// `Q1`) and `r2` (slot 2, in `Q2`) hide the same secret, bound to `nonce`.
    /// The masks are drawn from `rng`; whatever it hands out, the proof is the
    /// one that those masks give.
    pub fn new<Q1: Point, Q2: Point, R: EntropySource>(
        x: Scalar,
        r1: Scalar,
        r2: Scalar,
        nonce: Scalar,
        mut rng: R,
    ) -> (p: EqProof)
        ensures
            exists|w: Scalar, n1: Scalar, n2: Scalar|
                is_response::<Q1, Q2>(p@, x, r1, r2, nonce, w, n1, n2),
    {
        let w = Scalar::random(&mut rng);
        let n1 = Scalar::random(&mut rng);
        let n2 = Scalar::random(&mut rng);
        let p = EqProof::with_masks::<Q1, Q2>(x, r1, r2, nonce, w, n1, n2);
        assert(is_response::<Q1, Q2>(p@, x, r1, r2, nonce, w, n1, n2));
        p
    }

    /// Checks the proof against commitment `b` (slot 1), commitment `c`
    /// (slot 2) and `nonce`. The final comparison runs in constant time.
    pub fn open<Q1: Point, Q2: Point>(&self, b: Commitment<Q1>, c: Commitment<Q2>, nonce: Scalar) -> (r: bool)
        ensures
            r == accepts::<Q1, Q2>(self@, b.0.encoding(), c.0.encoding(), nonce),
    {
        let q1 = Q1::hash(NOTHING_UP_MY_SLEEVE_Q1.as_slice());
        let q2 = Q2::hash(NOTHING_UP_MY_SLEEVE_Q2.as_slice());
        let lhs = Q1::mul_generator(&self.d).add_point(&q1.mul_scalar(&self.d1)).add_point(
            &b.0.mul_scalar(&self.c),
        );
        let rhs = Q2::mul_generator(&self.d).add_point(&q2.mul_scalar(&self.d2)).add_point(
            &c.0.mul_scalar(&self.c),
        );
        let expected = challenge(&lhs, &rhs, &nonce);
        let mine = self.c.to_bytes();
        let theirs = expected.to_bytes();
        let r = ct_bytes_eq(mine.as_slice(), theirs.as_slice());
        proof {
            if self.c.value() == expected.value() {
                lemma_le_nat_injective(mine@, theirs@);
            }
        }
        r
    }
}


/// Completeness at the level of exponents: in a transcript built from masks
/// `w`, `n1`, `n2`, the responses and the challenge give the masks back,
/// `d + c * x = w`, `d1 + c * r1 = n1` and `d2 + c * r2 = n2` in the field. So
/// for commitments to `x` with `r1` and `r2`, the verifier's
/// `generator * d + aux * d1 + commitment * c` is, by the group laws,
/// `generator * w + aux * n1`: the prover's first message.
pub proof fn lemma_responses_recombine<Q1: Point, Q2: Point>(
    p: (Scalar, Scalar, Scalar, Scalar),
    x: Scalar,
    r1: Scalar,
    r2: Scalar,
    nonce: Scalar,
    w: Scalar,
    n1: Scalar,
    n2: Scalar,
)
    requires
        is_response::<Q1, Q2>(p, x, r1, r2, nonce, w, n1, n2),
        w.value() < modulus(),
        n1.value() < modulus(),
        n2.value() < modulus(),
    ensures
        (p.1.value() + p.0.value() * x.value()) % modulus() == w.value(),
        (p.2.value() + p.0.value() * r1.value()) % modulus() == n1.value(),
        (p.3.value() + p.0.value() * r2.value()) % modulus() == n2.value(),
{
    let q = modulus() as int;
    let c = p.0.value();
    lemma_add_back(w.value() as int, (c * x.value()) as int, q);
    lemma_add_back(n1.value() as int, (c * r1.value()) as int, q);
    lemma_add_back(n2.value() as int, (c * r2.value()) as int, q);
}


/// Scalars of equal value have equal encodings.
pub proof fn lemma_value_fixes_encoding(a: Scalar, b: Scalar)
    requires
        a.value() == b.value(),
    ensures
        a.encoding() == b.encoding(),
{
    lemma_le_nat_injective(a.encoding(), b.encoding());
}

/// Generation is reproducible: two transcripts built from the same secret,
/// blinding factors, nonce and masks (as a source seeded alike hands out) are
/// equal byte for byte, in `c`, `d`, `d1` and `d2`.
pub proof fn lemma_transcript_reproducible<Q1: Point, Q2: Point>(
    p: (Scalar, Scalar, Scalar, Scalar),
    p2: (Scalar, Scalar, Scalar, Scalar),
    x: Scalar,
    r1: Scalar,
    r2: Scalar,
    nonce: Scalar,
    w: Scalar,
    n1: Scalar,
    n2: Scalar,
)
    requires
        is_response::<Q1, Q2>(p, x, r1, r2, nonce, w, n1, n2),
        is_response::<Q1, Q2>(p2, x, r1, r2, nonce, w, n1, n2),
    ensures
        p.0.encoding() == p2.0.encoding(),
        p.1.encoding() == p2.1.encoding(),
        p.2.encoding() == p2.2.encoding(),
        p.3.encoding() == p2.3.encoding(),
{
    lemma_value_fixes_encoding(p.0, p2.0);
    lemma_value_fixes_encoding(p.1, p2.1);
    lemma_value_fixes_encoding(p.2, p2.2);
    lemma_value_fixes_encoding(p.3, p2.3);
}

} // verus!
