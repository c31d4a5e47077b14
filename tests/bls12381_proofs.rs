use bls12_381_plus::elliptic_curve::hash2curve::ExpandMsgXmd;
use cross_group_dleq::bls12381::{
    challenge, Commitment, EqProof, G1Element, G2Element, Point, Scalar, DST_G1, DST_G2,
};
use cross_group_dleq::encoding::{EntropySource, NOTHING_UP_MY_SLEEVE_Q1, NOTHING_UP_MY_SLEEVE_Q2};
use rand_core::{RngCore, SeedableRng};

/// A seeded, reproducible source of bytes: for tests only.
pub struct MockRng(rand_xorshift::XorShiftRng);

impl MockRng {
    pub fn new() -> Self {
        Self(rand_xorshift::XorShiftRng::from_seed([7u8; 16]))
    }
}

impl EntropySource for MockRng {
    fn fill_wide(&mut self) -> [u8; 64] {
        let mut buf = [0u8; 64];
        self.0.fill_bytes(&mut buf);
        buf
    }
}

fn small(v: u8) -> Scalar {
    let mut wide = [0u8; 64];
    wide[0] = v;
    Scalar::from_bytes_wide(&wide)
}

fn scalars(rng: &mut MockRng) -> (Scalar, Scalar, Scalar, Scalar) {
    let x = Scalar::random(rng);
    let r1 = Scalar::random(rng);
    let r2 = Scalar::random(rng);
    let nonce = Scalar::random(rng);
    (x, r1, r2, nonce)
}

#[test]
fn proof_works_both_g1() {
    let mut rng = MockRng::new();
    let (x, r1, r2, nonce) = scalars(&mut rng);

    let q1 = <G1Element as Point>::hash(&NOTHING_UP_MY_SLEEVE_Q1);
    let q2 = <G1Element as Point>::hash(&NOTHING_UP_MY_SLEEVE_Q2);
    let b = Commitment::new(x, r1, q1);
    let c = Commitment::new(x, r2, q2);

    let proof = EqProof::new::<G1Element, G1Element, MockRng>(x, r1, r2, nonce, rng);
    assert!(proof.open(b, c, nonce));
}

#[test]
fn proof_works_both_g2() {
    let mut rng = MockRng::new();
    let (x, r1, r2, nonce) = scalars(&mut rng);

    let q1 = <G2Element as Point>::hash(&NOTHING_UP_MY_SLEEVE_Q1);
    let q2 = <G2Element as Point>::hash(&NOTHING_UP_MY_SLEEVE_Q2);
    let b = Commitment::new(x, r1, q1);
    let c = Commitment::new(x, r2, q2);

    let proof = EqProof::new::<G2Element, G2Element, MockRng>(x, r1, r2, nonce, rng);
    assert!(proof.open(b, c, nonce));
}

#[test]
fn proof_works_g1_g2() {
    let mut rng = MockRng::new();
    let (x, r1, r2, nonce) = scalars(&mut rng);

    let q1 = <G1Element as Point>::hash(&NOTHING_UP_MY_SLEEVE_Q1);
    let q2 = <G2Element as Point>::hash(&NOTHING_UP_MY_SLEEVE_Q2);
    let b = Commitment::new(x, r1, q1);
    let c = Commitment::new(x, r2, q2);

    let proof = EqProof::new::<G1Element, G2Element, MockRng>(x, r1, r2, nonce, rng);
    assert!(proof.open(b, c, nonce));
}

#[test]
fn proof_works_g2_g1() {
    let mut rng = MockRng::new();
    let (x, r1, r2, nonce) = scalars(&mut rng);

    let q1 = <G2Element as Point>::hash(&NOTHING_UP_MY_SLEEVE_Q1);
    let q2 = <G1Element as Point>::hash(&NOTHING_UP_MY_SLEEVE_Q2);
    let b = Commitment::new(x, r1, q1);
    let c = Commitment::new(x, r2, q2);

    let proof = EqProof::new::<G2Element, G1Element, MockRng>(x, r1, r2, nonce, rng);
    assert!(proof.open(b, c, nonce));
}

#[test]
fn bls_proof_fails_for_other_secret() {
    let mut rng = MockRng::new();
    let (x, r1, r2, nonce) = scalars(&mut rng);
    let x2 = Scalar::random(&mut rng);
    assert_ne!(x, x2);

    let q1 = <G1Element as Point>::hash(&NOTHING_UP_MY_SLEEVE_Q1);
    let q2 = <G2Element as Point>::hash(&NOTHING_UP_MY_SLEEVE_Q2);
    let proof = EqProof::new::<G1Element, G2Element, MockRng>(x, r1, r2, nonce, MockRng::new());
    assert!(!proof.open(Commitment::new(x2, r1, q1), Commitment::new(x, r2, q2), nonce));
    assert!(!proof.open(Commitment::new(x, r1, q1), Commitment::new(x2, r2, q2), nonce));
    assert!(!proof.open(Commitment::new(x2, r1, q1), Commitment::new(x2, r2, q2), nonce));
}

#[test]
fn bls_proof_fails_for_other_nonce() {
    let mut rng = MockRng::new();
    let (x, r1, r2, nonce) = scalars(&mut rng);
    let other_nonce = Scalar::random(&mut rng);

    let q1 = <G2Element as Point>::hash(&NOTHING_UP_MY_SLEEVE_Q1);
    let q2 = <G1Element as Point>::hash(&NOTHING_UP_MY_SLEEVE_Q2);
    let b = Commitment::new(x, r1, q1);
    let c = Commitment::new(x, r2, q2);
    let proof = EqProof::new::<G2Element, G1Element, MockRng>(x, r1, r2, nonce, rng);
    assert!(proof.open(b, c, nonce));
    assert!(!proof.open(b, c, other_nonce));
}

#[test]
fn bls_generation_is_reproducible() {
    let mut rng = MockRng::new();
    let (x, r1, r2, nonce) = scalars(&mut rng);
    let first = EqProof::new::<G1Element, G2Element, MockRng>(x, r1, r2, nonce, MockRng::new());
    let second = EqProof::new::<G1Element, G2Element, MockRng>(x, r1, r2, nonce, MockRng::new());
    assert_eq!(first, second);

    let (w, n1, n2, _) = scalars(&mut MockRng::new());
    let masked = EqProof::with_masks::<G1Element, G2Element>(x, r1, r2, nonce, w, n1, n2);
    assert_eq!(first, masked);
}

#[test]
fn bls_challenge_is_deterministic() {
    let mut rng = MockRng::new();
    let (w, n1, nonce, other) = scalars(&mut rng);
    let w1 = G1Element::mul_generator(&w);
    let w2 = G2Element::mul_generator(&n1);
    let first = challenge(&w1, &w2, &nonce);
    let second = challenge(&w1, &w2, &nonce);
    assert_eq!(first, second);
    assert_ne!(first, challenge(&w1, &w2, &other));
    assert_ne!(first, challenge(&w2, &w1, &nonce));
}

#[test]
fn bls_scalar_arithmetic() {
    let mut six = [0u8; 32];
    six[0] = 6;
    assert_eq!(small(2).mul(&small(3)).to_bytes(), six);
    let mut one = [0u8; 32];
    one[0] = 1;
    assert_eq!(small(3).sub(&small(2)).to_bytes(), one);
    // q - 1, little-endian
    let q_minus_one: [u8; 32] = [
        0x00, 0x00, 0x00, 0x00, 0xff, 0xff, 0xff, 0xff, 0xfe, 0x5b, 0xfe, 0xff, 0x02, 0xa4, 0xbd,
        0x53, 0x05, 0xd8, 0xa1, 0x09, 0x08, 0xd8, 0x39, 0x33, 0x48, 0x7d, 0x9d, 0x29, 0x53, 0xa7,
        0xed, 0x73,
    ];
    assert_eq!(small(2).sub(&small(3)).to_bytes(), q_minus_one);
}

#[test]
fn bls_scalar_reductions() {
    let mut wide = [0u8; 64];
    wide[..32].copy_from_slice(&small(2).sub(&small(3)).to_bytes());
    wide[0] = 0x02;
    // (q - 1) + 2 = q + 1 reduces to 1
    let mut one = [0u8; 32];
    one[0] = 1;
    assert_eq!(Scalar::from_bytes_wide(&wide).to_bytes(), one);

    let mut okm = [0u8; 48];
    okm[47] = 5;
    okm[46] = 1;
    let mut expected = [0u8; 32];
    expected[0] = 5;
    expected[1] = 1;
    assert_eq!(Scalar::from_okm(&okm).to_bytes(), expected);
}

#[test]
fn bls_group_operations() {
    let one = small(1);
    let g1 = bls12_381_plus::G1Affine::generator().to_compressed();
    assert_eq!(G1Element::mul_generator(&one).to_bytes(), g1.to_vec());
    let g2 = bls12_381_plus::G2Affine::generator().to_compressed();
    assert_eq!(G2Element::mul_generator(&one).to_bytes(), g2.to_vec());

    let two_g = G1Element::mul_generator(&small(2));
    let g = G1Element::mul_generator(&one);
    assert_eq!(g.add_point(&g), two_g);
    assert_eq!(g.mul_scalar(&small(2)), two_g);

    let q1 = G1Element::hash(&NOTHING_UP_MY_SLEEVE_Q1);
    let expected = bls12_381_plus::G1Projective::hash::<ExpandMsgXmd<sha2::Sha256>>(
        &NOTHING_UP_MY_SLEEVE_Q1,
        &DST_G1,
    );
    assert_eq!(q1.to_bytes(), expected.to_compressed().to_vec());
    let q2 = G2Element::hash(&NOTHING_UP_MY_SLEEVE_Q2);
    let expected = bls12_381_plus::G2Projective::hash::<ExpandMsgXmd<sha2::Sha256>>(
        &NOTHING_UP_MY_SLEEVE_Q2,
        &DST_G2,
    );
    assert_eq!(q2.to_bytes(), expected.to_compressed().to_vec());
    assert_ne!(q1, G1Element::hash(&NOTHING_UP_MY_SLEEVE_Q2));
}

#[test]
fn bls_commitment_formula() {
    let x = small(5);
    let zero = small(0);
    let q1 = G1Element::hash(&NOTHING_UP_MY_SLEEVE_Q1);
    assert_eq!(Commitment::new(x, zero, q1).0, G1Element::mul_generator(&x));
    let expected = G1Element::mul_generator(&x).add_point(&q1.mul_scalar(&small(3)));
    assert_eq!(Commitment::new(x, small(3), q1).0, expected);
}

#[test]
fn bls_generators_and_one() {
    let mut one = [0u8; 32];
    one[0] = 1;
    assert_eq!(Scalar::one().to_bytes(), one);
    let g1 = bls12_381_plus::G1Affine::generator().to_compressed();
    let g1_bytes = <G1Element as Point>::generator().to_bytes();
    assert_eq!(g1_bytes.len(), 48);
    assert_eq!(g1_bytes, g1.to_vec());
    let g2 = bls12_381_plus::G2Affine::generator().to_compressed();
    let g2_bytes = <G2Element as Point>::generator().to_bytes();
    assert_eq!(g2_bytes.len(), 96);
    assert_eq!(g2_bytes, g2.to_vec());
}
