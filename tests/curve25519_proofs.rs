use cross_group_dleq::curve25519::{challenge, Commitment, EqProof, RistrettoElement, Scalar};
use cross_group_dleq::encoding::{EntropySource, NOTHING_UP_MY_SLEEVE_Q1, NOTHING_UP_MY_SLEEVE_Q2};
use rand_core::{RngCore, SeedableRng};

/// A seeded, reproducible source of bytes: for tests only.
pub struct MockRng(rand_xorshift::XorShiftRng);

impl MockRng {
    pub fn new() -> Self {
        Self(rand_xorshift::XorShiftRng::from_seed([7u8; 16]))
    }
}

impl EntropySource for MockRng {
    fn fill_wide(&mut self) -> [u8; 64] {
        let mut buf = [0u8; 64];
        self.0.fill_bytes(&mut buf);
        buf
    }
}

fn small(v: u8) -> Scalar {
    let mut wide = [0u8; 64];
    wide[0] = v;
    Scalar::from_bytes_mod_order_wide(&wide)
}

#[test]
fn proof_works() {
    let mut rng = MockRng::new();
    let x = Scalar::random(&mut rng);
    let r1 = Scalar::random(&mut rng);
    let r2 = Scalar::random(&mut rng);
    let nonce = Scalar::random(&mut rng);

    let q1 = RistrettoElement::hash_from_bytes(&NOTHING_UP_MY_SLEEVE_Q1);
    let q2 = RistrettoElement::hash_from_bytes(&NOTHING_UP_MY_SLEEVE_Q2);
    let b = Commitment::new(x, r1, q1);
    let c = Commitment::new(x, r2, q2);

    let proof = EqProof::new(x, r1, r2, nonce, &mut rng);
    assert!(proof.open(b, c, nonce));
}

#[test]
fn ristretto_proof_fails_for_other_secret_or_nonce() {
    let mut rng = MockRng::new();
    let x = Scalar::random(&mut rng);
    let r1 = Scalar::random(&mut rng);
    let r2 = Scalar::random(&mut rng);
    let nonce = Scalar::random(&mut rng);
    let x2 = Scalar::random(&mut rng);
    let other_nonce = Scalar::random(&mut rng);

    let q1 = RistrettoElement::hash_from_bytes(&NOTHING_UP_MY_SLEEVE_Q1);
    let q2 = RistrettoElement::hash_from_bytes(&NOTHING_UP_MY_SLEEVE_Q2);
    let proof = EqProof::new(x, r1, r2, nonce, &mut rng);
    let b = Commitment::new(x, r1, q1);
    let c = Commitment::new(x, r2, q2);
    assert!(proof.open(b, c, nonce));
    assert!(!proof.open(b, c, other_nonce));
    assert!(!proof.open(Commitment::new(x2, r1, q1), c, nonce));
    assert!(!proof.open(b, Commitment::new(x2, r2, q2), nonce));
    assert!(!proof.open(Commitment::new(x2, r1, q1), Commitment::new(x2, r2, q2), nonce));
}

#[test]
fn ristretto_generation_is_reproducible() {
    let mut rng = MockRng::new();
    let x = Scalar::random(&mut rng);
    let r1 = Scalar::random(&mut rng);
    let r2 = Scalar::random(&mut rng);
    let nonce = Scalar::random(&mut rng);
    let first = EqProof::new(x, r1, r2, nonce, &mut MockRng::new());
    let second = EqProof::new(x, r1, r2, nonce, &mut MockRng::new());
    assert_eq!(first, second);

    let mut masks = MockRng::new();
    let w = Scalar::random(&mut masks);
    let n1 = Scalar::random(&mut masks);
    let n2 = Scalar::random(&mut masks);
    assert_eq!(first, EqProof::with_masks(x, r1, r2, nonce, w, n1, n2));
}

#[test]
fn ristretto_challenge_is_deterministic() {
    let w1 = RistrettoElement::mul_base(&small(3));
    let w2 = RistrettoElement::mul_base(&small(4));
    let first = challenge(&w1, &w2, &small(9));
    assert_eq!(first, challenge(&w1, &w2, &small(9)));
    assert_ne!(first, challenge(&w1, &w2, &small(10)));
    assert_ne!(first, challenge(&w2, &w1, &small(9)));
}

#[test]
fn ristretto_scalar_arithmetic() {
    let mut six = [0u8; 32];
    six[0] = 6;
    assert_eq!(small(2).mul(&small(3)).to_bytes(), six);
    let mut one = [0u8; 32];
    one[0] = 1;
    assert_eq!(small(3).sub(&small(2)).to_bytes(), one);
    // l - 1, little-endian
    let l_minus_one: [u8; 32] = [
        0xec, 0xd3, 0xf5, 0x5c, 0x1a, 0x63, 0x12, 0x58, 0xd6, 0x9c, 0xf7, 0xa2, 0xde, 0xf9, 0xde,
        0x14, 0, 0, 0, 0, 0, 0, 0, 0, 0, 0, 0, 0, 0, 0, 0, 0x10,
    ];
    assert_eq!(small(2).sub(&small(3)).to_bytes(), l_minus_one);

    let mut wide = [0u8; 64];
    wide[..32].copy_from_slice(&l_minus_one);
    wide[0] = 0xee;
    // (l - 1) + 2 = l + 1 reduces to 1
    assert_eq!(Scalar::from_bytes_mod_order_wide(&wide).to_bytes(), one);
}

#[test]
fn ristretto_group_operations() {
    let base = RistrettoElement::mul_base(&small(1));
    assert_eq!(
        base.to_bytes(),
        curve25519_dalek::constants::RISTRETTO_BASEPOINT_COMPRESSED.to_bytes()
    );
    let two = RistrettoElement::mul_base(&small(2));
    assert_eq!(base.add_point(&base), two);
    assert_eq!(base.mul_scalar(&small(2)), two);

    let q1 = RistrettoElement::hash_from_bytes(&NOTHING_UP_MY_SLEEVE_Q1);
    let expected =
        curve25519_dalek::RistrettoPoint::hash_from_bytes::<sha2::Sha512>(&NOTHING_UP_MY_SLEEVE_Q1);
    assert_eq!(q1.to_bytes(), expected.compress().to_bytes());
    assert_ne!(q1, RistrettoElement::hash_from_bytes(&NOTHING_UP_MY_SLEEVE_Q2));

    let x = small(5);
    assert_eq!(Commitment::new(x, small(0), q1).0, RistrettoElement::mul_base(&x));
    let expected = RistrettoElement::mul_base(&x).add_point(&q1.mul_scalar(&small(3)));
    assert_eq!(Commitment::new(x, small(3), q1).0, expected);
}

#[test]
fn ristretto_generator_and_one() {
    let mut one = [0u8; 32];
    one[0] = 1;
    assert_eq!(Scalar::one().to_bytes(), one);
    assert_eq!(
        RistrettoElement::generator().to_bytes(),
        curve25519_dalek::constants::RISTRETTO_BASEPOINT_COMPRESSED.to_bytes()
    );
}
