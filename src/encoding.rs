//! Byte-level building blocks shared by both backends: the integer read from a
//! byte string, transcript assembly, the domain tags of the auxiliary points,
//! the entropy source and the constant-time comparison.

use subtle::ConstantTimeEq;
use vstd::prelude::*;

verus! {

/// The integer whose little-endian encoding is `s`.
pub open spec fn le_nat(s: Seq<u8>) -> nat
    decreases s.len(),
{
    if s.len() == 0 {
        0
    } else {
        s[0] as nat + 256 * le_nat(s.drop_first())
    }
}

/// The integer whose big-endian encoding is `s`.
pub open spec fn be_nat(s: Seq<u8>) -> nat
    decreases s.len(),
{
    if s.len() == 0 {
        0
    } else {
        be_nat(s.drop_last()) * 256 + s.last() as nat
    }
}

/// `a` and `b` are equal when their little-endian values are, at equal length.
pub proof fn lemma_le_nat_injective(a: Seq<u8>, b: Seq<u8>)
    requires
        a.len() == b.len(),
        le_nat(a) == le_nat(b),
    ensures
        a == b,
    decreases a.len(),
{
    if a.len() > 0 {
        let x = a[0] as int;
        let y = b[0] as int;
        let u = le_nat(a.drop_first()) as int;
        let v = le_nat(b.drop_first()) as int;
        assert(x == y && u == v) by (nonlinear_arith)
            requires
                0 <= x < 256,
                0 <= y < 256,
                0 <= u,
                0 <= v,
                x + 256 * u == y + 256 * v,
        ;
        lemma_le_nat_injective(a.drop_first(), b.drop_first());
        assert(a == seq![a[0]] + a.drop_first());
        assert(b == seq![b[0]] + b.drop_first());
    } else {
        assert(a =~= b);
    }
}

/// Subtracting `b` or its remainder modulo `m` leaves the same remainder.
pub proof fn lemma_sub_mod_noop(a: int, b: int, m: int)
    requires
        m > 0,
    ensures
        (a - b % m) % m == (a - b) % m,
{
    vstd::arithmetic::div_mod::lemma_fundamental_div_mod(b, m);
    vstd::arithmetic::div_mod::lemma_mod_multiples_vanish(b / m, a - b, m);
    assert(a - b % m == m * (b / m) + (a - b));
}

/// `(w - k) % q + k` leaves remainder `w` for every `w` in `[0, q)`.
pub proof fn lemma_add_back(w: int, k: int, q: int)
    requires
        0 <= w < q,
    ensures
        ((w - k) % q + k) % q == w,
{
    vstd::arithmetic::div_mod::lemma_fundamental_div_mod(w - k, q);
    let m = (w - k) / q;
    assert((w - k) % q + k == q * (-m) + w) by (nonlinear_arith)
        requires
            w - k == q * m + (w - k) % q,
    ;
    vstd::arithmetic::div_mod::lemma_mod_multiples_vanish(-m, w, q);
    vstd::arithmetic::div_mod::lemma_small_mod(w as nat, q as nat);
}

/// A byte string of zeros encodes zero.
pub proof fn lemma_le_nat_zeros(s: Seq<u8>)
    requires
        forall|i: int| 0 <= i < s.len() ==> s[i] == 0,
    ensures
        le_nat(s) == 0,
    decreases s.len(),
{
    if s.len() > 0 {
        lemma_le_nat_zeros(s.drop_first());
    }
}

/// The 32-byte little-endian encoding of one.
pub open spec fn one_encoding() -> Seq<u8> {
    Seq::new(32, |i: int| if i == 0 { 1u8 } else { 0u8 })
}

/// The encoding of one stands for one.
pub proof fn lemma_one_encoding()
    ensures
        le_nat(one_encoding()) == 1,
{
    let s = one_encoding();
    lemma_le_nat_zeros(s.drop_first());
}

/// Domain string hashed to the auxiliary point of the first slot: the ASCII
/// text "nothing up my sleeve: Q1".
pub const NOTHING_UP_MY_SLEEVE_Q1: [u8; 24] = [
    110, 111, 116, 104, 105, 110, 103, 32, 117, 112, 32, 109, 121, 32, 115, 108, 101, 101, 118, 101, 58, 32, 81, 49,
];

/// Domain string hashed to the auxiliary point of the second slot: the ASCII
/// text "nothing up my sleeve: Q2".
pub const NOTHING_UP_MY_SLEEVE_Q2: [u8; 24] = [
    110, 111, 116, 104, 105, 110, 103, 32, 117, 112, 32, 109, 121, 32, 115, 108, 101, 101, 118, 101, 58, 32, 81, 50,
];

/// Appends `src` to the end of `dst`.
pub fn append_bytes(dst: &mut Vec<u8>, src: &[u8])
    ensures
        final(dst)@ == old(dst)@ + src@,
{
    let mut i: usize = 0;
    while i < src.len()
        invariant
            i <= src@.len(),
            dst@ == old(dst)@ + src@.subrange(0, i as int),
        decreases src@.len() - i,
    {
        dst.push(src[i]);
        i = i + 1;
        assert(src@.subrange(0, i as int) == src@.subrange(0, i - 1 as int).push(src@[i - 1]));
    }
    assert(src@.subrange(0, src@.len() as int) == src@);
}

/// Relies on subtle's `ConstantTimeEq` for byte slices: it reports whether the
/// two slices are equal, in time that depends on their lengths alone.
#[verifier::external_body]
pub(crate) fn ct_bytes_eq(a: &[u8], b: &[u8]) -> (r: bool)
    ensures
        r == (a@ == b@),
{
    a.ct_eq(b).unwrap_u8() == 1
}

/// A source of uniformly random bytes for proof generation: each call hands out
/// 64 fresh bytes, which are reduced into a scalar field.
pub trait EntropySource {
    fn fill_wide(&mut self) -> [u8; 64];
}

} // verus!
