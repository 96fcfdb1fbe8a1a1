//! The arithmetic that the hash is built from: multiplication by the odd
//! constant, the 47-bit fold, and little-endian words. Each step that takes
//! the running state to the next one is shown to be one-to-one.
use vstd::prelude::*;

verus! {

/// The multiplier of every mixing step. It is odd, so multiplying by it
/// modulo 2^64 loses nothing.
pub const MULTIPLIER: u64 = 0xc6a4_a793_5bd1_e995;

/// The distance of the right shift in the fold.
pub const SHIFT: u64 = 47;

/// The inverse of [`MULTIPLIER`] modulo 2^64.
pub const MULTIPLIER_INVERSE: u64 = 0x5f7a_0ea7_e59b_19bd;

/// The product of two naturals, reduced modulo 2^64.
pub open spec fn product_mod_word(a: nat, b: nat) -> u64 {
    ((a * b) % 0x1_0000_0000_0000_0000) as u64
}

/// `x` times the multiplier, modulo 2^64.
pub open spec fn times_m(x: u64) -> u64 {
    product_mod_word(x as nat, MULTIPLIER as nat)
}

/// `x` with its top 17 bits folded onto its low bits.
pub open spec fn fold(x: u64) -> u64 {
    x ^ (x >> SHIFT)
}

/// What one block contributes to the state: its word multiplied, folded and
/// multiplied again.
pub open spec fn scramble(k: u64) -> u64 {
    times_m(fold(times_m(k)))
}

/// The last three steps of every digest.
pub open spec fn finalize(h: u64) -> u64 {
    fold(times_m(fold(h)))
}

/// The word that at most eight bytes spell with the first byte lowest:
/// byte `j` stands in bits `8 j` to `8 j + 7`, and the bits that no byte
/// reaches are zero.
pub open spec fn le_word(bytes: Seq<u8>) -> u64
    recommends
        bytes.len() <= 8,
    decreases bytes.len(),
{
    if bytes.len() == 0 {
        0
    } else {
        (bytes[0] as u64) | (le_word(bytes.drop_first()) << 8)
    }
}

/// Eight bytes laid side by side in one word, the first lowest.
pub open spec fn pack(b0: u8, b1: u8, b2: u8, b3: u8, b4: u8, b5: u8, b6: u8, b7: u8) -> u64 {
    (b0 as u64)
        | (b1 as u64) << 8
        | (b2 as u64) << 16
        | (b3 as u64) << 24
        | (b4 as u64) << 32
        | (b5 as u64) << 40
        | (b6 as u64) << 48
        | (b7 as u64) << 56
}

/// Byte `j` of `bytes`, or zero past its end.
pub open spec fn byte_or_zero(bytes: Seq<u8>, j: int) -> u8 {
    if 0 <= j < bytes.len() {
        bytes[j]
    } else {
        0
    }
}

/// The word of at most eight bytes is those bytes packed, with zeros in the
/// places past the last one.
pub proof fn lemma_le_word_is_pack(bytes: Seq<u8>)
    requires
        bytes.len() <= 8,
    ensures
        le_word(bytes) == pack(
            byte_or_zero(bytes, 0),
            byte_or_zero(bytes, 1),
            byte_or_zero(bytes, 2),
            byte_or_zero(bytes, 3),
            byte_or_zero(bytes, 4),
            byte_or_zero(bytes, 5),
            byte_or_zero(bytes, 6),
            byte_or_zero(bytes, 7),
        ),
    decreases bytes.len(),
{
    if bytes.len() == 0 {
        assert(pack(0, 0, 0, 0, 0, 0, 0, 0) == 0) by (bit_vector);
    } else {
        let rest = bytes.drop_first();
        lemma_le_word_is_pack(rest);
        let b0 = bytes[0];
        let b1 = byte_or_zero(rest, 0);
        let b2 = byte_or_zero(rest, 1);
        let b3 = byte_or_zero(rest, 2);
        let b4 = byte_or_zero(rest, 3);
        let b5 = byte_or_zero(rest, 4);
        let b6 = byte_or_zero(rest, 5);
        let b7 = byte_or_zero(rest, 6);
        assert(byte_or_zero(rest, 7) == 0);
        assert((b0 as u64) | (pack(b1, b2, b3, b4, b5, b6, b7, 0) << 8) == pack(
            b0,
            b1,
            b2,
            b3,
            b4,
            b5,
            b6,
            b7,
        )) by (bit_vector);
    }
}

/// Multiplying by the multiplier and then by its inverse gives the word back.
pub proof fn lemma_times_m_undone(x: u64)
    ensures
        product_mod_word(times_m(x) as nat, MULTIPLIER_INVERSE as nat) == x,
{
    let w: int = 0x1_0000_0000_0000_0000;
    let m: int = MULTIPLIER as int;
    let v: int = MULTIPLIER_INVERSE as int;
    let p: int = x * m;
    let t: int = p % w;
    let q: int = p / w;
    assert(m * v == 0x4a15_d006_d409_ab6f * w + 1) by (nonlinear_arith)
        requires
            m == 0xc6a4_a793_5bd1_e995,
            v == 0x5f7a_0ea7_e59b_19bd,
            w == 0x1_0000_0000_0000_0000,
    ;
    assert(p == w * q + t) by {
        vstd::arithmetic::div_mod::lemma_fundamental_div_mod(p, w);
    }
    assert(0 <= t < w) by {
        vstd::arithmetic::div_mod::lemma_mod_bound(p, w);
    }
    assert(t * v == w * (x * 0x4a15_d006_d409_ab6f - q * v) + x) by (nonlinear_arith)
        requires
            p == x * m,
            p == w * q + t,
            m * v == 0x4a15_d006_d409_ab6f * w + 1,
    ;
    assert((t * v) % w == x) by {
        vstd::arithmetic::div_mod::lemma_fundamental_div_mod_converse(
            t * v,
            w,
            x * 0x4a15_d006_d409_ab6f - q * v,
            x as int,
        );
    }
    assert(times_m(x) == t);
    assert((t as nat) * (v as nat) == t * v) by (nonlinear_arith)
        requires
            0 <= t,
            0 <= v,
    ;
}

/// Multiplication by the multiplier is one-to-one.
pub proof fn lemma_times_m_injective(a: u64, b: u64)
    requires
        times_m(a) == times_m(b),
    ensures
        a == b,
{
    lemma_times_m_undone(a);
    lemma_times_m_undone(b);
}

/// Folding twice gives the word back, so the fold is one-to-one.
pub proof fn lemma_fold_injective(a: u64, b: u64)
    requires
        fold(a) == fold(b),
    ensures
        a == b,
{
    assert((a ^ (a >> 47)) ^ ((a ^ (a >> 47)) >> 47) == a) by (bit_vector);
    assert((b ^ (b >> 47)) ^ ((b ^ (b >> 47)) >> 47) == b) by (bit_vector);
}

/// Xor with a fixed word is one-to-one.
pub proof fn lemma_xor_injective(a: u64, b: u64, k: u64)
    requires
        a ^ k == b ^ k,
    ensures
        a == b,
{
    assert((a ^ k) ^ k == a) by (bit_vector);
    assert((b ^ k) ^ k == b) by (bit_vector);
}

/// The closing steps are one-to-one.
pub proof fn lemma_finalize_injective(a: u64, b: u64)
    requires
        finalize(a) == finalize(b),
    ensures
        a == b,
{
    lemma_fold_injective(times_m(fold(a)), times_m(fold(b)));
    lemma_times_m_injective(fold(a), fold(b));
    lemma_fold_injective(a, b);
}

/// Reads the eight bytes of `bytes` from `at` on as one word, the first byte
/// lowest, whatever the byte order of the machine.
pub(crate) fn read_word(bytes: &[u8], at: usize) -> (word: u64)
    requires
        at + 8 <= bytes@.len(),
    ensures
        word == le_word(bytes@.subrange(at as int, at + 8)),
{
    let mut k: u64;

    k = bytes[at] as u64;
    k |= (bytes[at + 1] as u64) << 8;
    k |= (bytes[at + 2] as u64) << 16;
    k |= (bytes[at + 3] as u64) << 24;
    k |= (bytes[at + 4] as u64) << 32;
    k |= (bytes[at + 5] as u64) << 40;
    k |= (bytes[at + 6] as u64) << 48;
    k |= (bytes[at + 7] as u64) << 56;
    proof {
        lemma_le_word_is_pack(bytes@.subrange(at as int, at + 8));
    }
    k
}

} // verus!
