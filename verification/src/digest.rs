//! The digest of a byte string under a seed, and the function that
//! computes it.
use vstd::prelude::*;
use crate::mixing::{
    byte_or_zero, finalize, le_word, lemma_finalize_injective, lemma_le_word_is_pack,
    lemma_times_m_injective, lemma_xor_injective, pack, product_mod_word, read_word, scramble,
    times_m, MULTIPLIER, SHIFT,
};

verus! {

/// The state after one more block: the block's word is scrambled and xored
/// in, and the state is multiplied.
pub open spec fn absorb_block(h: u64, word: u64) -> u64 {
    times_m(h ^ scramble(word))
}

/// Block `index` of `key`: its eight bytes from `8 * index` on.
pub open spec fn block(key: Seq<u8>, index: int) -> Seq<u8>
    recommends
        0 <= index,
        8 * index + 8 <= key.len(),
{
    key.subrange(8 * index, 8 * index + 8)
}

/// The bytes of `key` that follow its last whole block: fewer than eight.
pub open spec fn tail(key: Seq<u8>) -> Seq<u8> {
    key.skip(8 * (key.len() as int / 8))
}

/// The state after the first `count` blocks of eight bytes of `key`,
/// starting from `h`.
pub open spec fn absorb_blocks(key: Seq<u8>, h: u64, count: nat) -> u64
    recommends
        8 * count <= key.len(),
    decreases count,
{
    if count == 0 {
        h
    } else {
        absorb_block(
            absorb_blocks(key, h, (count - 1) as nat),
            le_word(block(key, count - 1)),
        )
    }
}

/// The state after the bytes that follow the last whole block. Where there
/// are none the state stays; otherwise their word is xored in and the state
/// is multiplied once.
pub open spec fn absorb_tail(h: u64, tail: Seq<u8>) -> u64
    recommends
        tail.len() < 8,
{
    if tail.len() == 0 {
        h
    } else {
        times_m(h ^ le_word(tail))
    }
}

/// The state that hashing starts from: the seed xored with the length times
/// the multiplier, the product taken modulo 2^64.
pub open spec fn initial_state(len: nat, seed: u64) -> u64 {
    seed ^ product_mod_word(len, MULTIPLIER as nat)
}

/// The state just before the closing steps.
pub open spec fn absorbed(key: Seq<u8>, seed: u64) -> u64 {
    absorb_tail(absorb_blocks(key, initial_state(key.len(), seed), key.len() / 8), tail(key))
}

/// The MurmurHash64A digest of `key` under `seed`.
pub open spec fn digest_of(key: Seq<u8>, seed: u64) -> u64 {
    finalize(absorbed(key, seed))
}

/// What the seven conditional xors of the tail come to: `h` xored with the
/// first `n` of the seven bytes, each at its place.
proof fn lemma_tail_xor(h: u64, n: u64, b0: u8, b1: u8, b2: u8, b3: u8, b4: u8, b5: u8, b6: u8)
    by (bit_vector)
    requires
        n < 8,
    ensures
        ({
            let h6 = if n == 7 { h ^ (b6 as u64) << 48 } else { h };
            let h5 = if n >= 6 { h6 ^ (b5 as u64) << 40 } else { h6 };
            let h4 = if n >= 5 { h5 ^ (b4 as u64) << 32 } else { h5 };
            let h3 = if n >= 4 { h4 ^ (b3 as u64) << 24 } else { h4 };
            let h2 = if n >= 3 { h3 ^ (b2 as u64) << 16 } else { h3 };
            let h1 = if n >= 2 { h2 ^ (b1 as u64) << 8 } else { h2 };
            let h0 = if n >= 1 { h1 ^ (b0 as u64) } else { h1 };
            h0 == h ^ pack(
                if n >= 1 { b0 } else { 0 },
                if n >= 2 { b1 } else { 0 },
                if n >= 3 { b2 } else { 0 },
                if n >= 4 { b3 } else { 0 },
                if n >= 5 { b4 } else { 0 },
                if n >= 6 { b5 } else { 0 },
                if n >= 7 { b6 } else { 0 },
                0,
            )
        }),
{
}

/// Hashes `key` under `seed`.
///
/// The result is the digest that [`digest_of`] defines, for every byte
/// string and every seed: a function of the bytes and the seed alone.
pub fn murmur_hash64a(key: &[u8], seed: u64) -> (digest: u64)
    ensures
        digest == digest_of(key@, seed),
{
    let m: u64 = MULTIPLIER;
    let r: u64 = SHIFT;

    let len: usize = key.len();
    let ghost start: u64 = initial_state(len as nat, seed);
    let mut h: u64 = seed ^ (len as u64).wrapping_mul(m);

    assert(len & 7 == len % 8) by (bit_vector);
    let over: usize = len & 7;
    let endpos: usize = len - over;
    let mut i: usize = 0;
    while i != endpos
        invariant
            len == key@.len(),
            endpos == 8 * (len / 8),
            i % 8 == 0,
            i <= endpos,
            m == MULTIPLIER,
            r == SHIFT,
            h == absorb_blocks(key@, start, (i / 8) as nat),
        decreases endpos - i,
    {
        let mut k: u64 = read_word(key, i);
        assert(key@.subrange(i as int, i + 8) == block(key@, i as int / 8));

        k = k.wrapping_mul(m);
        k ^= k >> r;
        k = k.wrapping_mul(m);
        h ^= k;
        h = h.wrapping_mul(m);

        i += 8;
    }

    let ghost before_tail: u64 = h;
    if over == 7 {
        h ^= (key[i + 6] as u64) << 48;
    }
    if over >= 6 {
        h ^= (key[i + 5] as u64) << 40;
    }
    if over >= 5 {
        h ^= (key[i + 4] as u64) << 32;
    }
    if over >= 4 {
        h ^= (key[i + 3] as u64) << 24;
    }
    if over >= 3 {
        h ^= (key[i + 2] as u64) << 16;
    }
    if over >= 2 {
        h ^= (key[i + 1] as u64) << 8;
    }
    if over >= 1 {
        h ^= key[i] as u64;
    }
    proof {
        let tail = tail(key@);
        lemma_le_word_is_pack(tail);
        lemma_tail_xor(
            before_tail,
            over as u64,
            byte_or_zero(tail, 0),
            byte_or_zero(tail, 1),
            byte_or_zero(tail, 2),
            byte_or_zero(tail, 3),
            byte_or_zero(tail, 4),
            byte_or_zero(tail, 5),
            byte_or_zero(tail, 6),
        );
        assert(h == before_tail ^ le_word(tail));
    }
    if over > 0 {
        h = h.wrapping_mul(m);
    }
    assert(h == absorbed(key@, seed));

    h ^= h >> r;
    h = h.wrapping_mul(m);
    h ^= h >> r;
    h
}

/// Absorbing the same blocks into two states gives the same state only
/// where the two were the same.
pub proof fn lemma_absorb_blocks_injective(key: Seq<u8>, a: u64, b: u64, count: nat)
    requires
        absorb_blocks(key, a, count) == absorb_blocks(key, b, count),
    ensures
        a == b,
    decreases count,
{
    if count > 0 {
        let before_a = absorb_blocks(key, a, (count - 1) as nat);
        let before_b = absorb_blocks(key, b, (count - 1) as nat);
        let mixed = scramble(le_word(block(key, count - 1)));
        lemma_times_m_injective(before_a ^ mixed, before_b ^ mixed);
        lemma_xor_injective(before_a, before_b, mixed);
        lemma_absorb_blocks_injective(key, a, b, (count - 1) as nat);
    }
}

/// Seed sensitivity: under one key, two different seeds never give the same
/// digest. For a fixed key the digest is a one-to-one function of the seed.
pub proof fn lemma_distinct_seeds_distinct_digests(key: Seq<u8>, seed1: u64, seed2: u64)
    requires
        seed1 != seed2,
    ensures
        digest_of(key, seed1) != digest_of(key, seed2),
{
    if digest_of(key, seed1) == digest_of(key, seed2) {
        let start1 = initial_state(key.len(), seed1);
        let start2 = initial_state(key.len(), seed2);
        let count = key.len() / 8;
        let blocks1 = absorb_blocks(key, start1, count);
        let blocks2 = absorb_blocks(key, start2, count);
        lemma_finalize_injective(absorbed(key, seed1), absorbed(key, seed2));
        if tail(key).len() > 0 {
            let word = le_word(tail(key));
            lemma_times_m_injective(blocks1 ^ word, blocks2 ^ word);
            lemma_xor_injective(blocks1, blocks2, word);
        }
        lemma_absorb_blocks_injective(key, start1, start2, count);
        lemma_xor_injective(seed1, seed2, product_mod_word(key.len(), MULTIPLIER as nat));
    }
}

} // verus!
