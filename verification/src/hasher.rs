//! The incremental hasher: it keeps its seed and every byte written to it,
//! and hashes them in one piece when the digest is asked for.
use vstd::prelude::*;
use crate::digest::{digest_of, murmur_hash64a};

verus! {

/// What a hasher is, to its callers: the seed it was made with and the bytes
/// written to it so far, in order.
pub struct HasherState {
    pub seed: u64,
    pub written: Seq<u8>,
}

impl HasherState {
    /// A hasher just made with `seed`: nothing written.
    pub open spec fn fresh(seed: u64) -> HasherState {
        HasherState { seed, written: Seq::empty() }
    }

    /// The state after one more chunk.
    pub open spec fn write(self, chunk: Seq<u8>) -> HasherState {
        HasherState { seed: self.seed, written: self.written + chunk }
    }

    /// The state after the chunks of `chunks`, written one after another.
    pub open spec fn write_all(self, chunks: Seq<Seq<u8>>) -> HasherState
        decreases chunks.len(),
    {
        if chunks.len() == 0 {
            self
        } else {
            self.write(chunks.first()).write_all(chunks.drop_first())
        }
    }

    /// The digest in this state: that of all the bytes written, under the
    /// seed.
    pub open spec fn digest(self) -> u64 {
        digest_of(self.written, self.seed)
    }
}

/// A hasher for hash tables that computes MurmurHash64A.
pub struct MurmurHasher {
    seed: u64,
    written: Vec<u8>,
}

impl View for MurmurHasher {
    type V = HasherState;

    closed spec fn view(&self) -> HasherState {
        HasherState { seed: self.seed, written: self.written@ }
    }
}

impl MurmurHasher {
    /// A hasher with seed 0.
    pub fn new() -> (hasher: MurmurHasher)
        ensures
            hasher@ == HasherState::fresh(0),
    {
        MurmurHasher { seed: 0, written: Vec::new() }
    }

    /// A hasher with the given seed.
    pub fn with_seed(seed: u64) -> (hasher: MurmurHasher)
        ensures
            hasher@ == HasherState::fresh(seed),
    {
        MurmurHasher { seed, written: Vec::new() }
    }
}

impl Default for MurmurHasher {
    /// The same as [`MurmurHasher::new`].
    fn default() -> (hasher: MurmurHasher)
        ensures
            hasher@ == HasherState::fresh(0),
    {
        MurmurHasher::new()
    }
}

impl std::hash::Hasher for MurmurHasher {
    /// The digest of everything written so far. The hasher stays as it is,
    /// so the call can be repeated and more can be written after it.
    fn finish(&self) -> (digest: u64)
        ensures
            digest == self@.digest(),
    {
        murmur_hash64a(self.written.as_slice(), self.seed)
    }

    /// Takes `buf` in after the bytes written before. Where one chunk ends
    /// and the next begins leaves no trace.
    fn write(&mut self, buf: &[u8])
        ensures
            final(self)@ == old(self)@.write(buf@),
    {
        self.written.extend_from_slice(buf);
        assert(self.written@ =~= old(self).written@ + buf@);
    }
}

/// Chunk invariance: two writes come to the same state, and so to the same
/// digest, as one write of the two chunks joined.
pub proof fn lemma_two_writes_are_one(state: HasherState, a: Seq<u8>, b: Seq<u8>)
    ensures
        state.write(a).write(b) == state.write(a + b),
        state.write(a).write(b).digest() == state.write(a + b).digest(),
        HasherState::fresh(state.seed).write(a).write(b).digest() == digest_of(a + b, state.seed),
{
    assert((state.written + a) + b =~= state.written + (a + b));
    assert((Seq::<u8>::empty() + a) + b =~= a + b);
}

/// Chunk invariance for any number of writes: they come to the same state
/// as one write of all the chunks joined in order.
pub proof fn lemma_writes_are_their_concatenation(state: HasherState, chunks: Seq<Seq<u8>>)
    ensures
        state.write_all(chunks) == state.write(chunks.flatten()),
    decreases chunks.len(),
{
    if chunks.len() == 0 {
        assert(state.written + Seq::<u8>::empty() =~= state.written);
    } else {
        let first = chunks.first();
        let rest = chunks.drop_first();
        lemma_writes_are_their_concatenation(state.write(first), rest);
        assert((state.written + first) + rest.flatten() =~= state.written + (first
            + rest.flatten()));
    }
}

/// A hasher made with a seed and given some bytes in one write has the
/// digest of those bytes under that seed; one given nothing has the digest
/// of the empty string.
pub proof fn lemma_digest_of_one_write(seed: u64, bytes: Seq<u8>)
    ensures
        HasherState::fresh(seed).write(bytes).digest() == digest_of(bytes, seed),
        HasherState::fresh(seed).digest() == digest_of(Seq::empty(), seed),
{
    assert(Seq::<u8>::empty() + bytes =~= bytes);
}

} // verus!
