//! Hasher factories: one with a fixed seed, one that draws its seed when it
//! is made. Either keeps its seed for life, so all the hashers that one
//! factory builds agree.
use rand::{Rng, RngCore};
use vstd::prelude::*;
use crate::digest::digest_of;
use crate::hasher::{lemma_writes_are_their_concatenation, HasherState, MurmurHasher};
use crate::mixing::{le_word, read_word};

verus! {

/// The error of `rand`'s generators. Nothing of its inside is used.
#[verifier::external_type_specification]
#[verifier::external_body]
pub struct ExRandError(rand::Error);

/// The operating system gave no random bytes when a factory asked for its
/// seed.
#[derive(Debug, Clone, Copy, PartialEq, Eq)]
pub struct EntropyUnavailable;

/// A factory of hashers that all have one fixed seed.
pub struct MurmurState(u64);

impl MurmurState {
    /// The seed of every hasher that this factory builds.
    pub closed spec fn seed(&self) -> u64 {
        self.0
    }

    /// A factory with seed 0.
    pub fn new() -> (state: MurmurState)
        ensures
            state.seed() == 0,
    {
        MurmurState(0)
    }

    /// A factory with the given seed.
    pub fn with_seed(seed: u64) -> (state: MurmurState)
        ensures
            state.seed() == seed,
    {
        MurmurState(seed)
    }
}

impl Default for MurmurState {
    /// The same as [`MurmurState::new`].
    fn default() -> (state: MurmurState)
        ensures
            state.seed() == 0,
    {
        MurmurState::new()
    }
}

impl std::hash::BuildHasher for MurmurState {
    type Hasher = MurmurHasher;

    /// A hasher with the factory's seed and nothing written.
    fn build_hasher(&self) -> (hasher: MurmurHasher)
        ensures
            hasher@ == HasherState::fresh(self.seed()),
    {
        MurmurHasher::with_seed(self.0)
    }
}

/// A factory of hashers whose seed was drawn at random when the factory was
/// made, so that nobody outside can choose keys that collide.
pub struct RandomMurmurState(u64);

/// Calls `rand::thread_rng().gen()` for a `u64`: the next number of the
/// calling thread's generator. Nothing is claimed of the number. The first
/// call on a thread seeds that generator from the operating system and
/// panics where the system gives no seed.
#[verifier::external_body]
fn draw_from_thread_rng() -> (seed: u64) {
    rand::thread_rng().gen()
}

/// Calls `rand::rngs::OsRng.try_fill_bytes` on eight bytes: `Ok` with the
/// bytes that the operating system gave, or the error it failed with.
/// Nothing is claimed of the bytes, nor of when the call fails.
#[verifier::external_body]
fn draw_from_os() -> (drawn: Result<[u8; 8], rand::Error>) {
    let mut bytes = [0u8; 8];
    match rand::rngs::OsRng.try_fill_bytes(&mut bytes) {
        Ok(()) => Ok(bytes),
        Err(error) => Err(error),
    }
}

impl RandomMurmurState {
    /// The seed of every hasher that this factory builds.
    pub closed spec fn seed(&self) -> u64 {
        self.0
    }

    /// A factory that keeps `seed`, a number that was drawn for it.
    pub fn from_seed(seed: u64) -> (state: RandomMurmurState)
        ensures
            state.seed() == seed,
    {
        RandomMurmurState(seed)
    }

    /// What a draw from the operating system comes to: where it gave eight
    /// bytes, a factory whose seed is their little-endian word; where it
    /// failed, `EntropyUnavailable`.
    pub fn from_draw(drawn: Result<[u8; 8], rand::Error>) -> (made: Result<
        RandomMurmurState,
        EntropyUnavailable,
    >)
        ensures
            made is Ok <==> drawn is Ok,
            drawn is Ok ==> made->Ok_0.seed() == le_word(drawn->Ok_0@),
            drawn is Err ==> made->Err_0 == EntropyUnavailable,
    {
        match drawn {
            Ok(bytes) => {
                let seed: u64 = read_word(bytes.as_slice(), 0);
                assert(bytes@.subrange(0, 8) =~= bytes@);
                Ok(RandomMurmurState::from_seed(seed))
            },
            Err(_) => Err(EntropyUnavailable),
        }
    }

    /// A factory with a seed from the calling thread's random generator.
    ///
    /// Does not return where the operating system cannot seed that
    /// generator; [`RandomMurmurState::try_new`] returns an error instead.
    pub fn new() -> RandomMurmurState {
        RandomMurmurState::from_seed(draw_from_thread_rng())
    }

    /// A factory with a seed of eight bytes from the operating system, or
    /// `EntropyUnavailable` where it gives none. The draw is made once, here:
    /// no hasher built later can fail.
    pub fn try_new() -> Result<RandomMurmurState, EntropyUnavailable> {
        RandomMurmurState::from_draw(draw_from_os())
    }
}

impl Default for RandomMurmurState {
    /// The same as [`RandomMurmurState::new`].
    fn default() -> RandomMurmurState {
        RandomMurmurState::new()
    }
}

impl std::hash::BuildHasher for RandomMurmurState {
    type Hasher = MurmurHasher;

    /// A hasher with the factory's seed and nothing written.
    fn build_hasher(&self) -> (hasher: MurmurHasher)
        ensures
            hasher@ == HasherState::fresh(self.seed()),
    {
        MurmurHasher::with_seed(self.0)
    }
}

/// Two factories with the same seed agree on every key: the hashers they
/// build, given the same writes, have the same digest, that of the writes
/// joined under the seed. `first` and `second` are what the two factories
/// build, of either kind of factory.
pub proof fn lemma_equal_seeds_agree(
    first: HasherState,
    second: HasherState,
    writes: Seq<Seq<u8>>,
)
    requires
        first == HasherState::fresh(first.seed),
        second == HasherState::fresh(second.seed),
        first.seed == second.seed,
    ensures
        first.write_all(writes).digest() == second.write_all(writes).digest(),
        first.write_all(writes).digest() == digest_of(writes.flatten(), first.seed),
{
    lemma_writes_are_their_concatenation(first, writes);
    assert(Seq::<u8>::empty() + writes.flatten() =~= writes.flatten());
}

} // verus!
