//! MurmurHash2, 64-bit variant 64A: the hash function, and hashers and hasher
//! factories that plug it into hash tables.
//!
//! The digest of a byte string under a seed is defined once, as the spec
//! function [`digest::digest_of`]; every executable item states its result
//! in terms of it.
pub mod digest;
pub mod factory;
pub mod hasher;
pub mod mixing;

pub use digest::murmur_hash64a;
pub use factory::{EntropyUnavailable, MurmurState, RandomMurmurState};
pub use hasher::MurmurHasher;
