use murmurhash64::{
    murmur_hash64a, EntropyUnavailable, MurmurHasher, MurmurState, RandomMurmurState,
};
use std::collections::HashMap;
use std::hash::{BuildHasher, BuildHasherDefault, Hasher};

#[test]
fn hashmap_str() {
    let s = MurmurState::new();
    let mut hashmap: HashMap<_, _, MurmurState> = HashMap::with_hasher(s);
    hashmap.insert("abc", 123);
    hashmap.insert("def", 456);
    assert_eq!(Some(&123), hashmap.get("abc"));
    assert_eq!(Some(&456), hashmap.get("def"));
}

#[test]
fn hashmap_uint() {
    let s = MurmurState::new();
    let mut hashmap: HashMap<_, _, MurmurState> = HashMap::with_hasher(s);
    hashmap.insert(123, "abc");
    hashmap.insert(456, "def");
    assert_eq!(Some(&"abc"), hashmap.get(&123));
    assert_eq!(Some(&"def"), hashmap.get(&456));
}

#[test]
fn hashmap_default() {
    let mut hash: HashMap<_, _, BuildHasherDefault<MurmurHasher>> = Default::default();
    hash.insert(42, "the answer");
    assert_eq!(hash.get(&42), Some(&"the answer"));

    let mut hash: HashMap<_, _, RandomMurmurState> = Default::default();
    hash.insert(42, "the answer");
    assert_eq!(hash.get(&42), Some(&"the answer"));
}

#[test]
fn hashmap_build_hasher_default() {
    type MyHasher = BuildHasherDefault<MurmurHasher>;

    let mut map: HashMap<_, _, MyHasher> = HashMap::default();
    map.insert(42, "the answer");
    assert_eq!(map.get(&42), Some(&"the answer"));
}

#[test]
fn hashmap_random_state_many_keys() {
    let mut map: HashMap<String, usize, RandomMurmurState> = Default::default();
    for i in 0..500usize {
        map.insert(format!("key {}", i), i);
    }
    assert_eq!(500, map.len());
    for i in 0..500usize {
        assert_eq!(Some(&i), map.get(&format!("key {}", i)));
    }
    assert_eq!(None, map.get("key 500"));
}

#[test]
fn seed_zero_hasher_matches_the_function() {
    let inputs: [&[u8]; 5] = [b"", b"a", b"abcdefg", b"abcdefgh", b"Pizza & Mandolino"];
    for x in inputs {
        let mut h = MurmurHasher::with_seed(0);
        h.write(x);
        assert_eq!(murmur_hash64a(x, 0), h.finish());

        let mut h = MurmurHasher::new();
        h.write(x);
        assert_eq!(murmur_hash64a(x, 0), h.finish());

        let mut h = MurmurHasher::default();
        h.write(x);
        assert_eq!(murmur_hash64a(x, 0), h.finish());
    }
}

#[test]
fn seeded_hasher_matches_the_function() {
    let mut h = MurmurHasher::with_seed(2915580697);
    h.write(b"Pizza & Mandolino");
    assert_eq!(0x472ff7d324321dfe, h.finish());

    let mut h = MurmurHasher::with_seed(77);
    h.write(b"abcdef");
    assert_eq!(0xd9ca6771ccc6c8af, h.finish());
}

#[test]
fn chunks_do_not_matter() {
    let whole = b"Pizza & Mandolino";
    for cut in 0..=whole.len() {
        let mut h = MurmurHasher::with_seed(2915580697);
        h.write(&whole[..cut]);
        h.write(&whole[cut..]);
        assert_eq!(0x472ff7d324321dfe, h.finish(), "cut at {}", cut);
    }
    let mut h = MurmurHasher::with_seed(2915580697);
    for byte in whole {
        h.write(&[*byte]);
    }
    assert_eq!(0x472ff7d324321dfe, h.finish());

    let mut h = MurmurHasher::with_seed(5);
    h.write(b"");
    h.write(b"abc");
    h.write(b"");
    assert_eq!(murmur_hash64a(b"abc", 5), h.finish());
}

#[test]
fn finish_before_any_write() {
    assert_eq!(0, MurmurHasher::new().finish());
    assert_eq!(0xc26e8bc196329b0f, MurmurHasher::with_seed(10).finish());
}

#[test]
fn finish_can_be_repeated_and_written_after() {
    let mut h = MurmurHasher::with_seed(0x1234);
    h.write(b"01234");
    assert_eq!(0xb817d2e28210daf9, h.finish());
    assert_eq!(0xb817d2e28210daf9, h.finish());
    h.write(b"56789");
    assert_eq!(0x9d3c0a94f2bff55d, h.finish());
    assert_eq!(0x9d3c0a94f2bff55d, h.finish());
}

#[test]
fn integer_writes_are_their_bytes() {
    let mut h = MurmurHasher::with_seed(3);
    h.write_u64(42);
    assert_eq!(murmur_hash64a(&42u64.to_ne_bytes(), 3), h.finish());

    let mut h = MurmurHasher::with_seed(3);
    h.write_u8(1);
    h.write_u8(2);
    h.write_u8(3);
    assert_eq!(murmur_hash64a(&[1, 2, 3], 3), h.finish());
}

#[test]
fn fixed_factory_builds_seed_zero_hashers() {
    for state in [MurmurState::new(), MurmurState::default(), MurmurState::with_seed(0)] {
        let mut h = state.build_hasher();
        assert_eq!(0, h.finish());
        h.write(b"abc");
        assert_eq!(0x9cc9c33498a95efb, h.finish());
    }
}

#[test]
fn seeded_factory_builds_hashers_with_its_seed() {
    let state = MurmurState::with_seed(2915580697);
    let mut h = state.build_hasher();
    h.write(b"Pizza & Mandolino");
    assert_eq!(0x472ff7d324321dfe, h.finish());

    let mut again = state.build_hasher();
    assert_eq!(murmur_hash64a(b"", 2915580697), again.finish());
    again.write(b"Pizza & ");
    again.write(b"Mandolino");
    assert_eq!(0x472ff7d324321dfe, again.finish());
}

#[test]
fn factories_with_one_seed_agree() {
    let first = MurmurState::with_seed(77);
    let second = MurmurState::with_seed(77);
    let random = RandomMurmurState::from_seed(77);
    let keys: [&str; 4] = ["", "abc", "abcdef", "a longer key than one block"];
    for key in keys {
        let a = first.hash_one(key);
        assert_eq!(a, second.hash_one(key));
        assert_eq!(a, random.hash_one(key));
    }
    let mut h = random.build_hasher();
    h.write(b"abcdef");
    assert_eq!(0xd9ca6771ccc6c8af, h.finish());

    let mut left: HashMap<&str, u32, MurmurState> = HashMap::with_hasher(first);
    let mut right: HashMap<&str, u32, MurmurState> = HashMap::with_hasher(second);
    left.insert("abc", 1);
    right.insert("abc", 1);
    assert_eq!(left.hasher().hash_one("abc"), right.hasher().hash_one("abc"));
    assert_eq!(left.get("abc"), right.get("abc"));
}

#[test]
fn random_factory_keeps_its_seed() {
    let state = RandomMurmurState::default();
    let mut first = state.build_hasher();
    let mut second = state.build_hasher();
    assert_eq!(first.finish(), second.finish());
    first.write(b"some key");
    second.write(b"some ");
    second.write(b"key");
    assert_eq!(first.finish(), second.finish());
    assert_eq!(state.hash_one(12345u64), state.hash_one(12345u64));
}

#[test]
fn random_factories_draw_their_own_seeds() {
    let digests: std::collections::HashSet<u64> = (0..16)
        .map(|_| RandomMurmurState::new().build_hasher().finish())
        .collect();
    assert!(digests.len() > 1);
}

#[test]
fn drawn_bytes_become_the_seed() {
    let made = RandomMurmurState::from_draw(Ok([1, 2, 3, 4, 5, 6, 7, 8]));
    let state = match made {
        Ok(state) => state,
        Err(_) => panic!("eight bytes were given"),
    };
    let mut h = state.build_hasher();
    h.write(b"key");
    assert_eq!(murmur_hash64a(b"key", 0x0807060504030201), h.finish());
    assert_eq!(0x8cdad4bb0daab39b, h.finish());
}

#[test]
fn failed_draw_is_entropy_unavailable() {
    let made = RandomMurmurState::from_draw(Err(rand::Error::new("no entropy")));
    assert!(matches!(made, Err(EntropyUnavailable)));
}

#[test]
fn try_new_gives_a_consistent_factory_or_the_error() {
    match RandomMurmurState::try_new() {
        Ok(state) => {
            let mut first = state.build_hasher();
            let mut second = state.build_hasher();
            first.write(b"abc");
            second.write(b"abc");
            assert_eq!(first.finish(), second.finish());
        }
        Err(error) => assert_eq!(EntropyUnavailable, error),
    }
}
