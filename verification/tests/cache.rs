use keccak_cache::{
    compute, compute_local, hash_input, init_keccak_cache, initialize_local_cache, keccak256,
    make_key, Key, KeccakCacheStats, LocalBucket, LocalCache, B256, CacheCell, DEFAULT_COUNT,
    KECCAK256_EMPTY, MAX_INPUT_LEN,
};
use std::mem::size_of;
use std::sync::{Arc, Mutex};

#[test]
fn sizes() {
    assert_eq!(size_of::<Key>(), MAX_INPUT_LEN + 1);
    assert_eq!(size_of::<fixed_cache::Bucket<(Key, B256)>>(), 128);
    assert_eq!(size_of::<LocalBucket>(), 128);
}

#[test]
fn the_limit_follows_the_machine_word() {
    assert_eq!(MAX_INPUT_LEN, 128 - size_of::<B256>() - size_of::<u8>() - size_of::<usize>());
}

#[test]
fn caching() {
    let mut cell = CacheCell::new();
    let mut count: usize = 0;
    let mut compute = |input: &[u8]| {
        compute(&mut cell, input, |x| {
            count += 1;
            keccak256(x)
        })
    };

    let input = b"Hello World!";
    let input2 = b"Hello World! 2";

    let a = compute(input);
    let b = compute(input);
    let c = compute(input);
    assert_eq!(a, b);
    assert_eq!(a, c);

    let d = compute(input2);
    let e = compute(input2);
    assert_ne!(a, d);
    assert_eq!(d, e);

    assert_eq!(count, 2);
}

#[test]
fn local_caching() {
    let mut cache: Option<LocalCache> = None;
    let mut count: usize = 0;
    let mut compute = |input: &[u8]| {
        compute_local(&mut cache, input, |x| {
            count += 1;
            keccak256(x)
        })
    };

    let a = compute(b"Hello World!");
    let b = compute(b"Hello World!");
    let c = compute(b"Hello World!");
    assert_eq!(a, b);
    assert_eq!(a, c);

    let d = compute(b"Hello World! 2");
    let e = compute(b"Hello World! 2");
    assert_ne!(a, d);
    assert_eq!(d, e);

    assert_eq!(count, 2);
}

#[test]
fn a_known_value_is_not_computed_again() {
    let mut cell = CacheCell::new();
    let one = [1u8; 32];
    let two = [2u8; 32];
    assert_eq!(compute(&mut cell, b"input", |_| one), one);
    assert_eq!(compute(&mut cell, b"input", |_| two), one);
    assert_eq!(compute(&mut cell, b"input", |_| panic!("known")), one);

    let mut cache = None;
    assert_eq!(compute_local(&mut cache, b"input", |_| one), one);
    assert_eq!(compute_local(&mut cache, b"input", |_| two), one);
    assert_eq!(compute_local(&mut cache, b"input", |_| panic!("known")), one);
}

#[test]
fn the_longest_input_is_known_after_an_explicit_initialization() {
    let mut cell = CacheCell::new();
    assert!(init_keccak_cache(&mut cell, 4));
    let input = [7u8; MAX_INPUT_LEN];
    assert_eq!(compute(&mut cell, &input, |_| [0x11; 32]), [0x11; 32]);
    assert_eq!(compute(&mut cell, &input, |_| panic!("known")), [0x11; 32]);
}

#[test]
fn a_local_cache_computes_only_what_it_does_not_know() {
    let mut cache = LocalCache::new();
    assert_eq!(cache.get_or_insert(b"a", |_| [1; 32]), [1; 32]);
    assert_eq!(cache.get_or_insert(b"a", |_| panic!("known")), [1; 32]);
    let other = (0..).map(input_of).find(|i| {
        hash_input(i) % DEFAULT_COUNT != hash_input(b"a") % DEFAULT_COUNT
    });
    assert_eq!(cache.get_or_insert(&other.unwrap(), |_| [2; 32]), [2; 32]);
    assert_eq!(cache.get_or_insert(b"a", |_| panic!("known")), [1; 32]);

    let mut cache = Some(cache);
    initialize_local_cache(&mut cache);
    assert_eq!(compute_local(&mut cache, b"a", |_| panic!("known")), [1; 32]);
}

#[test]
fn empty_and_oversized_inputs_bypass_the_cache() {
    let long = vec![7u8; MAX_INPUT_LEN + 1];
    let mut cell = CacheCell::new();
    let mut cache = None;
    for _ in 0..2 {
        assert_eq!(compute(&mut cell, b"", |_| panic!("bypass")), KECCAK256_EMPTY);
        assert_eq!(compute(&mut cell, &long, |_| panic!("bypass")), keccak256(&long));
        assert_eq!(compute_local(&mut cache, b"", |_| panic!("bypass")), KECCAK256_EMPTY);
        assert_eq!(compute_local(&mut cache, &long, |_| panic!("bypass")), keccak256(&long));
    }
    assert!(cache.is_none());
    assert!(init_keccak_cache(&mut cell, 4));
}

#[test]
fn the_longest_and_the_shortest_cacheable_inputs_are_cached() {
    let mut cell = CacheCell::new();
    let mut cache = None;
    for len in [1, 2, 16, 17, 32, 33, 64, 65, MAX_INPUT_LEN - 1, MAX_INPUT_LEN] {
        let input = vec![len as u8; len];
        assert_eq!(compute(&mut cell, &input, keccak256), keccak256(&input));
        assert_eq!(compute(&mut cell, &input, |_| panic!("known")), keccak256(&input));
        assert_eq!(compute_local(&mut cache, &input, keccak256), keccak256(&input));
        assert_eq!(compute_local(&mut cache, &input, |_| panic!("known")), keccak256(&input));
    }
}

#[test]
fn a_prefix_is_another_input() {
    let mut cell = CacheCell::new();
    let zeros = [0u8; MAX_INPUT_LEN];
    for len in 1..=MAX_INPUT_LEN {
        assert_eq!(compute(&mut cell, &zeros[..len], keccak256), keccak256(&zeros[..len]));
    }
}

#[test]
fn the_cache_is_initialized_once() {
    let mut cell = CacheCell::new();
    assert!(init_keccak_cache(&mut cell, 16));
    assert!(!init_keccak_cache(&mut cell, 16));
    assert!(!init_keccak_cache(&mut cell, 1 << 10));

    let mut cell = CacheCell::new();
    compute(&mut cell, b"first use", keccak256);
    assert!(!init_keccak_cache(&mut cell, 16));
}

#[test]
fn the_local_cache_is_initialized_once() {
    let mut cache = None;
    initialize_local_cache(&mut cache);
    assert!(cache.is_some());
    compute_local(&mut cache, b"input", |_| [1; 32]);
    initialize_local_cache(&mut cache);
    assert_eq!(compute_local(&mut cache, b"input", |_| [2; 32]), [1; 32]);
}

/// The bytes of a number, without its leading zeros but at least one byte.
fn input_of(number: u32) -> Vec<u8> {
    let bytes = number.to_be_bytes();
    let zeros = bytes.iter().take_while(|b| **b == 0).count().min(3);
    bytes[zeros..].to_vec()
}

/// Holds a cache of `count` buckets to a row of buckets that is searched by hand.
fn compare_with_row(count: usize, rounds: u32, mut request: impl FnMut(&[u8], B256) -> B256) {
    let mut row: Vec<Option<(Vec<u8>, B256)>> = vec![None; count];
    let mut state: u32 = 1;
    for round in 0..rounds {
        state = state.wrapping_mul(1_664_525).wrapping_add(1_013_904_223);
        let input = input_of((state >> 16) % 64);
        let mut fresh = [0u8; 32];
        fresh[..4].copy_from_slice(&round.to_be_bytes());

        let bucket = &mut row[hash_input(&input) % count];
        let expected = match bucket {
            Some((key, value)) if *key == input => *value,
            _ => {
                *bucket = Some((input.clone(), fresh));
                fresh
            }
        };
        assert_eq!(request(&input, fresh), expected);
    }
}

#[test]
fn a_small_cache_evicts_what_is_in_the_same_bucket() {
    for count in [4, 8, 32] {
        let mut cell = CacheCell::new();
        assert!(init_keccak_cache(&mut cell, count));
        compare_with_row(count, 5_000, |input, fresh| compute(&mut cell, input, |_| fresh));
    }
}

#[test]
fn a_default_cache_has_the_default_number_of_buckets() {
    let mut cell = CacheCell::new();
    compare_with_row(DEFAULT_COUNT, 5_000, |input, fresh| compute(&mut cell, input, |_| fresh));
}

/// Two inputs that belong in the same bucket of a cache of the default size.
fn colliding_inputs() -> (Vec<u8>, Vec<u8>) {
    let mut seen: Vec<Option<u32>> = vec![None; DEFAULT_COUNT];
    for number in 0..1_000_000 {
        let bucket = hash_input(&input_of(number)) % DEFAULT_COUNT;
        if let Some(other) = seen[bucket] {
            return (input_of(other), input_of(number));
        }
        seen[bucket] = Some(number);
    }
    panic!("no collision");
}

#[test]
fn a_local_cache_evicts_what_is_in_the_same_bucket() {
    let (a, b) = colliding_inputs();
    let mut cache = None;
    assert_eq!(compute_local(&mut cache, &a, |_| [1; 32]), [1; 32]);
    assert_eq!(compute_local(&mut cache, &b, |_| [2; 32]), [2; 32]);
    assert_eq!(compute_local(&mut cache, &b, |_| [3; 32]), [2; 32]);
    assert_eq!(compute_local(&mut cache, &a, |_| [4; 32]), [4; 32]);
    assert_eq!(compute_local(&mut cache, &b, |_| [5; 32]), [5; 32]);
}

#[test]
fn a_local_cache_keeps_the_other_buckets() {
    let mut cache = None;
    compare_with_row(DEFAULT_COUNT, 5_000, |input, fresh| {
        compute_local(&mut cache, input, |_| fresh)
    });
}

#[test]
fn a_local_cache_takes_the_empty_input() {
    let mut cache = LocalCache::new();
    assert_eq!(cache.get_or_insert(b"", |_| [1; 32]), [1; 32]);
    assert_eq!(cache.get_or_insert(b"", |_| [2; 32]), [1; 32]);
}

#[test]
fn a_bucket_compares_the_tag_and_the_input() {
    let mut bucket = LocalBucket::new();
    assert_eq!(bucket.get(b"input", 9), None);
    bucket.insert(b"input", [1; 32], 9);
    assert_eq!(bucket.get(b"input", 9), Some([1; 32]));
    assert_eq!(bucket.get(b"input", 11), None);
    assert_eq!(bucket.get(b"other", 9), None);
    bucket.insert(b"other", [2; 32], 9);
    assert_eq!(bucket.get(b"input", 9), None);
    assert_eq!(bucket.get(b"other", 9), Some([2; 32]));
}

struct Handler(Mutex<KeccakCacheStats>);

impl fixed_cache::StatsHandler<Key, B256> for Handler {
    fn on_hit(&self, key: &Key, value: &B256) {
        self.0.lock().unwrap().on_hit(key, value);
    }

    fn on_miss(&self, _key: fixed_cache::AnyRef<'_>) {
        self.0.lock().unwrap().on_miss();
    }

    fn on_insert(&self, key: &Key, value: &B256, evicted: Option<(&Key, &B256)>) {
        self.0.lock().unwrap().on_insert(key, value, evicted);
    }
}

#[test]
fn the_cache_reports_to_its_handlers() {
    let handler = Arc::new(Handler(Mutex::new(KeccakCacheStats::new())));
    let mut cell = CacheCell::with_stats(fixed_cache::Stats::new(Arc::clone(&handler)));
    assert!(init_keccak_cache(&mut cell, 4));
    let counts = || {
        let stats = handler.0.lock().unwrap();
        (stats.hits(), stats.misses(), stats.inserts(), stats.collisions())
    };
    assert_eq!(counts(), (0, 0, 0, 0));

    compute(&mut cell, b"", keccak256);
    compute(&mut cell, &[1; 100], keccak256);
    assert_eq!(counts(), (0, 0, 0, 0));

    let first = input_of(1);
    compute(&mut cell, &first, keccak256);
    assert_eq!(counts(), (0, 1, 1, 0));
    compute(&mut cell, &first, keccak256);
    assert_eq!(counts(), (1, 1, 1, 0));

    let bucket = hash_input(&first) % 4;
    let same = (2..).map(input_of).find(|i| hash_input(i) % 4 == bucket).unwrap();
    let other = (2..).map(input_of).find(|i| hash_input(i) % 4 != bucket).unwrap();
    compute(&mut cell, &other, keccak256);
    assert_eq!(counts(), (1, 2, 2, 0));
    compute(&mut cell, &same, keccak256);
    assert_eq!(counts(), (1, 3, 3, 1));

    handler.0.lock().unwrap().reset();
    assert_eq!(counts(), (0, 0, 0, 0));
}

#[test]
fn a_lazily_made_cache_reports_to_its_handlers() {
    let handler = Arc::new(Handler(Mutex::new(KeccakCacheStats::default())));
    let mut cell = CacheCell::with_stats(fixed_cache::Stats::new(Arc::clone(&handler)));
    for _ in 0..3 {
        compute(&mut cell, b"input", keccak256);
    }
    let stats = handler.0.lock().unwrap();
    assert_eq!((stats.hits(), stats.misses(), stats.inserts()), (2, 1, 1));
}

#[test]
fn no_count_is_lost() {
    let key = make_key(b"a");
    let value = [0; 32];
    let mut stats = KeccakCacheStats::new();
    for i in 0..1_000 {
        if i % 7 < 3 {
            stats.on_hit(&key, &value);
        } else {
            stats.on_miss();
        }
    }
    assert_eq!((stats.hits(), stats.misses()), (429, 571));
    assert_eq!((stats.inserts(), stats.collisions()), (0, 0));
}

#[test]
fn an_insertion_is_counted_by_what_it_evicts() {
    let (a, b) = (make_key(b"a"), make_key(b"b"));
    let value = [0; 32];
    let mut stats = KeccakCacheStats::new();
    stats.on_insert(&a, &value, None);
    assert_eq!((stats.inserts(), stats.collisions()), (1, 0));
    stats.on_insert(&a, &value, Some((&b, &value)));
    assert_eq!((stats.inserts(), stats.collisions()), (2, 1));
    stats.on_insert(&a, &value, Some((&make_key(b"a"), &value)));
    assert_eq!((stats.inserts(), stats.collisions()), (2, 1));
    assert_eq!((stats.hits(), stats.misses()), (0, 0));
    stats.on_hit(&a, &value);
    stats.on_miss();
    stats.on_miss();
    assert_eq!((stats.hits(), stats.misses()), (1, 2));
    assert_eq!((stats.inserts(), stats.collisions()), (2, 1));
    stats.reset();
    assert_eq!(
        (stats.hits(), stats.misses(), stats.inserts(), stats.collisions()),
        (0, 0, 0, 0)
    );
}
