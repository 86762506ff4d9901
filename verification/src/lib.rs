//! A minimalistic one-way set associative cache for Keccak-256 values.
//!
//! The caches have a fixed size, to allow fast access and to keep the overhead of a call small.
//! An input of one to [`MAX_INPUT_LEN`] bytes is answered from the cache; the empty input and
//! longer ones bypass it.
//!
//! All state is passed in by the caller: the cell of the cache of a process ([`CacheCell`]), the
//! cache of a thread ([`LocalCache`]), and the counters ([`KeccakCacheStats`], [`LocalMetrics`],
//! [`GlobalMetrics`]).
pub mod cache;
pub mod compute;
pub mod hash;
pub mod key;
pub mod local_cache;
pub mod metrics;
pub mod slots;
pub mod stats;

pub use cache::{init_keccak_cache, Cache, CacheCell, DEFAULT_COUNT};
pub use compute::{compute, compute_local, initialize_local_cache};
pub use hash::{
    fold_hash, hash_input, keccak256, rapid_hash, Hasher, B256, HASH_SEED, KECCAK256_EMPTY,
};
pub use key::{make_key, Key, MAX_INPUT_LEN};
pub use local_cache::{LocalBucket, LocalCache};
pub use metrics::{
    flush, input_size_bucket, record_bypass, record_cacheable, snapshot, GlobalMetrics,
    KeccakCacheMetricsSnapshot, LocalMetrics, FLUSH_INTERVAL, INPUT_SIZE_BUCKETS,
};
pub use stats::KeccakCacheStats;
