# keccak-cache

A one-way set associative cache for Keccak-256 values, verified with Verus.

- `src/hash.rs`: Keccak-256 and the hash that picks buckets
- `src/key.rs`: short inputs, stored inline
- `src/slots.rs`: the abstract cache and its laws
- `src/cache.rs`: the cache of a process, on top of `fixed-cache`
- `src/local_cache.rs`: the cache of a thread
- `src/compute.rs`: the cached computation and its laws
- `src/stats.rs`: hit, miss, insert and collision counters
- `src/metrics.rs`: diagnostic counters by input size, kept per thread and flushed in batches
- `app/`: the statics and thread-locals that hold the state of a running process

The value that a cached computation returns is the Keccak-256 hash of the input, as long as every
function that the cache was given to compute fresh values with computes that hash.
