//! The cache that is shared by a process.
use vstd::prelude::*;

use crate::hash::{Hasher, B256};
use crate::key::{make_key, Key};

verus! {

use crate::key::max_len;
use crate::slots::{answers, empty_slots, find, Slot};
use crate::stats::{with_request, Report};
use vstd::arithmetic::power2::{lemma2_to64, pow2};

/// The number of buckets of a cache that is not given one: with 128 bytes each, they take 16 MiB.
pub const DEFAULT_COUNT: usize = 131_072;

/// Whether a cache can have `entries` buckets: a power of two, at least 4, of 128 bytes each that
/// fit into the address space.
pub open spec fn valid_entries(entries: usize) -> bool {
    &&& entries >= 4
    &&& exists|k: nat| entries == #[trigger] pow2(k)
    &&& entries * 128 <= isize::MAX
}

/// The handlers that a cache reports its hits, misses and insertions to.
#[verifier::external_type_specification]
#[verifier::external_body]
#[verifier::reject_recursive_types(K)]
#[verifier::reject_recursive_types(V)]
pub struct ExStats<K, V>(fixed_cache::Stats<K, V>);

/// A cache with a fixed number of buckets.
#[verifier::external_body]
pub struct Cache {
    inner: fixed_cache::Cache<Key, B256, std::hash::BuildHasherDefault<Hasher>>,
}

/// What the buckets of a `fixed_cache::Cache` hold.
pub uninterp spec fn cache_slots(cache: Cache) -> Seq<Slot>;

/// The bucket of a `fixed_cache::Cache` that `input` belongs in.
pub uninterp spec fn cache_slot(cache: Cache, input: Seq<u8>) -> nat;

/// Whether the tag that a `fixed_cache::Cache` gives to `input` differs from zero, the tag of an
/// empty bucket.
pub uninterp spec fn cache_tagged(cache: Cache, input: Seq<u8>) -> bool;

/// What a `fixed_cache::Cache` has reported so far, or would have reported if it had handlers.
pub uninterp spec fn cache_reports(cache: Cache) -> Seq<Report>;

/// The handlers that a `fixed_cache::Cache` reports to.
pub uninterp spec fn cache_handlers(cache: Cache) -> Option<fixed_cache::Stats<Key, B256>>;

impl Cache {
    /// What the buckets hold.
    pub open spec fn slots(self) -> Seq<Slot> {
        cache_slots(self)
    }

    /// The bucket that `input` belongs in.
    pub open spec fn slot_of(self, input: Seq<u8>) -> int {
        cache_slot(self, input) as int
    }

    /// Whether `input` is found.
    pub open spec fn knows(self, input: Seq<u8>) -> bool {
        find(self.slots(), self.slot_of(input), input) is Some
    }

    /// The input that the insertion of `input` is reported to evict: the one that the bucket
    /// holds, unless its tag makes the bucket look empty.
    pub open spec fn evicted_by(self, input: Seq<u8>) -> Option<Seq<u8>> {
        match self.slots()[self.slot_of(input)] {
            Some((held, _)) => if cache_tagged(self, held) {
                Some(held)
            } else {
                None
            },
            None => None,
        }
    }

    /// Every input has the bucket, and the kind of tag, that it has in `other`.
    pub open spec fn hashes_like(self, other: Cache) -> bool {
        &&& forall|input: Seq<u8>| #[trigger] cache_slot(self, input) == cache_slot(other, input)
        &&& forall|input: Seq<u8>| #[trigger]
            cache_tagged(self, input) == cache_tagged(other, input)
    }

    /// What the cache has reported, or would have reported if it had handlers.
    pub open spec fn reports(self) -> Seq<Report> {
        cache_reports(self)
    }

    /// The handlers that the cache reports to.
    pub open spec fn handlers(self) -> Option<fixed_cache::Stats<Key, B256>> {
        cache_handlers(self)
    }

    /// Every input has a bucket, and a bucket holds only inputs that belong in it, none of which
    /// is empty or too long.
    pub open spec fn wf(self) -> bool {
        &&& forall|input: Seq<u8>| #[trigger] cache_slot(self, input) < cache_slots(self).len()
        &&& forall|i: int|
            0 <= i < self.slots().len() ==> (#[trigger] self.slots()[i] matches Some((input, _))
                ==> self.slot_of(input) == i && 0 < input.len() <= max_len())
    }
}

/// Calls `fixed_cache::Cache::new`, which allocates `entries` empty buckets.
///
/// It panics when the number is not a power of two, is below 4, or asks for more bytes than an
/// allocation can have. An input has one bucket, which the hash of the input picks. Which one that
/// is rests on how std feeds a byte slice to a hasher, and is left open.
#[verifier::external_body]
fn fixed_cache_new(entries: usize) -> (cache: Cache)
    requires
        valid_entries(entries),
    ensures
        cache_slots(cache) == empty_slots(entries as nat),
        forall|input: Seq<u8>| #[trigger] cache_slot(cache, input) < entries,
        cache_reports(cache) == Seq::<Report>::empty(),
        cache_handlers(cache) is None,
{
    Cache { inner: fixed_cache::Cache::new(entries, std::hash::BuildHasherDefault::default()) }
}

/// Calls `fixed_cache::Cache::with_stats`, which replaces the handlers that a cache reports to and
/// leaves the buckets alone.
#[verifier::external_body]
fn fixed_cache_with_stats(cache: Cache, stats: Option<fixed_cache::Stats<Key, B256>>) -> (result:
    Cache)
    ensures
        cache_slots(result) == cache_slots(cache),
        forall|input: Seq<u8>| #[trigger]
            cache_slot(result, input) == cache_slot(cache, input),
        forall|input: Seq<u8>| #[trigger]
            cache_tagged(result, input) == cache_tagged(cache, input),
        cache_reports(result) == cache_reports(cache),
        cache_handlers(result) == stats,
{
    Cache { inner: cache.inner.with_stats(stats) }
}

/// Calls `fixed_cache::Cache::get_or_insert_with_ref`.
///
/// If the bucket of `input` holds it, the stored value is returned and `imp` is not called, so
/// nothing is asked of `imp` then. Otherwise `imp` is called on `input`, and the input and its
/// value take the place of what the bucket held. The cache is not shared during the call, so no
/// bucket is locked by another thread and the insertion takes place; a handler that panics inside
/// the call would leave a bucket locked.
///
/// A hit is reported to `on_hit` of the handler, a miss to `on_miss` and then the insertion to
/// `on_insert`, with what it evicts. A bucket whose tag is zero counts as empty there, also when an
/// input that has such a tag was stored in it: that eviction goes unreported.
///
/// The empty input is left out: a bucket that was never written can read as one that holds it.
#[verifier::external_body]
fn fixed_cache_get_or_insert(
    cache: &mut Cache,
    input: &[u8],
    imp: impl FnOnce(&[u8]) -> B256,
) -> (hash: B256)
    requires
        0 < input@.len() <= max_len(),
        find(
            cache_slots(*old(cache)),
            cache_slot(*old(cache), input@) as int,
            input@,
        ) is None ==> call_requires(imp, (input,)),
    ensures
        answers(
            cache_slots(*old(cache)),
            cache_slots(*final(cache)),
            cache_slot(*old(cache), input@) as int,
            input@,
            hash@,
            call_ensures(imp, (input,), hash),
        ),
        forall|other: Seq<u8>| #[trigger]
            cache_slot(*final(cache), other) == cache_slot(*old(cache), other),
        forall|other: Seq<u8>| #[trigger]
            cache_tagged(*final(cache), other) == cache_tagged(*old(cache), other),
        cache_reports(*final(cache)) == with_request(
            cache_reports(*old(cache)),
            old(cache).knows(input@),
            input@,
            old(cache).evicted_by(input@),
        ),
        cache_handlers(*final(cache)) == cache_handlers(*old(cache)),
{
    cache.inner.get_or_insert_with_ref(input, imp, make_key)
}

/// The place of the cache of a process. The cache is made once: by [`init_keccak_cache`], or by
/// the first computation that needs it.
pub struct CacheCell {
    cache: Option<Cache>,
    stats: Option<fixed_cache::Stats<Key, B256>>,
}

impl CacheCell {
    /// The cache, if it has been made.
    pub closed spec fn cache(&self) -> Option<Cache> {
        self.cache
    }

    /// What the buckets hold, or will hold when the cache is made by the first computation.
    pub open spec fn slots(&self) -> Seq<Slot> {
        match self.cache() {
            Some(cache) => cache.slots(),
            None => empty_slots(DEFAULT_COUNT as nat),
        }
    }

    /// What the cache has reported, or would have reported if it had handlers.
    pub open spec fn reports(&self) -> Seq<Report> {
        match self.cache() {
            Some(cache) => cache.reports(),
            None => Seq::empty(),
        }
    }

    /// The handlers that the cache reports to, or will report to when it is made.
    pub closed spec fn handlers(&self) -> Option<fixed_cache::Stats<Key, B256>> {
        match self.cache {
            Some(cache) => cache.handlers(),
            None => self.stats,
        }
    }

    /// Whether there is a cache that finds `input`.
    pub open spec fn knows(&self, input: Seq<u8>) -> bool {
        self.cache() matches Some(cache) && cache.knows(input)
    }

    /// The input that the insertion of `input` is reported to evict.
    pub open spec fn evicted_by(&self, input: Seq<u8>) -> Option<Seq<u8>> {
        match self.cache() {
            Some(cache) => cache.evicted_by(input),
            None => None,
        }
    }

    /// Where `earlier` has a cache, there is one that hashes every input as it does.
    pub open spec fn hashes_like(&self, earlier: CacheCell) -> bool {
        earlier.cache() matches Some(was) ==> self.cache() matches Some(is) && is.hashes_like(was)
    }

    /// The cache that has been made is well-formed.
    pub open spec fn wf(&self) -> bool {
        self.cache() matches Some(cache) ==> cache.wf()
    }

    /// A cell without a cache. The cache will report to nobody.
    pub fn new() -> (cell: CacheCell)
        ensures
            cell.wf(),
            cell.cache() is None,
            cell.handlers() is None,
    {
        CacheCell { cache: None, stats: None }
    }

    /// A cell without a cache. The cache will report to the given handlers.
    pub fn with_stats(stats: fixed_cache::Stats<Key, B256>) -> (cell: CacheCell)
        ensures
            cell.wf(),
            cell.cache() is None,
            cell.handlers() == Some(stats),
    {
        CacheCell { cache: None, stats: Some(stats) }
    }

    /// The value of `input`: the one that the cache holds, or else the one that `imp` gives, which
    /// is stored. Calls `imp` only in the latter case. Makes the cache, of the default size, unless
    /// it has been made.
    pub(crate) fn get_or_insert(&mut self, input: &[u8], imp: impl FnOnce(&[u8]) -> B256) -> (hash:
        B256)
        requires
            old(self).wf(),
            0 < input@.len() <= max_len(),
            !old(self).knows(input@) ==> call_requires(imp, (input,)),
        ensures
            final(self).wf(),
            final(self).cache() matches Some(cache) && answers(
                old(self).slots(),
                cache.slots(),
                cache.slot_of(input@),
                input@,
                hash@,
                call_ensures(imp, (input,), hash),
            ),
            final(self).hashes_like(*old(self)),
            final(self).handlers() == old(self).handlers(),
            final(self).reports() == with_request(
                old(self).reports(),
                old(self).knows(input@),
                input@,
                old(self).evicted_by(input@),
            ),
    {
        if self.cache.is_none() {
            let stats = self.stats.take();
            self.cache = Some(default_cache(stats));
        }
        fixed_cache_get_or_insert(self.cache.as_mut().unwrap(), input, imp)
    }
}

/// A cache with `entries` empty buckets, which reports to `stats`.
fn new_cache(entries: usize, stats: Option<fixed_cache::Stats<Key, B256>>) -> (cache: Cache)
    requires
        valid_entries(entries),
    ensures
        cache.wf(),
        cache.slots() == empty_slots(entries as nat),
        cache.reports() == Seq::<Report>::empty(),
        cache.handlers() == stats,
{
    let cache = fixed_cache_new(entries);
    match stats {
        Some(stats) => fixed_cache_with_stats(cache, Some(stats)),
        None => cache,
    }
}

/// A cache of the default size.
fn default_cache(stats: Option<fixed_cache::Stats<Key, B256>>) -> (cache: Cache)
    ensures
        cache.wf(),
        cache.slots() == empty_slots(DEFAULT_COUNT as nat),
        cache.reports() == Seq::<Report>::empty(),
        cache.handlers() == stats,
{
    proof {
        lemma2_to64();
        assert(DEFAULT_COUNT == pow2(17));
    }
    new_cache(DEFAULT_COUNT, stats)
}

/// Makes the cache of `cell`, with `entries` buckets, unless it has been made.
fn init_cache(cell: &mut CacheCell, entries: usize) -> (initialized: bool)
    requires
        valid_entries(entries),
    ensures
        initialized == (old(cell).cache() is None),
        initialized ==> {
            &&& final(cell).wf()
            &&& final(cell).cache() is Some
            &&& final(cell).slots() == empty_slots(entries as nat)
            &&& final(cell).reports() == Seq::<Report>::empty()
            &&& final(cell).handlers() == old(cell).handlers()
            &&& cache_slots(final(cell).cache()->0).len() == entries
            &&& forall|i: int|
                0 <= i < entries ==> #[trigger] cache_slots(final(cell).cache()->0)[i] is None
            &&& cache_reports(final(cell).cache()->0).len() == 0
            &&& cache_handlers(final(cell).cache()->0) == old(cell).handlers()
        },
        !initialized ==> *final(cell) == *old(cell),
{
    if cell.cache.is_some() {
        return false;
    }
    let stats = cell.stats.take();
    cell.cache = Some(new_cache(entries, stats));
    true
}

/// Initializes the cache with `entries` buckets.
///
/// Returns `true` if this call initialized the cache, and `false` if the cache was already
/// initialized by an earlier call or by the first cached hash computation. If this is never
/// called, the cache is initialized lazily with the default size on first use.
///
/// `entries` must be a power of two that is at least 4, also where the cache was already
/// initialized.
#[must_use]
pub fn init_keccak_cache(cell: &mut CacheCell, entries: usize) -> (initialized: bool)
    requires
        valid_entries(entries),
    ensures
        initialized == (old(cell).cache() is None),
        initialized ==> {
            &&& final(cell).wf()
            &&& final(cell).cache() is Some
            &&& final(cell).slots() == empty_slots(entries as nat)
            &&& final(cell).reports() == Seq::<Report>::empty()
            &&& final(cell).handlers() == old(cell).handlers()
            &&& cache_slots(final(cell).cache()->0).len() == entries
            &&& forall|i: int|
                0 <= i < entries ==> #[trigger] cache_slots(final(cell).cache()->0)[i] is None
            &&& cache_reports(final(cell).cache()->0).len() == 0
            &&& cache_handlers(final(cell).cache()->0) == old(cell).handlers()
        },
        !initialized ==> *final(cell) == *old(cell),
{
    init_cache(cell, entries)
}

/// A number of buckets is valid exactly when it is a power of two from the second on, and its
/// buckets of 128 bytes fit into the address space. No other number is.
pub proof fn law_valid_entries(entries: usize, k: nat)
    ensures
        entries == pow2(k) ==> (valid_entries(entries) <==> 2 <= k && entries * 128 <= isize::MAX),
        valid_entries(entries) ==> exists|j: nat| 2 <= j && entries == #[trigger] pow2(j),
{
    lemma2_to64();
    assert forall|j: nat| entries == #[trigger] pow2(j) implies (entries >= 4 <==> 2 <= j) by {
        if j > 2 {
            vstd::arithmetic::power2::lemma_pow2_strictly_increases(2, j);
        }
    }
}

/// The default number of buckets is the 17th power of two, and takes 16 MiB.
pub proof fn law_default_count()
    ensures
        DEFAULT_COUNT == 131_072,
        DEFAULT_COUNT * 128 == 16 * 1_024 * 1_024,
        valid_entries(DEFAULT_COUNT),
{
    lemma2_to64();
    assert(DEFAULT_COUNT == pow2(17));
}

/// A cell speaks for its cache, where it has one: for what its buckets hold, for the inputs that
/// it finds, for what it has reported and for whom it reports to. Where it has none, nothing is
/// found and nothing was reported, and 131072 empty buckets are to come.
pub proof fn law_cell_speaks_for_its_cache(cell: CacheCell, input: Seq<u8>, i: int)
    ensures
        cell.cache() matches Some(cache) ==> {
            &&& cell.slots() == cache_slots(cache)
            &&& cell.reports() == cache_reports(cache)
            &&& cell.handlers() == cache_handlers(cache)
            &&& cell.knows(input) <==> exists|value: Seq<u8>|
                cache_slots(cache)[cache_slot(cache, input) as int] == Some((input, value))
        },
        cell.cache() is None ==> {
            &&& cell.slots().len() == 131_072
            &&& 0 <= i < 131_072 ==> cell.slots()[i] is None
            &&& cell.reports().len() == 0
            &&& !cell.knows(input)
        },
{
    if let Some(cache) = cell.cache() {
        if let Some((held, value)) = cache_slots(cache)[cache_slot(cache, input) as int] {
            assert(cell.knows(input) ==> held == input);
        }
    }
}

/// An insertion is reported to evict the input that its bucket holds, whichever it is, unless the
/// tag of that input is zero or the bucket is empty.
pub proof fn law_eviction_is_of_the_held_input(
    cell: CacheCell,
    input: Seq<u8>,
    held: Seq<u8>,
    value: Seq<u8>,
)
    ensures
        cell.cache() is None ==> cell.evicted_by(input) is None,
        cell.cache() matches Some(cache) ==> {
            let bucket = cache_slots(cache)[cache_slot(cache, input) as int];
            &&& bucket is None ==> cell.evicted_by(input) is None
            &&& bucket == Some((held, value)) && cache_tagged(cache, held) ==> cell.evicted_by(
                input,
            ) == Some(held)
            &&& bucket == Some((held, value)) && !cache_tagged(cache, held) ==> cell.evicted_by(
                input,
            ) is None
        },
{
}

/// A cell that hashes like an earlier one has a cache where the earlier one has, and every input
/// has the bucket and the kind of tag there that it had.
pub proof fn law_hashing_stays(cell: CacheCell, earlier: CacheCell, input: Seq<u8>)
    requires
        cell.hashes_like(earlier),
        earlier.cache() is Some,
    ensures
        cell.cache() is Some,
        cache_slot(cell.cache()->0, input) == cache_slot(earlier.cache()->0, input),
        cache_tagged(cell.cache()->0, input) == cache_tagged(earlier.cache()->0, input),
{
}

/// In a well-formed cache every input has a bucket, and what a bucket holds belongs there.
pub proof fn law_cache_shape(cell: CacheCell, input: Seq<u8>, i: int)
    requires
        cell.wf(),
        cell.cache() is Some,
    ensures
        cache_slot(cell.cache()->0, input) < cache_slots(cell.cache()->0).len(),
        0 <= i < cache_slots(cell.cache()->0).len() ==> (cache_slots(
            cell.cache()->0,
        )[i] matches Some((held, _)) ==> cache_slot(cell.cache()->0, held) == i && 1 <= held.len()
            <= max_len()),
{
    assert(cell.cache()->0.slots() == cache_slots(cell.cache()->0));
}

} // verus!
