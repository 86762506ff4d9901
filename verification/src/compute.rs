//! The cached hash computation.
use vstd::prelude::*;

use crate::cache::CacheCell;
use crate::hash::{keccak256, B256, KECCAK256_EMPTY};
use crate::key::{get_value, MAX_INPUT_LEN};
use crate::local_cache::LocalCache;

verus! {

use crate::cache::{
    cache_handlers,
    cache_reports,
    cache_slot,
    cache_slots,
    cache_tagged,
    DEFAULT_COUNT,
};
use crate::hash::{keccak256_digest, keccak_v256_output};
use crate::key::{max_len, value_of};
use crate::local_cache::{law_local_shape, local_slot};
use crate::slots::{
    answers,
    empty_slots,
    find,
    holds_digests,
    law_answers_are_digests,
    law_other_slots_kept,
    law_request_is_remembered,
    law_store_evicts,
    Slot,
};
use crate::stats::{law_request_is_counted, tally, with_request, Report};

/// Whether `input` is looked up in a cache.
pub open spec fn cacheable(input: Seq<u8>) -> bool {
    0 < input.len() <= max_len()
}

/// Whether the request for the hash of `input` is answered with `hash` and leads from the cell
/// `before` to the cell `after`.
///
/// `fresh` says whether `hash` is what the caller's function gives for `input`. A request that is
/// looked up in the cache is also reported, where there are handlers; no other is.
pub open spec fn computed(
    before: CacheCell,
    after: CacheCell,
    input: Seq<u8>,
    hash: Seq<u8>,
    fresh: bool,
) -> bool {
    if cacheable(input) {
        &&& after.cache() matches Some(cache) && answers(
            before.slots(),
            cache.slots(),
            cache.slot_of(input),
            input,
            hash,
            fresh,
        )
        &&& after.hashes_like(before)
        &&& after.handlers() == before.handlers()
        &&& after.reports() == with_request(
            before.reports(),
            before.knows(input),
            input,
            before.evicted_by(input),
        )
    } else {
        &&& hash == keccak256_digest(input)
        &&& after == before
    }
}

/// What the buckets of the cache of a thread hold, or will hold when the cache is made.
pub open spec fn local_slots(cache: Option<LocalCache>) -> Seq<Slot> {
    match cache {
        Some(cache) => cache.slots(),
        None => empty_slots(DEFAULT_COUNT as nat),
    }
}

/// Whether the cache of a thread finds `input`.
pub open spec fn local_knows(cache: Option<LocalCache>, input: Seq<u8>) -> bool {
    find(local_slots(cache), local_slot(input), input) is Some
}

/// The cache of a thread, if it has been made, is well-formed.
pub open spec fn local_wf(cache: Option<LocalCache>) -> bool {
    cache matches Some(made) ==> made.wf()
}

/// Whether the request for the hash of `input` is answered with `hash` and leads from the cache
/// `before` of a thread to the cache `after`.
///
/// `fresh` says whether `hash` is what the caller's function gives for `input`.
pub open spec fn computed_local(
    before: Option<LocalCache>,
    after: Option<LocalCache>,
    input: Seq<u8>,
    hash: Seq<u8>,
    fresh: bool,
) -> bool {
    if cacheable(input) {
        after matches Some(cache) && answers(
            local_slots(before),
            cache.slots(),
            local_slot(input),
            input,
            hash,
            fresh,
        )
    } else {
        &&& hash == keccak256_digest(input)
        &&& after == before
    }
}

/// The hash of an input that is not looked up in a cache.
fn bypass(input: &[u8]) -> (hash: Option<B256>)
    ensures
        hash is None <==> cacheable(input@),
        hash matches Some(value) ==> value@ == keccak256_digest(input@),
        hash is None <==> 1 <= input@.len() <= value_of::<MAX_INPUT_LEN>(),
        hash matches Some(value) ==> input@.len() == 0 ==> value@ == KECCAK256_EMPTY@,
        hash matches Some(value) ==> input@.len() > 0 ==> value@ == keccak_v256_output(input@),
{
    if input.len() == 0 {
        Some(KECCAK256_EMPTY)
    } else if input.len() > get_value::<MAX_INPUT_LEN>() {
        Some(keccak256(input))
    } else {
        None
    }
}

/// The Keccak-256 hash of `input`, where `imp` computes it: from the cache where the cache has it,
/// else from `imp`, and then the cache has it.
///
/// `imp` is called at most once, and only for a cacheable input that the cache does not know:
/// for any other input nothing is asked of it. The empty input is answered with a constant, and an
/// input that is too long for the cache is hashed, without `imp`. Neither makes or changes the
/// cache.
pub fn compute(cell: &mut CacheCell, input: &[u8], imp: impl FnOnce(&[u8]) -> B256) -> (hash: B256)
    requires
        old(cell).wf(),
        cacheable(input@) && !old(cell).knows(input@) ==> call_requires(imp, (input,)),
    ensures
        final(cell).wf(),
        computed(*old(cell), *final(cell), input@, hash@, call_ensures(imp, (input,), hash)),
        input@.len() == 0 ==> hash@ == KECCAK256_EMPTY@ && *final(cell) == *old(cell),
        input@.len() > value_of::<MAX_INPUT_LEN>() ==> hash@ == keccak_v256_output(input@)
            && *final(cell) == *old(cell),
        1 <= input@.len() <= value_of::<MAX_INPUT_LEN>() ==> (final(cell).cache() matches Some(
            cache,
        ) && cache_slots(cache)[cache_slot(cache, input@) as int] == Some((input@, hash@))),
        1 <= input@.len() <= value_of::<MAX_INPUT_LEN>() && old(cell).cache() is None
            ==> call_ensures(imp, (input,), hash),
        1 <= input@.len() <= value_of::<MAX_INPUT_LEN>() ==> (old(cell).cache() matches Some(was)
            ==> (match cache_slots(was)[cache_slot(was, input@) as int] {
            Some((held, known)) => if held == input@ {
                hash@ == known
            } else {
                call_ensures(imp, (input,), hash)
            },
            None => call_ensures(imp, (input,), hash),
        })),
{
    match bypass(input) {
        Some(hash) => hash,
        None => cell.get_or_insert(input, imp),
    }
}

/// Makes the cache of a thread, unless it has been made.
pub fn initialize_local_cache(cache: &mut Option<LocalCache>)
    requires
        local_wf(*old(cache)),
    ensures
        local_wf(*final(cache)),
        *final(cache) is Some,
        local_slots(*final(cache)) == local_slots(*old(cache)),
        *old(cache) is Some ==> *final(cache) == *old(cache),
        *old(cache) is None ==> (*final(cache))->0.slots().len() == 131_072,
        *old(cache) is None ==> forall|i: int|
            0 <= i < 131_072 ==> #[trigger] (*final(cache))->0.slots()[i] is None,
{
    if cache.is_none() {
        *cache = Some(LocalCache::new());
    }
}

/// What [`compute`] does, with the cache of a thread.
pub fn compute_local(
    cache: &mut Option<LocalCache>,
    input: &[u8],
    imp: impl FnOnce(&[u8]) -> B256,
) -> (hash: B256)
    requires
        local_wf(*old(cache)),
        cacheable(input@) && !local_knows(*old(cache), input@) ==> call_requires(imp, (input,)),
    ensures
        local_wf(*final(cache)),
        computed_local(
            *old(cache),
            *final(cache),
            input@,
            hash@,
            call_ensures(imp, (input,), hash),
        ),
        input@.len() == 0 ==> hash@ == KECCAK256_EMPTY@ && *final(cache) == *old(cache),
        input@.len() > value_of::<MAX_INPUT_LEN>() ==> hash@ == keccak_v256_output(input@)
            && *final(cache) == *old(cache),
        1 <= input@.len() <= value_of::<MAX_INPUT_LEN>() ==> (*final(cache) matches Some(made)
            && made.slots()[local_slot(input@)] == Some((input@, hash@))),
        1 <= input@.len() <= value_of::<MAX_INPUT_LEN>() && *old(cache) is None ==> call_ensures(
            imp,
            (input,),
            hash,
        ),
        1 <= input@.len() <= value_of::<MAX_INPUT_LEN>() ==> (*old(cache) matches Some(was) ==> (
        match was.slots()[local_slot(input@)] {
            Some((held, known)) => if held == input@ {
                hash@ == known
            } else {
                call_ensures(imp, (input,), hash)
            },
            None => call_ensures(imp, (input,), hash),
        })),
{
    match bypass(input) {
        Some(hash) => hash,
        None => {
            initialize_local_cache(cache);
            cache.as_mut().unwrap().get_or_insert(input, imp)
        },
    }
}

/// The cached computation is transparent: where the cache holds hashes only, and a fresh value is
/// the hash of the input, the answer is the Keccak-256 hash of the input, whatever the input is,
/// and the cache again holds hashes only.
pub proof fn law_compute_is_transparent(
    before: CacheCell,
    after: CacheCell,
    input: Seq<u8>,
    hash: Seq<u8>,
    fresh: bool,
)
    requires
        holds_digests(before.slots()),
        computed(before, after, input, hash, fresh),
        fresh ==> hash == keccak256_digest(input),
    ensures
        hash == keccak256_digest(input),
        holds_digests(after.slots()),
{
    if cacheable(input) {
        let i = after.cache()->0.slot_of(input);
        law_answers_are_digests(before.slots(), after.slots(), i, input, hash, fresh);
    }
}

/// A computation is remembered: the cache knows its input, so that [`compute`] asks nothing of the
/// function that it is given next. When it is asked for again, the answer is the same, and the
/// cache does not change.
pub proof fn law_compute_is_remembered(
    before: CacheCell,
    between: CacheCell,
    after: CacheCell,
    input: Seq<u8>,
    first: Seq<u8>,
    first_fresh: bool,
    second: Seq<u8>,
    second_fresh: bool,
)
    requires
        computed(before, between, input, first, first_fresh),
        computed(between, after, input, second, second_fresh),
    ensures
        cacheable(input) ==> between.knows(input),
        second == first,
        after.slots() == between.slots(),
{
    if cacheable(input) {
        let i = between.cache()->0.slot_of(input);
        law_request_is_remembered(
            before.slots(),
            between.slots(),
            after.slots(),
            i,
            input,
            first,
            first_fresh,
            second,
            second_fresh,
        );
    }
}

/// A computation touches no bucket but that of its input: an input that belongs in another bucket
/// is found there, or not, as before, with the value that it had.
pub proof fn law_compute_keeps_other_buckets(
    before: CacheCell,
    after: CacheCell,
    input: Seq<u8>,
    hash: Seq<u8>,
    fresh: bool,
    other: Seq<u8>,
)
    requires
        after.wf(),
        computed(before, after, input, hash, fresh),
        after.cache() matches Some(cache) && cache.slot_of(other) != cache.slot_of(input),
    ensures
        after.slots().len() == before.slots().len(),
        after.knows(other) == before.knows(other),
        find(after.slots(), after.cache()->0.slot_of(other), other) == find(
            before.slots(),
            after.cache()->0.slot_of(other),
            other,
        ),
{
    if cacheable(input) {
        let cache = after.cache()->0;
        law_other_slots_kept(
            before.slots(),
            after.slots(),
            cache.slot_of(input),
            input,
            hash,
            fresh,
            cache.slot_of(other),
            other,
        );
    }
}

/// A computation that stores a fresh value evicts every other input from the bucket.
pub proof fn law_compute_evicts(
    before: CacheCell,
    after: CacheCell,
    input: Seq<u8>,
    hash: Seq<u8>,
    fresh: bool,
    other: Seq<u8>,
)
    requires
        cacheable(input),
        computed(before, after, input, hash, fresh),
        find(before.slots(), after.cache()->0.slot_of(input), input) is None,
        after.cache()->0.slot_of(other) == after.cache()->0.slot_of(input),
        other != input,
    ensures
        find(after.slots(), after.cache()->0.slot_of(other), other) is None,
{
    let i = after.cache()->0.slot_of(input);
    law_store_evicts(before.slots(), i, input, hash, other);
}

/// A computation is counted as what it is: one that is looked up is a hit, or a miss and an
/// insertion of its input in the place of another, and one that bypasses the cache is nothing.
/// So the misses and the inserts, if they were as many, still are.
pub proof fn law_compute_is_counted(
    before: CacheCell,
    after: CacheCell,
    input: Seq<u8>,
    hash: Seq<u8>,
    fresh: bool,
)
    requires
        computed(before, after, input, hash, fresh),
    ensures
        tally(after.reports()) == if !cacheable(input) {
            tally(before.reports())
        } else if before.knows(input) {
            tally(before.reports()).after_hit()
        } else {
            tally(before.reports()).after_miss().after_insert(input, before.evicted_by(input))
        },
        cacheable(input) && !before.knows(input) ==> before.evicted_by(input) != Some(input),
        tally(before.reports()).misses == tally(before.reports()).inserts ==> tally(
            after.reports(),
        ).misses == tally(after.reports()).inserts,
{
    law_request_is_counted(
        before.reports(),
        before.knows(input),
        input,
        before.evicted_by(input),
    );
}

/// The first computation that needs the cache makes it, and no other computation does. A cache
/// that has been made stays.
pub proof fn law_compute_makes_the_cache(
    before: CacheCell,
    after: CacheCell,
    input: Seq<u8>,
    hash: Seq<u8>,
    fresh: bool,
)
    requires
        computed(before, after, input, hash, fresh),
    ensures
        after.cache() is Some <==> before.cache() is Some || cacheable(input),
        before.cache() is None && cacheable(input) ==> after.slots().len() == DEFAULT_COUNT,
{
}

/// The computation with the cache of a thread is transparent.
pub proof fn law_compute_local_is_transparent(
    before: Option<LocalCache>,
    after: Option<LocalCache>,
    input: Seq<u8>,
    hash: Seq<u8>,
    fresh: bool,
)
    requires
        holds_digests(local_slots(before)),
        computed_local(before, after, input, hash, fresh),
        fresh ==> hash == keccak256_digest(input),
    ensures
        hash == keccak256_digest(input),
        holds_digests(local_slots(after)),
{
    if cacheable(input) {
        law_answers_are_digests(
            local_slots(before),
            local_slots(after),
            local_slot(input),
            input,
            hash,
            fresh,
        );
    }
}

/// A computation with the cache of a thread is remembered, and so is its input.
pub proof fn law_compute_local_is_remembered(
    before: Option<LocalCache>,
    between: Option<LocalCache>,
    after: Option<LocalCache>,
    input: Seq<u8>,
    first: Seq<u8>,
    first_fresh: bool,
    second: Seq<u8>,
    second_fresh: bool,
)
    requires
        computed_local(before, between, input, first, first_fresh),
        computed_local(between, after, input, second, second_fresh),
    ensures
        cacheable(input) ==> local_knows(between, input),
        second == first,
        local_slots(after) == local_slots(between),
{
    if cacheable(input) {
        law_request_is_remembered(
            local_slots(before),
            local_slots(between),
            local_slots(after),
            local_slot(input),
            input,
            first,
            first_fresh,
            second,
            second_fresh,
        );
    }
}

/// A computation with the cache of a thread touches no bucket but that of its input.
pub proof fn law_compute_local_keeps_other_buckets(
    before: Option<LocalCache>,
    after: Option<LocalCache>,
    input: Seq<u8>,
    hash: Seq<u8>,
    fresh: bool,
    other: Seq<u8>,
)
    requires
        local_wf(before),
        computed_local(before, after, input, hash, fresh),
        local_slot(other) != local_slot(input),
    ensures
        local_knows(after, other) == local_knows(before, other),
        find(local_slots(after), local_slot(other), other) == find(
            local_slots(before),
            local_slot(other),
            other,
        ),
{
    if cacheable(input) {
        lemma_local_slot_in_range(before, other);
        law_other_slots_kept(
            local_slots(before),
            local_slots(after),
            local_slot(input),
            input,
            hash,
            fresh,
            local_slot(other),
            other,
        );
    }
}

/// Every input has a bucket.
proof fn lemma_local_slot_in_range(cache: Option<LocalCache>, input: Seq<u8>)
    requires
        local_wf(cache),
    ensures
        0 <= local_slot(input) < local_slots(cache).len(),
{
    if let Some(made) = cache {
        law_local_shape(made);
    }
}

/// An input is looked up in a cache exactly when it has at least one byte and at most as many as
/// the limit, however many that is.
pub proof fn law_cacheable_lengths(input: Seq<u8>)
    ensures
        cacheable(input) <==> 1 <= input.len() <= value_of::<MAX_INPUT_LEN>(),
{
}

/// An input without a byte, or with more bytes than the limit, is answered with the hash of all of
/// its bytes, and leaves everything as it was.
pub proof fn law_bypass_hashes_all_bytes(
    before: CacheCell,
    after: CacheCell,
    local_before: Option<LocalCache>,
    local_after: Option<LocalCache>,
    input: Seq<u8>,
    hash: Seq<u8>,
    local_hash: Seq<u8>,
    fresh: bool,
)
    requires
        input.len() == 0 || input.len() > value_of::<MAX_INPUT_LEN>(),
        computed(before, after, input, hash, fresh),
        computed_local(local_before, local_after, input, local_hash, fresh),
    ensures
        input.len() == 0 ==> hash == KECCAK256_EMPTY@ && local_hash == KECCAK256_EMPTY@,
        input.len() > 0 ==> hash == keccak_v256_output(input) && local_hash == keccak_v256_output(
            input,
        ),
        after == before,
        local_after == local_before,
{
}

/// After the computation for any input of 1 byte up to the limit there is a cache, and the bucket
/// of the input holds the input with the value that was returned. Every other bucket holds what it
/// held. If the bucket held the input before, its value was returned; if not, the value is fresh.
pub proof fn law_computed_input_is_held(
    before: CacheCell,
    after: CacheCell,
    input: Seq<u8>,
    hash: Seq<u8>,
    fresh: bool,
    j: int,
)
    requires
        1 <= input.len() <= value_of::<MAX_INPUT_LEN>(),
        computed(before, after, input, hash, fresh),
    ensures
        after.cache() matches Some(cache) && {
            let i = cache_slot(cache, input) as int;
            &&& i < cache_slots(cache).len()
            &&& cache_slots(cache)[i] == Some((input, hash))
            &&& before.cache() is None ==> {
                &&& fresh
                &&& cache_slots(cache).len() == 131_072
                &&& 0 <= j < 131_072 && j != i ==> cache_slots(cache)[j] is None
            }
            &&& before.cache() matches Some(was) ==> {
                &&& cache_slot(was, input) == i
                &&& cache_slots(cache).len() == cache_slots(was).len()
                &&& 0 <= j < cache_slots(was).len() && j != i ==> cache_slots(cache)[j]
                    == cache_slots(was)[j]
                &&& cache_slots(was)[i] is None ==> fresh
                &&& cache_slots(was)[i] matches Some((held, known)) ==> if held == input {
                    hash == known
                } else {
                    fresh
                }
            }
        },
{
}

/// The computation for any input of 1 byte up to the limit is reported, as a hit of the input
/// where its bucket holds it, and as a miss and an insertion of the input where it does not. The
/// insertion evicts what the bucket holds, unless the tag of that is zero. The handlers stay, and
/// so do the buckets and tags of all inputs.
pub proof fn law_computed_input_is_reported(
    before: CacheCell,
    after: CacheCell,
    input: Seq<u8>,
    hash: Seq<u8>,
    fresh: bool,
    other: Seq<u8>,
)
    requires
        1 <= input.len() <= value_of::<MAX_INPUT_LEN>(),
        computed(before, after, input, hash, fresh),
    ensures
        after.handlers() == before.handlers(),
        before.cache() is None ==> (after.cache() matches Some(cache) && cache_reports(cache)
            == seq![Report::Miss(input), Report::Insert(input, None)]),
        before.cache() matches Some(was) ==> (after.cache() matches Some(cache) && {
            &&& cache_slot(cache, other) == cache_slot(was, other)
            &&& cache_tagged(cache, other) == cache_tagged(was, other)
            &&& match cache_slots(was)[cache_slot(was, input) as int] {
                Some((held, _)) => cache_reports(cache) == cache_reports(was) + if held == input {
                    seq![Report::Hit(input)]
                } else if cache_tagged(was, held) {
                    seq![Report::Miss(input), Report::Insert(input, Some(held))]
                } else {
                    seq![Report::Miss(input), Report::Insert(input, None)]
                },
                None => cache_reports(cache) == cache_reports(was)
                    + seq![Report::Miss(input), Report::Insert(input, None)],
            }
        }),
{
    let cache = after.cache()->0;
    if let Some(was) = before.cache() {
        let reports = cache_reports(was);
        assert(reports + seq![Report::Hit(input)] =~= reports.push(Report::Hit(input)));
        assert forall|evicted: Option<Seq<u8>>| #[trigger]
            reports.push(Report::Miss(input)).push(Report::Insert(input, evicted)) == reports
                + seq![Report::Miss(input), Report::Insert(input, evicted)] by {
            assert(reports.push(Report::Miss(input)).push(Report::Insert(input, evicted))
                =~= reports + seq![Report::Miss(input), Report::Insert(input, evicted)]);
        }
    } else {
        assert(cache_reports(cache) =~= seq![Report::Miss(input), Report::Insert(input, None)]);
    }
}

/// After the computation with the cache of a thread, for any input of 1 byte up to the limit,
/// there is a cache, and the bucket of the input holds the input with the value that was returned.
/// Every other bucket holds what it held. If the bucket held the input before, its value was
/// returned; if not, the value is fresh.
pub proof fn law_locally_computed_input_is_held(
    before: Option<LocalCache>,
    after: Option<LocalCache>,
    input: Seq<u8>,
    hash: Seq<u8>,
    fresh: bool,
    j: int,
)
    requires
        1 <= input.len() <= value_of::<MAX_INPUT_LEN>(),
        computed_local(before, after, input, hash, fresh),
    ensures
        after matches Some(cache) && {
            let i = local_slot(input);
            &&& cache.slots()[i] == Some((input, hash))
            &&& before is None ==> {
                &&& fresh
                &&& cache.slots().len() == 131_072
                &&& 0 <= j < 131_072 && j != i ==> cache.slots()[j] is None
            }
            &&& before matches Some(was) ==> {
                &&& cache.slots().len() == was.slots().len()
                &&& 0 <= j < was.slots().len() && j != i ==> cache.slots()[j] == was.slots()[j]
                &&& was.slots()[i] is None ==> fresh
                &&& was.slots()[i] matches Some((held, known)) ==> if held == input {
                    hash == known
                } else {
                    fresh
                }
            }
        },
{
}

/// The cache of a thread finds an input exactly when there is one and the bucket of the input
/// holds it.
pub proof fn law_local_cache_knows_what_it_holds(cache: Option<LocalCache>, input: Seq<u8>)
    ensures
        cache is None ==> !local_knows(cache, input),
        cache matches Some(made) ==> (local_knows(cache, input) <==> (
        made.slots()[local_slot(input)] matches Some((held, _)) && held == input)),
{
}

} // verus!
