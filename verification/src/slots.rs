//! The abstract cache: a row of buckets, each of which holds at most one input and its value.
//!
//! Both caches of the crate are described by it. They differ in how an input is given its bucket.
use vstd::prelude::*;

use crate::hash::{keccak256_digest, keccak_v256_output, KECCAK256_EMPTY};

verus! {

/// What a bucket holds: an input and its value, or nothing.
pub type Slot = Option<(Seq<u8>, Seq<u8>)>;

/// A row of `count` empty buckets.
pub open spec fn empty_slots(count: nat) -> Seq<Slot> {
    Seq::new(count, |i: int| None)
}

/// The value that bucket `i` holds for `input`, if it holds that input.
pub open spec fn find(slots: Seq<Slot>, i: int, input: Seq<u8>) -> Option<Seq<u8>> {
    match slots[i] {
        Some((key, value)) => if key == input {
            Some(value)
        } else {
            None
        },
        None => None,
    }
}

/// The buckets after `input` and `value` have taken the place of what bucket `i` held.
pub open spec fn store(slots: Seq<Slot>, i: int, input: Seq<u8>, value: Seq<u8>) -> Seq<Slot> {
    slots.update(i, Some((input, value)))
}

/// Whether a request for `input`, whose bucket is the existing bucket `i`, is answered with `value`
/// and leads from the buckets `before` to the buckets `after`.
///
/// A value that is there is returned and nothing changes. Otherwise `value` is a fresh one, that
/// is, one that the caller's function gives for the input (`fresh` says whether it is), and it is
/// stored.
pub open spec fn answers(
    before: Seq<Slot>,
    after: Seq<Slot>,
    i: int,
    input: Seq<u8>,
    value: Seq<u8>,
    fresh: bool,
) -> bool {
    &&& 0 <= i < before.len()
    &&& match find(before, i, input) {
        Some(known) => value == known && after == before,
        None => fresh && after == store(before, i, input, value),
    }
}

/// Every stored value is the Keccak-256 hash of its input.
pub open spec fn holds_digests(slots: Seq<Slot>) -> bool {
    forall|i: int|
        0 <= i < slots.len() ==> (#[trigger] slots[i] matches Some((key, value)) ==> value
            == keccak256_digest(key))
}

/// A row of empty buckets holds no wrong value, and answers no input.
pub proof fn law_empty_is_sound(count: nat, i: int, input: Seq<u8>)
    requires
        0 <= i < count,
    ensures
        holds_digests(empty_slots(count)),
        find(empty_slots(count), i, input) is None,
{
}

/// A value that was stored is found again.
pub proof fn law_find_after_store(slots: Seq<Slot>, i: int, input: Seq<u8>, value: Seq<u8>)
    requires
        0 <= i < slots.len(),
    ensures
        find(store(slots, i, input, value), i, input) == Some(value),
{
}

/// Storing an input evicts every other input from its bucket.
pub proof fn law_store_evicts(
    slots: Seq<Slot>,
    i: int,
    input: Seq<u8>,
    value: Seq<u8>,
    other: Seq<u8>,
)
    requires
        0 <= i < slots.len(),
        other != input,
    ensures
        find(store(slots, i, input, value), i, other) is None,
{
}

/// A request leaves what every other bucket holds, and the number of buckets, as they were.
pub proof fn law_other_slots_kept(
    before: Seq<Slot>,
    after: Seq<Slot>,
    i: int,
    input: Seq<u8>,
    value: Seq<u8>,
    fresh: bool,
    j: int,
    other: Seq<u8>,
)
    requires
        0 <= j < before.len(),
        i != j,
        answers(before, after, i, input, value, fresh),
    ensures
        after.len() == before.len(),
        find(after, j, other) == find(before, j, other),
{
}

/// A request is remembered: its input is found, with its value, and the same request that follows
/// gets the same value and changes nothing.
pub proof fn law_request_is_remembered(
    before: Seq<Slot>,
    between: Seq<Slot>,
    after: Seq<Slot>,
    i: int,
    input: Seq<u8>,
    first: Seq<u8>,
    first_fresh: bool,
    second: Seq<u8>,
    second_fresh: bool,
)
    requires
        answers(before, between, i, input, first, first_fresh),
        answers(between, after, i, input, second, second_fresh),
    ensures
        find(between, i, input) == Some(first),
        second == first,
        after == between,
{
}

/// The cache is transparent: where every stored value is the hash of its input, and a fresh value
/// is the hash of the input, the answer is the hash of the input, and every stored value still is
/// the hash of its input.
pub proof fn law_answers_are_digests(
    before: Seq<Slot>,
    after: Seq<Slot>,
    i: int,
    input: Seq<u8>,
    value: Seq<u8>,
    fresh: bool,
)
    requires
        holds_digests(before),
        answers(before, after, i, input, value, fresh),
        fresh ==> value == keccak256_digest(input),
    ensures
        value == keccak256_digest(input),
        holds_digests(after),
{
    match find(before, i, input) {
        Some(known) => {
            assert(before[i] == Some((input, known)));
        },
        None => {
            assert forall|j: int| 0 <= j < after.len() implies (#[trigger] after[j] matches Some(
                (key, stored),
            ) ==> stored == keccak256_digest(key)) by {
                if j != i {
                    assert(after[j] == before[j]);
                }
            }
        },
    }
}

/// Every bucket of a row of empty buckets is there, and empty.
pub proof fn law_empty_slots(count: nat, i: int)
    ensures
        empty_slots(count).len() == count,
        0 <= i < count ==> empty_slots(count)[i] is None,
{
}

/// A value is found exactly where the bucket holds the very input, with that value.
pub proof fn law_find_is_exact(slots: Seq<Slot>, i: int, input: Seq<u8>, value: Seq<u8>)
    ensures
        find(slots, i, input) == Some(value) <==> slots[i] == Some((input, value)),
{
}

/// Storing writes the input and the value into their bucket and nothing else.
pub proof fn law_store_is_exact(slots: Seq<Slot>, i: int, input: Seq<u8>, value: Seq<u8>, j: int)
    requires
        0 <= i < slots.len(),
        0 <= j < slots.len(),
    ensures
        store(slots, i, input, value).len() == slots.len(),
        store(slots, i, input, value)[i] == Some((input, value)),
        j != i ==> store(slots, i, input, value)[j] == slots[j],
{
}

/// After a request its bucket exists and holds the input with the value that was answered, and
/// every other bucket holds what it held. If the bucket held the input, the answer is the value
/// that it held; if not, the answer is fresh.
pub proof fn law_answer_is_held(
    before: Seq<Slot>,
    after: Seq<Slot>,
    i: int,
    input: Seq<u8>,
    value: Seq<u8>,
    fresh: bool,
)
    requires
        answers(before, after, i, input, value, fresh),
    ensures
        0 <= i < before.len(),
        after.len() == before.len(),
        after[i] == Some((input, value)),
        forall|j: int| 0 <= j < before.len() && j != i ==> #[trigger] after[j] == before[j],
        before[i] matches Some((key, known)) ==> key == input ==> value == known,
        before[i] is None ==> fresh,
        before[i] matches Some((key, known)) ==> key != input ==> fresh,
{
    if find(before, i, input) is Some {
        assert(before[i] == Some((input, value)));
    }
}

/// A row of buckets holds hashes only exactly where each value is what Keccak-256 gives for all
/// bytes of its input.
pub proof fn law_digests_are_of_all_bytes(slots: Seq<Slot>)
    ensures
        holds_digests(slots) <==> forall|i: int|
            0 <= i < slots.len() ==> (#[trigger] slots[i] matches Some((key, value)) ==> {
                &&& key.len() > 0 ==> value == keccak_v256_output(key)
                &&& key.len() == 0 ==> value == KECCAK256_EMPTY@
            }),
{
}

} // verus!
