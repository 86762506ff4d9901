//! The cache of a single thread.
use vstd::prelude::*;

use crate::cache::DEFAULT_COUNT;
use crate::hash::{hash_input, B256};
use crate::key::{make_key, same_bytes, Key};

verus! {

use crate::hash::{input_hash, rapid_digest};
use crate::key::max_len;
use crate::slots::{answers, empty_slots, find, Slot};

/// The bits of a hash that pick the bucket.
pub const INDEX_MASK: usize = DEFAULT_COUNT - 1;

/// The bucket that `input` belongs in.
pub open spec fn local_slot(input: Seq<u8>) -> int {
    input_hash(input) as int % DEFAULT_COUNT as int
}

/// The tag of an input with the hash `hash`: the bits that do not pick the bucket. The lowest bit
/// is set, so a tag is never zero.
pub open spec fn tag_of(hash: usize) -> usize {
    (hash & !INDEX_MASK) | 1
}

/// A bucket. A tag of zero marks it as empty.
pub struct LocalBucket {
    tag: usize,
    key: Key,
    output: B256,
}

impl LocalBucket {
    /// The tag of the input that the bucket holds, or zero.
    pub closed spec fn tag(&self) -> usize {
        self.tag
    }

    /// The input and the value that were written last.
    pub closed spec fn entry(&self) -> (Seq<u8>, Seq<u8>) {
        (self.key@, self.output@)
    }

    /// What the bucket holds.
    pub open spec fn slot(&self) -> Slot {
        if self.tag() == 0 {
            None
        } else {
            Some(self.entry())
        }
    }

    /// An empty bucket.
    pub fn new() -> (bucket: LocalBucket)
        ensures
            bucket.slot() is None,
            bucket.tag() == 0,
    {
        LocalBucket { tag: 0, key: make_key(&[]), output: [0; 32] }
    }

    /// The value of `input`, if the bucket has the tag `tag` and holds `input`.
    pub fn get(&self, input: &[u8], tag: usize) -> (output: Option<B256>)
        ensures
            output is Some <==> self.tag() == tag && self.entry().0 == input@,
            output matches Some(value) ==> value@ == self.entry().1,
    {
        if self.tag != tag {
            return None;
        }
        if same_bytes(self.key.get(), input) {
            Some(self.output)
        } else {
            None
        }
    }

    /// Puts `input` and its value into the bucket, in the place of what it held.
    pub fn insert(&mut self, input: &[u8], output: B256, tag: usize)
        requires
            input@.len() <= max_len(),
        ensures
            final(self).tag() == tag,
            final(self).entry() == (input@, output@),
    {
        self.key = make_key(input);
        self.output = output;
        self.tag = tag;
    }
}

/// A cache that belongs to one thread.
pub struct LocalCache {
    buckets: Vec<LocalBucket>,
}

impl LocalCache {
    /// What the buckets hold.
    pub closed spec fn slots(&self) -> Seq<Slot> {
        Seq::new(self.buckets@.len(), |i: int| self.buckets@[i].slot())
    }

    /// There are [`DEFAULT_COUNT`] buckets, and a bucket holds only inputs that belong in it,
    /// under their own tag.
    pub closed spec fn wf(&self) -> bool {
        &&& self.buckets@.len() == DEFAULT_COUNT
        &&& forall|i: int| #![trigger self.buckets@[i]]
            0 <= i < self.buckets@.len() && self.buckets@[i].tag() != 0 ==> {
                let input = self.buckets@[i].entry().0;
                &&& local_slot(input) == i
                &&& self.buckets@[i].tag() == tag_of(input_hash(input))
            }
    }

    /// A cache that holds nothing.
    pub fn new() -> (cache: LocalCache)
        ensures
            cache.wf(),
            cache.slots() == empty_slots(DEFAULT_COUNT as nat),
            cache.slots().len() == 131_072,
            forall|i: int| 0 <= i < 131_072 ==> #[trigger] cache.slots()[i] is None,
    {
        let mut buckets: Vec<LocalBucket> = Vec::with_capacity(DEFAULT_COUNT);
        while buckets.len() < DEFAULT_COUNT
            invariant
                buckets@.len() <= DEFAULT_COUNT,
                forall|i: int| 0 <= i < buckets@.len() ==> (#[trigger] buckets@[i]).slot() is None,
            decreases DEFAULT_COUNT - buckets@.len(),
        {
            buckets.push(LocalBucket::new());
        }
        let cache = LocalCache { buckets };
        assert(cache.slots() =~= empty_slots(DEFAULT_COUNT as nat));
        cache
    }

    /// The value of `input`: the one that the cache holds, or else the one that `compute` gives,
    /// which is stored. Calls `compute` only in the latter case.
    pub fn get_or_insert(&mut self, input: &[u8], compute: impl FnOnce(&[u8]) -> B256) -> (output:
        B256)
        requires
            old(self).wf(),
            input@.len() <= max_len(),
            find(old(self).slots(), local_slot(input@), input@) is None ==> call_requires(
                compute,
                (input,),
            ),
        ensures
            final(self).wf(),
            answers(
                old(self).slots(),
                final(self).slots(),
                local_slot(input@),
                input@,
                output@,
                call_ensures(compute, (input,), output),
            ),
            final(self).slots().len() == 131_072,
            final(self).slots()[local_slot(input@)] == Some((input@, output@)),
            forall|i: int|
                0 <= i < 131_072 && i != local_slot(input@) ==> #[trigger] final(self).slots()[i]
                    == old(self).slots()[i],
            old(self).slots()[local_slot(input@)] matches Some((held, value)) ==> held == input@
                ==> output@ == value,
            old(self).slots()[local_slot(input@)] is None ==> call_ensures(
                compute,
                (input,),
                output,
            ),
            old(self).slots()[local_slot(input@)] matches Some((held, value)) ==> held != input@
                ==> call_ensures(compute, (input,), output),
    {
        let hash = hash_input(input);
        let index = hash & INDEX_MASK;
        let tag = (hash & !INDEX_MASK) | 1;
        proof {
            lemma_index_and_tag(hash);
        }
        if let Some(output) = self.buckets[index].get(input, tag) {
            return output;
        }
        let output = compute(input);
        self.buckets[index].insert(input, output, tag);
        assert(self.slots() =~= old(self).slots().update(
            index as int,
            Some((input@, output@)),
        ));
        output
    }
}

/// A well-formed cache has [`DEFAULT_COUNT`] buckets, and an input is nowhere but in the bucket
/// that it belongs in.
pub proof fn law_local_shape(cache: LocalCache)
    requires
        cache.wf(),
    ensures
        cache.slots().len() == DEFAULT_COUNT,
        cache.slots().len() == 131_072,
        forall|i: int|
            0 <= i < DEFAULT_COUNT ==> (#[trigger] cache.slots()[i] matches Some((input, value))
                ==> local_slot(input) == i),
{
}

/// The masked hash is its remainder, and a tag is not zero.
proof fn lemma_index_and_tag(hash: usize)
    ensures
        (hash & INDEX_MASK) as int == hash as int % DEFAULT_COUNT as int,
        (hash & INDEX_MASK) < DEFAULT_COUNT,
        tag_of(hash) != 0,
{
    assert(hash & 131_071 == hash % 131_072) by (bit_vector);
    assert((hash & !131_071) | 1 != 0) by (bit_vector);
}

/// The bucket of an input is one of the 131072 buckets, and all of the bits of the hash of all of
/// its bytes that pick a bucket pick it: on a 64-bit machine it is the remainder of the hash.
pub proof fn law_bucket_is_the_remainder_of_the_hash(input: Seq<u8>)
    ensures
        0 <= local_slot(input) < 131_072,
        usize::BITS == 64 ==> local_slot(input) == rapid_digest(0, input) as int % 131_072,
        usize::BITS == 32 ==> local_slot(input) == (((rapid_digest(0, input) >> 32) as usize) ^ (
        rapid_digest(0, input) as usize)) as int % 131_072,
{
}

/// A tag is not zero, and two hashes have the same tag exactly when they differ in nothing but the
/// bits that pick the bucket.
pub proof fn law_tag_is_the_rest_of_the_hash(a: usize, b: usize)
    ensures
        tag_of(a) != 0,
        tag_of(a) == tag_of(b) <==> a / 131_072 == b / 131_072,
{
    assert((a & !131_071) | 1 != 0) by (bit_vector);
    assert((a & !131_071) | 1 == (b & !131_071) | 1 <==> a / 131_072 == b / 131_072)
        by (bit_vector);
}

/// A bucket with the tag zero holds nothing, and any other holds what was written last.
pub proof fn law_bucket_holds_its_entry(bucket: LocalBucket)
    ensures
        bucket.tag() == 0 ==> bucket.slot() is None,
        bucket.tag() != 0 ==> bucket.slot() == Some(bucket.entry()),
{
}

} // verus!
