//! Diagnostic counters, kept per thread and added to the totals in batches.
use vstd::prelude::*;

verus! {

/// The number of classes that the lengths of cacheable inputs fall into.
pub const INPUT_SIZE_BUCKETS: usize = 4;

/// The number of events after which the counts of a thread are added to the totals.
pub const FLUSH_INTERVAL: u16 = 1_024;

/// What a set of counters reads.
#[verifier::ext_equal]
pub struct Counts {
    pub hits: Seq<u64>,
    pub misses: Seq<u64>,
    pub empty: u64,
    pub oversized: u64,
}

/// An event that is counted. A hit and a miss carry the class of the length of the input.
#[derive(Clone, Copy)]
pub enum Event {
    Hit(usize),
    Miss(usize),
    EmptyBypass,
    OversizedBypass,
}

/// The sum of two counters, which wraps around after the largest number.
pub open spec fn wrapped_sum(a: u64, b: u64) -> u64 {
    if a + b > u64::MAX {
        (a + b - u64::MAX - 1) as u64
    } else {
        (a + b) as u64
    }
}

/// The sums of two rows of counters.
pub open spec fn wrapped_sums(a: Seq<u64>, b: Seq<u64>) -> Seq<u64> {
    Seq::new(a.len(), |i: int| wrapped_sum(a[i], b[i]))
}

/// A row of counters of which the one at `i` has counted one more event.
pub open spec fn counted(counts: Seq<u64>, i: int) -> Seq<u64> {
    counts.update(i, wrapped_sum(counts[i], 1))
}

impl Event {
    /// The class that the event carries is one of the classes.
    pub open spec fn valid(self) -> bool {
        match self {
            Event::Hit(bucket) => bucket < INPUT_SIZE_BUCKETS,
            Event::Miss(bucket) => bucket < INPUT_SIZE_BUCKETS,
            _ => true,
        }
    }
}

impl Counts {
    /// There is a counter for each class.
    pub open spec fn wf(self) -> bool {
        &&& self.hits.len() == INPUT_SIZE_BUCKETS
        &&& self.misses.len() == INPUT_SIZE_BUCKETS
    }

    /// All counters at zero.
    pub open spec fn zero() -> Counts {
        Counts {
            hits: Seq::new(INPUT_SIZE_BUCKETS as nat, |i: int| 0),
            misses: Seq::new(INPUT_SIZE_BUCKETS as nat, |i: int| 0),
            empty: 0,
            oversized: 0,
        }
    }

    /// The sums of the counters.
    pub open spec fn plus(self, other: Counts) -> Counts {
        Counts {
            hits: wrapped_sums(self.hits, other.hits),
            misses: wrapped_sums(self.misses, other.misses),
            empty: wrapped_sum(self.empty, other.empty),
            oversized: wrapped_sum(self.oversized, other.oversized),
        }
    }

    /// The counters after one more event.
    pub open spec fn after(self, event: Event) -> Counts {
        match event {
            Event::Hit(bucket) => Counts { hits: counted(self.hits, bucket as int), ..self },
            Event::Miss(bucket) => Counts { misses: counted(self.misses, bucket as int), ..self },
            Event::EmptyBypass => Counts { empty: wrapped_sum(self.empty, 1), ..self },
            Event::OversizedBypass => Counts { oversized: wrapped_sum(self.oversized, 1), ..self },
        }
    }

    /// The number of events that were counted, where no counter has wrapped around.
    pub open spec fn total(self) -> int {
        self.hits[0] + self.hits[1] + self.hits[2] + self.hits[3] + self.misses[0] + self.misses[1]
            + self.misses[2] + self.misses[3] + self.empty + self.oversized
    }
}

/// Cumulative Keccak cache diagnostic counters.
///
/// Cacheable inputs are split into `1..=16`, `17..=32`, `33..=64`, and
/// `65..=MAX_INPUT_LEN` byte buckets. Empty and oversized inputs bypass the cache and have
/// separate counters.
#[derive(Clone, Copy, Debug, Default, PartialEq, Eq)]
pub struct KeccakCacheMetricsSnapshot {
    /// Cache hits by cacheable input-size bucket.
    pub hits_by_input_size: [u64; INPUT_SIZE_BUCKETS],
    /// Cache misses by cacheable input-size bucket.
    pub misses_by_input_size: [u64; INPUT_SIZE_BUCKETS],
    /// Empty inputs that returned the constant empty hash without consulting the cache.
    pub empty_bypasses: u64,
    /// Inputs larger than the maximum cacheable length that were hashed without the cache.
    pub oversized_bypasses: u64,
}

impl View for KeccakCacheMetricsSnapshot {
    type V = Counts;

    open spec fn view(&self) -> Counts {
        Counts {
            hits: self.hits_by_input_size@,
            misses: self.misses_by_input_size@,
            empty: self.empty_bypasses,
            oversized: self.oversized_bypasses,
        }
    }
}

/// The counts of all threads.
pub struct GlobalMetrics {
    hits_by_input_size: [u64; INPUT_SIZE_BUCKETS],
    misses_by_input_size: [u64; INPUT_SIZE_BUCKETS],
    empty_bypasses: u64,
    oversized_bypasses: u64,
}

impl View for GlobalMetrics {
    type V = Counts;

    closed spec fn view(&self) -> Counts {
        Counts {
            hits: self.hits_by_input_size@,
            misses: self.misses_by_input_size@,
            empty: self.empty_bypasses,
            oversized: self.oversized_bypasses,
        }
    }
}

impl GlobalMetrics {
    /// Totals that have counted nothing.
    pub fn new() -> (totals: GlobalMetrics)
        ensures
            totals@ == Counts::zero(),
            totals@.hits.len() == 4 && totals@.misses.len() == 4,
            forall|i: int| 0 <= i < 4 ==> #[trigger] totals@.hits[i] == 0,
            forall|i: int| 0 <= i < 4 ==> #[trigger] totals@.misses[i] == 0,
            totals@.empty == 0 && totals@.oversized == 0,
    {
        let totals = GlobalMetrics {
            hits_by_input_size: [0; INPUT_SIZE_BUCKETS],
            misses_by_input_size: [0; INPUT_SIZE_BUCKETS],
            empty_bypasses: 0,
            oversized_bypasses: 0,
        };
        assert(totals@ =~= Counts::zero());
        totals
    }
}

/// The counts of a thread that have not been added to the totals.
#[derive(Clone, Copy)]
pub struct LocalMetrics {
    hits_by_input_size: [u64; INPUT_SIZE_BUCKETS],
    misses_by_input_size: [u64; INPUT_SIZE_BUCKETS],
    empty_bypasses: u64,
    oversized_bypasses: u64,
    pending: u16,
}

impl View for LocalMetrics {
    type V = Counts;

    closed spec fn view(&self) -> Counts {
        Counts {
            hits: self.hits_by_input_size@,
            misses: self.misses_by_input_size@,
            empty: self.empty_bypasses,
            oversized: self.oversized_bypasses,
        }
    }
}

impl LocalMetrics {
    /// The number of events since the counts were last added to the totals.
    pub closed spec fn pending(&self) -> u16 {
        self.pending
    }

    /// The counters have counted the pending events, which are fewer than [`FLUSH_INTERVAL`].
    pub open spec fn wf(&self) -> bool {
        &&& self@.wf()
        &&& self.pending() < FLUSH_INTERVAL
        &&& self@.total() == self.pending()
    }

    /// Counters that have counted nothing.
    pub fn new() -> (metrics: LocalMetrics)
        ensures
            metrics.wf(),
            metrics@ == Counts::zero(),
            metrics.pending() == 0,
            metrics@.hits.len() == 4 && metrics@.misses.len() == 4,
            forall|i: int| 0 <= i < 4 ==> #[trigger] metrics@.hits[i] == 0,
            forall|i: int| 0 <= i < 4 ==> #[trigger] metrics@.misses[i] == 0,
            metrics@.empty == 0 && metrics@.oversized == 0,
    {
        let metrics = LocalMetrics {
            hits_by_input_size: [0; INPUT_SIZE_BUCKETS],
            misses_by_input_size: [0; INPUT_SIZE_BUCKETS],
            empty_bypasses: 0,
            oversized_bypasses: 0,
            pending: 0,
        };
        assert(metrics@ =~= Counts::zero());
        metrics
    }

    /// Counts an event.
    fn count(&mut self, event: Event)
        requires
            old(self).wf(),
            event.valid(),
        ensures
            final(self)@ == old(self)@.after(event),
            final(self)@.wf(),
            final(self)@.total() == old(self)@.total() + 1,
            final(self).pending() == old(self).pending(),
    {
        match event {
            Event::Hit(bucket) => {
                self.hits_by_input_size[bucket] = self.hits_by_input_size[bucket] + 1;
            },
            Event::Miss(bucket) => {
                self.misses_by_input_size[bucket] = self.misses_by_input_size[bucket] + 1;
            },
            Event::EmptyBypass => {
                self.empty_bypasses = self.empty_bypasses + 1;
            },
            Event::OversizedBypass => {
                self.oversized_bypasses = self.oversized_bypasses + 1;
            },
        }
        assert(self@ =~= old(self)@.after(event));
    }
}

impl Default for LocalMetrics {
    fn default() -> (metrics: LocalMetrics)
        ensures
            metrics.wf(),
            metrics@ == Counts::zero(),
            metrics.pending() == 0,
            metrics@.hits.len() == 4 && metrics@.misses.len() == 4,
            forall|i: int| 0 <= i < 4 ==> #[trigger] metrics@.hits[i] == 0,
            forall|i: int| 0 <= i < 4 ==> #[trigger] metrics@.misses[i] == 0,
            metrics@.empty == 0 && metrics@.oversized == 0,
    {
        LocalMetrics::new()
    }
}

/// The class of the length of an input.
pub open spec fn size_class(input_len: int) -> usize {
    if input_len <= 16 {
        0
    } else if input_len <= 32 {
        1
    } else if input_len <= 64 {
        2
    } else {
        3
    }
}

/// The class of the length of an input.
pub fn input_size_bucket(input_len: usize) -> (bucket: usize)
    ensures
        bucket == size_class(input_len as int),
        bucket < INPUT_SIZE_BUCKETS,
        input_len <= 16 ==> bucket == 0,
        17 <= input_len <= 32 ==> bucket == 1,
        33 <= input_len <= 64 ==> bucket == 2,
        65 <= input_len ==> bucket == 3,
{
    match input_len {
        0..=16 => 0,
        17..=32 => 1,
        33..=64 => 2,
        _ => 3,
    }
}

/// Adds each counter of `counts` to its counterpart in `totals`.
fn add_counts(totals: &mut [u64; INPUT_SIZE_BUCKETS], counts: &[u64; INPUT_SIZE_BUCKETS])
    ensures
        final(totals)@ == wrapped_sums(old(totals)@, counts@),
        forall|i: int|
            0 <= i < 4 ==> #[trigger] final(totals)@[i] == (old(totals)@[i] + counts@[i])
                % 0x1_0000_0000_0000_0000,
{
    let mut i: usize = 0;
    while i < INPUT_SIZE_BUCKETS
        invariant
            i <= INPUT_SIZE_BUCKETS,
            forall|j: int| 0 <= j < i ==> totals@[j] == wrapped_sum(old(totals)@[j], counts@[j]),
            forall|j: int| i <= j < INPUT_SIZE_BUCKETS ==> totals@[j] == old(totals)@[j],
        decreases INPUT_SIZE_BUCKETS - i,
    {
        totals[i] = totals[i].wrapping_add(counts[i]);
        i += 1;
    }
    assert(totals@ =~= wrapped_sums(old(totals)@, counts@));
}

/// Adds the counts of a thread to the totals, and starts to count from zero.
pub fn flush(metrics: &mut LocalMetrics, totals: &mut GlobalMetrics)
    ensures
        final(totals)@ == old(totals)@.plus(old(metrics)@),
        final(metrics).wf(),
        final(metrics)@ == Counts::zero(),
        final(metrics).pending() == 0,
        forall|i: int|
            0 <= i < 4 ==> #[trigger] final(totals)@.hits[i] == (old(totals)@.hits[i]
                + old(metrics)@.hits[i]) % 0x1_0000_0000_0000_0000,
        forall|i: int|
            0 <= i < 4 ==> #[trigger] final(totals)@.misses[i] == (old(totals)@.misses[i]
                + old(metrics)@.misses[i]) % 0x1_0000_0000_0000_0000,
        final(totals)@.empty == (old(totals)@.empty + old(metrics)@.empty)
            % 0x1_0000_0000_0000_0000,
        final(totals)@.oversized == (old(totals)@.oversized + old(metrics)@.oversized)
            % 0x1_0000_0000_0000_0000,
{
    add_counts(&mut totals.hits_by_input_size, &metrics.hits_by_input_size);
    add_counts(&mut totals.misses_by_input_size, &metrics.misses_by_input_size);
    totals.empty_bypasses = totals.empty_bypasses.wrapping_add(metrics.empty_bypasses);
    totals.oversized_bypasses = totals.oversized_bypasses.wrapping_add(metrics.oversized_bypasses);
    *metrics = LocalMetrics::new();
}

/// Whether recording `event` leads from the counts `local_before` of a thread, of which `pending`
/// are pending, and the totals `totals_before` to the counts `local_after` and the totals
/// `totals_after`.
///
/// The event is counted, and when that makes [`FLUSH_INTERVAL`] events, the counts are moved to
/// the totals.
pub open spec fn recorded(
    local_before: Counts,
    pending: u16,
    totals_before: Counts,
    local_after: Counts,
    totals_after: Counts,
    event: Event,
) -> bool {
    if pending + 1 == FLUSH_INTERVAL {
        &&& local_after == Counts::zero()
        &&& totals_after == totals_before.plus(local_before.after(event))
    } else {
        &&& local_after == local_before.after(event)
        &&& totals_after == totals_before
    }
}

/// Counts an event, and adds the counts to the totals when [`FLUSH_INTERVAL`] events are pending.
fn record(metrics: &mut LocalMetrics, totals: &mut GlobalMetrics, event: Event)
    requires
        old(metrics).wf(),
        event.valid(),
    ensures
        final(metrics).wf(),
        recorded(
            old(metrics)@,
            old(metrics).pending(),
            old(totals)@,
            final(metrics)@,
            final(totals)@,
            event,
        ),
        final(metrics).pending() == (old(metrics).pending() + 1) % (FLUSH_INTERVAL as int),
{
    metrics.count(event);
    metrics.pending = metrics.pending + 1;
    if metrics.pending == FLUSH_INTERVAL {
        flush(metrics, totals);
    }
}

/// The event of an input of `input_len` bytes that was looked up in the cache.
pub open spec fn cacheable_event(input_len: int, missed: bool) -> Event {
    if missed {
        Event::Miss(size_class(input_len))
    } else {
        Event::Hit(size_class(input_len))
    }
}

/// The event of an input of `input_len` bytes that bypassed the cache.
pub open spec fn bypass_event(input_len: int) -> Event {
    if input_len == 0 {
        Event::EmptyBypass
    } else {
        Event::OversizedBypass
    }
}

/// Records that an input of `input_len` bytes was looked up in the cache.
pub fn record_cacheable(
    metrics: &mut LocalMetrics,
    totals: &mut GlobalMetrics,
    input_len: usize,
    missed: bool,
)
    requires
        old(metrics).wf(),
    ensures
        final(metrics).wf(),
        recorded(
            old(metrics)@,
            old(metrics).pending(),
            old(totals)@,
            final(metrics)@,
            final(totals)@,
            cacheable_event(input_len as int, missed),
        ),
        final(metrics).pending() == (old(metrics).pending() + 1) % (FLUSH_INTERVAL as int),
        old(metrics).pending() + 1 < 1024 ==> final(metrics).pending() == old(metrics).pending() + 1
            && final(totals)@ == old(totals)@,
        old(metrics).pending() + 1 == 1024 ==> final(metrics).pending() == 0,
        forall|i: int|
            0 <= i < 4 && old(totals)@.hits[i] + old(metrics)@.hits[i] < u64::MAX
                ==> #[trigger] final(totals)@.hits[i] + final(metrics)@.hits[i]
                == old(totals)@.hits[i] + old(metrics)@.hits[i] + (if !missed && ((i == 0
                && input_len <= 16) || (i == 1 && 17 <= input_len <= 32) || (i == 2 && 33
                <= input_len <= 64) || (i == 3 && 65 <= input_len)) {
                1int
            } else {
                0int
            }),
        forall|i: int|
            0 <= i < 4 && old(totals)@.misses[i] + old(metrics)@.misses[i] < u64::MAX
                ==> #[trigger] final(totals)@.misses[i] + final(metrics)@.misses[i]
                == old(totals)@.misses[i] + old(metrics)@.misses[i] + (if missed && ((i == 0
                && input_len <= 16) || (i == 1 && 17 <= input_len <= 32) || (i == 2 && 33
                <= input_len <= 64) || (i == 3 && 65 <= input_len)) {
                1int
            } else {
                0int
            }),
        old(totals)@.empty + old(metrics)@.empty < u64::MAX ==> final(totals)@.empty
            + final(metrics)@.empty == old(totals)@.empty + old(metrics)@.empty,
        old(totals)@.oversized + old(metrics)@.oversized < u64::MAX ==> final(totals)@.oversized
            + final(metrics)@.oversized == old(totals)@.oversized + old(metrics)@.oversized,
{
    let bucket = input_size_bucket(input_len);
    let event = if missed {
        Event::Miss(bucket)
    } else {
        Event::Hit(bucket)
    };
    record(metrics, totals, event);
}

/// Records that an input of `input_len` bytes bypassed the cache.
pub fn record_bypass(metrics: &mut LocalMetrics, totals: &mut GlobalMetrics, input_len: usize)
    requires
        old(metrics).wf(),
    ensures
        final(metrics).wf(),
        recorded(
            old(metrics)@,
            old(metrics).pending(),
            old(totals)@,
            final(metrics)@,
            final(totals)@,
            bypass_event(input_len as int),
        ),
        final(metrics).pending() == (old(metrics).pending() + 1) % (FLUSH_INTERVAL as int),
        old(metrics).pending() + 1 < 1024 ==> final(metrics).pending() == old(metrics).pending() + 1
            && final(totals)@ == old(totals)@,
        old(metrics).pending() + 1 == 1024 ==> final(metrics).pending() == 0,
        forall|i: int|
            0 <= i < 4 && old(totals)@.hits[i] + old(metrics)@.hits[i] < u64::MAX
                ==> #[trigger] final(totals)@.hits[i] + final(metrics)@.hits[i]
                == old(totals)@.hits[i] + old(metrics)@.hits[i],
        forall|i: int|
            0 <= i < 4 && old(totals)@.misses[i] + old(metrics)@.misses[i] < u64::MAX
                ==> #[trigger] final(totals)@.misses[i] + final(metrics)@.misses[i]
                == old(totals)@.misses[i] + old(metrics)@.misses[i],
        old(totals)@.empty + old(metrics)@.empty < u64::MAX ==> final(totals)@.empty
            + final(metrics)@.empty == old(totals)@.empty + old(metrics)@.empty + (if input_len
            == 0 {
            1int
        } else {
            0int
        }),
        old(totals)@.oversized + old(metrics)@.oversized < u64::MAX ==> final(totals)@.oversized
            + final(metrics)@.oversized == old(totals)@.oversized + old(metrics)@.oversized + (
        if input_len > 0 {
            1int
        } else {
            0int
        }),
{
    let event = if input_len == 0 {
        Event::EmptyBypass
    } else {
        Event::OversizedBypass
    };
    record(metrics, totals, event);
}

/// What the totals read.
pub fn snapshot(totals: &GlobalMetrics) -> (snapshot: KeccakCacheMetricsSnapshot)
    ensures
        snapshot@ == totals@,
        snapshot.hits_by_input_size@ == totals@.hits,
        snapshot.misses_by_input_size@ == totals@.misses,
        snapshot.empty_bypasses == totals@.empty,
        snapshot.oversized_bypasses == totals@.oversized,
{
    KeccakCacheMetricsSnapshot {
        hits_by_input_size: totals.hits_by_input_size,
        misses_by_input_size: totals.misses_by_input_size,
        empty_bypasses: totals.empty_bypasses,
        oversized_bypasses: totals.oversized_bypasses,
    }
}

/// Totals have a counter for each class.
pub proof fn law_totals_shape(totals: GlobalMetrics)
    ensures
        totals@.wf(),
        totals@.hits.len() == 4,
        totals@.misses.len() == 4,
{
}

/// The lengths of the inputs of a class: 0 to 16, 17 to 32, 33 to 64, and from 65 on. No length
/// falls into another class, or into two.
pub proof fn law_size_classes(input_len: int)
    requires
        0 <= input_len,
    ensures
        size_class(input_len) == 0 <==> input_len <= 16,
        size_class(input_len) == 1 <==> 17 <= input_len <= 32,
        size_class(input_len) == 2 <==> 33 <= input_len <= 64,
        size_class(input_len) == 3 <==> 65 <= input_len,
{
}

/// A flush adds in the integers: each total becomes the sum of what it was and the count of the
/// thread, as long as a counter can hold that, and its remainder by two to the 64th if not.
pub proof fn law_flush_adds_in_the_integers(local: Counts, totals: Counts, i: int)
    requires
        local.hits.len() == 4,
        local.misses.len() == 4,
        totals.hits.len() == 4,
        totals.misses.len() == 4,
        0 <= i < 4,
    ensures
        totals.plus(local).hits.len() == 4,
        totals.plus(local).misses.len() == 4,
        totals.hits[i] + local.hits[i] <= u64::MAX ==> totals.plus(local).hits[i] == totals.hits[i]
            + local.hits[i],
        totals.misses[i] + local.misses[i] <= u64::MAX ==> totals.plus(local).misses[i]
            == totals.misses[i] + local.misses[i],
        totals.empty + local.empty <= u64::MAX ==> totals.plus(local).empty == totals.empty
            + local.empty,
        totals.oversized + local.oversized <= u64::MAX ==> totals.plus(local).oversized
            == totals.oversized + local.oversized,
        totals.plus(local).hits[i] == (totals.hits[i] + local.hits[i]) % 0x1_0000_0000_0000_0000,
        totals.plus(local).misses[i] == (totals.misses[i] + local.misses[i])
            % 0x1_0000_0000_0000_0000,
        totals.plus(local).empty == (totals.empty + local.empty) % 0x1_0000_0000_0000_0000,
        totals.plus(local).oversized == (totals.oversized + local.oversized)
            % 0x1_0000_0000_0000_0000,
{
}

/// A recorded event is one more in the one counter that it belongs to, where the count of the
/// thread and the total of a counter are taken together, and no other counter changes. Counters
/// that are full are left out.
pub proof fn law_event_raises_one_counter(
    local_before: Counts,
    pending: u16,
    totals_before: Counts,
    local_after: Counts,
    totals_after: Counts,
    event: Event,
    i: int,
)
    requires
        local_before.hits.len() == 4,
        local_before.misses.len() == 4,
        totals_before.hits.len() == 4,
        totals_before.misses.len() == 4,
        event matches Event::Hit(class) ==> class < 4,
        event matches Event::Miss(class) ==> class < 4,
        0 <= i < 4,
        recorded(local_before, pending, totals_before, local_after, totals_after, event),
    ensures
        local_after.hits.len() == 4,
        local_after.misses.len() == 4,
        totals_after.hits.len() == 4,
        totals_after.misses.len() == 4,
        totals_before.hits[i] + local_before.hits[i] < u64::MAX ==> totals_after.hits[i]
            + local_after.hits[i] == totals_before.hits[i] + local_before.hits[i] + (if event
            == Event::Hit(i as usize) {
            1int
        } else {
            0int
        }),
        totals_before.misses[i] + local_before.misses[i] < u64::MAX ==> totals_after.misses[i]
            + local_after.misses[i] == totals_before.misses[i] + local_before.misses[i] + (if event
            == Event::Miss(i as usize) {
            1int
        } else {
            0int
        }),
        totals_before.empty + local_before.empty < u64::MAX ==> totals_after.empty
            + local_after.empty == totals_before.empty + local_before.empty + (if event
            == Event::EmptyBypass {
            1int
        } else {
            0int
        }),
        totals_before.oversized + local_before.oversized < u64::MAX ==> totals_after.oversized
            + local_after.oversized == totals_before.oversized + local_before.oversized + (if event
            == Event::OversizedBypass {
            1int
        } else {
            0int
        }),
{
}

/// The totals change only with the event that makes 1024 of them, and then nothing of the thread
/// is left out of them.
pub proof fn law_totals_move_every_1024_events(
    local_before: Counts,
    pending: u16,
    totals_before: Counts,
    local_after: Counts,
    totals_after: Counts,
    event: Event,
    i: int,
)
    requires
        recorded(local_before, pending, totals_before, local_after, totals_after, event),
        0 <= i < 4,
    ensures
        pending + 1 < 1024 ==> totals_after == totals_before,
        pending + 1 == 1024 ==> local_after.hits[i] == 0 && local_after.misses[i] == 0
            && local_after.empty == 0 && local_after.oversized == 0,
{
}

/// A lookup of an input of any length that is found raises the hits of the class of its length by
/// one, and one that is not found the misses. All other counters stay as they were.
pub proof fn law_lookup_is_a_hit_or_a_miss(
    local_before: Counts,
    pending: u16,
    totals_before: Counts,
    local_after: Counts,
    totals_after: Counts,
    input_len: int,
    missed: bool,
    i: int,
)
    requires
        local_before.hits.len() == 4,
        local_before.misses.len() == 4,
        totals_before.hits.len() == 4,
        totals_before.misses.len() == 4,
        0 <= input_len,
        0 <= i < 4,
        recorded(
            local_before,
            pending,
            totals_before,
            local_after,
            totals_after,
            cacheable_event(input_len, missed),
        ),
    ensures
        totals_before.hits[i] + local_before.hits[i] < u64::MAX ==> totals_after.hits[i]
            + local_after.hits[i] == totals_before.hits[i] + local_before.hits[i] + (if !missed && (
        (i == 0 && input_len <= 16) || (i == 1 && 17 <= input_len <= 32) || (i == 2 && 33
            <= input_len <= 64) || (i == 3 && 65 <= input_len)) {
            1int
        } else {
            0int
        }),
        totals_before.misses[i] + local_before.misses[i] < u64::MAX ==> totals_after.misses[i]
            + local_after.misses[i] == totals_before.misses[i] + local_before.misses[i] + (if missed
            && ((i == 0 && input_len <= 16) || (i == 1 && 17 <= input_len <= 32) || (i == 2 && 33
            <= input_len <= 64) || (i == 3 && 65 <= input_len)) {
            1int
        } else {
            0int
        }),
        totals_before.empty + local_before.empty < u64::MAX ==> totals_after.empty
            + local_after.empty == totals_before.empty + local_before.empty,
        totals_before.oversized + local_before.oversized < u64::MAX ==> totals_after.oversized
            + local_after.oversized == totals_before.oversized + local_before.oversized,
{
    law_event_raises_one_counter(
        local_before,
        pending,
        totals_before,
        local_after,
        totals_after,
        cacheable_event(input_len, missed),
        i,
    );
}

/// The hits of all classes together rise by one with a lookup that is found, and stay as they were
/// with any other, and likewise the misses, however long the input is.
pub proof fn law_lookup_raises_one_sum(
    local_before: Counts,
    pending: u16,
    totals_before: Counts,
    local_after: Counts,
    totals_after: Counts,
    input_len: int,
    missed: bool,
)
    requires
        local_before.hits.len() == 4,
        local_before.misses.len() == 4,
        totals_before.hits.len() == 4,
        totals_before.misses.len() == 4,
        0 <= input_len,
        forall|i: int|
            0 <= i < 4 ==> #[trigger] totals_before.hits[i] + local_before.hits[i] < u64::MAX,
        forall|i: int|
            0 <= i < 4 ==> #[trigger] totals_before.misses[i] + local_before.misses[i] < u64::MAX,
        recorded(
            local_before,
            pending,
            totals_before,
            local_after,
            totals_after,
            cacheable_event(input_len, missed),
        ),
    ensures
        totals_after.hits[0] + totals_after.hits[1] + totals_after.hits[2] + totals_after.hits[3]
            + local_after.hits[0] + local_after.hits[1] + local_after.hits[2] + local_after.hits[3]
            == totals_before.hits[0] + totals_before.hits[1] + totals_before.hits[2]
            + totals_before.hits[3] + local_before.hits[0] + local_before.hits[1]
            + local_before.hits[2] + local_before.hits[3] + (if missed {
            0int
        } else {
            1int
        }),
        totals_after.misses[0] + totals_after.misses[1] + totals_after.misses[2]
            + totals_after.misses[3] + local_after.misses[0] + local_after.misses[1]
            + local_after.misses[2] + local_after.misses[3] == totals_before.misses[0]
            + totals_before.misses[1] + totals_before.misses[2] + totals_before.misses[3]
            + local_before.misses[0] + local_before.misses[1] + local_before.misses[2]
            + local_before.misses[3] + (if missed {
            1int
        } else {
            0int
        }),
{
    assert forall|i: int| 0 <= i < 4 implies #[trigger] totals_after.hits[i] + local_after.hits[i]
        == totals_before.hits[i] + local_before.hits[i] + (if !missed && i == size_class(
        input_len,
    ) {
        1int
    } else {
        0int
    }) && totals_after.misses[i] + local_after.misses[i] == totals_before.misses[i]
        + local_before.misses[i] + (if missed && i == size_class(input_len) {
        1int
    } else {
        0int
    }) by {
        law_event_raises_one_counter(
            local_before,
            pending,
            totals_before,
            local_after,
            totals_after,
            cacheable_event(input_len, missed),
            i,
        );
    }
}

/// An input that bypasses the cache is counted as empty exactly when it has no bytes, and as
/// oversized exactly when it has some. No hit and no miss is counted.
pub proof fn law_bypass_is_empty_or_oversized(
    local_before: Counts,
    pending: u16,
    totals_before: Counts,
    local_after: Counts,
    totals_after: Counts,
    input_len: int,
    i: int,
)
    requires
        local_before.hits.len() == 4,
        local_before.misses.len() == 4,
        totals_before.hits.len() == 4,
        totals_before.misses.len() == 4,
        0 <= input_len,
        0 <= i < 4,
        recorded(
            local_before,
            pending,
            totals_before,
            local_after,
            totals_after,
            bypass_event(input_len),
        ),
    ensures
        totals_before.empty + local_before.empty < u64::MAX ==> totals_after.empty
            + local_after.empty == totals_before.empty + local_before.empty + (if input_len == 0 {
            1int
        } else {
            0int
        }),
        totals_before.oversized + local_before.oversized < u64::MAX ==> totals_after.oversized
            + local_after.oversized == totals_before.oversized + local_before.oversized + (if 0
            < input_len {
            1int
        } else {
            0int
        }),
        totals_before.hits[i] + local_before.hits[i] < u64::MAX ==> totals_after.hits[i]
            + local_after.hits[i] == totals_before.hits[i] + local_before.hits[i],
        totals_before.misses[i] + local_before.misses[i] < u64::MAX ==> totals_after.misses[i]
            + local_after.misses[i] == totals_before.misses[i] + local_before.misses[i],
{
    law_event_raises_one_counter(
        local_before,
        pending,
        totals_before,
        local_after,
        totals_after,
        bypass_event(input_len),
        i,
    );
}

/// After any sequence of events, whenever the counts were moved to the totals in between, the
/// totals and the counts of the thread together are the number of events of each kind.
///
/// `locals`, `pendings` and `totals` are what the counters read before the first event and after
/// each of them.
pub proof fn law_events_are_counted(
    locals: Seq<Counts>,
    pendings: Seq<u16>,
    totals: Seq<Counts>,
    events: Seq<Event>,
    class: usize,
)
    requires
        events.len() <= u64::MAX,
        locals.len() == events.len() + 1,
        pendings.len() == events.len() + 1,
        totals.len() == events.len() + 1,
        locals[0].hits == seq![0u64, 0, 0, 0] && locals[0].misses == seq![0u64, 0, 0, 0],
        locals[0].empty == 0 && locals[0].oversized == 0,
        totals[0].hits == seq![0u64, 0, 0, 0] && totals[0].misses == seq![0u64, 0, 0, 0],
        totals[0].empty == 0 && totals[0].oversized == 0,
        class < 4,
        forall|k: int| #![trigger events[k]]
            0 <= k < events.len() ==> {
                &&& events[k] matches Event::Hit(bucket) ==> bucket < 4
                &&& events[k] matches Event::Miss(bucket) ==> bucket < 4
                &&& recorded(
                    locals[k],
                    pendings[k],
                    totals[k],
                    locals[k + 1],
                    totals[k + 1],
                    events[k],
                )
            },
    ensures
        locals.last().hits.len() == 4 && locals.last().misses.len() == 4,
        totals.last().hits.len() == 4 && totals.last().misses.len() == 4,
        totals.last().hits[class as int] + locals.last().hits[class as int] == events.filter(
            |event: Event| event == Event::Hit(class),
        ).len(),
        totals.last().misses[class as int] + locals.last().misses[class as int] == events.filter(
            |event: Event| event == Event::Miss(class),
        ).len(),
        totals.last().empty + locals.last().empty == events.filter(
            |event: Event| event == Event::EmptyBypass,
        ).len(),
        totals.last().oversized + locals.last().oversized == events.filter(
            |event: Event| event == Event::OversizedBypass,
        ).len(),
    decreases events.len(),
{
    reveal(Seq::filter);
    if events.len() > 0 {
        let n = events.len() - 1;
        let earlier = events.drop_last();
        assert forall|k: int| #![trigger earlier[k]] 0 <= k < earlier.len() implies {
            &&& earlier[k] matches Event::Hit(bucket) ==> bucket < 4
            &&& earlier[k] matches Event::Miss(bucket) ==> bucket < 4
            &&& recorded(
                locals.drop_last()[k],
                pendings.drop_last()[k],
                totals.drop_last()[k],
                locals.drop_last()[k + 1],
                totals.drop_last()[k + 1],
                earlier[k],
            )
        } by {
            assert(earlier[k] == events[k]);
        }
        law_events_are_counted(
            locals.drop_last(),
            pendings.drop_last(),
            totals.drop_last(),
            earlier,
            class,
        );
        assert(events[n] == events.last());
        law_event_raises_one_counter(
            locals[n],
            pendings[n],
            totals[n],
            locals[n + 1],
            totals[n + 1],
            events[n],
            class as int,
        );
    }
}

/// A flush neither loses nor invents an event: the totals and the counts of the thread add up to
/// the same after it.
pub proof fn law_flush_keeps_the_sum(local: Counts, totals: Counts)
    requires
        local.wf(),
        totals.wf(),
    ensures
        totals.plus(local).plus(Counts::zero()) == totals.plus(local),
{
    assert(totals.plus(local).plus(Counts::zero()) =~= totals.plus(local));
}

/// An event is counted once: whether or not it makes the counts move to the totals, the totals and
/// the counts of the thread add up to what they did, and the event.
pub proof fn law_event_is_counted_once(
    local_before: Counts,
    pending: u16,
    totals_before: Counts,
    local_after: Counts,
    totals_after: Counts,
    event: Event,
)
    requires
        local_before.wf(),
        totals_before.wf(),
        event.valid(),
        recorded(local_before, pending, totals_before, local_after, totals_after, event),
    ensures
        totals_after.plus(local_after) == totals_before.plus(local_before).after(event),
{
    assert(totals_before.plus(local_before.after(event)) =~= totals_before.plus(local_before).after(
        event,
    ));
    law_flush_keeps_the_sum(local_before.after(event), totals_before);
}

/// Fewer than [`FLUSH_INTERVAL`] events of a thread are missing from the totals.
pub proof fn law_totals_lag_is_bounded(metrics: LocalMetrics)
    requires
        metrics.wf(),
    ensures
        0 <= metrics@.total() < FLUSH_INTERVAL,
        metrics@.hits[0] + metrics@.hits[1] + metrics@.hits[2] + metrics@.hits[3]
            + metrics@.misses[0] + metrics@.misses[1] + metrics@.misses[2] + metrics@.misses[3]
            + metrics@.empty + metrics@.oversized < 1024,
{
}

} // verus!
