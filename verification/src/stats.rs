//! The counters of the cache that is shared by a process.
use vstd::prelude::*;

use crate::hash::B256;
use crate::key::{same_bytes, Key};

verus! {

/// What a cache reports to its handlers, if it has any.
pub enum Report {
    /// The input was found.
    Hit(Seq<u8>),
    /// The input was not found.
    Miss(Seq<u8>),
    /// The first input was inserted, and the second, if there is one, was evicted by it.
    Insert(Seq<u8>, Option<Seq<u8>>),
}

/// The reports after a request for `input`.
///
/// An input that is found is reported as a hit. Otherwise a miss is reported, and then the
/// insertion, with the input that it is reported to evict.
pub open spec fn with_request(
    reports: Seq<Report>,
    found: bool,
    input: Seq<u8>,
    evicted: Option<Seq<u8>>,
) -> Seq<Report> {
    if found {
        reports.push(Report::Hit(input))
    } else {
        reports.push(Report::Miss(input)).push(Report::Insert(input, evicted))
    }
}

/// What the counters read.
pub struct StatsCounts {
    pub hits: u64,
    pub misses: u64,
    pub inserts: u64,
    pub collisions: u64,
}

/// A counter after one more event. It wraps around after the largest number.
pub open spec fn next(count: u64) -> u64 {
    if count == u64::MAX {
        0
    } else {
        (count + 1) as u64
    }
}

impl StatsCounts {
    /// All counters at zero.
    pub open spec fn zero() -> StatsCounts {
        StatsCounts { hits: 0, misses: 0, inserts: 0, collisions: 0 }
    }

    /// The counters after a hit.
    pub open spec fn after_hit(self) -> StatsCounts {
        StatsCounts { hits: next(self.hits), ..self }
    }

    /// The counters after a miss.
    pub open spec fn after_miss(self) -> StatsCounts {
        StatsCounts { misses: next(self.misses), ..self }
    }

    /// The counters after `key` was inserted into a bucket that held `evicted`.
    ///
    /// An empty bucket makes it an insert, another key makes it an insert and a collision, and
    /// the same key makes it neither.
    pub open spec fn after_insert(self, key: Seq<u8>, evicted: Option<Seq<u8>>) -> StatsCounts {
        match evicted {
            Some(held) => if held == key {
                self
            } else {
                StatsCounts {
                    inserts: next(self.inserts),
                    collisions: next(self.collisions),
                    ..self
                }
            },
            None => StatsCounts { inserts: next(self.inserts), ..self },
        }
    }

    /// The counters after a report.
    pub open spec fn after_report(self, report: Report) -> StatsCounts {
        match report {
            Report::Hit(_) => self.after_hit(),
            Report::Miss(_) => self.after_miss(),
            Report::Insert(key, evicted) => self.after_insert(key, evicted),
        }
    }
}

/// What the counters read that were handed all of `reports`, in order.
pub open spec fn tally(reports: Seq<Report>) -> StatsCounts
    decreases reports.len(),
{
    if reports.len() == 0 {
        StatsCounts::zero()
    } else {
        tally(reports.drop_last()).after_report(reports.last())
    }
}

/// Counters for the keccak cache.
#[derive(Debug)]
pub struct KeccakCacheStats {
    hits: u64,
    misses: u64,
    inserts: u64,
    collisions: u64,
}

impl View for KeccakCacheStats {
    type V = StatsCounts;

    closed spec fn view(&self) -> StatsCounts {
        StatsCounts {
            hits: self.hits,
            misses: self.misses,
            inserts: self.inserts,
            collisions: self.collisions,
        }
    }
}

impl Default for KeccakCacheStats {
    fn default() -> (stats: KeccakCacheStats)
        ensures
            stats@ == StatsCounts::zero(),
            stats@.hits == 0 && stats@.misses == 0 && stats@.inserts == 0 && stats@.collisions == 0,
    {
        KeccakCacheStats::new()
    }
}

/// The bytes of a key that was evicted.
pub open spec fn evicted_bytes(evicted: Option<(&Key, &B256)>) -> Option<Seq<u8>> {
    match evicted {
        Some((key, value)) => Some(key@),
        None => None,
    }
}

impl KeccakCacheStats {
    /// Counters that have counted nothing.
    pub fn new() -> (stats: KeccakCacheStats)
        ensures
            stats@ == StatsCounts::zero(),
            stats@.hits == 0 && stats@.misses == 0 && stats@.inserts == 0 && stats@.collisions == 0,
    {
        KeccakCacheStats { hits: 0, misses: 0, inserts: 0, collisions: 0 }
    }

    /// Returns the number of cache hits.
    pub fn hits(&self) -> (count: u64)
        ensures
            count == self@.hits,
    {
        self.hits
    }

    /// Returns the number of cache misses.
    pub fn misses(&self) -> (count: u64)
        ensures
            count == self@.misses,
    {
        self.misses
    }

    /// Returns the number of inserted entries.
    ///
    /// Includes inserts that evicted a different key on hash collision (see
    /// [`collisions`](Self::collisions)).
    pub fn inserts(&self) -> (count: u64)
        ensures
            count == self@.inserts,
    {
        self.inserts
    }

    /// Returns the number of collisions (a different key was evicted on insert).
    pub fn collisions(&self) -> (count: u64)
        ensures
            count == self@.collisions,
    {
        self.collisions
    }

    /// Resets all counters to zero.
    pub fn reset(&mut self)
        ensures
            final(self)@ == StatsCounts::zero(),
            final(self)@.hits == 0 && final(self)@.misses == 0,
            final(self)@.inserts == 0 && final(self)@.collisions == 0,
    {
        self.hits = 0;
        self.misses = 0;
        self.inserts = 0;
        self.collisions = 0;
    }

    /// Counts a hit.
    pub fn on_hit(&mut self, _key: &Key, _value: &B256)
        ensures
            final(self)@ == old(self)@.after_hit(),
            final(self)@.hits == (old(self)@.hits + 1) % 0x1_0000_0000_0000_0000,
            final(self)@.misses == old(self)@.misses,
            final(self)@.inserts == old(self)@.inserts,
            final(self)@.collisions == old(self)@.collisions,
    {
        self.hits = self.hits.wrapping_add(1);
    }

    /// Counts a miss.
    pub fn on_miss(&mut self)
        ensures
            final(self)@ == old(self)@.after_miss(),
            final(self)@.misses == (old(self)@.misses + 1) % 0x1_0000_0000_0000_0000,
            final(self)@.hits == old(self)@.hits,
            final(self)@.inserts == old(self)@.inserts,
            final(self)@.collisions == old(self)@.collisions,
    {
        self.misses = self.misses.wrapping_add(1);
    }

    /// Counts the insertion of `key` into a bucket that held `evicted`.
    pub fn on_insert(&mut self, key: &Key, _value: &B256, evicted: Option<(&Key, &B256)>)
        ensures
            final(self)@ == old(self)@.after_insert(key@, evicted_bytes(evicted)),
            final(self)@.hits == old(self)@.hits,
            final(self)@.misses == old(self)@.misses,
            evicted is None ==> final(self)@.inserts == (old(self)@.inserts + 1)
                % 0x1_0000_0000_0000_0000 && final(self)@.collisions == old(self)@.collisions,
            evicted matches Some((held, _)) ==> held@ == key@ ==> final(self)@.inserts
                == old(self)@.inserts && final(self)@.collisions == old(self)@.collisions,
            evicted matches Some((held, _)) ==> held@ != key@ ==> final(self)@.inserts
                == (old(self)@.inserts + 1) % 0x1_0000_0000_0000_0000 && final(self)@.collisions
                == (old(self)@.collisions + 1) % 0x1_0000_0000_0000_0000,
    {
        match evicted {
            Some((held, _)) => {
                // Another thread may have inserted the same key in the meantime. The same input
                // always has the same hash, so the write was redundant.
                if !same_bytes(held.get(), key.get()) {
                    self.inserts = self.inserts.wrapping_add(1);
                    self.collisions = self.collisions.wrapping_add(1);
                }
            },
            None => {
                self.inserts = self.inserts.wrapping_add(1);
            },
        }
    }
}

/// Whether a report is of an insertion that is counted as an insert: one that did not replace the
/// same input.
pub open spec fn is_insert(report: Report) -> bool {
    report matches Report::Insert(key, evicted) && evicted != Some(key)
}

/// Whether a report is of an insertion that is counted as a collision: one that evicted another
/// input.
pub open spec fn is_collision(report: Report) -> bool {
    is_insert(report) && report->Insert_1 is Some
}

/// No count is lost and none is invented, in whatever order the reports come: each counter reads
/// how many of the reports it counts, as long as there are no more of them than a counter can
/// hold.
pub proof fn law_tally_is_exact(reports: Seq<Report>)
    requires
        reports.len() <= u64::MAX,
    ensures
        tally(reports).hits == reports.filter(|report: Report| report is Hit).len(),
        tally(reports).misses == reports.filter(|report: Report| report is Miss).len(),
        tally(reports).inserts == reports.filter(|report: Report| is_insert(report)).len(),
        tally(reports).collisions == reports.filter(|report: Report| is_collision(report)).len(),
    decreases reports.len(),
{
    reveal(Seq::filter);
    if reports.len() > 0 {
        law_tally_is_exact(reports.drop_last());
    }
}

/// A request is counted as what it is: a hit, or a miss and an insertion.
pub proof fn law_request_is_counted(
    reports: Seq<Report>,
    found: bool,
    input: Seq<u8>,
    evicted: Option<Seq<u8>>,
)
    ensures
        tally(with_request(reports, found, input, evicted)) == if found {
            tally(reports).after_hit()
        } else {
            tally(reports).after_miss().after_insert(input, evicted)
        },
{
    let after = with_request(reports, found, input, evicted);
    if found {
        assert(after.drop_last() =~= reports);
    } else {
        let missed = reports.push(Report::Miss(input));
        assert(after.drop_last() =~= missed);
        assert(missed.drop_last() =~= reports);
        assert(tally(missed) == tally(reports).after_miss());
    }
}

/// A collision is also an insert: as long as the number of inserts has not wrapped around, there
/// are no more collisions than inserts.
pub proof fn law_collisions_are_inserts(
    counts: StatsCounts,
    key: Seq<u8>,
    evicted: Option<Seq<u8>>,
)
    requires
        counts.collisions <= counts.inserts,
        counts.inserts < u64::MAX,
    ensures
        StatsCounts::zero().collisions <= StatsCounts::zero().inserts,
        counts.after_hit().collisions <= counts.after_hit().inserts,
        counts.after_miss().collisions <= counts.after_miss().inserts,
        counts.after_insert(key, evicted).collisions <= counts.after_insert(key, evicted).inserts,
{
}

/// A lookup is counted once, as a hit or as a miss, and an insertion changes neither number.
pub proof fn law_lookups_are_hits_and_misses(
    counts: StatsCounts,
    key: Seq<u8>,
    evicted: Option<Seq<u8>>,
)
    requires
        counts.hits < u64::MAX,
        counts.misses < u64::MAX,
    ensures
        counts.after_hit().hits + counts.after_hit().misses == counts.hits + counts.misses + 1,
        counts.after_miss().hits + counts.after_miss().misses == counts.hits + counts.misses + 1,
        counts.after_insert(key, evicted).hits == counts.hits,
        counts.after_insert(key, evicted).misses == counts.misses,
{
}

/// A request adds to the end of the reports and to nothing else: a hit of its input, or a miss of
/// its input followed by the insertion of its input.
pub proof fn law_request_is_reported(
    reports: Seq<Report>,
    found: bool,
    input: Seq<u8>,
    evicted: Option<Seq<u8>>,
)
    ensures
        with_request(reports, found, input, evicted).take(reports.len() as int) == reports,
        found ==> with_request(reports, found, input, evicted).skip(reports.len() as int)
            == seq![Report::Hit(input)],
        !found ==> with_request(reports, found, input, evicted).skip(reports.len() as int)
            == seq![Report::Miss(input), Report::Insert(input, evicted)],
{
}

/// A hit is one more hit, and a miss one more miss, in the integers, as long as a counter can hold
/// that. Nothing else changes.
pub proof fn law_lookups_count_by_one(counts: StatsCounts)
    ensures
        counts.after_hit().hits == (counts.hits + 1) % 0x1_0000_0000_0000_0000,
        counts.hits < u64::MAX ==> counts.after_hit().hits == counts.hits + 1,
        counts.after_hit().misses == counts.misses,
        counts.after_hit().inserts == counts.inserts,
        counts.after_hit().collisions == counts.collisions,
        counts.after_miss().misses == (counts.misses + 1) % 0x1_0000_0000_0000_0000,
        counts.misses < u64::MAX ==> counts.after_miss().misses == counts.misses + 1,
        counts.after_miss().hits == counts.hits,
        counts.after_miss().inserts == counts.inserts,
        counts.after_miss().collisions == counts.collisions,
{
}

/// An insertion into an empty bucket is one more insert; one that evicts another key is one more
/// insert and one more collision, whatever the two keys are; one that replaces its own key is
/// neither. Hits and misses stay as they were.
pub proof fn law_insertions_count_by_one(counts: StatsCounts, key: Seq<u8>, held: Seq<u8>)
    ensures
        counts.after_insert(key, None).inserts == (counts.inserts + 1) % 0x1_0000_0000_0000_0000,
        counts.after_insert(key, None).collisions == counts.collisions,
        counts.after_insert(key, None).hits == counts.hits,
        counts.after_insert(key, None).misses == counts.misses,
        held != key ==> counts.after_insert(key, Some(held)).inserts == (counts.inserts + 1)
            % 0x1_0000_0000_0000_0000,
        held != key ==> counts.after_insert(key, Some(held)).collisions == (counts.collisions + 1)
            % 0x1_0000_0000_0000_0000,
        held == key ==> counts.after_insert(key, Some(held)).inserts == counts.inserts,
        held == key ==> counts.after_insert(key, Some(held)).collisions == counts.collisions,
        counts.after_insert(key, Some(held)).hits == counts.hits,
        counts.after_insert(key, Some(held)).misses == counts.misses,
{
}

/// Hits and misses are no inserts. An insertion is an insert unless the evicted input is its own,
/// and a collision exactly when it evicts another input.
pub proof fn law_kinds_of_reports(key: Seq<u8>, held: Seq<u8>)
    ensures
        !is_insert(Report::Hit(key)) && !is_collision(Report::Hit(key)),
        !is_insert(Report::Miss(key)) && !is_collision(Report::Miss(key)),
        is_insert(Report::Insert(key, None)) && !is_collision(Report::Insert(key, None)),
        is_insert(Report::Insert(key, Some(held))) <==> held != key,
        is_collision(Report::Insert(key, Some(held))) <==> held != key,
{
}

/// Reports are counted one after the other: counters that were handed one report more read one
/// more in what it is a report of.
pub proof fn law_reports_count_one_by_one(
    reports: Seq<Report>,
    key: Seq<u8>,
    evicted: Option<Seq<u8>>,
)
    requires
        reports.len() < u64::MAX,
    ensures
        tally(Seq::empty()).hits == 0 && tally(Seq::empty()).misses == 0,
        tally(Seq::empty()).inserts == 0 && tally(Seq::empty()).collisions == 0,
        tally(reports.push(Report::Hit(key))).hits == tally(reports).hits + 1,
        tally(reports.push(Report::Hit(key))).misses == tally(reports).misses,
        tally(reports.push(Report::Miss(key))).hits == tally(reports).hits,
        tally(reports.push(Report::Miss(key))).misses == tally(reports).misses + 1,
        tally(reports.push(Report::Insert(key, evicted))).hits == tally(reports).hits,
        tally(reports.push(Report::Insert(key, evicted))).misses == tally(reports).misses,
        tally(reports.push(Report::Insert(key, evicted))).inserts == tally(reports).inserts + (
        if evicted == Some(key) {
            0int
        } else {
            1int
        }),
        tally(reports.push(Report::Insert(key, evicted))).collisions == tally(reports).collisions
            + (if evicted is None || evicted == Some(key) {
            0int
        } else {
            1int
        }),
{
    law_tally_is_exact(reports);
    assert(reports.push(Report::Hit(key)).drop_last() =~= reports);
    assert(reports.push(Report::Miss(key)).drop_last() =~= reports);
    assert(reports.push(Report::Insert(key, evicted)).drop_last() =~= reports);
}

} // verus!
