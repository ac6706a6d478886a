//! Progress events and their aggregation.
//!
//! Workers report one event per buffered write; an aggregator drains the
//! events and accumulates the bytes seen.  The reporter capability can be
//! swapped: a silent variant and an accumulating variant live here, and a
//! caller may supply its own (for instance one that drives a visual bar).

use vstd::prelude::*;
use crate::segment::{seg_end, seg_start};

verus! {

/// One progress event: `len` bytes ending at offset `start` have been
/// written.  The `md5` field is reserved for a future per-segment digest
/// and is always empty; it carries no validated data.
#[derive(Debug)]
pub struct CompletedSegment {
    pub start: u64,
    pub len: u64,
    pub md5: String,
}

/// The lengths reported by a sequence of progress events, summed.
pub open spec fn events_total(events: Seq<CompletedSegment>) -> int
    decreases events.len(),
{
    if events.len() == 0 {
        0
    } else {
        events[0].len + events_total(events.skip(1))
    }
}

pub proof fn lemma_events_total_nonneg(events: Seq<CompletedSegment>)
    ensures
        events_total(events) >= 0,
    decreases events.len(),
{
    if events.len() > 0 {
        lemma_events_total_nonneg(events.skip(1));
    }
}

/// Accumulation of event lengths into a `u64` tally that sticks at the
/// largest representable value instead of wrapping.
pub open spec fn sat_total(start: int, events: Seq<CompletedSegment>) -> int
    decreases events.len(),
{
    if events.len() == 0 {
        start
    } else {
        let next = if start + events[0].len <= u64::MAX {
            start + events[0].len
        } else {
            u64::MAX as int
        };
        sat_total(next, events.skip(1))
    }
}

/// While the true sum stays representable, the saturating tally is exact.
pub proof fn lemma_sat_total_exact(start: int, events: Seq<CompletedSegment>)
    requires
        0 <= start,
        start + events_total(events) <= u64::MAX,
    ensures
        sat_total(start, events) == start + events_total(events),
    decreases events.len(),
{
    if events.len() > 0 {
        lemma_events_total_nonneg(events.skip(1));
        lemma_sat_total_exact(start + events[0].len, events.skip(1));
    }
}

/// A consumer of progress events.  `listen` is handed the total length
/// being downloaded and the events observed so far, in arrival order.
pub trait Reporter: Sized {
    fn new() -> Self;

    fn listen(&mut self, size: u64, segments: &Vec<CompletedSegment>);
}

/// A reporter that discards every event.
pub struct NullReporter;

impl Reporter for NullReporter {
    fn new() -> Self {
        NullReporter
    }

    fn listen(&mut self, size: u64, segments: &Vec<CompletedSegment>) {
    }
}

/// A reporter that accumulates the bytes reported, for tests and probes.
pub struct TallyReporter {
    pub total: u64,
}

impl TallyReporter {
    /// Adds the lengths of `segments` to the running tally, saturating at
    /// `u64::MAX`; while the true sum is representable the tally is exact.
    pub fn accumulate(&mut self, segments: &Vec<CompletedSegment>)
        ensures
            final(self).total == sat_total(old(self).total as int, segments@),
    {
        let mut i: usize = 0;
        proof {
            assert(segments@.skip(0) =~= segments@);
        }
        while i < segments.len()
            invariant
                i <= segments@.len(),
                sat_total(old(self).total as int, segments@) == sat_total(
                    self.total as int,
                    segments@.skip(i as int),
                ),
            decreases segments@.len() - i,
        {
            proof {
                assert(segments@.skip(i as int)[0] == segments@[i as int]);
                assert(segments@.skip(i as int).skip(1) =~= segments@.skip(i as int + 1));
            }
            let len = segments[i].len;
            self.total = if self.total <= u64::MAX - len {
                self.total + len
            } else {
                u64::MAX
            };
            i = i + 1;
        }
        proof {
            assert(segments@.skip(segments@.len() as int) =~= Seq::<CompletedSegment>::empty());
        }
    }
}

impl Reporter for TallyReporter {
    fn new() -> Self {
        TallyReporter { total: 0 }
    }

    fn listen(&mut self, size: u64, segments: &Vec<CompletedSegment>) {
        self.accumulate(segments);
    }
}

/// The lengths reported by every worker's events, summed over all workers.
pub open spec fn fan_in_total(worker_events: Seq<Seq<CompletedSegment>>) -> int
    decreases worker_events.len(),
{
    if worker_events.len() == 0 {
        0
    } else {
        fan_in_total(worker_events.drop_last()) + events_total(worker_events.last())
    }
}

proof fn lemma_fan_in_prefix(
    total_length: u64,
    worker_count: u8,
    worker_events: Seq<Seq<CompletedSegment>>,
    k: int,
)
    requires
        worker_count >= 1,
        worker_events.len() == worker_count as int,
        forall|i: int|
            0 <= i < worker_count as int ==> events_total(#[trigger] worker_events[i]) <= seg_end(
                total_length,
                worker_count,
                i,
            ) - seg_start(total_length, worker_count, i),
        1 <= k <= worker_count as int,
    ensures
        fan_in_total(worker_events.take(k)) <= seg_end(total_length, worker_count, k - 1),
    decreases k,
{
    crate::segment::lemma_plan_partition(total_length, worker_count);
    assert(worker_events.take(k).drop_last() =~= worker_events.take(k - 1));
    assert(worker_events.take(k).last() == worker_events[k - 1]);
    if k == 1 {
        assert(fan_in_total(worker_events.take(0)) == 0);
    } else {
        lemma_fan_in_prefix(total_length, worker_count, worker_events, k - 1);
        assert(seg_end(total_length, worker_count, k - 2) == seg_start(
            total_length,
            worker_count,
            k - 1,
        ));
    }
}

/// Progress events observed by the aggregator, summed over their lengths,
/// never exceed the probed total length, for any worker count — provided
/// each worker reports no more than its own segment's length.
pub proof fn lemma_progress_bounded(
    total_length: u64,
    worker_count: u8,
    worker_events: Seq<Seq<CompletedSegment>>,
)
    requires
        worker_count >= 1,
        worker_events.len() == worker_count as int,
        forall|i: int|
            0 <= i < worker_count as int ==> events_total(#[trigger] worker_events[i]) <= seg_end(
                total_length,
                worker_count,
                i,
            ) - seg_start(total_length, worker_count, i),
    ensures
        fan_in_total(worker_events) <= total_length,
{
    lemma_fan_in_prefix(total_length, worker_count, worker_events, worker_count as int);
    assert(worker_events.take(worker_count as int) =~= worker_events);
}

} // verus!
