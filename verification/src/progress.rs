//! Progress accounting shared by concurrent extraction pipelines.
//!
//! The aggregator keeps two cumulative counters: bytes expected in total and
//! bytes extracted so far. Every event is accounted exactly once, so after any
//! series of events the completed counter equals the sum of all extraction
//! events, independent of the order in which concurrent pipelines delivered
//! them. Callers that share one accumulator across threads serialize access to
//! it (for instance behind a mutex); each serialized call then obeys the
//! contracts here.

use vstd::prelude::*;

verus! {

/// The sum of a sequence of byte-count events.
pub open spec fn sum_events(events: Seq<u64>) -> int
    decreases events.len(),
{
    if events.len() == 0 {
        0
    } else {
        sum_events(events.drop_last()) + events.last()
    }
}

/// Cumulative progress counters: bytes expected in total and bytes
/// extracted so far, across every pipeline of a run.
pub struct ProgressState {
    pub expected: u64,
    pub completed: u64,
}

impl ProgressState {
    /// A fresh accumulator with nothing expected and nothing completed.
    pub fn new() -> (r: ProgressState)
        ensures
            r.expected == 0,
            r.completed == 0,
    {
        ProgressState { expected: 0, completed: 0 }
    }

    /// Records that `expected` more bytes are anticipated. Saturates at the
    /// counter's capacity; below that, accounting is exact.
    pub fn total_bytes_expected(&mut self, expected: u64)
        ensures
            final(self).completed == old(self).completed,
            old(self).expected + expected <= u64::MAX ==> final(self).expected == old(
                self,
            ).expected + expected,
            old(self).expected + expected > u64::MAX ==> final(self).expected == u64::MAX,
            final(self).expected >= old(self).expected,
    {
        self.expected = if self.expected > u64::MAX - expected {
            u64::MAX
        } else {
            self.expected + expected
        };
    }

    /// Records that `count` more bytes were extracted. Saturates at the
    /// counter's capacity; below that, accounting is exact.
    pub fn bytes_extracted(&mut self, count: u64)
        ensures
            final(self).expected == old(self).expected,
            old(self).completed + count <= u64::MAX ==> final(self).completed == old(
                self,
            ).completed + count,
            old(self).completed + count > u64::MAX ==> final(self).completed == u64::MAX,
            final(self).completed >= old(self).completed,
    {
        self.completed = if self.completed > u64::MAX - count {
            u64::MAX
        } else {
            self.completed + count
        };
    }

    /// Replays a whole series of extraction events. The completed total after
    /// the replay is exactly the old total plus the sum of every event.
    pub fn record_extracted_all(&mut self, events: &Vec<u64>)
        requires
            old(self).completed + sum_events(events@) <= u64::MAX,
        ensures
            final(self).expected == old(self).expected,
            final(self).completed == old(self).completed + sum_events(events@),
    {
        let mut i: usize = 0;
        while i < events.len()
            invariant
                0 <= i <= events.len(),
                self.expected == old(self).expected,
                self.completed == old(self).completed + sum_events(events@.take(i as int)),
                old(self).completed + sum_events(events@) <= u64::MAX,
            decreases events.len() - i,
        {
            proof {
                lemma_sum_events_take_step(events@, i as int);
                lemma_sum_events_take_bounded(events@, i + 1);
                lemma_sum_events_nonneg(events@.take(i as int));
            }
            self.bytes_extracted(events[i]);
            i = i + 1;
        }
        proof {
            assert(events@.take(events@.len() as int) =~= events@);
        }
    }
}

/// The sum of a prefix grows by exactly the next event.
proof fn lemma_sum_events_take_step(events: Seq<u64>, i: int)
    requires
        0 <= i < events.len(),
    ensures
        sum_events(events.take(i + 1)) == sum_events(events.take(i)) + events[i],
{
    assert(events.take(i + 1).drop_last() =~= events.take(i));
    assert(events.take(i + 1).last() == events[i]);
}

/// A sum of events is never negative.
proof fn lemma_sum_events_nonneg(events: Seq<u64>)
    ensures
        sum_events(events) >= 0,
    decreases events.len(),
{
    if events.len() > 0 {
        lemma_sum_events_nonneg(events.drop_last());
    }
}

/// The sum of a prefix never exceeds the sum of the whole.
proof fn lemma_sum_events_take_bounded(events: Seq<u64>, i: int)
    requires
        0 <= i <= events.len(),
    ensures
        sum_events(events.take(i)) <= sum_events(events),
    decreases events.len() - i,
{
    if i < events.len() {
        lemma_sum_events_take_bounded(events, i + 1);
        lemma_sum_events_take_step(events, i);
    } else {
        assert(events.take(i) =~= events);
    }
}

/// Progress accounting is additive across pipelines: however the events of
/// two pipelines are split, the combined total is the sum of the two totals,
/// so no interleaving of concurrently delivered events changes the final
/// completed count.
pub proof fn lemma_progress_additive(a: Seq<u64>, b: Seq<u64>)
    ensures
        sum_events(a + b) == sum_events(a) + sum_events(b),
    decreases b.len(),
{
    if b.len() == 0 {
        assert(a + b =~= a);
    } else {
        lemma_progress_additive(a, b.drop_last());
        assert((a + b).drop_last() =~= a + b.drop_last());
        assert((a + b).last() == b.last());
    }
}

} // verus!
