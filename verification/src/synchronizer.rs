//! The engine: a tracker that follows the newest slot and queues the ranges
//! that it uncovers, and workers that take a range from the queue, have the
//! endpoint asked about it, cache what is confirmed and queue again what is
//! still worth a look.
//!
//! The program runs the loops, asks the endpoint and sleeps. What it is to do
//! next, and what becomes of the queue and the cache, is decided here.

use vstd::prelude::*;
use std::time::Duration;
use crate::cache::{filled, fills};
use crate::gaps::{gap_candidates, lemma_gaps_from_count, split_gaps};
use crate::interval::{SlotInterval, MIN_INTERVAL_SIZE, POLL_DIVIDER};
use crate::logic::SyndicaAppLogic;
use crate::metrics::{Metrics, Report};
use crate::queue::IntervalQueue;

verus! {

/// What a worker is to do next.
#[derive(Debug, Clone, Copy, PartialEq, Eq, Structural)]
pub enum WorkerStep {
    /// Ask the endpoint for the confirmed slots of this range and hand the
    /// answer to `interval_worker`.
    Resolve(SlotInterval),
    /// Nothing waits: sleep for so many milliseconds and ask again.
    Sleep(u64),
}

/// The first slot of the range that a tick of the tracker uncovers: one past
/// the slot tracked last, but no further back than `depth` slots behind the
/// newest.
pub open spec fn tracker_begin(last_tracked: u64, head: u64, depth: usize) -> int {
    if last_tracked + 1 >= head - depth {
        last_tracked + 1
    } else {
        head - depth
    }
}

/// The range that a tick of the tracker queues, if it uncovers one.
pub open spec fn fresh_interval(last_tracked: u64, head: u64, depth: usize) -> Option<
    SlotInterval,
> {
    let begin = tracker_begin(last_tracked, head, depth);
    if begin <= head {
        Some(SlotInterval { start: begin as u64, end: head })
    } else {
        None
    }
}

/// Whether a range that ends at `end` still lies within `depth` slots of the
/// newest slot.
pub open spec fn within_horizon(end: u64, last_processed: u64, depth: usize) -> bool {
    end > last_processed - depth
}

/// Whether a candidate is queued again: it holds enough slots and has not
/// fallen behind the horizon.
pub open spec fn worth_requeue(candidate: SlotInterval, last_processed: u64, depth: usize) -> bool {
    candidate.spec_size() >= MIN_INTERVAL_SIZE && within_horizon(
        candidate.end,
        last_processed,
        depth,
    )
}

/// What becomes of a candidate.
#[derive(Debug, Clone, Copy, PartialEq, Eq, Structural)]
pub enum Fate {
    /// It is queued again.
    Queued,
    /// It holds too few slots and is dropped.
    TooSmall,
    /// It holds enough slots but ends behind the horizon, and is dropped.
    TooFarBehind,
}

/// What a worker's round came to.
#[derive(Debug, Clone, PartialEq, Eq)]
pub struct WorkerRound {
    /// The milliseconds to sleep before the next round.
    pub pause_ms: u64,
    /// The candidates of the round in their order, each with what became of
    /// it. After a failed query there are none.
    pub fates: Vec<(SlotInterval, Fate)>,
}

/// What becomes of `candidate`.
pub open spec fn fate_of(candidate: SlotInterval, last_processed: u64, depth: usize) -> Fate {
    if worth_requeue(candidate, last_processed, depth) {
        Fate::Queued
    } else if candidate.spec_size() < MIN_INTERVAL_SIZE {
        Fate::TooSmall
    } else {
        Fate::TooFarBehind
    }
}

/// The candidates in their order, each with what becomes of it.
pub open spec fn fates_of(candidates: Seq<SlotInterval>, last_processed: u64, depth: usize) -> Seq<
    (SlotInterval, Fate),
> {
    candidates.map_values(
        |candidate: SlotInterval| (candidate, fate_of(candidate, last_processed, depth)),
    )
}

/// The candidates that are queued again, in their order.
pub open spec fn requeued(candidates: Seq<SlotInterval>, last_processed: u64, depth: usize) -> Seq<
    SlotInterval,
> {
    candidates.filter(|candidate: SlotInterval| worth_requeue(candidate, last_processed, depth))
}

/// A tracker and the state that it shares with its workers.
pub struct Synchronizer<M: Metrics> {
    logic: SyndicaAppLogic<M>,
    monitor_interval_ms: u64,
    monitoring_depth: usize,
    interval_queue: IntervalQueue,
    last_tracked_slot: u64,
}

impl<M: Metrics> Synchronizer<M> {
    /// The cache, the sink and the slot that the workers measure age by.
    pub closed spec fn spec_logic(&self) -> SyndicaAppLogic<M> {
        self.logic
    }

    /// The period of the tracker in milliseconds.
    pub closed spec fn spec_monitor_interval_ms(&self) -> u64 {
        self.monitor_interval_ms
    }

    /// How many slots behind the newest a range is still worth a look.
    pub closed spec fn spec_monitoring_depth(&self) -> usize {
        self.monitoring_depth
    }

    /// The ranges that wait, oldest first.
    pub closed spec fn queued(&self) -> Seq<SlotInterval> {
        self.interval_queue@
    }

    /// The newest slot that the tracker has seen, 0 before the first.
    pub closed spec fn spec_last_tracked_slot(&self) -> u64 {
        self.last_tracked_slot
    }

    /// The slots that the cache holds.
    pub open spec fn cached(&self) -> Set<u64> {
        self.spec_logic().cached()
    }

    /// The newest slot that the workers measure age by.
    pub open spec fn spec_last_processed_slot(&self) -> u64 {
        self.spec_logic().spec_last_processed_slot()
    }

    /// The number of slots that the cache has room for.
    pub open spec fn room(&self) -> nat {
        self.spec_logic().room()
    }

    /// The reports made to the sink so far, oldest first.
    pub open spec fn reported(&self) -> Seq<Report> {
        self.spec_logic().reported()
    }

    /// The period and the depth are the same in both.
    pub open spec fn same_settings(&self, other: &Self) -> bool {
        &&& self.spec_monitor_interval_ms() == other.spec_monitor_interval_ms()
        &&& self.spec_monitoring_depth() == other.spec_monitoring_depth()
    }

    pub fn new(logic: SyndicaAppLogic<M>, monitor_interval_ms: u64, monitoring_depth: usize) -> (sync:
        Self)
        ensures
            sync.spec_logic() == logic,
            sync.spec_monitor_interval_ms() == monitor_interval_ms,
            sync.spec_monitoring_depth() == monitoring_depth,
            sync.queued() == Seq::<SlotInterval>::empty(),
            sync.spec_last_tracked_slot() == 0,
    {
        Synchronizer {
            logic,
            monitor_interval_ms,
            monitoring_depth,
            interval_queue: IntervalQueue::new(),
            last_tracked_slot: 0,
        }
    }

    pub fn logic(&self) -> (logic: &SyndicaAppLogic<M>)
        ensures
            *logic == self.spec_logic(),
    {
        &self.logic
    }

    /// The cache and the sink, to be used in place. The queue, the tracked
    /// slot and the settings stay as they are.
    pub fn logic_mut(&mut self) -> (logic: &mut SyndicaAppLogic<M>)
        ensures
            *logic == old(self).spec_logic(),
            final(self).spec_logic() == *final(logic),
            final(self).queued() == old(self).queued(),
            final(self).spec_last_tracked_slot() == old(self).spec_last_tracked_slot(),
            final(self).same_settings(old(self)),
    {
        &mut self.logic
    }

    pub fn monitor_interval_ms(&self) -> (period: u64)
        ensures
            period == self.spec_monitor_interval_ms(),
    {
        self.monitor_interval_ms
    }

    pub fn monitoring_depth(&self) -> (depth: usize)
        ensures
            depth == self.spec_monitoring_depth(),
    {
        self.monitoring_depth
    }

    /// Number of ranges that wait.
    pub fn queue_len(&self) -> (count: usize)
        ensures
            count == self.queued().len(),
    {
        self.interval_queue.len()
    }

    /// Computes the range that a newest slot of `head` uncovers.
    pub fn next_interval(last_tracked_slot: u64, head: u64, monitoring_depth: usize) -> (interval:
        Option<SlotInterval>)
        ensures
            interval == fresh_interval(last_tracked_slot, head, monitoring_depth),
    {
        if last_tracked_slot >= head {
            return None;
        }
        let after_last: u64 = last_tracked_slot + 1;
        let depth = monitoring_depth as u64;
        let begin_slot: u64 = if head >= depth && head - depth > after_last {
            head - depth
        } else {
            after_last
        };
        Some(SlotInterval::new(begin_slot, head))
    }

    /// One tick of the tracker, with the newest slot as the endpoint gave it.
    /// A slot that was fetched is tracked, and the range that it uncovers is
    /// queued; a failure changes nothing. Returns the range that was queued.
    pub fn slot_updater_tick<E>(&mut self, fetched: Result<u64, E>) -> (pushed: Option<
        SlotInterval,
    >)
        ensures
            final(self).reported() == match fetched {
                Ok(slot) => old(self).reported().push(Report::LatestSlot(slot)),
                Err(_) => old(self).reported(),
            },
            final(self).room() == old(self).room(),
            match fetched {
                Err(_) => {
                    &&& pushed is None
                    &&& final(self).queued() == old(self).queued()
                    &&& final(self).spec_last_tracked_slot() == old(self).spec_last_tracked_slot()
                    &&& final(self).spec_last_processed_slot()
                        == old(self).spec_last_processed_slot()
                },
                Ok(head) => {
                    &&& pushed == fresh_interval(
                        old(self).spec_last_tracked_slot(),
                        head,
                        old(self).spec_monitoring_depth(),
                    )
                    &&& final(self).queued() == match pushed {
                        Some(interval) => old(self).queued().push(interval),
                        None => old(self).queued(),
                    }
                    &&& final(self).spec_last_tracked_slot() == head
                    &&& final(self).spec_last_processed_slot() == head
                },
            },
            final(self).cached() == old(self).cached(),
            final(self).same_settings(old(self)),
    {
        match self.logic.update_latest_slot(fetched) {
            Ok(start_slot) => {
                let pushed = Self::next_interval(
                    self.last_tracked_slot,
                    start_slot,
                    self.monitoring_depth,
                );
                match pushed {
                    Some(interval) => {
                        self.interval_queue.push(interval);
                    },
                    None => {},
                }
                self.last_tracked_slot = start_slot;
                pushed
            },
            Err(_) => None,
        }
    }

    /// Decides whether `sub_interval` is queued again.
    pub fn should_requeue(
        sub_interval: &SlotInterval,
        last_processed_slot: u64,
        monitoring_depth: usize,
    ) -> (keep: bool)
        ensures
            keep == worth_requeue(*sub_interval, last_processed_slot, monitoring_depth),
    {
        let interval_size_ok = sub_interval.holds_at_least(MIN_INTERVAL_SIZE);
        let depth = monitoring_depth as u64;
        let interval_end_ok = last_processed_slot < depth || sub_interval.end > last_processed_slot
            - depth;
        interval_size_ok && interval_end_ok
    }

    /// Decides what becomes of `sub_interval`.
    pub fn judge(sub_interval: &SlotInterval, last_processed_slot: u64, monitoring_depth: usize) -> (fate:
        Fate)
        ensures
            fate == fate_of(*sub_interval, last_processed_slot, monitoring_depth),
    {
        if Self::should_requeue(sub_interval, last_processed_slot, monitoring_depth) {
            Fate::Queued
        } else if !sub_interval.holds_at_least(MIN_INTERVAL_SIZE) {
            Fate::TooSmall
        } else {
            Fate::TooFarBehind
        }
    }

    /// Takes the endpoint's answer for `interval`, which took `elapsed`:
    /// caches the slots that it lists and splits `interval` around them. A
    /// failure is handed on and leaves the cache alone.
    pub fn process_interval<E>(
        logic: &mut SyndicaAppLogic<M>,
        interval: &SlotInterval,
        fetched: Result<Vec<u64>, E>,
        elapsed: Duration,
    ) -> (result: Result<Vec<SlotInterval>, E>)
        ensures
            final(logic).reported() == old(logic).reported().push(Report::GetBlocksElapsed(elapsed)),
            final(logic).room() == old(logic).room(),
            match fetched {
                Err(error) => result == Err::<Vec<SlotInterval>, E>(error) && final(logic).cached()
                    == old(logic).cached(),
                Ok(blocks) => result matches Ok(sub_intervals) && sub_intervals@ == gap_candidates(
                    *interval,
                    blocks@,
                ) && filled(old(logic).cached(), blocks@, final(logic).cached()),
            },
            final(logic).spec_last_processed_slot() == old(logic).spec_last_processed_slot(),
    {
        match logic.get_blocks(fetched, elapsed) {
            Err(error) => Err(error),
            Ok(confirmed_blocks) => {
                let inserted_count = logic.cache_confirmed(&confirmed_blocks);
                assert(fills(
                    old(logic).cached(),
                    confirmed_blocks@,
                    logic.cached(),
                    inserted_count as nat,
                ));
                Ok(split_gaps(interval, &confirmed_blocks))
            },
        }
    }

    /// The first half of a worker's round: takes the range that has waited
    /// longest. With an empty queue the worker sleeps for a whole period.
    pub fn next_work(&mut self) -> (step: WorkerStep)
        ensures
            final(self).reported() == old(self).reported(),
            final(self).room() == old(self).room(),
            step == if old(self).queued().len() > 0 {
                WorkerStep::Resolve(old(self).queued()[0])
            } else {
                WorkerStep::Sleep(old(self).spec_monitor_interval_ms())
            },
            final(self).queued() == if old(self).queued().len() > 0 {
                old(self).queued().drop_first()
            } else {
                old(self).queued()
            },
            final(self).cached() == old(self).cached(),
            final(self).spec_last_processed_slot() == old(self).spec_last_processed_slot(),
            final(self).spec_last_tracked_slot() == old(self).spec_last_tracked_slot(),
            final(self).same_settings(old(self)),
    {
        match self.interval_queue.pop() {
            Some(interval) => WorkerStep::Resolve(interval),
            None => WorkerStep::Sleep(self.monitor_interval_ms),
        }
    }

    /// The second half of a worker's round, with the endpoint's answer for
    /// `interval`, which took `elapsed`. The slots that the answer lists are
    /// cached, `interval` is split around them, and the candidates that are
    /// worth it are queued in their order. After a failure `interval` is
    /// queued again as it is and the cache is left alone. Returns the
    /// milliseconds to sleep before the next round, and what became of each
    /// candidate.
    pub fn interval_worker<E>(
        &mut self,
        interval: SlotInterval,
        fetched: Result<Vec<u64>, E>,
        elapsed: Duration,
    ) -> (round: WorkerRound)
        ensures
            round.fates@ == match fetched {
                Ok(blocks) => fates_of(
                    gap_candidates(interval, blocks@),
                    old(self).spec_last_processed_slot(),
                    old(self).spec_monitoring_depth(),
                ),
                Err(_) => Seq::<(SlotInterval, Fate)>::empty(),
            },
            final(self).reported() == old(self).reported().push(Report::GetBlocksElapsed(elapsed)),
            final(self).room() == old(self).room(),
            round.pause_ms == old(self).spec_monitor_interval_ms() / POLL_DIVIDER,
            match fetched {
                Err(_) => {
                    &&& final(self).queued() == old(self).queued().push(interval)
                    &&& final(self).cached() == old(self).cached()
                },
                Ok(blocks) => {
                    &&& final(self).queued() == old(self).queued() + requeued(
                        gap_candidates(interval, blocks@),
                        old(self).spec_last_processed_slot(),
                        old(self).spec_monitoring_depth(),
                    )
                    &&& filled(old(self).cached(), blocks@, final(self).cached())
                },
            },
            final(self).spec_last_processed_slot() == old(self).spec_last_processed_slot(),
            final(self).spec_last_tracked_slot() == old(self).spec_last_tracked_slot(),
            final(self).same_settings(old(self)),
    {
        let mut fates: Vec<(SlotInterval, Fate)> = Vec::new();
        match Self::process_interval(&mut self.logic, &interval, fetched, elapsed) {
            Ok(sub_intervals) => {
                let last_processed_slot = self.logic.state().last_processed_slot();
                let ghost depth = self.monitoring_depth;
                assert(fates@ == fates_of(sub_intervals@.take(0), last_processed_slot, depth));
                let ghost keep = |candidate: SlotInterval|
                    worth_requeue(candidate, last_processed_slot, self.monitoring_depth);
                let ghost logic_after = self.spec_logic();
                let mut i: usize = 0;
                assert(sub_intervals@.take(0).filter(keep) == Seq::<SlotInterval>::empty()) by {
                    reveal(Seq::filter);
                }
                while i < sub_intervals.len()
                    invariant
                        i <= sub_intervals.len(),
                        last_processed_slot == old(self).spec_last_processed_slot(),
                        keep == |candidate: SlotInterval|
                            worth_requeue(
                                candidate,
                                last_processed_slot,
                                old(self).spec_monitoring_depth(),
                            ),
                        self.queued() == old(self).queued() + sub_intervals@.take(i as int).filter(
                            keep,
                        ),
                        depth == old(self).spec_monitoring_depth(),
                        fates@ == fates_of(
                            sub_intervals@.take(i as int),
                            last_processed_slot,
                            depth,
                        ),
                        self.spec_logic() == logic_after,
                        self.spec_last_tracked_slot() == old(self).spec_last_tracked_slot(),
                        self.same_settings(old(self)),
                    decreases sub_intervals.len() - i,
                {
                    let sub_interval = sub_intervals[i];
                    assert(sub_intervals@.take(i as int + 1).drop_last() == sub_intervals@.take(
                        i as int,
                    ));
                    assert(sub_intervals@.take(i as int + 1).filter(keep) == if keep(
                        sub_interval,
                    ) {
                        sub_intervals@.take(i as int).filter(keep).push(sub_interval)
                    } else {
                        sub_intervals@.take(i as int).filter(keep)
                    }) by {
                        reveal(Seq::filter);
                    }
                    let fate = Self::judge(&sub_interval, last_processed_slot, self.monitoring_depth);
                    if let Fate::Queued = fate {
                        self.interval_queue.push(sub_interval);
                    }
                    fates.push((sub_interval, fate));
                    assert(fates@ == fates_of(
                        sub_intervals@.take(i as int + 1),
                        last_processed_slot,
                        depth,
                    ));
                    i += 1;
                }
                assert(sub_intervals@.take(i as int) == sub_intervals@);
            },
            Err(_) => {
                self.interval_queue.push(SlotInterval::new(interval.start, interval.end));
            },
        }
        WorkerRound { pause_ms: self.monitor_interval_ms / POLL_DIVIDER, fates }
    }
}

/// The range that a tick uncovers ends at the newest slot, starts after the
/// slot tracked last and reaches back no further than the depth.
pub proof fn lemma_fresh_interval(last_tracked: u64, head: u64, depth: usize)
    ensures
        match fresh_interval(last_tracked, head, depth) {
            Some(interval) => {
                &&& last_tracked < interval.start <= interval.end == head
                &&& interval.start >= head - depth
                &&& interval.start == last_tracked + 1 || interval.start == head - depth
            },
            None => head <= last_tracked,
        },
{
}

/// A worker's round lets the queue grow by no more than one range for each
/// confirmed slot and one more.
pub proof fn lemma_requeued_count(
    interval: SlotInterval,
    confirmed: Seq<u64>,
    last_processed: u64,
    depth: usize,
)
    ensures
        requeued(gap_candidates(interval, confirmed), last_processed, depth).len()
            <= confirmed.len() + 1,
{
    let keep = |candidate: SlotInterval| worth_requeue(candidate, last_processed, depth);
    gap_candidates(interval, confirmed).lemma_filter_len(keep);
    lemma_gaps_from_count(interval.start as int, interval.end, confirmed);
}

/// Every range that is queued again is one of the candidates, holds at least
/// `MIN_INTERVAL_SIZE` slots and ends within the horizon.
pub proof fn lemma_requeued_worth(
    candidates: Seq<SlotInterval>,
    last_processed: u64,
    depth: usize,
    i: int,
)
    requires
        0 <= i < requeued(candidates, last_processed, depth).len(),
    ensures
        candidates.contains(requeued(candidates, last_processed, depth)[i]),
        requeued(candidates, last_processed, depth)[i].spec_size() >= MIN_INTERVAL_SIZE,
        requeued(candidates, last_processed, depth)[i].end > last_processed - depth,
{
    let keep = |candidate: SlotInterval| worth_requeue(candidate, last_processed, depth);
    candidates.lemma_filter_pred(keep, i);
    candidates.lemma_filter_contains_rev(keep, candidates.filter(keep)[i]);
}

/// A candidate that ends at or before the slot `depth` behind the newest is
/// not queued again.
pub proof fn lemma_stale_dropped(
    candidates: Seq<SlotInterval>,
    last_processed: u64,
    depth: usize,
    candidate: SlotInterval,
)
    requires
        candidate.end <= last_processed - depth,
    ensures
        !requeued(candidates, last_processed, depth).contains(candidate),
{
    let kept = requeued(candidates, last_processed, depth);
    if kept.contains(candidate) {
        let i = choose|i: int| 0 <= i < kept.len() && kept[i] == candidate;
        lemma_requeued_worth(candidates, last_processed, depth, i);
    }
}

/// A candidate with fewer than `MIN_INTERVAL_SIZE` slots is not queued again.
pub proof fn lemma_small_dropped(
    candidates: Seq<SlotInterval>,
    last_processed: u64,
    depth: usize,
    candidate: SlotInterval,
)
    requires
        candidate.spec_size() < MIN_INTERVAL_SIZE,
    ensures
        !requeued(candidates, last_processed, depth).contains(candidate),
{
    let kept = requeued(candidates, last_processed, depth);
    if kept.contains(candidate) {
        let i = choose|i: int| 0 <= i < kept.len() && kept[i] == candidate;
        lemma_requeued_worth(candidates, last_processed, depth, i);
    }
}

/// A candidate that is worth it is queued again.
pub proof fn lemma_worth_requeued(
    candidates: Seq<SlotInterval>,
    last_processed: u64,
    depth: usize,
    i: int,
)
    requires
        0 <= i < candidates.len(),
        worth_requeue(candidates[i], last_processed, depth),
    ensures
        requeued(candidates, last_processed, depth).contains(candidates[i]),
{
    let keep = |candidate: SlotInterval| worth_requeue(candidate, last_processed, depth);
    candidates.lemma_filter_contains(keep, i);
}

} // verus!
