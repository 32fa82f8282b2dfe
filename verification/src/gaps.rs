//! Splitting a queried range around the slots that were reported confirmed.
//!
//! A cursor walks the range from its start. A confirmed slot ahead of the
//! cursor opens a gap, which is handed out as a candidate for a later look
//! and stretched to `INTERVAL_SIZE` slots where the range allows; a confirmed
//! slot at or behind the cursor moves the cursor just past it. What is left
//! behind the last confirmed slot is the final candidate.

use vstd::prelude::*;
use crate::interval::{SlotInterval, INTERVAL_SIZE};

verus! {

/// Last slot of the candidate that opens at `pos` before the confirmed slot
/// `confirmed`, in a range that ends at `end`.
pub open spec fn gap_end(pos: int, confirmed: int, end: int) -> int {
    let reach = if confirmed - 1 >= pos + INTERVAL_SIZE - 1 {
        confirmed - 1
    } else {
        pos + INTERVAL_SIZE - 1
    };
    if reach <= end {
        reach
    } else {
        end
    }
}

/// The candidates handed out with the cursor at `pos`, for a range that ends
/// at `end` and the confirmed slots still to be read.
pub open spec fn gaps_from(pos: int, end: u64, confirmed: Seq<u64>) -> Seq<SlotInterval>
    decreases confirmed.len(),
{
    if confirmed.len() == 0 {
        if pos <= end {
            seq![SlotInterval { start: pos as u64, end }]
        } else {
            Seq::empty()
        }
    } else {
        let c = confirmed[0] as int;
        if c > pos {
            let last = gap_end(pos, c, end as int);
            seq![SlotInterval { start: pos as u64, end: last as u64 }] + gaps_from(
                last + 1,
                end,
                confirmed.drop_first(),
            )
        } else {
            gaps_from(c + 1, end, confirmed.drop_first())
        }
    }
}

/// The candidates for `interval` when `confirmed` came back for it.
pub open spec fn gap_candidates(interval: SlotInterval, confirmed: Seq<u64>) -> Seq<SlotInterval> {
    gaps_from(interval.start as int, interval.end, confirmed)
}

/// Some candidate holds `slot`.
pub open spec fn some_covers(candidates: Seq<SlotInterval>, slot: int) -> bool {
    exists|i: int| 0 <= i < candidates.len() && (#[trigger] candidates[i]).covers(slot)
}

/// Every slot of `confirmed` lies in `interval`.
pub open spec fn all_within(interval: SlotInterval, confirmed: Seq<u64>) -> bool {
    forall|k: int| 0 <= k < confirmed.len() ==> interval.covers(#[trigger] confirmed[k] as int)
}

/// `confirmed` counts up from `first` without a hole.
pub open spec fn is_run_from(first: int, confirmed: Seq<u64>) -> bool {
    forall|k: int| 0 <= k < confirmed.len() ==> #[trigger] confirmed[k] == first + k
}

/// `confirmed` is strictly ascending.
pub open spec fn strictly_ascending(confirmed: Seq<u64>) -> bool {
    forall|j: int, k: int| 0 <= j < k < confirmed.len() ==> confirmed[j] < confirmed[k]
}

/// No candidate holds a confirmed slot.
pub open spec fn none_confirmed(candidates: Seq<SlotInterval>, confirmed: Seq<u64>) -> bool {
    forall|i: int, k: int|
        0 <= i < candidates.len() && 0 <= k < confirmed.len() ==> !(#[trigger] candidates[i]).covers(
            #[trigger] confirmed[k] as int,
        )
}

/// The candidates and the confirmed slots divide `interval` between them:
/// each candidate is a non-empty part of it, the candidates follow one
/// another without touching, none holds a confirmed slot, and no slot of the
/// interval is left out.
pub open spec fn exact_partition(
    interval: SlotInterval,
    confirmed: Seq<u64>,
    candidates: Seq<SlotInterval>,
) -> bool {
    &&& forall|i: int|
        0 <= i < candidates.len() ==> (#[trigger] candidates[i]).start <= candidates[i].end
            && candidates[i].within(interval)
    &&& forall|i: int, j: int|
        0 <= i < j < candidates.len() ==> (#[trigger] candidates[i]).end < (
        #[trigger] candidates[j]).start
    &&& none_confirmed(candidates, confirmed)
    &&& forall|slot: u64|
        interval.covers(slot as int) ==> #[trigger] confirmed.contains(slot) || some_covers(
            candidates,
            slot as int,
        )
}

/// Splits `interval` around the slots in `confirmed`, read in the order given.
pub fn split_gaps(interval: &SlotInterval, confirmed: &Vec<u64>) -> (candidates: Vec<SlotInterval>)
    ensures
        candidates@ == gap_candidates(*interval, confirmed@),
{
    let end = interval.end;
    let mut candidates: Vec<SlotInterval> = Vec::new();
    let mut pos: u128 = interval.start as u128;
    let mut i: usize = 0;
    assert(confirmed@.skip(0) == confirmed@);
    assert(candidates@ + gaps_from(pos as int, end, confirmed@) == gaps_from(
        pos as int,
        end,
        confirmed@,
    ));
    while i < confirmed.len()
        invariant
            i <= confirmed.len(),
            pos <= u64::MAX + 1,
            end == interval.end,
            candidates@ + gaps_from(pos as int, end, confirmed@.skip(i as int)) == gap_candidates(
                *interval,
                confirmed@,
            ),
        decreases confirmed.len() - i,
    {
        let c = confirmed[i];
        let ghost rest = confirmed@.skip(i as int);
        let ghost before = candidates@;
        assert(rest[0] == c);
        assert(rest.drop_first() == confirmed@.skip(i as int + 1));
        if (c as u128) > pos {
            let stretched: u128 = pos + (INTERVAL_SIZE as u128) - 1;
            let gap_last: u128 = (c - 1) as u128;
            let reach: u128 = if gap_last >= stretched {
                gap_last
            } else {
                stretched
            };
            let last: u128 = if reach <= end as u128 {
                reach
            } else {
                end as u128
            };
            assert(last == gap_end(pos as int, c as int, end as int));
            let candidate = SlotInterval::new(pos as u64, last as u64);
            candidates.push(candidate);
            assert(candidates@ + gaps_from(last as int + 1, end, rest.drop_first()) == before
                + gaps_from(pos as int, end, rest));
            pos = last + 1;
        } else {
            pos = c as u128 + 1;
        }
        i += 1;
    }
    assert(confirmed@.skip(i as int).len() == 0);
    if pos <= end as u128 {
        candidates.push(SlotInterval::new(pos as u64, end));
    }
    candidates
}

/// No slot of the range is left out: a slot between the cursor and the end is
/// confirmed or lies in a candidate. This holds of every list of confirmed
/// slots, in any order.
pub proof fn lemma_gaps_from_cover(pos: int, end: u64, confirmed: Seq<u64>, slot: u64)
    requires
        0 <= pos <= slot <= end,
    ensures
        confirmed.contains(slot) || some_covers(gaps_from(pos, end, confirmed), slot as int),
    decreases confirmed.len(),
{
    let gaps = gaps_from(pos, end, confirmed);
    if confirmed.len() == 0 {
        assert(gaps[0].covers(slot as int));
    } else {
        let c = confirmed[0] as int;
        let rest = confirmed.drop_first();
        if c > pos {
            let last = gap_end(pos, c, end as int);
            if slot <= last {
                assert(gaps[0].covers(slot as int));
            } else {
                lemma_gaps_from_cover(last + 1, end, rest, slot);
                assert(gaps.drop_first() == gaps_from(last + 1, end, rest));
                lemma_shifted(confirmed, gaps_from(last + 1, end, rest), gaps, slot);
            }
        } else if slot == c {
            assert(confirmed[0] == slot);
        } else {
            lemma_gaps_from_cover(c + 1, end, rest, slot);
            lemma_shifted(confirmed, gaps_from(c + 1, end, rest), gaps, slot);
        }
    }
}

/// What holds of the rest of the list and of the candidates after the first
/// holds of the whole list and of all candidates.
proof fn lemma_shifted(
    confirmed: Seq<u64>,
    tail: Seq<SlotInterval>,
    gaps: Seq<SlotInterval>,
    slot: u64,
)
    requires
        confirmed.len() > 0,
        confirmed.drop_first().contains(slot) || some_covers(tail, slot as int),
        gaps == tail || (gaps.len() == tail.len() + 1 && gaps.drop_first() == tail),
    ensures
        confirmed.contains(slot) || some_covers(gaps, slot as int),
{
    let rest = confirmed.drop_first();
    if rest.contains(slot) {
        let k = choose|k: int| 0 <= k < rest.len() && rest[k] == slot;
        assert(confirmed[k + 1] == slot);
    } else {
        let i = choose|i: int| 0 <= i < tail.len() && (#[trigger] tail[i]).covers(slot as int);
        if gaps == tail {
            assert(gaps[i].covers(slot as int));
        } else {
            assert(gaps.drop_first()[i] == gaps[i + 1]);
            assert(gaps[i + 1].covers(slot as int));
        }
    }
}

/// No omission: every slot of `interval` is confirmed or lies in a candidate.
pub proof fn lemma_candidates_cover(interval: SlotInterval, confirmed: Seq<u64>, slot: u64)
    requires
        interval.covers(slot as int),
    ensures
        confirmed.contains(slot) || some_covers(gap_candidates(interval, confirmed), slot as int),
{
    lemma_gaps_from_cover(interval.start as int, interval.end, confirmed, slot);
}

/// There is at most one candidate more than there are confirmed slots,
/// whatever the slots are.
pub proof fn lemma_gaps_from_count(pos: int, end: u64, confirmed: Seq<u64>)
    ensures
        gaps_from(pos, end, confirmed).len() <= confirmed.len() + 1,
    decreases confirmed.len(),
{
    if confirmed.len() > 0 {
        let c = confirmed[0] as int;
        if c > pos {
            lemma_gaps_from_count(gap_end(pos, c, end as int) + 1, end, confirmed.drop_first());
        } else {
            lemma_gaps_from_count(c + 1, end, confirmed.drop_first());
        }
    }
}

/// With every confirmed slot at or after `floor` and at or before the end,
/// each candidate is a non-empty range between the smaller of `floor` and the
/// cursor and the end, and there is at most one candidate more than there are
/// confirmed slots.
pub proof fn lemma_gaps_from_within(pos: int, floor: u64, end: u64, confirmed: Seq<u64>)
    requires
        0 <= pos,
        all_within(SlotInterval { start: floor, end }, confirmed),
    ensures
        gaps_from(pos, end, confirmed).len() <= confirmed.len() + 1,
        forall|i: int|
            0 <= i < gaps_from(pos, end, confirmed).len() ==> {
                let g = #[trigger] gaps_from(pos, end, confirmed)[i];
                g.start <= g.end && g.end <= end && (g.start >= pos || g.start > floor)
            },
    decreases confirmed.len(),
{
    let gaps = gaps_from(pos, end, confirmed);
    if confirmed.len() > 0 {
        let c = confirmed[0] as int;
        let rest = confirmed.drop_first();
        let outer = SlotInterval { start: floor, end };
        assert(outer.covers(confirmed[0] as int));
        assert forall|k: int| 0 <= k < rest.len() implies outer.covers(#[trigger] rest[k] as int) by {
            assert(rest[k] == confirmed[k + 1]);
        }
        if c > pos {
            let last = gap_end(pos, c, end as int);
            let tail = gaps_from(last + 1, end, rest);
            lemma_gaps_from_within(last + 1, floor, end, rest);
            assert forall|i: int| 0 <= i < gaps.len() implies {
                let g = #[trigger] gaps[i];
                g.start <= g.end && g.end <= end && (g.start >= pos || g.start > floor)
            } by {
                if i > 0 {
                    assert(gaps[i] == tail[i - 1]);
                }
            }
        } else {
            lemma_gaps_from_within(c + 1, floor, end, rest);
        }
    }
}

/// For confirmed slots that all lie in `interval`, every candidate is a
/// non-empty part of `interval`, and there is at most one candidate more than
/// there are confirmed slots.
pub proof fn lemma_candidates_within(interval: SlotInterval, confirmed: Seq<u64>)
    requires
        all_within(interval, confirmed),
    ensures
        gap_candidates(interval, confirmed).len() <= confirmed.len() + 1,
        forall|i: int|
            0 <= i < gap_candidates(interval, confirmed).len() ==> {
                let g = #[trigger] gap_candidates(interval, confirmed)[i];
                g.start <= g.end && g.within(interval)
            },
{
    lemma_gaps_from_within(interval.start as int, interval.start, interval.end, confirmed);
}

/// Confirmed slots that count up from the cursor without a hole open no gap:
/// the one candidate is what lies behind them, if anything does.
pub proof fn lemma_gaps_from_run(pos: int, end: u64, confirmed: Seq<u64>)
    requires
        0 <= pos,
        is_run_from(pos, confirmed),
    ensures
        gaps_from(pos, end, confirmed) == if pos + confirmed.len() <= end {
            seq![SlotInterval { start: (pos + confirmed.len()) as u64, end }]
        } else {
            Seq::<SlotInterval>::empty()
        },
    decreases confirmed.len(),
{
    if confirmed.len() > 0 {
        let rest = confirmed.drop_first();
        assert(confirmed[0] == pos);
        assert forall|k: int| 0 <= k < rest.len() implies #[trigger] rest[k] == pos + 1 + k by {
            assert(rest[k] == confirmed[k + 1]);
        }
        lemma_gaps_from_run(pos + 1, end, rest);
    }
}

/// When the confirmed slots are the first slots of `interval`, one after the
/// other, the candidates and the confirmed slots divide `interval` between
/// them with no overlap and no omission.
///
/// After a confirmed slot that follows a hole this is not so: the candidate
/// that opens before it is stretched over it, or the next candidate opens on
/// it. `lemma_partition_needs_run` shows that this is the only way to miss.
pub proof fn lemma_run_partitions(interval: SlotInterval, confirmed: Seq<u64>)
    requires
        all_within(interval, confirmed),
        is_run_from(interval.start as int, confirmed),
    ensures
        exact_partition(interval, confirmed, gap_candidates(interval, confirmed)),
{
    let candidates = gap_candidates(interval, confirmed);
    lemma_gaps_from_run(interval.start as int, interval.end, confirmed);
    lemma_candidates_within(interval, confirmed);
    assert forall|slot: u64| interval.covers(slot as int) implies #[trigger] confirmed.contains(
        slot,
    ) || some_covers(candidates, slot as int) by {
        lemma_candidates_cover(interval, confirmed, slot);
    }
}

/// Ascending confirmed slots between the cursor and the end, none of which
/// lies in a candidate, count up from the cursor without a hole.
pub proof fn lemma_gaps_from_needs_run(pos: int, end: u64, confirmed: Seq<u64>)
    requires
        0 <= pos,
        strictly_ascending(confirmed),
        forall|k: int| 0 <= k < confirmed.len() ==> pos <= #[trigger] confirmed[k] <= end,
        none_confirmed(gaps_from(pos, end, confirmed), confirmed),
    ensures
        is_run_from(pos, confirmed),
    decreases confirmed.len(),
{
    if confirmed.len() > 0 {
        let gaps = gaps_from(pos, end, confirmed);
        let c = confirmed[0] as int;
        let rest = confirmed.drop_first();
        assert(pos <= confirmed[0] <= end);
        if c > pos {
            let last = gap_end(pos, c, end as int);
            let tail = gaps_from(last + 1, end, rest);
            assert(gaps[0].start == pos);
            if last >= c {
                assert(gaps[0].covers(confirmed[0] as int));
            } else {
                assert(last + 1 == c);
                if rest.len() > 0 {
                    assert(rest[0] == confirmed[1]);
                    assert(confirmed[0] < confirmed[1]);
                    assert(tail[0].start == c);
                    assert(tail[0].end >= c);
                }
                assert(gaps[1] == tail[0]);
                assert(gaps[1].covers(confirmed[0] as int));
            }
            assert(false);
        } else {
            assert forall|j: int, k: int| 0 <= j < k < rest.len() implies rest[j] < rest[k] by {
                assert(rest[j] == confirmed[j + 1] && rest[k] == confirmed[k + 1]);
            }
            assert forall|k: int| 0 <= k < rest.len() implies pos + 1 <= #[trigger] rest[k]
                <= end by {
                assert(rest[k] == confirmed[k + 1]);
                assert(confirmed[0] < confirmed[k + 1]);
            }
            assert forall|i: int, k: int| 0 <= i < gaps.len() && 0 <= k < rest.len() implies !(
            #[trigger] gaps[i]).covers(#[trigger] rest[k] as int) by {
                assert(rest[k] == confirmed[k + 1]);
            }
            lemma_gaps_from_needs_run(pos + 1, end, rest);
            assert forall|k: int| 0 <= k < confirmed.len() implies #[trigger] confirmed[k] == pos
                + k by {
                if k > 0 {
                    assert(rest[k - 1] == confirmed[k]);
                }
            }
        }
    }
}

/// The converse of `lemma_run_partitions`: for ascending confirmed slots in
/// `interval`, the candidates and the confirmed slots divide `interval`
/// between them only when the confirmed slots are its first slots, one after
/// the other.
pub proof fn lemma_partition_needs_run(interval: SlotInterval, confirmed: Seq<u64>)
    requires
        strictly_ascending(confirmed),
        all_within(interval, confirmed),
        exact_partition(interval, confirmed, gap_candidates(interval, confirmed)),
    ensures
        is_run_from(interval.start as int, confirmed),
{
    assert forall|k: int| 0 <= k < confirmed.len() implies interval.start <= #[trigger] confirmed[k]
        <= interval.end by {
        assert(interval.covers(confirmed[k] as int));
    }
    lemma_gaps_from_needs_run(interval.start as int, interval.end, confirmed);
}

} // verus!
