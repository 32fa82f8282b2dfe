//! What the engine does with the answers of the endpoint.
//!
//! The calls to the endpoint are made by the program. Each function here
//! takes what a call brought back, reports it to the sink, and says what the
//! cache and the tracked slot are afterwards.

use vstd::prelude::*;
use std::time::Duration;
use crate::cache::{fill_states, fill_step, fills, fresh_count, insert_effect};
use crate::metrics::{Metrics, Report};
use crate::state::AppState;

verus! {

/// What the lookup of a slot needs next.
#[derive(Debug, Clone, Copy, PartialEq, Eq, Structural)]
pub enum BlockLookup {
    /// The cache knows the slot as confirmed.
    Confirmed(u64),
    /// The cache does not know the slot: the endpoint is to be asked for the
    /// confirmed slots of this range.
    Query { start_slot: u64, end_slot: u64 },
}

/// The engine's dealings with the cache and the sink.
pub struct SyndicaAppLogic<M: Metrics> {
    state: AppState<M>,
}

/// Whether `slot` is among `blocks`.
pub fn contains_slot(blocks: &Vec<u64>, slot: u64) -> (found: bool)
    ensures
        found == blocks@.contains(slot),
{
    let mut i: usize = 0;
    while i < blocks.len()
        invariant
            i <= blocks.len(),
            forall|k: int| 0 <= k < i ==> blocks@[k] != slot,
        decreases blocks.len() - i,
    {
        if blocks[i] == slot {
            return true;
        }
        i += 1;
    }
    false
}

impl<M: Metrics> SyndicaAppLogic<M> {
    /// The shared state.
    pub closed spec fn spec_state(&self) -> AppState<M> {
        self.state
    }

    /// The slots that the cache holds.
    pub open spec fn cached(&self) -> Set<u64> {
        self.spec_state().cached()
    }

    /// The newest slot that the endpoint has reported.
    pub open spec fn spec_last_processed_slot(&self) -> u64 {
        self.spec_state().spec_last_processed_slot()
    }

    /// The number of slots that the cache has room for.
    pub open spec fn room(&self) -> nat {
        self.spec_state().room()
    }

    /// The reports made to the sink so far, oldest first.
    pub open spec fn reported(&self) -> Seq<Report> {
        self.spec_state().reported()
    }

    pub fn new(state: AppState<M>) -> (logic: Self)
        ensures
            logic.spec_state() == state,
    {
        SyndicaAppLogic { state }
    }

    pub fn state(&self) -> (state: &AppState<M>)
        ensures
            *state == self.spec_state(),
    {
        &self.state
    }

    /// The shared state, to be changed in place.
    pub fn state_mut(&mut self) -> (state: &mut AppState<M>)
        ensures
            *state == old(self).spec_state(),
            final(self).spec_state() == *final(state),
    {
        &mut self.state
    }

    /// Takes the newest slot as the endpoint gave it, reports it, and hands
    /// it on.
    pub fn get_latest_slot<E>(&mut self, fetched: Result<u64, E>) -> (result: Result<u64, E>)
        ensures
            final(self).reported() == match fetched {
                Ok(slot) => old(self).reported().push(Report::LatestSlot(slot)),
                Err(_) => old(self).reported(),
            },
            final(self).room() == old(self).room(),
            result == fetched,
            final(self).cached() == old(self).cached(),
            final(self).spec_last_processed_slot() == old(self).spec_last_processed_slot(),
    {
        match &fetched {
            Ok(slot) => {
                self.state.metrics_mut().record_latest_slot(*slot);
            },
            Err(_) => {},
        }
        fetched
    }

    /// Looks `slot` up in the cache and reports a hit or a miss. A slot that
    /// is missing has to be asked for at the endpoint, alone.
    pub fn get_block(&mut self, slot: u64) -> (lookup: BlockLookup)
        ensures
            final(self).reported() == old(self).reported().push(
                Report::CacheHit(old(self).cached().contains(slot)),
            ),
            final(self).room() == old(self).room(),
            lookup == if old(self).cached().contains(slot) {
                BlockLookup::Confirmed(slot)
            } else {
                BlockLookup::Query { start_slot: slot, end_slot: slot }
            },
            final(self).cached() == old(self).cached(),
            final(self).spec_last_processed_slot() == old(self).spec_last_processed_slot(),
    {
        if self.state.cache().contains(slot) {
            self.state.metrics_mut().record_cache_hit(true);
            BlockLookup::Confirmed(slot)
        } else {
            self.state.metrics_mut().record_cache_hit(false);
            BlockLookup::Query { start_slot: slot, end_slot: slot }
        }
    }

    /// Takes the endpoint's answer to the query that `get_block` asked for,
    /// which took `elapsed`. A slot that the endpoint lists is confirmed and
    /// goes into the cache; one that it does not list is not confirmed; a
    /// failure is handed on and leaves the cache alone.
    pub fn resolve_block<E>(
        &mut self,
        slot: u64,
        fetched: Result<Vec<u64>, E>,
        elapsed: Duration,
    ) -> (result: Result<Option<u64>, E>)
        ensures
            final(self).reported() == match fetched {
                Ok(_) => old(self).reported().push(Report::GetBlocksElapsed(elapsed)),
                Err(_) => old(self).reported(),
            },
            final(self).room() == old(self).room(),
            match fetched {
                Err(error) => {
                    &&& result == Err::<Option<u64>, E>(error)
                    &&& final(self).cached() == old(self).cached()
                },
                Ok(blocks) => if blocks@.contains(slot) {
                    &&& result == Ok::<Option<u64>, E>(Some(slot))
                    &&& insert_effect(
                        old(self).cached(),
                        slot,
                        !old(self).cached().contains(slot),
                        final(self).cached(),
                    )
                } else {
                    &&& result == Ok::<Option<u64>, E>(None)
                    &&& final(self).cached() == old(self).cached()
                },
            },
            final(self).spec_last_processed_slot() == old(self).spec_last_processed_slot(),
    {
        match fetched {
            Err(error) => Err(error),
            Ok(blocks) => {
                self.state.metrics_mut().record_get_blocks_elapsed(elapsed);
                if contains_slot(&blocks, slot) {
                    self.state.cache_mut().insert(slot);
                    Ok(Some(slot))
                } else {
                    Ok(None)
                }
            },
        }
    }

    /// Takes the confirmed slots of a range as the endpoint gave them, after
    /// `elapsed`, reports the time, and hands them on.
    pub fn get_blocks<E>(&mut self, fetched: Result<Vec<u64>, E>, elapsed: Duration) -> (result:
        Result<Vec<u64>, E>)
        ensures
            final(self).reported() == old(self).reported().push(Report::GetBlocksElapsed(elapsed)),
            final(self).room() == old(self).room(),
            result == fetched,
            final(self).cached() == old(self).cached(),
            final(self).spec_last_processed_slot() == old(self).spec_last_processed_slot(),
    {
        self.state.metrics_mut().record_get_blocks_elapsed(elapsed);
        fetched
    }

    /// Takes the newest slot as the endpoint gave it and tracks it. A failure
    /// is handed on and changes nothing.
    pub fn update_latest_slot<E>(&mut self, fetched: Result<u64, E>) -> (result: Result<u64, E>)
        ensures
            final(self).reported() == match fetched {
                Ok(slot) => old(self).reported().push(Report::LatestSlot(slot)),
                Err(_) => old(self).reported(),
            },
            final(self).room() == old(self).room(),
            result == fetched,
            final(self).cached() == old(self).cached(),
            final(self).spec_last_processed_slot() == match fetched {
                Ok(slot) => slot,
                Err(_) => old(self).spec_last_processed_slot(),
            },
    {
        let result = self.get_latest_slot(fetched);
        match &result {
            Ok(slot) => {
                self.state.set_last_processed_slot(*slot);
            },
            Err(_) => {},
        }
        result
    }

    /// Puts each of `confirmed` that the cache does not hold into the cache,
    /// in turn, and counts them.
    pub fn cache_confirmed(&mut self, confirmed: &Vec<u64>) -> (inserted_count: usize)
        ensures
            final(self).reported() == old(self).reported(),
            final(self).room() == old(self).room(),
            fills(old(self).cached(), confirmed@, final(self).cached(), inserted_count as nat),
            final(self).spec_last_processed_slot() == old(self).spec_last_processed_slot(),
    {
        let ghost mut states: Seq<Set<u64>> = seq![self.cached()];
        let mut inserted_count: usize = 0;
        let mut i: usize = 0;
        while i < confirmed.len()
            invariant
                i <= confirmed.len(),
                inserted_count <= i,
                fill_states(states, confirmed@.take(i as int)),
                states[0] == old(self).cached(),
                states.last() == self.cached(),
                fresh_count(states, confirmed@.take(i as int)) == inserted_count,
                self.spec_last_processed_slot() == old(self).spec_last_processed_slot(),
                self.room() == old(self).room(),
                self.reported() == old(self).reported(),
            decreases confirmed.len() - i,
        {
            let block_slot = confirmed[i];
            let ghost before = self.cached();
            let ghost earlier = states;
            if !self.state.cache().contains(block_slot) && self.state.cache_mut().insert(
                block_slot,
            ) {
                inserted_count += 1;
            }
            proof {
                let slots = confirmed@.take(i as int + 1);
                states = states.push(self.cached());
                assert(slots.drop_last() == confirmed@.take(i as int));
                assert(states.drop_last() == earlier);
                assert forall|k: int| 0 <= k < slots.len() implies #[trigger] fill_step(
                    states,
                    slots,
                    k,
                ) by {
                    if k < i {
                        assert(fill_step(earlier, confirmed@.take(i as int), k));
                    }
                }
            }
            i += 1;
        }
        assert(confirmed@.take(i as int) == confirmed@);
        inserted_count
    }

    /// Takes the confirmed slots of a range as the endpoint gave them, after
    /// `elapsed`, and puts those that the cache does not hold into the cache.
    /// Returns how many went in. A failure is handed on and leaves the cache
    /// alone.
    pub fn query_slot_range<E>(&mut self, fetched: Result<Vec<u64>, E>, elapsed: Duration) -> (result:
        Result<usize, E>)
        ensures
            final(self).reported() == old(self).reported().push(Report::GetBlocksElapsed(elapsed)),
            final(self).room() == old(self).room(),
            match fetched {
                Err(error) => {
                    &&& result == Err::<usize, E>(error)
                    &&& final(self).cached() == old(self).cached()
                },
                Ok(blocks) => {
                    &&& result matches Ok(inserted_count)
                    &&& fills(
                        old(self).cached(),
                        blocks@,
                        final(self).cached(),
                        inserted_count as nat,
                    )
                },
            },
            final(self).spec_last_processed_slot() == old(self).spec_last_processed_slot(),
    {
        match self.get_blocks(fetched, elapsed) {
            Err(error) => Err(error),
            Ok(confirmed_blocks) => {
                let inserted_count = self.cache_confirmed(&confirmed_blocks);
                Ok(inserted_count)
            },
        }
    }
}

} // verus!
