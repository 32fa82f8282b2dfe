//! What the parts of the engine share: the cache, the sink for reports and
//! the newest slot that the endpoint has reported.

use vstd::prelude::*;
use crate::cache::BlockCache;
use crate::metrics::{Metrics, Report};

verus! {

/// The shared state of the engine.
pub struct AppState<M: Metrics> {
    cache: BlockCache,
    metrics: M,
    last_processed_slot: u64,
}

impl<M: Metrics> AppState<M> {
    /// The cache of confirmed slots.
    pub closed spec fn spec_cache(&self) -> BlockCache {
        self.cache
    }

    /// The sink for reports.
    pub closed spec fn spec_metrics(&self) -> M {
        self.metrics
    }

    /// The newest slot that the endpoint has reported, 0 before the first
    /// report.
    pub closed spec fn spec_last_processed_slot(&self) -> u64 {
        self.last_processed_slot
    }

    /// The slots that the cache holds.
    pub open spec fn cached(&self) -> Set<u64> {
        self.spec_cache()@
    }

    /// The number of slots that the cache has room for.
    pub open spec fn room(&self) -> nat {
        self.spec_cache().room()
    }

    /// The reports made to the sink so far, oldest first.
    pub open spec fn reported(&self) -> Seq<Report> {
        self.spec_metrics().reports()
    }

    pub fn new(cache: BlockCache, metrics: M) -> (state: Self)
        ensures
            state.spec_cache() == cache,
            state.spec_metrics() == metrics,
            state.spec_last_processed_slot() == 0,
    {
        AppState { cache, metrics, last_processed_slot: 0 }
    }

    pub fn cache(&self) -> (cache: &BlockCache)
        ensures
            *cache == self.spec_cache(),
    {
        &self.cache
    }

    /// The cache, to be changed in place. Nothing else changes with it.
    pub fn cache_mut(&mut self) -> (cache: &mut BlockCache)
        ensures
            *cache == old(self).spec_cache(),
            final(self).spec_cache() == *final(cache),
            final(self).spec_metrics() == old(self).spec_metrics(),
            final(self).spec_last_processed_slot() == old(self).spec_last_processed_slot(),
    {
        &mut self.cache
    }

    pub fn metrics(&self) -> (metrics: &M)
        ensures
            *metrics == self.spec_metrics(),
    {
        &self.metrics
    }

    /// The sink, to be reported to. Nothing else changes with it.
    pub fn metrics_mut(&mut self) -> (metrics: &mut M)
        ensures
            *metrics == old(self).spec_metrics(),
            final(self).spec_metrics() == *final(metrics),
            final(self).spec_cache() == old(self).spec_cache(),
            final(self).spec_last_processed_slot() == old(self).spec_last_processed_slot(),
    {
        &mut self.metrics
    }

    pub fn last_processed_slot(&self) -> (slot: u64)
        ensures
            slot == self.spec_last_processed_slot(),
    {
        self.last_processed_slot
    }

    pub fn set_last_processed_slot(&mut self, slot: u64)
        ensures
            final(self).spec_last_processed_slot() == slot,
            final(self).spec_cache() == old(self).spec_cache(),
            final(self).spec_metrics() == old(self).spec_metrics(),
    {
        self.last_processed_slot = slot;
    }
}

} // verus!
