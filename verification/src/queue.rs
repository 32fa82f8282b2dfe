//! The queue of ranges that wait to be looked at.
//!
//! The ranges wait in `scc::Queue`, first in, first out. `IntervalQueue`
//! states what `push` and `pop` do to the sequence of waiting ranges.

use vstd::prelude::*;
use scc::Queue;
use crate::interval::SlotInterval;

verus! {

/// `scc::Queue`, carried as an opaque value.
#[verifier::external_type_specification]
#[verifier::external_body]
#[verifier::reject_recursive_types(T)]
pub struct ExQueue<T>(Queue<T>);

/// The entries of a `Queue` of slot pairs, oldest first.
pub uninterp spec fn queue_items(queue: Queue<(u64, u64)>) -> Seq<(u64, u64)>;

/// What popping does to the entries of a `Queue`, as its result tells it.
pub open spec fn pop_effect(
    before: Seq<(u64, u64)>,
    popped: Option<(u64, u64)>,
    after: Seq<(u64, u64)>,
) -> bool {
    match popped {
        None => before.len() == 0 && after == before,
        Some(item) => before.len() > 0 && item == before[0] && after == before.drop_first(),
    }
}

/// `Queue::default`: a queue without entries.
#[verifier::external_body]
fn fifo_new() -> (queue: Queue<(u64, u64)>)
    ensures
        queue_items(queue) == Seq::<(u64, u64)>::empty(),
{
    Queue::default()
}

/// `Queue::push`: the entry becomes the newest one.
#[verifier::external_body]
fn fifo_push(queue: &mut Queue<(u64, u64)>, item: (u64, u64))
    ensures
        queue_items(*final(queue)) == queue_items(*old(queue)).push(item),
{
    queue.push(item);
}

/// `Queue::pop`: the oldest entry leaves the queue and is handed out; an
/// empty queue hands out nothing.
#[verifier::external_body]
fn fifo_pop(queue: &mut Queue<(u64, u64)>) -> (popped: Option<(u64, u64)>)
    ensures
        pop_effect(queue_items(*old(queue)), popped, queue_items(*final(queue))),
{
    queue.pop().map(|entry| **entry)
}

/// `Queue::len`: the number of entries.
#[verifier::external_body]
fn fifo_len(queue: &Queue<(u64, u64)>) -> (count: usize)
    ensures
        count == queue_items(*queue).len(),
{
    queue.len()
}

/// The range that a pair of slots stands for.
pub open spec fn as_interval(pair: (u64, u64)) -> SlotInterval {
    SlotInterval { start: pair.0, end: pair.1 }
}

/// The ranges that wait to be looked at, oldest first.
pub struct IntervalQueue {
    queue: Queue<(u64, u64)>,
}

impl View for IntervalQueue {
    type V = Seq<SlotInterval>;

    /// The waiting ranges, oldest first.
    closed spec fn view(&self) -> Seq<SlotInterval> {
        queue_items(self.queue).map_values(|pair: (u64, u64)| as_interval(pair))
    }
}

impl IntervalQueue {
    /// A queue in which nothing waits.
    pub fn new() -> (queue: Self)
        ensures
            queue@ == Seq::<SlotInterval>::empty(),
    {
        let queue = IntervalQueue { queue: fifo_new() };
        assert(queue@ =~= Seq::<SlotInterval>::empty());
        queue
    }

    /// Puts `interval` behind the ranges that wait already.
    pub fn push(&mut self, interval: SlotInterval)
        ensures
            final(self)@ == old(self)@.push(interval),
    {
        fifo_push(&mut self.queue, (interval.start, interval.end));
        assert(self@ =~= old(self)@.push(interval));
    }

    /// Takes out the range that has waited longest, if any waits.
    pub fn pop(&mut self) -> (popped: Option<SlotInterval>)
        ensures
            match popped {
                None => old(self)@.len() == 0 && final(self)@ == old(self)@,
                Some(interval) => old(self)@.len() > 0 && interval == old(self)@[0] && final(self)@
                    == old(self)@.drop_first(),
            },
    {
        match fifo_pop(&mut self.queue) {
            None => None,
            Some(pair) => {
                assert(self@ =~= old(self)@.drop_first());
                Some(SlotInterval::new(pair.0, pair.1))
            },
        }
    }

    /// Number of ranges that wait.
    pub fn len(&self) -> (count: usize)
        ensures
            count == self@.len(),
    {
        fifo_len(&self.queue)
    }
}

} // verus!
