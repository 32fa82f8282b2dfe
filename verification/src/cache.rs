//! The bounded set of confirmed slot numbers.
//!
//! The set is kept in `scc::HashCache`, whose buckets put out their least
//! recently used entry when they are full. `BlockCache` states what each of
//! its methods does to the set of slots; which slot makes room for a new one
//! is left to the table.

use vstd::prelude::*;
use scc::HashCache;
use std::hash::BuildHasher;

verus! {

/// `scc::HashCache`, carried as an opaque value.
#[verifier::external_type_specification]
#[verifier::external_body]
#[verifier::reject_recursive_types(K)]
#[verifier::reject_recursive_types(V)]
#[verifier::reject_recursive_types(H)]
pub struct ExHashCache<K, V, H: BuildHasher>(HashCache<K, V, H>);

/// The keys that a `HashCache` of slots holds.
pub uninterp spec fn cache_slots(cache: HashCache<u64, ()>) -> Set<u64>;

/// The smallest capacity that a `HashCache` of slots was made to have.
pub uninterp spec fn cache_least_room(cache: HashCache<u64, ()>) -> nat;

/// The largest capacity that a `HashCache` of slots was made to have.
pub uninterp spec fn cache_most_room(cache: HashCache<u64, ()>) -> nat;

/// Number of keys that share a bucket of the table. A key is put out only
/// from a bucket that holds this many.
pub const BUCKET_SIZE: usize = 32;

/// The first of `size`, twice `size`, four times `size` and so on that is
/// not below `asked`.
pub open spec fn room_for(asked: nat, size: nat) -> nat
    decreases
            if asked > size {
                asked - size
            } else {
                0
            },
{
    if size >= asked || size == 0 {
        size
    } else {
        room_for(asked, 2 * size)
    }
}

/// The capacity of a table that is asked to hold `asked` keys: the smallest
/// power of two that is neither below `asked` nor below 64.
pub open spec fn table_room(asked: nat) -> nat {
    room_for(asked, 64)
}

/// What putting `slot` does to the keys of a `HashCache`, as its result tells
/// it: `Err` with the key where the key was there, `Ok` with the key that
/// made room, if one did, where it was not. A key makes room only in a
/// bucket that is full, so only in a table of `BUCKET_SIZE` keys or more.
pub open spec fn put_effect(
    before: Set<u64>,
    slot: u64,
    outcome: Result<Option<u64>, u64>,
    after: Set<u64>,
) -> bool {
    match outcome {
        Err(kept) => kept == slot && before.contains(slot) && after == before,
        Ok(None) => !before.contains(slot) && after == before.insert(slot),
        Ok(Some(evicted)) => {
            &&& !before.contains(slot)
            &&& before.contains(evicted)
            &&& before.finite()
            &&& before.len() >= BUCKET_SIZE
            &&& after == before.remove(evicted).insert(slot)
        },
    }
}

/// What `BlockCache::insert` does to the set of slots: a slot that was
/// missing is added and the call says so, and at most one other slot leaves
/// to make room, which happens only in a cache of `BUCKET_SIZE` slots or
/// more; a slot that was there leaves the set as it was.
pub open spec fn insert_effect(before: Set<u64>, slot: u64, inserted: bool, after: Set<u64>) -> bool {
    &&& inserted == !before.contains(slot)
    &&& after.contains(slot)
    &&& if inserted {
        after == before.insert(slot) || (before.finite() && before.len() >= BUCKET_SIZE
            && exists|evicted: u64|
            before.contains(evicted) && after == #[trigger] before.remove(evicted).insert(slot))
    } else {
        after == before
    }
}

/// `slots` is a finite set of `count` slots.
pub open spec fn holds_exactly(slots: Set<u64>, count: usize) -> bool {
    slots.finite() && slots.len() == count
}

/// `slots` is a finite set of no more than `limit` slots.
pub open spec fn holds_at_most(slots: Set<u64>, limit: usize) -> bool {
    slots.finite() && slots.len() <= limit
}

/// Largest capacity that a cache can be asked for. The table takes up to 16
/// bytes in one block for each slot asked for, and no block can be larger
/// than half the address space.
pub const MAX_CACHE_CAPACITY: usize = usize::MAX / 64;

/// `HashCache::with_capacity`, for a table that is to keep the capacity it
/// starts with: the new table holds no key, and both of its capacities are
/// the next power of two that is at least 64 and at least what was asked
/// for. The table is allocated at once, in blocks whose byte sizes are
/// computed without overflow checks, so the number asked for is kept below
/// `MAX_CACHE_CAPACITY`. Like any allocation, this one ends the program where
/// the machine has no memory left for it.
#[verifier::external_body]
fn table_with_capacity(minimum: usize, maximum: usize) -> (table: HashCache<u64, ()>)
    requires
        1 <= minimum <= MAX_CACHE_CAPACITY,
        maximum == minimum,
    ensures
        cache_slots(table) == Set::<u64>::empty(),
        cache_least_room(table) == table_room(minimum as nat),
        cache_most_room(table) == table_room(minimum as nat),
{
    HashCache::with_capacity(minimum, maximum)
}

/// `HashCache::get`, asked only whether it found the key: it finds exactly
/// the keys that the table holds. The keys stay as they are; the table notes
/// the access for its eviction order.
#[verifier::external_body]
fn table_get(table: &HashCache<u64, ()>, slot: u64) -> (found: bool)
    ensures
        found == cache_slots(*table).contains(slot),
{
    table.get(&slot).is_some()
}

/// `HashCache::put`: a key that is there is handed back as the error and the
/// table is left alone; a key that is not there is stored, and where all 32
/// places of its bucket were taken the least recently used key of that
/// bucket is handed back and is gone. The capacities that the table was made
/// with stay as they are. The call does not panic.
#[verifier::external_body]
fn table_put(table: &mut HashCache<u64, ()>, slot: u64) -> (outcome: Result<Option<u64>, u64>)
    ensures
        put_effect(cache_slots(*old(table)), slot, outcome, cache_slots(*final(table))),
        cache_least_room(*final(table)) == cache_least_room(*old(table)),
        cache_most_room(*final(table)) == cache_most_room(*old(table)),
    no_unwind
{
    match table.put(slot, ()) {
        Ok(evicted) => Ok(evicted.map(|entry| entry.0)),
        Err(kept) => Err(kept.0),
    }
}

/// `HashCache::len`: the number of keys. The table adds up the counts of
/// occupied slots that its buckets keep; an entry that moves to a resized
/// table is taken out of its old bucket as it is put into the new one, so
/// with the table borrowed by one caller each key is counted once.
#[verifier::external_body]
fn table_len(table: &HashCache<u64, ()>) -> (count: usize)
    ensures
        holds_exactly(cache_slots(*table), count),
{
    table.len()
}

/// `HashCache::is_empty`: whether the table holds no key.
#[verifier::external_body]
fn table_is_empty(table: &HashCache<u64, ()>) -> (empty: bool)
    ensures
        empty == (cache_slots(*table) == Set::<u64>::empty()),
{
    table.is_empty()
}

/// `HashCache::capacity`: the number of entry slots of the table as it is
/// allocated now, 32 for each bucket. A full bucket of a `HashCache` puts out
/// its least recently used entry for a new one where a hash map would chain
/// the new entry behind it, so the table holds no more keys than it has
/// slots. The table grows and shrinks only between the two capacities that
/// it was made with.
#[verifier::external_body]
fn table_capacity(table: &HashCache<u64, ()>) -> (slots: usize)
    ensures
        holds_at_most(cache_slots(*table), slots),
        cache_least_room(*table) <= slots <= cache_most_room(*table),
{
    table.capacity()
}

/// `HashCache::clear`: no key is left. The capacities that the table was
/// made with stay as they are. The call does not panic.
#[verifier::external_body]
fn table_clear(table: &mut HashCache<u64, ()>)
    ensures
        cache_slots(*final(table)) == Set::<u64>::empty(),
        cache_least_room(*final(table)) == cache_least_room(*old(table)),
        cache_most_room(*final(table)) == cache_most_room(*old(table)),
    no_unwind
{
    table.clear()
}

/// A bounded set of confirmed slot numbers.
pub struct BlockCache {
    cache: HashCache<u64, ()>,
}

impl View for BlockCache {
    type V = Set<u64>;

    /// The slots that are known to be confirmed.
    closed spec fn view(&self) -> Set<u64> {
        cache_slots(self.cache)
    }
}

impl BlockCache {
    /// The table is made to keep the capacity that it starts with.
    #[verifier::type_invariant]
    spec fn fixed_room(self) -> bool {
        cache_least_room(self.cache) == cache_most_room(self.cache)
    }

    /// The number of slots that the cache has room for. It is fixed when the
    /// cache is made.
    pub closed spec fn room(&self) -> nat {
        cache_most_room(self.cache)
    }

    /// An empty cache with room for `capacity` slots: for the next power of
    /// two that is at least 64, to be exact. The room is fixed here and never
    /// changes. A slot may be put out before the cache is full: the slots
    /// share buckets of `BUCKET_SIZE`, and a full bucket puts out the slot
    /// in it that was used least recently.
    pub fn new(capacity: usize) -> (cache: Self)
        requires
            capacity <= MAX_CACHE_CAPACITY,
        ensures
            cache@ == Set::<u64>::empty(),
            cache.room() == table_room(capacity as nat),
    {
        let asked: usize = if capacity == 0 {
            1
        } else {
            capacity
        };
        BlockCache { cache: table_with_capacity(asked, asked) }
    }

    /// Whether `block_number` is known to be confirmed.
    pub fn contains(&self, block_number: u64) -> (exists: bool)
        ensures
            exists == self@.contains(block_number),
    {
        table_get(&self.cache, block_number)
    }

    /// Adds `block_number`. Returns whether it was added, which it is unless
    /// it was there already. The room of the cache stays as it is.
    pub fn insert(&mut self, block_number: u64) -> (inserted: bool)
        ensures
            insert_effect(old(self)@, block_number, inserted, final(self)@),
            final(self).room() == old(self).room(),
    {
        proof {
            use_type_invariant(&*self);
        }
        match table_put(&mut self.cache, block_number) {
            Ok(_) => true,
            Err(_) => false,
        }
    }

    /// Number of slots in the cache.
    pub fn len(&self) -> (count: usize)
        ensures
            holds_exactly(self@, count),
    {
        table_len(&self.cache)
    }

    pub fn is_empty(&self) -> (empty: bool)
        ensures
            empty == (self@ == Set::<u64>::empty()),
    {
        table_is_empty(&self.cache)
    }

    /// Number of slots that the cache has room for: the number fixed when
    /// the cache was made. It bounds the number of slots in the cache.
    pub fn capacity(&self) -> (slots: usize)
        ensures
            holds_at_most(self@, slots),
            slots == self.room(),
    {
        proof {
            use_type_invariant(self);
        }
        table_capacity(&self.cache)
    }

    /// Forgets every slot. The room of the cache stays as it is.
    pub fn clear(&mut self)
        ensures
            final(self)@ == Set::<u64>::empty(),
            final(self).room() == old(self).room(),
    {
        proof {
            use_type_invariant(&*self);
        }
        table_clear(&mut self.cache)
    }
}

impl Default for BlockCache {
    fn default() -> (cache: Self)
        ensures
            cache@ == Set::<u64>::empty(),
            cache.room() == table_room(1000),
    {
        BlockCache::new(1000)
    }
}

/// Doubling from a size that is not 0 ends at a size that is below neither
/// the size it started from nor what was asked for.
pub proof fn lemma_room_for(asked: nat, size: nat)
    requires
        size > 0,
    ensures
        room_for(asked, size) >= size,
        room_for(asked, size) >= asked,
    decreases
            if asked > size {
                asked - size
            } else {
                0
            },
{
    if size < asked {
        lemma_room_for(asked, 2 * size);
    }
}

/// A cache has room for what it was asked to hold, and for 64 slots at
/// least.
pub proof fn lemma_table_room(asked: nat)
    ensures
        table_room(asked) >= asked,
        table_room(asked) >= 64,
{
    lemma_room_for(asked, 64);
}

/// The number that `len` gives for a cache never exceeds the number that
/// `capacity` gives for it.
pub proof fn lemma_cache_bound(slots: Set<u64>, count: usize, capacity: usize)
    requires
        holds_exactly(slots, count),
        holds_at_most(slots, capacity),
    ensures
        count <= capacity,
{
}

/// Right after `insert(slot)` the cache holds `slot`, whether the call added
/// it or found it.
pub proof fn lemma_insert_round_trip(before: Set<u64>, slot: u64, inserted: bool, after: Set<u64>)
    requires
        insert_effect(before, slot, inserted, after),
    ensures
        after.contains(slot),
{
}

/// A slot stays in the cache over a later `insert` that puts nothing out:
/// one that finds its slot there, or one after which the cache holds a slot
/// more than before.
pub proof fn lemma_insert_keeps_member(
    before: Set<u64>,
    other: u64,
    inserted: bool,
    after: Set<u64>,
    slot: u64,
)
    requires
        before.finite(),
        before.contains(slot),
        insert_effect(before, other, inserted, after),
        !inserted || after.len() == before.len() + 1,
    ensures
        after.contains(slot),
{
    if inserted && after != before.insert(other) {
        let evicted = choose|evicted: u64|
            before.contains(evicted) && after == #[trigger] before.remove(evicted).insert(other);
        assert(before.remove(evicted).len() == before.len() - 1);
        assert(after.len() == before.len());
    }
}

/// An `insert` into a cache of fewer than `BUCKET_SIZE` slots puts nothing
/// out: the cache holds what it held and the slot that it was given.
pub proof fn lemma_insert_with_room(before: Set<u64>, slot: u64, inserted: bool, after: Set<u64>)
    requires
        before.finite(),
        before.len() < BUCKET_SIZE,
        insert_effect(before, slot, inserted, after),
    ensures
        after == before.insert(slot),
        after.finite(),
        after.len() == if inserted {
            before.len() + 1
        } else {
            before.len()
        },
{
    if !inserted {
        assert(before.insert(slot) =~= before);
    }
}

/// An `insert` never lets the cache grow by more than the slot it was given,
/// and what the cache holds afterwards it held before or was given.
pub proof fn lemma_insert_bounds(before: Set<u64>, slot: u64, inserted: bool, after: Set<u64>)
    requires
        before.finite(),
        insert_effect(before, slot, inserted, after),
    ensures
        after.finite(),
        after.len() <= before.len() + 1,
        after.subset_of(before.insert(slot)),
{
    if inserted && after != before.insert(slot) {
        let evicted = choose|evicted: u64|
            before.contains(evicted) && after == #[trigger] before.remove(evicted).insert(slot);
        assert(before.remove(evicted).len() == before.len() - 1);
    }
}

/// The `i`-th of a row of inserts takes the cache from `states[i]` to
/// `states[i + 1]`.
pub open spec fn fill_step(states: Seq<Set<u64>>, slots: Seq<u64>, i: int) -> bool {
    insert_effect(states[i], slots[i], !states[i].contains(slots[i]), states[i + 1])
}

/// `states` are the sets of slots that the cache holds before the first and
/// after each of the inserts of `slots`, made in turn.
pub open spec fn fill_states(states: Seq<Set<u64>>, slots: Seq<u64>) -> bool {
    &&& states.len() == slots.len() + 1
    &&& forall|i: int| 0 <= i < slots.len() ==> #[trigger] fill_step(states, slots, i)
}

/// How many of the inserts of `slots` found their slot missing.
pub open spec fn fresh_count(states: Seq<Set<u64>>, slots: Seq<u64>) -> nat
    decreases slots.len(),
{
    if slots.len() == 0 {
        0
    } else {
        let earlier = fresh_count(states.drop_last(), slots.drop_last());
        if states[slots.len() - 1].contains(slots.last()) {
            earlier
        } else {
            earlier + 1
        }
    }
}

/// Inserting `slots` in turn can take the cache from `before` to `after`,
/// with `added` of the slots missing when their turn came.
pub open spec fn fills(before: Set<u64>, slots: Seq<u64>, after: Set<u64>, added: nat) -> bool {
    exists|states: Seq<Set<u64>>|
        #[trigger] fill_states(states, slots) && states[0] == before && states.last() == after
            && fresh_count(states, slots) == added
}

/// Inserting `slots` in turn can take the cache from `before` to `after`.
pub open spec fn filled(before: Set<u64>, slots: Seq<u64>, after: Set<u64>) -> bool {
    exists|added: nat| fills(before, slots, after, added)
}

/// What a row of inserts leaves behind: a finite cache stays finite, holds
/// nothing but what it held and what it was given, holds the slot given last,
/// and no more slots were added than were given.
pub proof fn lemma_fills_bounds(before: Set<u64>, slots: Seq<u64>, after: Set<u64>, added: nat)
    requires
        before.finite(),
        fills(before, slots, after, added),
    ensures
        after.finite(),
        after.len() <= before.len() + slots.len(),
        forall|slot: u64| after.contains(slot) ==> before.contains(slot) || slots.contains(slot),
        slots.len() > 0 ==> after.contains(slots.last()),
        added <= slots.len(),
{
    let states = choose|states: Seq<Set<u64>>|
        #[trigger] fill_states(states, slots) && states[0] == before && states.last() == after
            && fresh_count(states, slots) == added;
    lemma_fill_states_bounds(states, slots);
}

/// `lemma_fills_bounds`, for given states.
proof fn lemma_fill_states_bounds(states: Seq<Set<u64>>, slots: Seq<u64>)
    requires
        states[0].finite(),
        fill_states(states, slots),
    ensures
        states.last().finite(),
        states.last().len() <= states[0].len() + slots.len(),
        forall|slot: u64|
            states.last().contains(slot) ==> states[0].contains(slot) || slots.contains(slot),
        slots.len() > 0 ==> states.last().contains(slots.last()),
        fresh_count(states, slots) <= slots.len(),
    decreases slots.len(),
{
    if slots.len() > 0 {
        let n = slots.len() as int;
        let earlier_states = states.drop_last();
        let earlier_slots = slots.drop_last();
        assert forall|i: int| 0 <= i < earlier_slots.len() implies #[trigger] fill_step(
            earlier_states,
            earlier_slots,
            i,
        ) by {
            assert(fill_step(states, slots, i));
        }
        lemma_fill_states_bounds(earlier_states, earlier_slots);
        assert(fill_step(states, slots, n - 1));
        assert(earlier_states.last() == states[n - 1]);
        lemma_insert_bounds(
            states[n - 1],
            slots[n - 1],
            !states[n - 1].contains(slots[n - 1]),
            states[n],
        );
        assert forall|slot: u64| states.last().contains(slot) implies states[0].contains(slot)
            || slots.contains(slot) by {
            if slot == slots[n - 1] {
            } else {
                assert(states[n - 1].contains(slot));
                if !states[0].contains(slot) {
                    assert(earlier_slots.contains(slot));
                    let k = choose|k: int| 0 <= k < earlier_slots.len() && earlier_slots[k] == slot;
                    assert(slots[k] == slot);
                }
            }
        }
    }
}

/// A row of inserts into a cache that holds, with the slots given, no more
/// than `BUCKET_SIZE` slots puts nothing out: afterwards the cache holds what
/// it held and every slot given, and the slots that were missing when their
/// turn came are as many as the cache has grown by.
pub proof fn lemma_fills_with_room(before: Set<u64>, slots: Seq<u64>, after: Set<u64>, added: nat)
    requires
        before.finite(),
        before.len() + slots.len() <= BUCKET_SIZE,
        fills(before, slots, after, added),
    ensures
        after.finite(),
        forall|slot: u64|
            #[trigger] after.contains(slot) <==> before.contains(slot) || slots.contains(slot),
        added == after.len() - before.len(),
{
    let states = choose|states: Seq<Set<u64>>|
        #[trigger] fill_states(states, slots) && states[0] == before && states.last() == after
            && fresh_count(states, slots) == added;
    lemma_fill_states_with_room(states, slots);
    assert forall|slot: u64| #[trigger]
        after.contains(slot) <==> before.contains(slot) || slots.contains(slot) by {
        assert(states.last().contains(slot) <==> states[0].contains(slot) || slots.contains(slot));
    }
}

/// `lemma_fills_with_room`, for given states.
proof fn lemma_fill_states_with_room(states: Seq<Set<u64>>, slots: Seq<u64>)
    requires
        states[0].finite(),
        states[0].len() + slots.len() <= BUCKET_SIZE,
        fill_states(states, slots),
    ensures
        states.last().finite(),
        states.last().len() <= states[0].len() + slots.len(),
        forall|slot: u64|
            #[trigger] states.last().contains(slot) <==> states[0].contains(slot)
                || slots.contains(slot),
        fresh_count(states, slots) == states.last().len() - states[0].len(),
    decreases slots.len(),
{
    if slots.len() > 0 {
        let n = slots.len() as int;
        let earlier_states = states.drop_last();
        let earlier_slots = slots.drop_last();
        assert forall|i: int| 0 <= i < earlier_slots.len() implies #[trigger] fill_step(
            earlier_states,
            earlier_slots,
            i,
        ) by {
            assert(fill_step(states, slots, i));
        }
        lemma_fill_states_with_room(earlier_states, earlier_slots);
        assert(fill_step(states, slots, n - 1));
        assert(earlier_states.last() == states[n - 1]);
        lemma_insert_with_room(
            states[n - 1],
            slots[n - 1],
            !states[n - 1].contains(slots[n - 1]),
            states[n],
        );
        let before = states[0];
        let middle = states[n - 1];
        let last = slots[n - 1];
        assert(states.last() == middle.insert(last));
        assert(earlier_states[0] == before);
        assert forall|slot: u64| #[trigger]
            states.last().contains(slot) <==> before.contains(slot) || slots.contains(slot) by {
            assert(earlier_states.last().contains(slot) <==> before.contains(slot)
                || earlier_slots.contains(slot));
            if states.last().contains(slot) {
                if slot == last {
                    assert(slots[n - 1] == slot);
                } else {
                    assert(middle.contains(slot));
                    if !before.contains(slot) {
                        assert(earlier_slots.contains(slot));
                        let k = choose|k: int|
                            0 <= k < earlier_slots.len() && earlier_slots[k] == slot;
                        assert(slots[k] == slot);
                    }
                }
            }
            if before.contains(slot) {
                assert(middle.contains(slot));
            }
            if slots.contains(slot) {
                let k = choose|k: int| 0 <= k < slots.len() && slots[k] == slot;
                if k < n - 1 {
                    assert(earlier_slots[k] == slot);
                    assert(earlier_slots.contains(slot));
                    assert(middle.contains(slot));
                }
            }
        }
    } else {
        assert(states.last() == states[0]);
    }
}

} // verus!
