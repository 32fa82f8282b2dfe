//! What the engine reports about its work.
//!
//! `Metrics` is the sink that the engine reports to. `TracingMetrics` turns
//! each report into the trace events that stand for it and keeps them until
//! the program takes them out and emits them; `NoOpMetrics` drops every
//! report.

use vstd::prelude::*;
use std::time::Duration;
use std::time::SystemTime;
use std::time::UNIX_EPOCH;

verus! {

/// An operation that takes longer than this many milliseconds is slow; one
/// that takes longer than half of it is moderate.
pub const SLOW_OPERATION_THRESHOLD_MS: u64 = 1000;

/// What the engine reports to its sink.
pub enum Report {
    /// The newest slot that the endpoint reported.
    LatestSlot(u64),
    /// How long a query for confirmed slots took.
    GetBlocksElapsed(Duration),
    /// How long it took to answer whether a slot is confirmed.
    IsSlotConfirmedElapsed(Duration),
    /// Whether a slot was found in the cache.
    CacheHit(bool),
}

/// A sink for the engine's reports. Nothing comes back from it; what it was
/// told is on record.
pub trait Metrics {
    /// The reports made to the sink so far, oldest first.
    spec fn reports(&self) -> Seq<Report>;

    /// The newest slot that the endpoint reported.
    fn record_latest_slot(&mut self, slot: u64)
        ensures
            final(self).reports() == old(self).reports().push(Report::LatestSlot(slot)),
    ;

    /// How long a query for confirmed slots took.
    fn record_get_blocks_elapsed(&mut self, elapsed: Duration)
        ensures
            final(self).reports() == old(self).reports().push(Report::GetBlocksElapsed(elapsed)),
    ;

    /// How long it took to answer whether a slot is confirmed.
    fn record_is_slot_confirmed_elapsed(&mut self, elapsed: Duration)
        ensures
            final(self).reports() == old(self).reports().push(
                Report::IsSlotConfirmedElapsed(elapsed),
            ),
    ;

    /// Whether a slot was found in the cache.
    fn record_cache_hit(&mut self, hit: bool)
        ensures
            final(self).reports() == old(self).reports().push(Report::CacheHit(hit)),
    ;
}

/// The operations whose duration is reported.
#[derive(Debug, Clone, Copy, PartialEq, Eq, Structural)]
pub enum Operation {
    GetBlocks,
    IsSlotConfirmed,
}

/// How an operation's duration compares with the threshold.
#[derive(Debug, Clone, Copy, PartialEq, Eq, Structural)]
pub enum Performance {
    Fast,
    Moderate,
    Slow,
}

/// A trace event that stands for a report, with the fields that it carries.
#[derive(Debug, Clone, Copy, PartialEq, Eq, Structural)]
pub enum MetricEvent {
    /// The newest slot, at the level of information.
    LatestSlot { slot: u64, timestamp: u64 },
    /// The newest slot once more, for tracing.
    SlotUpdate { slot: u64, timestamp: u64 },
    /// An operation has ended, at the level of information.
    OperationDuration { operation: Operation, elapsed_ms: u64 },
    /// An operation was slow: a warning.
    SlowOperation { operation: Operation, elapsed_ms: u64, elapsed_micros: u64, threshold_ms: u64 },
    /// An operation was not slow, for debugging.
    OperationCompleted {
        operation: Operation,
        elapsed_ms: u64,
        elapsed_micros: u64,
        performance: Performance,
    },
    /// The duration of an operation in every unit, for tracing.
    Timing {
        operation: Operation,
        elapsed_ns: u64,
        elapsed_micros: u64,
        elapsed_ms: u64,
        timestamp: u64,
    },
    /// A look into the cache, at the level of information.
    CacheAccess { hit: bool, timestamp: u64 },
    /// A look into the cache once more, for tracing.
    CacheTracking { hit: bool, timestamp: u64 },
}

/// The class of a duration of `elapsed_ms` milliseconds.
pub open spec fn performance_of(elapsed_ms: u64) -> Performance {
    if elapsed_ms > SLOW_OPERATION_THRESHOLD_MS {
        Performance::Slow
    } else if elapsed_ms > SLOW_OPERATION_THRESHOLD_MS / 2 {
        Performance::Moderate
    } else {
        Performance::Fast
    }
}

/// The events for the newest slot, with the times at which each was made.
pub open spec fn latest_slot_events(slot: u64, recorded_at: u64, tracked_at: u64) -> Seq<
    MetricEvent,
> {
    seq![
        MetricEvent::LatestSlot { slot, timestamp: recorded_at },
        MetricEvent::SlotUpdate { slot, timestamp: tracked_at },
    ]
}

/// The events for a look into the cache, with the times at which each was
/// made.
pub open spec fn cache_hit_events(hit: bool, recorded_at: u64, tracked_at: u64) -> Seq<
    MetricEvent,
> {
    seq![
        MetricEvent::CacheAccess { hit, timestamp: recorded_at },
        MetricEvent::CacheTracking { hit, timestamp: tracked_at },
    ]
}

/// The events that grade the duration of an operation: a warning for a slow
/// one and a note for any other, then the duration in every unit.
pub open spec fn performance_events(
    operation: Operation,
    elapsed_ms: u64,
    elapsed_micros: u64,
    elapsed_ns: u64,
    timestamp: u64,
) -> Seq<MetricEvent> {
    let graded = if elapsed_ms > SLOW_OPERATION_THRESHOLD_MS {
        MetricEvent::SlowOperation {
            operation,
            elapsed_ms,
            elapsed_micros,
            threshold_ms: SLOW_OPERATION_THRESHOLD_MS,
        }
    } else {
        MetricEvent::OperationCompleted {
            operation,
            elapsed_ms,
            elapsed_micros,
            performance: performance_of(elapsed_ms),
        }
    };
    seq![
        graded,
        MetricEvent::Timing { operation, elapsed_ns, elapsed_micros, elapsed_ms, timestamp },
    ]
}

/// The events for an operation that has ended.
pub open spec fn elapsed_events(
    operation: Operation,
    elapsed_ms: u64,
    elapsed_micros: u64,
    elapsed_ns: u64,
    timestamp: u64,
) -> Seq<MetricEvent> {
    seq![MetricEvent::OperationDuration { operation, elapsed_ms }] + performance_events(
        operation,
        elapsed_ms,
        elapsed_micros,
        elapsed_ns,
        timestamp,
    )
}

/// The length of a `Duration` in nanoseconds.
pub uninterp spec fn duration_nanos(elapsed: Duration) -> nat;

/// The whole milliseconds of `elapsed`, cut to 64 bits.
pub open spec fn millis_of(elapsed: Duration) -> u64 {
    ((duration_nanos(elapsed) / 1_000_000) as u128) as u64
}

/// The whole microseconds of `elapsed`, cut to 64 bits.
pub open spec fn micros_of(elapsed: Duration) -> u64 {
    ((duration_nanos(elapsed) / 1_000) as u128) as u64
}

/// The nanoseconds of `elapsed`, cut to 64 bits.
pub open spec fn nanos_of(elapsed: Duration) -> u64 {
    (duration_nanos(elapsed) as u128) as u64
}

/// `Duration::as_nanos`: the length in nanoseconds.
#[verifier::external_body]
fn duration_as_nanos(elapsed: &Duration) -> (nanos: u128)
    ensures
        nanos == duration_nanos(*elapsed),
{
    elapsed.as_nanos()
}

/// `Duration::as_micros`: the whole microseconds in the length.
#[verifier::external_body]
fn duration_as_micros(elapsed: &Duration) -> (micros: u128)
    ensures
        micros == duration_nanos(*elapsed) / 1_000,
{
    elapsed.as_micros()
}

/// `Duration::as_millis`: the whole milliseconds in the length.
#[verifier::external_body]
fn duration_as_millis(elapsed: &Duration) -> (millis: u128)
    ensures
        millis == duration_nanos(*elapsed) / 1_000_000,
{
    elapsed.as_millis()
}

/// `std::time::SystemTime`, carried as an opaque value.
#[verifier::external_type_specification]
#[verifier::external_body]
pub struct ExSystemTime(SystemTime);

/// `SystemTime::now`: what the system clock shows. Nothing is known of it.
#[verifier::external_body]
fn system_time_now() -> SystemTime {
    SystemTime::now()
}

/// `SystemTime::duration_since` the Unix epoch: how long after the epoch a
/// time lies, and nothing for a time before it.
#[verifier::external_body]
fn since_unix_epoch(at: &SystemTime) -> Option<Duration> {
    at.duration_since(UNIX_EPOCH).ok()
}

/// Grades a duration of `elapsed_ms` milliseconds.
pub fn classify(elapsed_ms: u64) -> (performance: Performance)
    ensures
        performance == performance_of(elapsed_ms),
{
    if elapsed_ms > SLOW_OPERATION_THRESHOLD_MS {
        Performance::Slow
    } else if elapsed_ms > SLOW_OPERATION_THRESHOLD_MS / 2 {
        Performance::Moderate
    } else {
        Performance::Fast
    }
}

/// Turns reports into trace events and keeps them, oldest first, until they
/// are taken out.
#[derive(Clone)]
pub struct TracingMetrics {
    events: Vec<MetricEvent>,
    reports: Ghost<Seq<Report>>,
}

impl View for TracingMetrics {
    type V = Seq<MetricEvent>;

    /// The events that wait to be emitted, oldest first.
    closed spec fn view(&self) -> Seq<MetricEvent> {
        self.events@
    }
}

impl TracingMetrics {
    pub fn new() -> (metrics: Self)
        ensures
            metrics@ == Seq::<MetricEvent>::empty(),
            metrics.reports() == Seq::<Report>::empty(),
    {
        TracingMetrics { events: Vec::new(), reports: Ghost(Seq::empty()) }
    }

    /// The time of the system clock in milliseconds since the Unix epoch,
    /// cut to 64 bits, and 0 for a clock that stands before the epoch.
    fn get_timestamp_ms() -> u64 {
        let now = system_time_now();
        timestamp_from(since_unix_epoch(&now))
    }

    /// Keeps the events that grade `elapsed` for `operation`, made at
    /// `timestamp`.
    fn log_performance(&mut self, operation: Operation, elapsed: Duration, timestamp: u64)
        ensures
            final(self)@ == old(self)@ + performance_events(
                operation,
                millis_of(elapsed),
                micros_of(elapsed),
                nanos_of(elapsed),
                timestamp,
            ),
            final(self).reports() == old(self).reports(),
    {
        let elapsed_ms = duration_as_millis(&elapsed) as u64;
        let elapsed_micros = duration_as_micros(&elapsed) as u64;
        let elapsed_ns = duration_as_nanos(&elapsed) as u64;
        if elapsed_ms > SLOW_OPERATION_THRESHOLD_MS {
            self.events.push(
                MetricEvent::SlowOperation {
                    operation,
                    elapsed_ms,
                    elapsed_micros,
                    threshold_ms: SLOW_OPERATION_THRESHOLD_MS,
                },
            );
        } else {
            self.events.push(
                MetricEvent::OperationCompleted {
                    operation,
                    elapsed_ms,
                    elapsed_micros,
                    performance: classify(elapsed_ms),
                },
            );
        }
        self.events.push(
            MetricEvent::Timing { operation, elapsed_ns, elapsed_micros, elapsed_ms, timestamp },
        );
        assert(self@ =~= old(self)@ + performance_events(
            operation,
            millis_of(elapsed),
            micros_of(elapsed),
            nanos_of(elapsed),
            timestamp,
        ));
    }

    /// Notes that `operation` took `elapsed` and keeps the events for it,
    /// made at `timestamp`.
    pub fn record_elapsed(&mut self, operation: Operation, elapsed: Duration, timestamp: u64)
        ensures
            final(self)@ == old(self)@ + elapsed_events(
                operation,
                millis_of(elapsed),
                micros_of(elapsed),
                nanos_of(elapsed),
                timestamp,
            ),
            final(self).reports() == old(self).reports().push(elapsed_report(operation, elapsed)),
    {
        let elapsed_ms = duration_as_millis(&elapsed) as u64;
        self.events.push(MetricEvent::OperationDuration { operation, elapsed_ms });
        self.log_performance(operation, elapsed, timestamp);
        self.reports = Ghost(self.reports@.push(elapsed_report(operation, elapsed)));
        assert(self@ =~= old(self)@ + elapsed_events(
            operation,
            millis_of(elapsed),
            micros_of(elapsed),
            nanos_of(elapsed),
            timestamp,
        ));
    }

    /// Notes the newest slot and keeps the events for it, made at the two
    /// times given.
    pub fn record_latest_slot_at(&mut self, slot: u64, recorded_at: u64, tracked_at: u64)
        ensures
            final(self)@ == old(self)@ + latest_slot_events(slot, recorded_at, tracked_at),
            final(self).reports() == old(self).reports().push(Report::LatestSlot(slot)),
    {
        self.events.push(MetricEvent::LatestSlot { slot, timestamp: recorded_at });
        self.events.push(MetricEvent::SlotUpdate { slot, timestamp: tracked_at });
        self.reports = Ghost(self.reports@.push(Report::LatestSlot(slot)));
        assert(self@ =~= old(self)@ + latest_slot_events(slot, recorded_at, tracked_at));
    }

    /// Notes a look into the cache and keeps the events for it, made at the
    /// two times given.
    pub fn record_cache_hit_at(&mut self, hit: bool, recorded_at: u64, tracked_at: u64)
        ensures
            final(self)@ == old(self)@ + cache_hit_events(hit, recorded_at, tracked_at),
            final(self).reports() == old(self).reports().push(Report::CacheHit(hit)),
    {
        self.events.push(MetricEvent::CacheAccess { hit, timestamp: recorded_at });
        self.events.push(MetricEvent::CacheTracking { hit, timestamp: tracked_at });
        self.reports = Ghost(self.reports@.push(Report::CacheHit(hit)));
        assert(self@ =~= old(self)@ + cache_hit_events(hit, recorded_at, tracked_at));
    }

    /// Hands out the events kept so far, oldest first, and keeps none. What
    /// was reported stays on record.
    pub fn take_events(&mut self) -> (events: Vec<MetricEvent>)
        ensures
            events@ == old(self)@,
            final(self)@ == Seq::<MetricEvent>::empty(),
            final(self).reports() == old(self).reports(),
    {
        let mut events: Vec<MetricEvent> = Vec::new();
        events.append(&mut self.events);
        events
    }
}

impl Default for TracingMetrics {
    fn default() -> (metrics: Self)
        ensures
            metrics@ == Seq::<MetricEvent>::empty(),
            metrics.reports() == Seq::<Report>::empty(),
    {
        TracingMetrics::new()
    }
}

impl Metrics for TracingMetrics {
    closed spec fn reports(&self) -> Seq<Report> {
        self.reports@
    }

    /// Keeps the two events for the newest slot, each with the time at which
    /// it was made.
    fn record_latest_slot(&mut self, slot: u64)
        ensures
            exists|recorded_at: u64, tracked_at: u64|
                final(self)@ == old(self)@ + #[trigger] latest_slot_events(
                    slot,
                    recorded_at,
                    tracked_at,
                ),
    {
        let recorded_at = Self::get_timestamp_ms();
        let tracked_at = Self::get_timestamp_ms();
        self.record_latest_slot_at(slot, recorded_at, tracked_at);
    }

    /// Keeps the three events for a query that took `elapsed`, with the time
    /// at which they were made.
    fn record_get_blocks_elapsed(&mut self, elapsed: Duration)
        ensures
            exists|timestamp: u64|
                final(self)@ == old(self)@ + #[trigger] elapsed_events(
                    Operation::GetBlocks,
                    millis_of(elapsed),
                    micros_of(elapsed),
                    nanos_of(elapsed),
                    timestamp,
                ),
    {
        let timestamp = Self::get_timestamp_ms();
        self.record_elapsed(Operation::GetBlocks, elapsed, timestamp);
    }

    /// Keeps the three events for an answer that took `elapsed`, with the
    /// time at which they were made.
    fn record_is_slot_confirmed_elapsed(&mut self, elapsed: Duration)
        ensures
            exists|timestamp: u64|
                final(self)@ == old(self)@ + #[trigger] elapsed_events(
                    Operation::IsSlotConfirmed,
                    millis_of(elapsed),
                    micros_of(elapsed),
                    nanos_of(elapsed),
                    timestamp,
                ),
    {
        let timestamp = Self::get_timestamp_ms();
        self.record_elapsed(Operation::IsSlotConfirmed, elapsed, timestamp);
    }

    /// Keeps the two events for a look into the cache, each with the time at
    /// which it was made.
    fn record_cache_hit(&mut self, hit: bool)
        ensures
            exists|recorded_at: u64, tracked_at: u64|
                final(self)@ == old(self)@ + #[trigger] cache_hit_events(
                    hit,
                    recorded_at,
                    tracked_at,
                ),
    {
        let recorded_at = Self::get_timestamp_ms();
        let tracked_at = Self::get_timestamp_ms();
        self.record_cache_hit_at(hit, recorded_at, tracked_at);
    }
}

/// The report that `operation` took `elapsed`.
pub open spec fn elapsed_report(operation: Operation, elapsed: Duration) -> Report {
    match operation {
        Operation::GetBlocks => Report::GetBlocksElapsed(elapsed),
        Operation::IsSlotConfirmed => Report::IsSlotConfirmedElapsed(elapsed),
    }
}

/// The timestamp for a reading of the clock, given as the time since the Unix
/// epoch: its whole milliseconds cut to 64 bits, and 0 where the clock stood
/// before the epoch.
pub open spec fn timestamp_of(since: Option<Duration>) -> u64 {
    match since {
        Some(elapsed) => millis_of(elapsed),
        None => 0,
    }
}

/// Turns a reading of the clock into a timestamp.
pub fn timestamp_from(since: Option<Duration>) -> (timestamp: u64)
    ensures
        timestamp == timestamp_of(since),
{
    match since {
        Some(elapsed) => duration_as_millis(&elapsed) as u64,
        None => 0,
    }
}

/// A sink that drops every report: nothing is kept of one but the note that
/// it was made.
pub struct NoOpMetrics {
    reports: Ghost<Seq<Report>>,
}

impl Default for NoOpMetrics {
    fn default() -> (metrics: Self)
        ensures
            metrics.reports() == Seq::<Report>::empty(),
    {
        NoOpMetrics { reports: Ghost(Seq::empty()) }
    }
}

impl Metrics for NoOpMetrics {
    closed spec fn reports(&self) -> Seq<Report> {
        self.reports@
    }

    fn record_latest_slot(&mut self, slot: u64) {
        self.reports = Ghost(self.reports@.push(Report::LatestSlot(slot)));
    }

    fn record_get_blocks_elapsed(&mut self, elapsed: Duration) {
        self.reports = Ghost(self.reports@.push(Report::GetBlocksElapsed(elapsed)));
    }

    fn record_is_slot_confirmed_elapsed(&mut self, elapsed: Duration) {
        self.reports = Ghost(self.reports@.push(Report::IsSlotConfirmedElapsed(elapsed)));
    }

    fn record_cache_hit(&mut self, hit: bool) {
        self.reports = Ghost(self.reports@.push(Report::CacheHit(hit)));
    }
}

} // verus!
