use solana_block_monitor::cache::BlockCache;
use solana_block_monitor::interval::SlotInterval;
use solana_block_monitor::logic::SyndicaAppLogic;
use solana_block_monitor::metrics::{MetricEvent, NoOpMetrics, TracingMetrics};
use solana_block_monitor::state::AppState;
use solana_block_monitor::synchronizer::{Fate, Synchronizer, WorkerRound, WorkerStep};
use std::time::Duration;

fn iv(start: u64, end: u64) -> SlotInterval {
    SlotInterval::new(start, end)
}

fn engine(period: u64, depth: usize) -> Synchronizer<NoOpMetrics> {
    let state = AppState::new(BlockCache::new(depth), NoOpMetrics::default());
    Synchronizer::new(SyndicaAppLogic::new(state), period, depth)
}

fn failed(message: &str) -> Result<Vec<u64>, String> {
    Err(message.to_string())
}

fn drain(sync: &mut Synchronizer<NoOpMetrics>) -> Vec<SlotInterval> {
    let mut waiting = Vec::new();
    loop {
        match sync.next_work() {
            WorkerStep::Resolve(interval) => waiting.push(interval),
            WorkerStep::Sleep(_) => return waiting,
        }
    }
}

#[test]
fn new_engine_has_nothing_queued() {
    let mut sync = engine(1000, 50);
    assert_eq!(sync.queue_len(), 0);
    assert_eq!(sync.monitor_interval_ms(), 1000);
    assert_eq!(sync.monitoring_depth(), 50);
    assert_eq!(sync.logic().state().last_processed_slot(), 0);
    assert!(sync.logic().state().cache().is_empty());
    assert_eq!(sync.next_work(), WorkerStep::Sleep(1000));
}

#[test]
fn tick_queues_the_range_since_the_last_head() {
    // head 2000, last tracked 1990, depth 100: begin = max(1991, 1900)
    assert_eq!(Synchronizer::<NoOpMetrics>::next_interval(1990, 2000, 100), Some(iv(1991, 2000)));
    let mut sync = engine(1000, 100);
    assert_eq!(sync.slot_updater_tick::<String>(Ok(1990)), Some(iv(1890, 1990)));
    assert_eq!(sync.slot_updater_tick::<String>(Ok(2000)), Some(iv(1991, 2000)));
    assert_eq!(sync.logic().state().last_processed_slot(), 2000);
    assert_eq!(drain(&mut sync), vec![iv(1890, 1990), iv(1991, 2000)]);
}

#[test]
fn first_tick_reaches_back_by_the_depth() {
    assert_eq!(Synchronizer::<NoOpMetrics>::next_interval(0, 5000, 100), Some(iv(4900, 5000)));
}

#[test]
fn tick_with_a_head_below_the_depth_starts_after_the_last_head() {
    assert_eq!(Synchronizer::<NoOpMetrics>::next_interval(0, 30, 100), Some(iv(1, 30)));
    assert_eq!(Synchronizer::<NoOpMetrics>::next_interval(10, 30, 100), Some(iv(11, 30)));
    assert_eq!(Synchronizer::<NoOpMetrics>::next_interval(0, 100, 100), Some(iv(1, 100)));
    assert_eq!(Synchronizer::<NoOpMetrics>::next_interval(0, 102, 100), Some(iv(2, 102)));
}

#[test]
fn tick_without_a_new_head_queues_nothing_but_tracks_the_head() {
    assert_eq!(Synchronizer::<NoOpMetrics>::next_interval(2000, 2000, 100), None);
    assert_eq!(Synchronizer::<NoOpMetrics>::next_interval(2000, 1500, 100), None);
    assert_eq!(Synchronizer::<NoOpMetrics>::next_interval(u64::MAX, u64::MAX, 0), None);
    let mut sync = engine(1000, 100);
    sync.slot_updater_tick::<String>(Ok(2000));
    assert_eq!(sync.slot_updater_tick::<String>(Ok(1500)), None);
    assert_eq!(sync.logic().state().last_processed_slot(), 1500);
    assert_eq!(sync.queue_len(), 1);
    assert_eq!(sync.slot_updater_tick::<String>(Ok(1501)), Some(iv(1501, 1501)));
}

#[test]
fn tick_at_the_top_of_the_slot_numbers() {
    assert_eq!(
        Synchronizer::<NoOpMetrics>::next_interval(u64::MAX - 1, u64::MAX, 10),
        Some(iv(u64::MAX, u64::MAX))
    );
    assert_eq!(
        Synchronizer::<NoOpMetrics>::next_interval(0, u64::MAX, 0),
        Some(iv(u64::MAX, u64::MAX))
    );
}

#[test]
fn failed_tick_changes_nothing() {
    let mut sync = engine(1000, 100);
    sync.slot_updater_tick::<String>(Ok(2000));
    assert_eq!(sync.slot_updater_tick(Err("down".to_string())), None);
    assert_eq!(sync.logic().state().last_processed_slot(), 2000);
    assert_eq!(sync.queue_len(), 1);
    assert_eq!(sync.slot_updater_tick::<String>(Ok(2003)), Some(iv(2001, 2003)));
}

#[test]
fn retention_keeps_what_ends_within_the_depth() {
    // depth 50, newest slot 1000: [940, 945] ends at or before 950 and is
    // dropped, [951, 960] is kept.
    assert!(!Synchronizer::<NoOpMetrics>::should_requeue(&iv(940, 945), 1000, 50));
    assert!(Synchronizer::<NoOpMetrics>::should_requeue(&iv(951, 960), 1000, 50));
    assert!(!Synchronizer::<NoOpMetrics>::should_requeue(&iv(941, 950), 1000, 50));
    assert!(Synchronizer::<NoOpMetrics>::should_requeue(&iv(941, 951), 1000, 50));
}

#[test]
fn retention_with_a_newest_slot_below_the_depth_keeps_every_end() {
    assert!(Synchronizer::<NoOpMetrics>::should_requeue(&iv(0, 4), 30, 100));
    assert!(Synchronizer::<NoOpMetrics>::should_requeue(&iv(0, 4), 0, 0));
    assert!(!Synchronizer::<NoOpMetrics>::should_requeue(&iv(0, 4), 4, 0));
    assert!(Synchronizer::<NoOpMetrics>::should_requeue(&iv(0, 5), 4, 0));
}

#[test]
fn ranges_below_the_minimum_size_are_dropped() {
    assert!(!Synchronizer::<NoOpMetrics>::should_requeue(&iv(996, 999), 1000, 50));
    assert!(Synchronizer::<NoOpMetrics>::should_requeue(&iv(995, 999), 1000, 50));
    assert!(!Synchronizer::<NoOpMetrics>::should_requeue(&iv(999, 990), 1000, 50));
    assert!(Synchronizer::<NoOpMetrics>::should_requeue(&iv(0, u64::MAX), 1000, 50));
}

#[test]
fn process_interval_caches_and_splits() {
    let state = AppState::new(BlockCache::new(16), NoOpMetrics::default());
    let mut logic = SyndicaAppLogic::new(state);
    let fetched: Result<Vec<u64>, String> = Ok(vec![100, 102, 104]);
    let subs = Synchronizer::process_interval(
        &mut logic,
        &iv(100, 105),
        fetched,
        Duration::from_millis(3),
    );
    assert_eq!(subs, Ok(vec![iv(101, 105), iv(105, 105)]));
    assert!(logic.state().cache().contains(100));
    assert!(logic.state().cache().contains(102));
    assert!(logic.state().cache().contains(104));
    assert!(!logic.state().cache().contains(101));
    assert_eq!(logic.state().cache().len(), 3);
}

#[test]
fn process_interval_hands_a_failure_on() {
    let state = AppState::new(BlockCache::new(16), NoOpMetrics::default());
    let mut logic = SyndicaAppLogic::new(state);
    let subs = Synchronizer::process_interval(
        &mut logic,
        &iv(100, 105),
        failed("timeout"),
        Duration::from_millis(3),
    );
    assert_eq!(subs, Err("timeout".to_string()));
    assert!(logic.state().cache().is_empty());
}

#[test]
fn worker_requeues_what_is_worth_it() {
    let mut sync = engine(1000, 5000);
    sync.slot_updater_tick::<String>(Ok(3000));
    assert_eq!(sync.next_work(), WorkerStep::Resolve(iv(1, 3000)));
    let fetched: Result<Vec<u64>, String> = Ok(vec![1, 2, 3, 500, 502, 3000]);
    let round = sync.interval_worker(iv(1, 3000), fetched, Duration::from_millis(20));
    assert_eq!(round.pause_ms, 100);
    assert_eq!(
        round.fates,
        vec![
            (iv(4, 499), Fate::Queued),
            (iv(500, 599), Fate::Queued),
            (iv(600, 2999), Fate::Queued),
            (iv(3000, 3000), Fate::TooSmall),
        ]
    );
    // candidates: [4, 499], [500, 599], [600, 2999], [3000, 3000]; the last
    // holds a single slot and is dropped.
    assert_eq!(drain(&mut sync), vec![iv(4, 499), iv(500, 599), iv(600, 2999)]);
    for slot in [1u64, 2, 3, 500, 502, 3000] {
        assert!(sync.logic().state().cache().contains(slot));
    }
    assert_eq!(sync.logic().state().cache().len(), 6);
}

#[test]
fn worker_drops_what_fell_behind_the_horizon() {
    let mut sync = engine(1000, 50);
    sync.slot_updater_tick::<String>(Ok(1000));
    assert_eq!(sync.next_work(), WorkerStep::Resolve(iv(950, 1000)));
    sync.slot_updater_tick::<String>(Ok(1200));
    assert_eq!(sync.next_work(), WorkerStep::Resolve(iv(1150, 1200)));
    // newest slot 1200, depth 50: the tail [961, 1000] ends behind 1150.
    let fetched: Result<Vec<u64>, String> = Ok((950..=960).collect());
    let round = sync.interval_worker(iv(950, 1000), fetched, Duration::from_millis(20));
    assert_eq!(round.fates, vec![(iv(961, 1000), Fate::TooFarBehind)]);
    assert_eq!(sync.queue_len(), 0);
    let fetched: Result<Vec<u64>, String> = Ok((1150..=1160).collect());
    sync.interval_worker(iv(1150, 1200), fetched, Duration::from_millis(20));
    assert_eq!(drain(&mut sync), vec![iv(1161, 1200)]);
}

#[test]
fn failed_query_puts_the_range_back_unchanged() {
    let mut sync = engine(250, 50);
    sync.slot_updater_tick::<String>(Ok(1000));
    sync.slot_updater_tick::<String>(Ok(1010));
    assert_eq!(sync.next_work(), WorkerStep::Resolve(iv(950, 1000)));
    let round = sync.interval_worker(iv(950, 1000), failed("timeout"), Duration::from_millis(20));
    assert_eq!(round, WorkerRound { pause_ms: 25, fates: vec![] });
    assert!(sync.logic().state().cache().is_empty());
    assert_eq!(drain(&mut sync), vec![iv(1001, 1010), iv(950, 1000)]);
}

#[test]
fn failed_query_puts_back_even_a_stale_or_small_range() {
    let mut sync = engine(1000, 50);
    sync.slot_updater_tick::<String>(Ok(100_000));
    drain(&mut sync);
    sync.interval_worker(iv(7, 8), failed("timeout"), Duration::from_millis(1));
    assert_eq!(drain(&mut sync), vec![iv(7, 8)]);
}

#[test]
fn idle_worker_sleeps_a_whole_period() {
    let mut sync = engine(730, 50);
    assert_eq!(sync.next_work(), WorkerStep::Sleep(730));
    let round = sync.interval_worker::<String>(iv(1, 2), Ok(vec![1, 2]), Duration::from_millis(1));
    assert_eq!(round, WorkerRound { pause_ms: 73, fates: vec![] });
    assert_eq!(sync.next_work(), WorkerStep::Sleep(730));
}

#[test]
fn workers_take_ranges_in_the_order_of_their_arrival() {
    let mut sync = engine(1000, 10);
    sync.slot_updater_tick::<String>(Ok(100));
    sync.slot_updater_tick::<String>(Ok(105));
    sync.slot_updater_tick::<String>(Ok(200));
    assert_eq!(sync.queue_len(), 3);
    assert_eq!(drain(&mut sync), vec![iv(90, 100), iv(101, 105), iv(190, 200)]);
    assert_eq!(sync.queue_len(), 0);
}

#[test]
fn engine_reports_to_its_sink() {
    let state = AppState::new(BlockCache::new(16), TracingMetrics::new());
    let mut sync = Synchronizer::new(SyndicaAppLogic::new(state), 1000, 16);
    sync.slot_updater_tick::<String>(Ok(77));
    let events = sync.logic_mut().state_mut().metrics_mut().take_events();
    assert_eq!(events.len(), 2);
    assert!(matches!(events[0], MetricEvent::LatestSlot { slot: 77, .. }));
    assert!(matches!(events[1], MetricEvent::SlotUpdate { slot: 77, .. }));
    sync.slot_updater_tick(Err("down".to_string()));
    assert!(sync.logic_mut().state_mut().metrics_mut().take_events().is_empty());
}

#[test]
fn queue_depth_stays_the_same_while_the_endpoint_fails() {
    let mut sync = engine(1000, 50);
    sync.slot_updater_tick::<String>(Ok(1000));
    sync.slot_updater_tick::<String>(Ok(1010));
    sync.slot_updater_tick::<String>(Ok(1020));
    assert_eq!(sync.queue_len(), 3);
    for _ in 0..200 {
        match sync.next_work() {
            WorkerStep::Resolve(range) => {
                sync.interval_worker(range, failed("down"), Duration::from_millis(1));
            }
            WorkerStep::Sleep(_) => panic!("the queue ran empty"),
        }
        assert_eq!(sync.queue_len(), 3);
    }
    let mut waiting = drain(&mut sync);
    waiting.sort_by_key(|range| range.start);
    assert_eq!(waiting, vec![iv(950, 1000), iv(1001, 1010), iv(1011, 1020)]);
}

#[test]
fn queue_grows_by_no_more_than_the_confirmed_slots_and_one() {
    let mut sync = engine(1000, 100_000);
    sync.slot_updater_tick::<String>(Ok(50_000));
    assert_eq!(sync.next_work(), WorkerStep::Resolve(iv(1, 50_000)));
    let confirmed: Vec<u64> = (1..=50u64).map(|k| k * 1000).collect();
    let given = confirmed.len();
    sync.interval_worker::<String>(iv(1, 50_000), Ok(confirmed), Duration::from_millis(1));
    assert!(sync.queue_len() <= given + 1);
    assert_eq!(sync.queue_len(), 50);
}

#[test]
fn unresolved_ranges_age_out_as_the_head_moves_on() {
    let mut sync = engine(1000, 50);
    sync.slot_updater_tick::<String>(Ok(1000));
    let mut rounds = 0;
    let mut head = 1000;
    while let WorkerStep::Resolve(range) = sync.next_work() {
        head += 40;
        sync.logic_mut().update_latest_slot::<String>(Ok(head)).unwrap();
        sync.interval_worker::<String>(range, Ok(vec![]), Duration::from_millis(1));
        rounds += 1;
        assert!(rounds < 10);
    }
    assert_eq!(rounds, 2);
}

#[test]
fn judge_names_why_a_candidate_is_dropped() {
    let judge = Synchronizer::<NoOpMetrics>::judge;
    assert_eq!(judge(&iv(951, 960), 1000, 50), Fate::Queued);
    assert_eq!(judge(&iv(940, 945), 1000, 50), Fate::TooFarBehind);
    assert_eq!(judge(&iv(996, 999), 1000, 50), Fate::TooSmall);
    // too small and too far behind at once: the size is named
    assert_eq!(judge(&iv(10, 12), 1000, 50), Fate::TooSmall);
    assert_eq!(judge(&iv(12, 10), 1000, 50), Fate::TooSmall);
    assert_eq!(judge(&iv(0, u64::MAX), 0, 0), Fate::Queued);
}
