use solana_block_monitor::cache::BlockCache;
use solana_block_monitor::logic::{contains_slot, BlockLookup, SyndicaAppLogic};
use solana_block_monitor::metrics::{MetricEvent, NoOpMetrics, Operation, TracingMetrics};
use solana_block_monitor::server::{is_slot_confirmed, StatusCode};
use solana_block_monitor::state::AppState;
use std::time::Duration;

fn logic() -> SyndicaAppLogic<NoOpMetrics> {
    SyndicaAppLogic::new(AppState::new(BlockCache::new(64), NoOpMetrics::default()))
}

fn traced() -> SyndicaAppLogic<TracingMetrics> {
    SyndicaAppLogic::new(AppState::new(BlockCache::new(64), TracingMetrics::new()))
}

#[test]
fn state_starts_without_a_processed_slot() {
    let mut state = AppState::new(BlockCache::new(4), NoOpMetrics::default());
    assert_eq!(state.last_processed_slot(), 0);
    state.set_last_processed_slot(99);
    assert_eq!(state.last_processed_slot(), 99);
    assert!(state.cache().is_empty());
    state.cache_mut().insert(5);
    assert!(state.cache().contains(5));
    let _sink: &NoOpMetrics = state.metrics();
}

#[test]
fn contains_slot_finds_what_is_listed() {
    assert!(contains_slot(&vec![1, 5, 9], 5));
    assert!(contains_slot(&vec![1, 5, 9], 9));
    assert!(!contains_slot(&vec![1, 5, 9], 4));
    assert!(!contains_slot(&vec![], 0));
}

#[test]
fn cached_slot_is_confirmed_with_status_200() {
    let mut logic = logic();
    logic.state_mut().cache_mut().insert(500);
    assert_eq!(logic.get_block(500), BlockLookup::Confirmed(500));
    let outcome: Result<Option<u64>, String> = Ok(Some(500));
    let status = is_slot_confirmed(&mut logic, &outcome, Duration::from_millis(1));
    assert_eq!(status, Ok(StatusCode::Success));
    assert_eq!(StatusCode::Success.as_u16(), 200);
}

#[test]
fn uncached_slot_that_the_endpoint_does_not_list_gets_status_404() {
    let mut logic = logic();
    assert_eq!(logic.get_block(500), BlockLookup::Query { start_slot: 500, end_slot: 500 });
    let fetched: Result<Vec<u64>, String> = Ok(vec![]);
    let outcome = logic.resolve_block(500, fetched, Duration::from_millis(4));
    assert_eq!(outcome, Ok(None));
    assert!(!logic.state().cache().contains(500));
    let status = is_slot_confirmed(&mut logic, &outcome, Duration::from_millis(5));
    assert_eq!(status, Err(StatusCode::NotFound));
    assert_eq!(StatusCode::NotFound.as_u16(), 404);
}

#[test]
fn uncached_slot_that_the_endpoint_lists_is_cached() {
    let mut logic = logic();
    assert_eq!(logic.get_block(500), BlockLookup::Query { start_slot: 500, end_slot: 500 });
    let fetched: Result<Vec<u64>, String> = Ok(vec![500]);
    let outcome = logic.resolve_block(500, fetched, Duration::from_millis(4));
    assert_eq!(outcome, Ok(Some(500)));
    assert!(logic.state().cache().contains(500));
    assert_eq!(logic.get_block(500), BlockLookup::Confirmed(500));
    assert_eq!(is_slot_confirmed(&mut logic, &outcome, Duration::from_millis(5)), Ok(StatusCode::Success));
}

#[test]
fn failed_query_for_a_slot_gets_status_500() {
    let mut logic = logic();
    let fetched: Result<Vec<u64>, String> = Err("unreachable".to_string());
    let outcome = logic.resolve_block(500, fetched, Duration::from_millis(4));
    assert_eq!(outcome, Err("unreachable".to_string()));
    assert!(logic.state().cache().is_empty());
    let status = is_slot_confirmed(&mut logic, &outcome, Duration::from_millis(5));
    assert_eq!(status, Err(StatusCode::InternalServerError));
    assert_eq!(StatusCode::InternalServerError.as_u16(), 500);
}

#[test]
fn latest_slot_is_handed_on() {
    let mut logic = logic();
    assert_eq!(logic.get_latest_slot::<String>(Ok(42)), Ok(42));
    assert_eq!(logic.state().last_processed_slot(), 0);
    assert_eq!(logic.get_latest_slot(Err("down".to_string())), Err("down".to_string()));
}

#[test]
fn update_latest_slot_tracks_what_was_fetched() {
    let mut logic = logic();
    assert_eq!(logic.update_latest_slot::<String>(Ok(42)), Ok(42));
    assert_eq!(logic.state().last_processed_slot(), 42);
    assert_eq!(logic.update_latest_slot(Err("down".to_string())), Err("down".to_string()));
    assert_eq!(logic.state().last_processed_slot(), 42);
    assert_eq!(logic.update_latest_slot::<String>(Ok(7)), Ok(7));
    assert_eq!(logic.state().last_processed_slot(), 7);
}

#[test]
fn get_blocks_hands_the_answer_on() {
    let mut logic = logic();
    let fetched: Result<Vec<u64>, String> = Ok(vec![3, 4]);
    assert_eq!(logic.get_blocks(fetched, Duration::from_millis(2)), Ok(vec![3, 4]));
    let fetched: Result<Vec<u64>, String> = Err("down".to_string());
    assert_eq!(logic.get_blocks(fetched, Duration::from_millis(2)), Err("down".to_string()));
    assert!(logic.state().cache().is_empty());
}

#[test]
fn query_slot_range_counts_what_went_in() {
    let mut logic = logic();
    logic.state_mut().cache_mut().insert(11);
    let fetched: Result<Vec<u64>, String> = Ok(vec![10, 11, 12, 12]);
    assert_eq!(logic.query_slot_range(fetched, Duration::from_millis(2)), Ok(2));
    assert!(logic.state().cache().contains(10));
    assert!(logic.state().cache().contains(11));
    assert!(logic.state().cache().contains(12));
    assert_eq!(logic.state().cache().len(), 3);
    let fetched: Result<Vec<u64>, String> = Ok(vec![10, 11, 12]);
    assert_eq!(logic.query_slot_range(fetched, Duration::from_millis(2)), Ok(0));
}

#[test]
fn query_slot_range_hands_a_failure_on() {
    let mut logic = logic();
    let fetched: Result<Vec<u64>, String> = Err("down".to_string());
    assert_eq!(logic.query_slot_range(fetched, Duration::from_millis(2)), Err("down".to_string()));
    assert!(logic.state().cache().is_empty());
}

#[test]
fn cache_confirmed_counts_the_missing_slots() {
    let mut logic = logic();
    assert_eq!(logic.cache_confirmed(&vec![]), 0);
    assert_eq!(logic.cache_confirmed(&vec![1, 2, 3]), 3);
    assert_eq!(logic.cache_confirmed(&vec![3, 4]), 1);
    assert_eq!(logic.state().cache().len(), 4);
}

#[test]
fn lookup_reports_hit_and_miss() {
    let mut logic = traced();
    logic.get_block(9);
    let fetched: Result<Vec<u64>, String> = Ok(vec![9]);
    logic.resolve_block(9, fetched, Duration::from_millis(30)).unwrap();
    logic.get_block(9);
    let events = logic.state_mut().metrics_mut().take_events();
    assert_eq!(events.len(), 7);
    assert!(matches!(events[0], MetricEvent::CacheAccess { hit: false, .. }));
    assert!(matches!(events[1], MetricEvent::CacheTracking { hit: false, .. }));
    assert_eq!(
        events[2],
        MetricEvent::OperationDuration { operation: Operation::GetBlocks, elapsed_ms: 30 }
    );
    assert!(matches!(events[5], MetricEvent::CacheAccess { hit: true, .. }));
    assert!(matches!(events[6], MetricEvent::CacheTracking { hit: true, .. }));
}

#[test]
fn failed_lookup_reports_no_duration() {
    let mut logic = traced();
    let fetched: Result<Vec<u64>, String> = Err("down".to_string());
    assert!(logic.resolve_block(9, fetched, Duration::from_millis(30)).is_err());
    assert!(logic.state_mut().metrics_mut().take_events().is_empty());
}

#[test]
fn answering_a_request_reports_its_duration() {
    let mut logic = traced();
    let outcome: Result<Option<u64>, String> = Ok(None);
    is_slot_confirmed(&mut logic, &outcome, Duration::from_millis(1500)).unwrap_err();
    let events = logic.state_mut().metrics_mut().take_events();
    assert_eq!(events.len(), 3);
    assert_eq!(
        events[0],
        MetricEvent::OperationDuration { operation: Operation::IsSlotConfirmed, elapsed_ms: 1500 }
    );
    assert!(matches!(events[1], MetricEvent::SlowOperation { elapsed_ms: 1500, .. }));
}

#[test]
fn each_lookup_makes_one_report_of_a_hit_or_a_miss() {
    let mut logic = traced();
    logic.state_mut().cache_mut().insert(4);
    logic.get_block(4);
    logic.get_block(5);
    let events = logic.state_mut().metrics_mut().take_events();
    assert_eq!(events.len(), 4);
    assert!(matches!(events[0], MetricEvent::CacheAccess { hit: true, .. }));
    assert!(matches!(events[1], MetricEvent::CacheTracking { hit: true, .. }));
    assert!(matches!(events[2], MetricEvent::CacheAccess { hit: false, .. }));
    assert!(matches!(events[3], MetricEvent::CacheTracking { hit: false, .. }));
}

#[test]
fn answers_of_the_endpoint_are_reported() {
    let mut logic = traced();
    logic.get_latest_slot::<String>(Ok(42)).unwrap();
    logic.get_latest_slot(Err("down".to_string())).unwrap_err();
    let fetched: Result<Vec<u64>, String> = Ok(vec![1]);
    logic.get_blocks(fetched, Duration::from_millis(12)).unwrap();
    let fetched: Result<Vec<u64>, String> = Err("down".to_string());
    logic.get_blocks(fetched, Duration::from_millis(13)).unwrap_err();
    let events = logic.state_mut().metrics_mut().take_events();
    assert_eq!(events.len(), 2 + 3 + 3);
    assert!(matches!(events[0], MetricEvent::LatestSlot { slot: 42, .. }));
    assert_eq!(
        events[2],
        MetricEvent::OperationDuration { operation: Operation::GetBlocks, elapsed_ms: 12 }
    );
    assert_eq!(
        events[5],
        MetricEvent::OperationDuration { operation: Operation::GetBlocks, elapsed_ms: 13 }
    );
}
