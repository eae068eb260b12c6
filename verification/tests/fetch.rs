use blockchain_data::{FetchCursor, FetchFlow, FetchStep, FETCH_PAUSE_MS, IDLE_PAUSE_MS};

#[test]
fn waits_until_block_is_confirmed() {
    let cursor = FetchCursor::new(1, 20);
    assert_eq!(cursor.current_block(), 1);
    assert_eq!(cursor.confirmations(), 20);
    assert_eq!(cursor.step(false, 0), FetchStep::Wait { pause_ms: IDLE_PAUSE_MS });
    assert_eq!(cursor.step(false, 19), FetchStep::Wait { pause_ms: IDLE_PAUSE_MS });
    assert_eq!(cursor.step(false, 20), FetchStep::Wait { pause_ms: IDLE_PAUSE_MS });
    assert_eq!(cursor.step(false, 21), FetchStep::Fetch { number: 1 });
    assert_eq!(cursor.step(false, 1000), FetchStep::Fetch { number: 1 });
    assert_eq!(IDLE_PAUSE_MS, 1000);
}

#[test]
fn provider_change_restarts() {
    let cursor = FetchCursor::new(5, 0);
    assert_eq!(cursor.step(true, 1000), FetchStep::Restart);
    assert_eq!(cursor.step(true, 0), FetchStep::Restart);
}

#[test]
fn zero_confirmations_fetch_latest() {
    let cursor = FetchCursor::new(5, 0);
    assert_eq!(cursor.step(false, 4), FetchStep::Wait { pause_ms: IDLE_PAUSE_MS });
    assert_eq!(cursor.step(false, 5), FetchStep::Fetch { number: 5 });
}

#[test]
fn record_moves_on_only_after_a_block() {
    let mut cursor = FetchCursor::new(7, 2);
    assert_eq!(cursor.record(true), FetchFlow::Continue { pause_ms: FETCH_PAUSE_MS });
    assert_eq!(cursor.current_block(), 8);
    assert_eq!(cursor.record(false), FetchFlow::AwaitProvider);
    assert_eq!(cursor.current_block(), 8);
    assert_eq!(cursor.step(false, 10), FetchStep::Fetch { number: 8 });
    assert_eq!(cursor.step(false, 9), FetchStep::Wait { pause_ms: IDLE_PAUSE_MS });
    assert_eq!(FETCH_PAUSE_MS, 100);
}

#[test]
fn largest_block_numbers() {
    let cursor = FetchCursor::new(u64::MAX, 0);
    assert_eq!(cursor.step(false, u64::MAX), FetchStep::Fetch { number: u64::MAX });
    let cursor = FetchCursor::new(0, u64::MAX);
    assert_eq!(cursor.step(false, u64::MAX - 1), FetchStep::Wait { pause_ms: IDLE_PAUSE_MS });
    assert_eq!(cursor.step(false, u64::MAX), FetchStep::Fetch { number: 0 });
}
