//! Tests of the EVM scanner planning: cold start, range caps, margins.

use ingestor::errors::AppErr;
use ingestor::evm::ScanPlan;
use ingestor::evm::block_range_by_chain;
use ingestor::evm::plan_scan;
use ingestor::evm::record_scan_success;
use ingestor::evm::resolve_start_cursor;
use ingestor::store::ProgressStore;
use ingestor::store::Setting;

#[test]
fn block_range_is_1998_for_chain_1_and_2000_otherwise() {
    assert_eq!(block_range_by_chain(1), 1998);
    assert_eq!(block_range_by_chain(0), 2000);
    assert_eq!(block_range_by_chain(56), 2000);
    assert_eq!(block_range_by_chain(42161), 2000);
}

#[test]
fn cold_start_initializes_cursor_to_latest_and_waits() {
    let mut store = ProgressStore::new();
    // First cycle: empty store, tip at 1_000_000.
    let cursor = resolve_start_cursor(&mut store, 1, 1_000_000).unwrap();
    assert_eq!(cursor, 1_000_000);
    assert_eq!(
        store.get(Setting::EvmScannedBlock(1)),
        Some("1000000".to_string())
    );
    assert_eq!(plan_scan(cursor, 1_000_000, 1), ScanPlan::Wait);
    // Second cycle: the tip has not moved; the persisted cursor is reused
    // and the scanner still waits.
    let cursor = resolve_start_cursor(&mut store, 1, 1_000_000).unwrap();
    assert_eq!(cursor, 1_000_000);
    assert_eq!(plan_scan(cursor, 1_000_000, 1), ScanPlan::Wait);
    assert_eq!(
        store.get(Setting::EvmScannedBlock(1)),
        Some("1000000".to_string())
    );
}

#[test]
fn range_is_capped_per_chain() {
    // Cursor 100, tip 10_000, chain 1: to = min(9_998, 100 + 1998) = 2_098.
    let plan = plan_scan(100, 10_000, 1);
    assert_eq!(plan, ScanPlan::Fetch { from: 100, to: 2_098 });
    let mut store = ProgressStore::new();
    store
        .insert(Setting::EvmScannedBlock(1), "100".to_string())
        .unwrap();
    let next = record_scan_success(&mut store, 1, 2_098);
    assert_eq!(next, 2_099);
    assert_eq!(store.get(Setting::EvmScannedBlock(1)), Some("2099".to_string()));
    // Another chain is capped at 2000 blocks instead.
    assert_eq!(plan_scan(100, 10_000, 56), ScanPlan::Fetch { from: 100, to: 2_100 });
}

#[test]
fn scanner_waits_inside_the_trailing_margin() {
    assert_eq!(plan_scan(999_998, 1_000_000, 1), ScanPlan::Fetch { from: 999_998, to: 999_998 });
    assert_eq!(plan_scan(999_999, 1_000_000, 1), ScanPlan::Wait);
    assert_eq!(plan_scan(1_000_000, 1_000_000, 1), ScanPlan::Wait);
    assert_eq!(plan_scan(5, 3, 1), ScanPlan::Wait);
    assert_eq!(plan_scan(0, 1, 1), ScanPlan::Wait);
    assert_eq!(plan_scan(0, 0, 1), ScanPlan::Wait);
}

#[test]
fn range_near_tip_is_clamped_to_the_margin() {
    assert_eq!(plan_scan(100, 105, 1), ScanPlan::Fetch { from: 100, to: 103 });
    assert_eq!(plan_scan(100, 102, 1), ScanPlan::Fetch { from: 100, to: 100 });
}

#[test]
fn persisted_cursor_is_reused_on_restart() {
    let mut store = ProgressStore::new();
    store
        .insert(Setting::EvmScannedBlock(7), "424242".to_string())
        .unwrap();
    let cursor = resolve_start_cursor(&mut store, 7, 9_999_999).unwrap();
    assert_eq!(cursor, 424_242);
}

#[test]
fn restart_resumes_one_block_past_the_watermark() {
    let mut store = ProgressStore::new();
    let cursor = resolve_start_cursor(&mut store, 1, 5_000).unwrap();
    assert_eq!(cursor, 5_000);
    let plan = plan_scan(cursor, 9_000, 1);
    let to = match plan {
        ScanPlan::Fetch { from, to } => {
            assert_eq!(from, cursor);
            to
        }
        ScanPlan::Wait => panic!("expected a fetch"),
    };
    let next = record_scan_success(&mut store, 1, to);
    // A clean shutdown and restart resumes strictly after the watermark.
    let resumed = resolve_start_cursor(&mut store, 1, 9_999).unwrap();
    assert_eq!(resumed, next);
    assert_eq!(resumed, to + 1);
    assert!(resumed > cursor);
}

#[test]
fn corrupt_cursor_text_is_a_decode_failure() {
    let mut store = ProgressStore::new();
    store
        .insert(Setting::EvmScannedBlock(7), "not-a-number".to_string())
        .unwrap();
    assert_eq!(
        resolve_start_cursor(&mut store, 7, 9_999_999),
        Err(AppErr::DecodeFailure)
    );
}
