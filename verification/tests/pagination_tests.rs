//! Tests of the chain-B scanner: pagination, drain batches, retries and the
//! cursor advance.

use ingestor::pagination::CONCURRENCY_SIGNATURE;
use ingestor::pagination::FirstSignatureSearch;
use ingestor::pagination::Pagination;
use ingestor::pagination::record_sol_watermark;
use ingestor::pagination::record_transaction;
use ingestor::pagination::requeue_failed;
use ingestor::pagination::take_batch;
use ingestor::store::ProgressStore;
use ingestor::store::Setting;

fn sigs(names: &[&str]) -> Vec<String> {
    names.iter().map(|s| s.to_string()).collect()
}

#[test]
fn pagination_accumulates_pages_and_watermarks_page_one_head() {
    // Pages arrive newest-first: [A,B,C], [D,E], [].
    let mut p = Pagination::new();
    assert_eq!(p.new_watermark(), None);
    p.note_page(sigs(&["A", "B", "C"]));
    p.note_page(sigs(&["D", "E"]));
    p.note_page(Vec::new());
    assert_eq!(*p.collected_list(), sigs(&["A", "B", "C", "D", "E"]));
    assert_eq!(p.new_watermark(), Some("A".to_string()));

    // Consuming the collected signatures marks each exactly once.
    let mut store = ProgressStore::new();
    store
        .insert(Setting::SolCurrentScannedSignature, "S0".to_string())
        .unwrap();
    let mut queue = p.collected_list().clone();
    while !queue.is_empty() {
        let batch = take_batch(&mut queue);
        for sig in batch {
            record_transaction(&mut store, sig, 1_700_000_000, &Vec::new());
        }
    }
    assert_eq!(store.signature_count(), 5);
    for name in ["A", "B", "C", "D", "E"] {
        assert!(store.has_signature(&name.to_string()));
    }
    assert!(!store.has_signature(&"F".to_string()));

    record_sol_watermark(&mut store, p.new_watermark().unwrap());
    assert_eq!(
        store.get(Setting::SolCurrentScannedSignature),
        Some("A".to_string())
    );
}

#[test]
fn empty_result_leaves_cursor_unwritten() {
    let mut p = Pagination::new();
    p.note_page(Vec::new());
    assert_eq!(p.new_watermark(), None);
    assert!(p.collected_list().is_empty());
}

#[test]
fn first_signature_search_keeps_last_of_last_nonempty_page() {
    let mut s = FirstSignatureSearch::new();
    assert_eq!(s.result(), None);
    s.note_page(&sigs(&["X", "Y"]));
    s.note_page(&sigs(&["Z"]));
    s.note_page(&Vec::new());
    assert_eq!(s.result(), Some("Z".to_string()));
}

#[test]
fn first_signature_search_of_empty_history_finds_nothing() {
    let mut s = FirstSignatureSearch::new();
    s.note_page(&Vec::new());
    assert_eq!(s.result(), None);
}

#[test]
fn take_batch_is_bounded_and_ordered() {
    let names: Vec<String> = (0..75).map(|i| format!("S{}", i)).collect();
    let mut queue = names.clone();
    let b1 = take_batch(&mut queue);
    assert_eq!(b1.len(), CONCURRENCY_SIGNATURE);
    assert_eq!(b1[..], names[..30]);
    let b2 = take_batch(&mut queue);
    assert_eq!(b2[..], names[30..60]);
    let b3 = take_batch(&mut queue);
    assert_eq!(b3[..], names[60..75]);
    assert!(queue.is_empty());
}

#[test]
fn failed_signatures_are_retried_in_the_same_cycle() {
    let mut queue = sigs(&["rest"]);
    let batch = sigs(&["A", "B", "C"]);
    let failed = vec![true, false, true];
    requeue_failed(&mut queue, batch, &failed);
    assert_eq!(queue, sigs(&["rest", "A", "C"]));
}

#[test]
fn record_transaction_decodes_and_marks() {
    let mut store = ProgressStore::new();
    let events = record_transaction(
        &mut store,
        "Sig1".to_string(),
        1_700_000_123,
        &vec!["Program log: nothing here".to_string()],
    );
    assert!(events.is_empty());
    assert!(store.has_signature(&"Sig1".to_string()));
    // Re-ingesting the same signature is a no-op.
    record_transaction(&mut store, "Sig1".to_string(), 1_700_999_999, &Vec::new());
    assert_eq!(store.signature_count(), 1);
}
