use synapse_core::services::reconciliation::{
    collect_payment_page, daily_window, perform_matching, AmountMismatch, ChainPayment, DbTransaction, HorizonPaymentRecord,
    MissingTransaction, OrphanedPayment, ReconciliationReport,
};
use uuid::Uuid;

fn make_period() -> (i64, i64) {
    // 2026-06-01T00:00:00Z and 2026-06-02T00:00:00Z, in microseconds.
    (1_780_272_000_000_000, 1_780_358_400_000_000)
}

fn fixed_time() -> i64 {
    // 2026-06-01T12:00:00Z, in microseconds.
    1_780_315_200_000_000
}

fn make_db_tx(index: u128, account: &str, amount: &str, asset: &str, memo: Option<&str>) -> DbTransaction {
    DbTransaction {
        id: Uuid::from_u128(index),
        stellar_account: account.to_string(),
        amount: amount.to_string(),
        asset_code: asset.to_string(),
        memo: memo.map(str::to_string),
        created_at: fixed_time(),
    }
}

fn make_chain_payment(id: &str, to: &str, amount: &str, asset: &str, memo: Option<&str>) -> ChainPayment {
    ChainPayment {
        id: id.to_string(),
        from: "GSRC".to_string(),
        to: to.to_string(),
        amount: amount.to_string(),
        asset_code: asset.to_string(),
        memo: memo.map(str::to_string),
    }
}

fn check_conservation(report: &ReconciliationReport) {
    assert_eq!(
        report.total_db_transactions,
        report.matched_count
            + report.missing_on_chain.len()
            + report.ambiguous_db.len()
            + report.unmatched_no_memo_db.len(),
        "DB conservation violated"
    );
    assert_eq!(
        report.total_chain_payments,
        report.matched_count
            + report.orphaned_payments.len()
            + report.ambiguous_chain.len()
            + report.unmatched_no_memo_chain.len(),
        "chain conservation violated"
    );
}

#[test]
fn test_reconciliation_report_empty_sets() {
    let (start, end) = make_period();
    let report = ReconciliationReport {
        generated_at: 0,
        period_start: start,
        period_end: end,
        total_db_transactions: 0,
        total_chain_payments: 0,
        matched_count: 0,
        missing_on_chain: vec![],
        orphaned_payments: vec![],
        amount_mismatches: vec![],
        ambiguous_db: vec![],
        ambiguous_chain: vec![],
        unmatched_no_memo_db: vec![],
        unmatched_no_memo_chain: vec![],
    };
    assert_eq!(report.total_db_transactions, 0);
    assert_eq!(report.total_chain_payments, 0);
    assert!(report.missing_on_chain.is_empty());
    assert!(report.orphaned_payments.is_empty());
    assert!(report.amount_mismatches.is_empty());
}

#[test]
fn test_missing_transaction_fields() {
    let id = Uuid::new_v4();
    let now = fixed_time();
    let missing = MissingTransaction {
        id,
        stellar_account: "GABC123".to_string(),
        amount: "100.00".to_string(),
        asset_code: "USDC".to_string(),
        memo: Some("memo-xyz".to_string()),
        created_at: now,
    };
    assert_eq!(missing.id, id);
    assert_eq!(missing.stellar_account, "GABC123");
    assert_eq!(missing.amount, "100.00");
    assert_eq!(missing.asset_code, "USDC");
    assert_eq!(missing.memo.as_deref(), Some("memo-xyz"));
}

#[test]
fn test_orphaned_payment_fields() {
    let orphan = OrphanedPayment {
        payment_id: "pay-001".to_string(),
        from: "GABC".to_string(),
        to: "GXYZ".to_string(),
        amount: "50.00".to_string(),
        asset_code: "USDC".to_string(),
        memo: Some("orphan-memo".to_string()),
    };
    assert_eq!(orphan.payment_id, "pay-001");
    assert_eq!(orphan.from, "GABC");
    assert_eq!(orphan.to, "GXYZ");
    assert_eq!(orphan.memo.as_deref(), Some("orphan-memo"));
}

#[test]
fn test_amount_mismatch_fields() {
    let tx_id = Uuid::new_v4();
    let mismatch = AmountMismatch {
        transaction_id: tx_id,
        payment_id: "pay-002".to_string(),
        db_amount: "100.00".to_string(),
        chain_amount: "99.99".to_string(),
        memo: Some("mismatch-memo".to_string()),
    };
    assert_eq!(mismatch.transaction_id, tx_id);
    assert_eq!(mismatch.db_amount, "100.00");
    assert_eq!(mismatch.chain_amount, "99.99");
    assert_ne!(mismatch.db_amount, mismatch.chain_amount);
}

#[test]
fn test_matching_empty_inputs() {
    let (start, end) = make_period();
    let report = perform_matching(&[], &[], start, end);
    assert_eq!(report.total_db_transactions, 0);
    assert_eq!(report.total_chain_payments, 0);
    assert_eq!(report.matched_count, 0);
    check_conservation(&report);
}

#[test]
fn test_matching_exact_single_pair() {
    let (start, end) = make_period();
    let db = vec![make_db_tx(1, "GACC", "100.00", "USDC", Some("memo-1"))];
    let chain = vec![make_chain_payment("cp-1", "GACC", "100.00", "USDC", Some("memo-1"))];
    let report = perform_matching(&db, &chain, start, end);
    assert_eq!(report.matched_count, 1);
    assert!(report.missing_on_chain.is_empty());
    assert!(report.orphaned_payments.is_empty());
    assert!(report.amount_mismatches.is_empty());
    check_conservation(&report);
}

#[test]
fn test_matching_duplicate_memos_both_sides_all_matched() {
    let (start, end) = make_period();
    let db = vec![
        make_db_tx(1, "GACC", "50.00", "USDC", Some("dup-memo")),
        make_db_tx(2, "GACC", "50.00", "USDC", Some("dup-memo")),
    ];
    let chain = vec![
        make_chain_payment("cp-1", "GACC", "50.00", "USDC", Some("dup-memo")),
        make_chain_payment("cp-2", "GACC", "50.00", "USDC", Some("dup-memo")),
    ];
    let report = perform_matching(&db, &chain, start, end);
    assert_eq!(report.matched_count, 2);
    assert!(report.missing_on_chain.is_empty());
    assert!(report.orphaned_payments.is_empty());
    assert!(report.amount_mismatches.is_empty());
    assert!(report.ambiguous_db.is_empty());
    check_conservation(&report);
}

#[test]
fn test_matching_duplicate_memo_2db_1chain_one_missing() {
    let (start, end) = make_period();
    let db = vec![
        make_db_tx(1, "GACC", "50.00", "USDC", Some("dup-memo")),
        make_db_tx(2, "GACC", "50.00", "USDC", Some("dup-memo")),
    ];
    let chain = vec![make_chain_payment("cp-1", "GACC", "50.00", "USDC", Some("dup-memo"))];
    let report = perform_matching(&db, &chain, start, end);
    assert_eq!(report.matched_count, 1);
    assert_eq!(report.missing_on_chain.len(), 1);
    assert!(report.orphaned_payments.is_empty());
    assert!(report.amount_mismatches.is_empty());
    check_conservation(&report);
}

#[test]
fn test_matching_partial_group_3db_2chain() {
    let (start, end) = make_period();
    let db = vec![
        make_db_tx(1, "GACC", "100.00", "USDC", Some("memo-x")),
        make_db_tx(2, "GACC", "200.00", "USDC", Some("memo-x")),
        make_db_tx(3, "GACC", "300.00", "USDC", Some("memo-x")),
    ];
    let chain = vec![
        make_chain_payment("cp-1", "GACC", "100.00", "USDC", Some("memo-x")),
        make_chain_payment("cp-2", "GACC", "200.00", "USDC", Some("memo-x")),
    ];
    let report = perform_matching(&db, &chain, start, end);
    assert_eq!(report.matched_count, 2);
    assert_eq!(report.missing_on_chain.len(), 1);
    assert_eq!(report.missing_on_chain[0].amount, "300.00");
    assert!(report.orphaned_payments.is_empty());
    assert!(report.amount_mismatches.is_empty());
    check_conservation(&report);
}

#[test]
fn test_matching_amount_mismatch_within_memo_group() {
    let (start, end) = make_period();
    let db = vec![make_db_tx(1, "GACC", "100.00", "USDC", Some("memo-m"))];
    let chain = vec![make_chain_payment("cp-1", "GACC", "99.00", "USDC", Some("memo-m"))];
    let report = perform_matching(&db, &chain, start, end);
    assert_eq!(report.matched_count, 1);
    assert_eq!(report.amount_mismatches.len(), 1);
    assert_eq!(report.amount_mismatches[0].db_amount, "100.00");
    assert_eq!(report.amount_mismatches[0].chain_amount, "99.00");
    assert!(report.missing_on_chain.is_empty());
    assert!(report.orphaned_payments.is_empty());
    check_conservation(&report);
}

#[test]
fn test_matching_ambiguous_group_incompatible_assets() {
    let (start, end) = make_period();
    let db = vec![
        make_db_tx(1, "GACC", "100.00", "USDC", Some("memo-amb")),
        make_db_tx(2, "GACC", "200.00", "USDC", Some("memo-amb")),
    ];
    let chain = vec![
        make_chain_payment("cp-1", "GACC", "100.00", "XLM", Some("memo-amb")),
        make_chain_payment("cp-2", "GACC", "200.00", "XLM", Some("memo-amb")),
    ];
    let report = perform_matching(&db, &chain, start, end);
    assert_eq!(report.ambiguous_db.len(), 2);
    assert_eq!(report.ambiguous_chain.len(), 2);
    assert_eq!(report.matched_count, 0);
    assert!(report.missing_on_chain.is_empty());
    assert!(report.orphaned_payments.is_empty());
    check_conservation(&report);
}

#[test]
fn test_matching_none_memo_db_matched_by_account_amount() {
    let (start, end) = make_period();
    let db = vec![make_db_tx(1, "GACC", "15.00", "USDC", None)];
    let chain = vec![make_chain_payment("cp-1", "GACC", "15.00", "USDC", None)];
    let report = perform_matching(&db, &chain, start, end);
    assert_eq!(report.matched_count, 1);
    assert!(report.unmatched_no_memo_db.is_empty());
    assert!(report.unmatched_no_memo_chain.is_empty());
    check_conservation(&report);
}

#[test]
fn test_matching_none_memo_db_no_chain_counterpart() {
    let (start, end) = make_period();
    let db = vec![make_db_tx(1, "GACC", "15.00", "USDC", None)];
    let report = perform_matching(&db, &[], start, end);
    assert_eq!(report.unmatched_no_memo_db.len(), 1);
    assert_eq!(report.unmatched_no_memo_db[0].amount, "15.00");
    assert!(report.missing_on_chain.is_empty());
    check_conservation(&report);
}

#[test]
fn test_matching_none_memo_chain_no_db_counterpart() {
    let (start, end) = make_period();
    let chain = vec![make_chain_payment("cp-1", "GACC", "15.00", "USDC", None)];
    let report = perform_matching(&[], &chain, start, end);
    assert_eq!(report.unmatched_no_memo_chain.len(), 1);
    assert!(report.orphaned_payments.is_empty());
    check_conservation(&report);
}

#[test]
fn test_matching_none_memos_both_sides_partial() {
    let (start, end) = make_period();
    let db = vec![
        make_db_tx(1, "GACC", "10.00", "USDC", None),
        make_db_tx(2, "GACC", "10.00", "USDC", None),
    ];
    let chain = vec![make_chain_payment("cp-1", "GACC", "10.00", "USDC", None)];
    let report = perform_matching(&db, &chain, start, end);
    assert_eq!(report.matched_count, 1);
    assert_eq!(report.unmatched_no_memo_db.len(), 1);
    assert!(report.unmatched_no_memo_chain.is_empty());
    check_conservation(&report);
}

#[test]
fn test_matching_conservation_complex_fixture() {
    let (start, end) = make_period();
    let db = vec![
        make_db_tx(1, "GACC", "10.00", "USDC", Some("memo-A")),
        make_db_tx(2, "GACC", "20.00", "USDC", Some("memo-B")),
        make_db_tx(3, "GACC", "20.00", "USDC", Some("memo-B")),
        make_db_tx(4, "GACC", "30.00", "USDC", Some("memo-C")),
        make_db_tx(5, "GACC", "40.00", "USDC", None),
    ];
    let chain = vec![
        make_chain_payment("cp-A", "GACC", "10.00", "USDC", Some("memo-A")),
        make_chain_payment("cp-B", "GACC", "20.00", "USDC", Some("memo-B")),
        make_chain_payment("cp-C", "GACC", "31.00", "USDC", Some("memo-C")),
        make_chain_payment("cp-D", "GACC", "99.00", "USDC", Some("memo-D")),
        make_chain_payment("cp-NM", "GACC", "40.00", "USDC", None),
    ];
    let report = perform_matching(&db, &chain, start, end);
    assert_eq!(report.matched_count, 4);
    assert_eq!(report.missing_on_chain.len(), 1);
    assert_eq!(report.orphaned_payments.len(), 1);
    assert_eq!(report.amount_mismatches.len(), 1);
    check_conservation(&report);
}

#[test]
fn matching_report_carries_period_and_record_details() {
    let (start, end) = make_period();
    let db = vec![make_db_tx(7, "GACC", "30.00", "USDC", Some("memo-C"))];
    let chain = vec![
        make_chain_payment("cp-C", "GACC", "31.00", "USDC", Some("memo-C")),
        make_chain_payment("cp-D", "GACC", "99.00", "USDC", Some("memo-D")),
    ];
    let report = perform_matching(&db, &chain, start, end);
    assert_eq!(report.period_start, start);
    assert_eq!(report.period_end, end);
    assert_eq!(report.amount_mismatches[0].transaction_id, Uuid::from_u128(7));
    assert_eq!(report.amount_mismatches[0].payment_id, "cp-C");
    assert_eq!(report.amount_mismatches[0].memo.as_deref(), Some("memo-C"));
    assert_eq!(report.orphaned_payments[0].payment_id, "cp-D");
    assert_eq!(report.orphaned_payments[0].memo.as_deref(), Some("memo-D"));
}

#[test]
fn ambiguous_rows_carry_reason() {
    let (start, end) = make_period();
    let db = vec![make_db_tx(1, "GACC", "100.00", "USDC", Some("m"))];
    let chain = vec![
        make_chain_payment("cp-1", "GACC", "100.00", "XLM", Some("m")),
        make_chain_payment("cp-2", "GACC", "5.00", "EUR", Some("m")),
    ];
    let report = perform_matching(&db, &chain, start, end);
    let reason = "memo 'm': 1 DB row(s) and 2 chain payment(s) unresolved after exact and asset-only matching";
    assert_eq!(report.ambiguous_db.len(), 1);
    assert_eq!(report.ambiguous_db[0].reason, reason);
    assert_eq!(report.ambiguous_chain.len(), 2);
    assert_eq!(report.ambiguous_chain[1].reason, reason);
    assert_eq!(report.ambiguous_chain[1].payment_id, "cp-2");
    check_conservation(&report);
}

#[test]
fn exact_match_preferred_over_earlier_asset_only_candidate() {
    let (start, end) = make_period();
    let db = vec![make_db_tx(1, "GACC", "20.00", "USDC", Some("m"))];
    let chain = vec![
        make_chain_payment("cp-1", "GACC", "19.00", "USDC", Some("m")),
        make_chain_payment("cp-2", "GACC", "20.00", "USDC", Some("m")),
    ];
    let report = perform_matching(&db, &chain, start, end);
    assert_eq!(report.matched_count, 1);
    assert!(report.amount_mismatches.is_empty());
    assert_eq!(report.orphaned_payments.len(), 1);
    assert_eq!(report.orphaned_payments[0].payment_id, "cp-1");
}

#[test]
fn reported_mismatches_never_agree_on_amount() {
    let (start, end) = make_period();
    let db = vec![
        make_db_tx(1, "GACC", "10.00", "USDC", Some("m")),
        make_db_tx(2, "GACC", "20.00", "USDC", Some("m")),
    ];
    let chain = vec![
        make_chain_payment("cp-1", "GACC", "20.00", "USDC", Some("m")),
        make_chain_payment("cp-2", "GACC", "30.00", "USDC", Some("m")),
    ];
    let report = perform_matching(&db, &chain, start, end);
    assert_eq!(report.matched_count, 2);
    assert_eq!(report.amount_mismatches.len(), 1);
    assert_eq!(report.amount_mismatches[0].db_amount, "10.00");
    assert_eq!(report.amount_mismatches[0].chain_amount, "30.00");
    assert_eq!(report.amount_mismatches[0].payment_id, "cp-2");
    check_conservation(&report);
}

#[test]
fn memo_less_pairing_requires_destination_account() {
    let (start, end) = make_period();
    let db = vec![make_db_tx(1, "GACC", "15.00", "USDC", None)];
    let chain = vec![make_chain_payment("cp-1", "GOTHER", "15.00", "USDC", None)];
    let report = perform_matching(&db, &chain, start, end);
    assert_eq!(report.matched_count, 0);
    assert_eq!(report.unmatched_no_memo_db.len(), 1);
    assert_eq!(report.unmatched_no_memo_chain.len(), 1);
    check_conservation(&report);
}

fn horizon_record(id: &str, created_at: Option<&str>) -> HorizonPaymentRecord {
    HorizonPaymentRecord {
        id: id.to_string(),
        from: "GFROM".to_string(),
        to: "GTO".to_string(),
        amount: "1.0".to_string(),
        asset_code: "USDC".to_string(),
        memo: Some(format!("memo-{id}")),
        created_at: created_at.map(|s| s.to_string()),
    }
}

fn micros(s: &str) -> i64 {
    s.parse::<chrono::DateTime<chrono::Utc>>().unwrap().timestamp_micros()
}

#[test]
fn payment_page_skips_early_records_and_follows_next_link() {
    let start = micros("2024-01-01T00:00:00Z");
    let end = micros("2024-01-31T23:59:59Z");
    let records = vec![
        horizon_record("early", Some("2023-12-31T23:59:59Z")),
        horizon_record("inside", Some("2024-01-15T12:00:00Z")),
        horizon_record("unstamped", None),
        horizon_record("garbled", Some("not a time")),
        horizon_record("at-end", Some("2024-01-31T23:59:59Z")),
    ];
    let mut payments = Vec::new();
    let next = collect_payment_page(&records, Some("next-page".to_string()), start, end, &mut payments);
    assert_eq!(next, Some("next-page".to_string()));
    let ids: Vec<&str> = payments.iter().map(|p| p.id.as_str()).collect();
    assert_eq!(ids, vec!["inside", "unstamped", "garbled", "at-end"]);
    assert_eq!(payments[0].memo.as_deref(), Some("memo-inside"));
    assert_eq!(payments[0].to, "GTO");
}

#[test]
fn payment_page_stops_at_first_record_past_the_window() {
    let start = micros("2024-01-01T00:00:00Z");
    let end = micros("2024-01-31T23:59:59Z");
    let records = vec![
        horizon_record("inside", Some("2024-01-02T00:00:00Z")),
        horizon_record("late", Some("2024-01-31T23:59:59.000000001Z")),
        horizon_record("after-late", Some("2024-01-03T00:00:00Z")),
    ];
    let mut payments = Vec::new();
    let next = collect_payment_page(&records, Some("next-page".to_string()), start, end, &mut payments);
    assert_eq!(next, None);
    assert_eq!(payments.len(), 1);
    assert_eq!(payments[0].id, "inside");
}

#[test]
fn empty_payment_page_ends_the_listing() {
    let mut payments = Vec::new();
    let next = collect_payment_page(&Vec::new(), Some("next-page".to_string()), 0, 10, &mut payments);
    assert_eq!(next, None);
    assert!(payments.is_empty());
}

#[test]
fn last_payment_page_without_next_link_ends_the_listing() {
    let records = vec![horizon_record("only", None)];
    let mut payments = Vec::new();
    let next = collect_payment_page(&records, None, 0, 10, &mut payments);
    assert_eq!(next, None);
    assert_eq!(payments.len(), 1);
}

#[test]
fn discrepancies_are_flagged() {
    let (start, end) = make_period();
    let clean = perform_matching(&[], &[], start, end);
    assert!(!clean.has_discrepancies());
    let db = vec![make_db_tx(1, "GABC", "10.00", "USDC", Some("m1"))];
    let report = perform_matching(&db, &[], start, end);
    assert!(report.has_discrepancies());
}

#[test]
fn daily_window_is_the_previous_24_hours() {
    assert_eq!(daily_window(1_780_358_400_000_000), (1_780_272_000_000_000, 1_780_358_400_000_000));
}
