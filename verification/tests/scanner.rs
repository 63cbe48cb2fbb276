use opuza_monero_client::{
    Ledger, OpuzaInvoice, Piconero, ScanReport, TransferCategory, TransferHeight, TransferRecord,
};

fn invoice(value: u64) -> OpuzaInvoice {
    OpuzaInvoice::issue("memo", Piconero::new(value), "84abc", &value.to_le_bytes())
}

fn transfer(minor: u32, amount: u64, confirmations: u64, height: u64) -> TransferRecord {
    TransferRecord {
        amount,
        confirmations: Some(confirmations),
        double_spend_seen: false,
        height: TransferHeight::Confirmed(height),
        unlock_time: 0,
        subaddr_minor: minor,
    }
}

#[test]
fn plain_transfer_needs_no_confirmation() {
    let t = transfer(1, 100, 0, 50);
    assert_eq!(t.required_confirmations(60), 0);
    assert!(t.satisfies(60, 100));
    assert!(t.satisfies(60, 99));
    assert!(!t.satisfies(60, 101));
    let silent = TransferRecord { confirmations: None, ..t };
    assert_eq!(silent.confirmations_seen(), 0);
    assert!(silent.satisfies(60, 100));
}

#[test]
fn double_spend_needs_one_confirmation() {
    let mut t = transfer(1, 100, 0, 50);
    t.double_spend_seen = true;
    assert_eq!(t.required_confirmations(60), 1);
    assert!(!t.satisfies(60, 100));
    t.confirmations = Some(1);
    assert!(t.satisfies(60, 100));
    assert!(!t.satisfies(60, 101));
    t.confirmations = None;
    assert!(!t.satisfies(60, 100));
}

#[test]
fn lock_five_blocks_ahead_needs_five_confirmations() {
    let mut t = transfer(1, 100, 0, 100);
    t.unlock_time = 105;
    t.height = TransferHeight::Confirmed(100);
    for seen in 0..5u64 {
        t.confirmations = Some(seen);
        assert_eq!(t.required_confirmations(100 + seen), 5);
        assert!(!t.satisfies(100 + seen, 100));
    }
    t.confirmations = Some(5);
    assert!(t.satisfies(104, 100));
    assert!(t.satisfies(105, 100));
}

#[test]
fn lock_overrides_double_spend() {
    let mut t = transfer(1, 100, 3, 100);
    t.unlock_time = 103;
    t.double_spend_seen = true;
    assert_eq!(t.required_confirmations(101), 3);
    assert!(t.satisfies(101, 100));
    assert_eq!(t.required_confirmations(103), 1);
}

#[test]
fn lock_in_pool_counts_from_the_tip() {
    let t = TransferRecord {
        amount: 100,
        confirmations: Some(0),
        double_spend_seen: false,
        height: TransferHeight::InPool,
        unlock_time: 110,
        subaddr_minor: 1,
    };
    assert_eq!(t.required_confirmations(100), 10);
    assert_eq!(t.required_confirmations(109), 1);
    assert_eq!(t.required_confirmations(110), 0);
    assert!(!t.satisfies(100, 100));
    assert!(t.satisfies(110, 100));
}

#[test]
fn pool_with_confirmations_asks_for_them_on_top() {
    let mut t = TransferRecord {
        amount: 100,
        confirmations: Some(4),
        double_spend_seen: true,
        height: TransferHeight::InPool,
        unlock_time: 0,
        subaddr_minor: 1,
    };
    assert_eq!(t.required_confirmations(100), 5);
    assert!(!t.satisfies(100, 100));
    t.confirmations = Some(u64::MAX);
    assert_eq!(t.required_confirmations(100), u64::MAX as u128 + 1);
    assert!(!t.satisfies(100, 100));
    t.unlock_time = u64::MAX;
    assert_eq!(
        t.required_confirmations(0),
        u64::MAX as u128 + u64::MAX as u128
    );
    t.double_spend_seen = false;
    t.unlock_time = 0;
    t.confirmations = Some(4);
    assert_eq!(t.required_confirmations(100), 0);
    assert!(t.satisfies(100, 100));
}

#[test]
fn height_above_unlock_counts_from_the_tip() {
    let mut t = transfer(1, 100, 0, 120);
    t.unlock_time = 110;
    assert_eq!(t.required_confirmations(100), 10);
    assert!(!t.satisfies(100, 100));
    t.double_spend_seen = true;
    assert_eq!(t.required_confirmations(100), 10);
    assert!(!t.satisfies(100, 100));
    t.height = TransferHeight::Confirmed(110);
    assert_eq!(t.required_confirmations(109), 1);
    assert!(!t.satisfies(109, 100));
    t.confirmations = Some(10);
    assert!(t.satisfies(100, 100));
    assert_eq!(t.required_confirmations(110), 1);
}

#[test]
fn locked_transfer_without_confirmations_settles_nothing() {
    for (height, unlock, tip) in [
        (100u64, 105u64, 100u64),
        (100, 105, 104),
        (104, 105, 100),
        (105, 105, 100),
        (200, 105, 100),
        (1, u64::MAX, 0),
        (u64::MAX, u64::MAX, u64::MAX - 1),
    ] {
        let mut t = transfer(1, 100, 0, height);
        t.unlock_time = unlock;
        assert!(t.required_confirmations(tip) >= 1);
        assert!(!t.satisfies(tip, 0));
        t.height = TransferHeight::InPool;
        assert!(t.required_confirmations(tip) >= 1);
        assert!(!t.satisfies(tip, 0));
    }
}

#[test]
fn checkpoint_waits_for_the_labels() {
    let report = ScanReport {
        settled: vec![1, 2],
        checkpoint: Some(120),
    };
    assert_eq!(report.checkpoint_after(true), Some(120));
    assert_eq!(report.checkpoint_after(false), None);
    let held = ScanReport {
        settled: vec![],
        checkpoint: None,
    };
    assert_eq!(held.checkpoint_after(true), None);
    assert_eq!(held.checkpoint_after(false), None);
}

#[test]
fn ledger_keeps_the_latest_invoice_of_an_address() {
    let mut ledger = Ledger::new();
    assert!(!ledger.contains(3));
    assert!(ledger.get(3).is_none());
    ledger.insert(3, invoice(10));
    ledger.insert(4, invoice(20));
    assert!(ledger.contains(3));
    assert_eq!(ledger.get(3).unwrap().value, 10);
    assert_eq!(ledger.get(4).unwrap().value, 20);
    ledger.insert(3, invoice(30));
    assert_eq!(ledger.get(3).unwrap().value, 30);
    assert_eq!(ledger.get(4).unwrap().value, 20);
    assert!(ledger.get(5).is_none());
}

#[test]
fn examine_settles_once() {
    let mut ledger = Ledger::new();
    ledger.insert(1, invoice(100));
    let t = transfer(1, 150, 0, 50);
    assert_eq!(ledger.examine(&t, 60), (true, true));
    let settled = ledger.get(1).unwrap();
    assert!(settled.is_settled);
    assert_eq!(settled.amount_settled, 150);
    assert_eq!(settled.value, 100);
    assert_eq!(settled.memo, "memo");
    assert_eq!(ledger.examine(&t, 60), (false, true));
    assert_eq!(ledger.get(1).unwrap().amount_settled, 150);
    let other = transfer(1, 500, 0, 50);
    assert_eq!(ledger.examine(&other, 60), (false, true));
    assert_eq!(ledger.get(1).unwrap().amount_settled, 150);
}

#[test]
fn examine_skips_addresses_without_invoice() {
    let mut ledger = Ledger::new();
    ledger.insert(1, invoice(100));
    assert_eq!(ledger.examine(&transfer(2, 1, 0, 50), 60), (false, true));
    assert!(!ledger.contains(2));
    assert!(!ledger.get(1).unwrap().is_settled);
}

#[test]
fn examine_leaves_underpaid_invoice_unresolved() {
    let mut ledger = Ledger::new();
    ledger.insert(1, invoice(100));
    assert_eq!(ledger.examine(&transfer(1, 99, 10, 50), 60), (false, false));
    assert!(!ledger.get(1).unwrap().is_settled);
    assert_eq!(ledger.get(1).unwrap().amount_settled, 0);
}

#[test]
fn scan_of_nothing_advances_to_the_tip() {
    let mut ledger = Ledger::new();
    let report = ledger.scan(&vec![], 77, None);
    assert!(report.settled.is_empty());
    assert_eq!(report.checkpoint, Some(77));
    let report = ledger.scan(&vec![], 77, Some(77));
    assert_eq!(report.checkpoint, Some(77));
    let report = ledger.scan(&vec![], 77, Some(78));
    assert_eq!(report.checkpoint, None);
}

#[test]
fn checkpoint_holdback() {
    let mut ledger = Ledger::new();
    ledger.insert(1, invoice(100));
    ledger.insert(2, invoice(200));
    let mut waiting = transfer(1, 100, 0, 100);
    waiting.double_spend_seen = true;
    let paid = transfer(2, 200, 3, 98);
    let floor_checkpoint = Some(95);

    let report = ledger.scan(&vec![waiting, paid], 101, floor_checkpoint);
    assert_eq!(report.settled, vec![2]);
    assert_eq!(report.checkpoint, None);
    assert!(ledger.get(2).unwrap().is_settled);
    assert_eq!(ledger.get(2).unwrap().amount_settled, 200);
    assert!(!ledger.get(1).unwrap().is_settled);

    waiting.confirmations = Some(1);
    let paid_later = transfer(2, 200, 4, 98);
    let report = ledger.scan(&vec![waiting, paid_later], 102, floor_checkpoint);
    assert_eq!(report.settled, vec![1]);
    assert_eq!(report.checkpoint, Some(102));
    assert!(ledger.get(1).unwrap().is_settled);
    assert!(ledger.get(2).unwrap().is_settled);
}

#[test]
fn second_scan_changes_nothing() {
    let mut ledger = Ledger::new();
    ledger.insert(1, invoice(100));
    ledger.insert(2, invoice(200));
    ledger.insert(3, invoice(300));
    let transfers = vec![
        transfer(1, 120, 2, 90),
        transfer(2, 199, 2, 91),
        transfer(9, 5, 0, 92),
        transfer(1, 700, 1, 93),
        transfer(3, 300, 0, 94),
    ];
    let first = ledger.scan(&transfers, 100, Some(90));
    assert_eq!(first.settled, vec![1, 3]);
    assert_eq!(first.checkpoint, None);
    assert_eq!(ledger.get(1).unwrap().amount_settled, 120);
    assert_eq!(ledger.get(3).unwrap().amount_settled, 300);
    assert!(!ledger.get(2).unwrap().is_settled);

    let second = ledger.scan(&transfers, 100, Some(90));
    assert!(second.settled.is_empty());
    assert_eq!(second.checkpoint, None);
    assert_eq!(ledger.get(1).unwrap().amount_settled, 120);
    assert_eq!(ledger.get(3).unwrap().amount_settled, 300);
    assert!(ledger.get(1).unwrap().is_settled);
    assert!(!ledger.get(2).unwrap().is_settled);
}

#[test]
fn settled_invoice_stays_settled() {
    let mut ledger = Ledger::new();
    ledger.insert(1, invoice(100));
    ledger.scan(&vec![transfer(1, 100, 0, 10)], 20, None);
    assert!(ledger.get(1).unwrap().is_settled);
    let mut doubtful = transfer(1, 1, 0, 30);
    doubtful.double_spend_seen = true;
    doubtful.unlock_time = 1000;
    let report = ledger.scan(&vec![doubtful, transfer(1, 0, 0, 31)], 40, Some(20));
    assert!(report.settled.is_empty());
    assert_eq!(report.checkpoint, None);
    assert!(ledger.get(1).unwrap().is_settled);
    assert_eq!(ledger.get(1).unwrap().amount_settled, 100);
}

#[test]
fn two_transfers_to_one_address_write_one_label() {
    let mut ledger = Ledger::new();
    ledger.insert(5, invoice(100));
    let report = ledger.scan(
        &vec![transfer(5, 100, 1, 10), transfer(5, 400, 1, 11)],
        20,
        Some(12),
    );
    assert_eq!(report.settled, vec![5]);
    assert_eq!(report.checkpoint, Some(20));
    assert_eq!(ledger.get(5).unwrap().amount_settled, 100);
}

#[test]
fn checkpoint_does_not_move_back() {
    let mut ledger = Ledger::new();
    ledger.insert(1, invoice(100));
    let report = ledger.scan(&vec![transfer(1, 100, 0, 10)], 50, Some(60));
    assert_eq!(report.settled, vec![1]);
    assert_eq!(report.checkpoint, None);
}

#[test]
fn scan_covers_incoming_categories() {
    assert!(TransferCategory::In.is_scanned());
    assert!(TransferCategory::Pending.is_scanned());
    assert!(TransferCategory::Pool.is_scanned());
    assert!(!TransferCategory::Out.is_scanned());
    assert!(!TransferCategory::Failed.is_scanned());
    assert!(!TransferCategory::Block.is_scanned());
}
