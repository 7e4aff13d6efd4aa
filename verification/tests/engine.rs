use payments_ledger::{ApplyOutcome, Client, Ledger, Record, Transaction, TransactionType};

fn deposit(client_id: u16, tx_id: u32, units: i64) -> Record {
    Record {
        transaction_type: TransactionType::Deposit,
        client_id,
        tx_id,
        amount: Some(units),
    }
}

fn withdrawal(client_id: u16, tx_id: u32, units: i64) -> Record {
    Record {
        transaction_type: TransactionType::Withdrawal,
        client_id,
        tx_id,
        amount: Some(units),
    }
}

fn reference(transaction_type: TransactionType, client_id: u16, tx_id: u32) -> Record {
    Record {
        transaction_type,
        client_id,
        tx_id,
        amount: None,
    }
}

fn dispute(client_id: u16, tx_id: u32) -> Record {
    reference(TransactionType::Dispute, client_id, tx_id)
}

fn resolve(client_id: u16, tx_id: u32) -> Record {
    reference(TransactionType::Resolve, client_id, tx_id)
}

fn chargeback(client_id: u16, tx_id: u32) -> Record {
    reference(TransactionType::Chargeback, client_id, tx_id)
}

fn single_row(ledger: &Ledger, client_id: u16) -> (i128, i128, i128, bool) {
    let rows = ledger.rows();
    let row = rows.iter().find(|r| r.client == client_id).expect("client has a row");
    (row.available, row.held, row.total, row.locked)
}

#[test]
fn deposit_credits_available() {
    // deposit tx=1 client=1 amount=10.0000
    let mut ledger = Ledger::new();
    assert_eq!(ledger.apply(&deposit(1, 1, 100000)), ApplyOutcome::Applied);
    assert_eq!(single_row(&ledger, 1), (100000, 0, 100000, false));
}

#[test]
fn underfunded_withdrawal_is_ignored() {
    // deposit 10.0000 then withdrawal 15.0000: insufficient funds
    let mut ledger = Ledger::new();
    assert_eq!(ledger.apply(&deposit(1, 1, 100000)), ApplyOutcome::Applied);
    assert_eq!(ledger.apply(&withdrawal(1, 2, 150000)), ApplyOutcome::Applied);
    assert_eq!(single_row(&ledger, 1), (100000, 0, 100000, false));
}

#[test]
fn funded_withdrawal_debits_available() {
    let mut ledger = Ledger::new();
    ledger.apply(&deposit(1, 1, 100000));
    assert_eq!(ledger.apply(&withdrawal(1, 2, 25000)), ApplyOutcome::Applied);
    assert_eq!(single_row(&ledger, 1), (75000, 0, 75000, false));
}

#[test]
fn dispute_holds_the_deposit() {
    // deposit 10.0000; dispute it
    let mut ledger = Ledger::new();
    ledger.apply(&deposit(1, 1, 100000));
    assert_eq!(ledger.apply(&dispute(1, 1)), ApplyOutcome::Applied);
    assert_eq!(single_row(&ledger, 1), (0, 100000, 100000, false));
}

#[test]
fn resolve_restores_the_pre_dispute_balances() {
    // continuing the dispute scenario with a resolve
    let mut ledger = Ledger::new();
    ledger.apply(&deposit(1, 1, 100000));
    ledger.apply(&dispute(1, 1));
    assert_eq!(ledger.apply(&resolve(1, 1)), ApplyOutcome::Applied);
    assert_eq!(single_row(&ledger, 1), (100000, 0, 100000, false));
}

#[test]
fn chargeback_locks_the_account() {
    // continuing the dispute scenario with a chargeback, then a further
    // deposit that must leave the state unchanged
    let mut ledger = Ledger::new();
    ledger.apply(&deposit(1, 1, 100000));
    ledger.apply(&dispute(1, 1));
    assert_eq!(ledger.apply(&chargeback(1, 1)), ApplyOutcome::Applied);
    assert_eq!(single_row(&ledger, 1), (0, 0, 0, true));
    assert_eq!(ledger.apply(&deposit(1, 2, 50000)), ApplyOutcome::Applied);
    assert_eq!(single_row(&ledger, 1), (0, 0, 0, true));
}

#[test]
fn dispute_of_unknown_tx_changes_nothing() {
    let mut ledger = Ledger::new();
    ledger.apply(&deposit(1, 1, 100000));
    assert_eq!(
        ledger.apply(&dispute(1, 99)),
        ApplyOutcome::DroppedUnknownReference
    );
    assert_eq!(single_row(&ledger, 1), (100000, 0, 100000, false));
    // the run continues normally
    assert_eq!(ledger.apply(&deposit(1, 2, 10000)), ApplyOutcome::Applied);
    assert_eq!(single_row(&ledger, 1), (110000, 0, 110000, false));
}

#[test]
fn duplicate_transaction_id_is_dropped() {
    let mut ledger = Ledger::new();
    assert_eq!(ledger.apply(&deposit(1, 1, 100000)), ApplyOutcome::Applied);
    assert_eq!(
        ledger.apply(&deposit(1, 1, 999999)),
        ApplyOutcome::DroppedDuplicate
    );
    assert_eq!(
        ledger.apply(&withdrawal(2, 1, 5000)),
        ApplyOutcome::DroppedDuplicate
    );
    assert_eq!(single_row(&ledger, 1), (100000, 0, 100000, false));
    assert!(ledger.rows().iter().all(|r| r.client != 2));
}

#[test]
fn ownership_mismatch_is_dropped() {
    let mut ledger = Ledger::new();
    ledger.apply(&deposit(1, 1, 100000));
    ledger.apply(&deposit(2, 2, 50000));
    assert_eq!(
        ledger.apply(&dispute(2, 1)),
        ApplyOutcome::DroppedOwnershipMismatch
    );
    assert_eq!(single_row(&ledger, 1), (100000, 0, 100000, false));
    assert_eq!(single_row(&ledger, 2), (50000, 0, 50000, false));
}

#[test]
fn reference_for_client_without_account_is_dropped() {
    // the table knows the tx id but the stated client never transacted:
    // the ownership check already drops it
    let mut ledger = Ledger::new();
    ledger.apply(&deposit(1, 7, 100000));
    assert_eq!(
        ledger.apply(&dispute(3, 7)),
        ApplyOutcome::DroppedOwnershipMismatch
    );
    assert!(ledger.rows().iter().all(|r| r.client != 3));
}

#[test]
fn resolve_without_open_dispute_is_a_no_op() {
    let mut ledger = Ledger::new();
    ledger.apply(&deposit(1, 1, 100000));
    assert_eq!(ledger.apply(&resolve(1, 1)), ApplyOutcome::Applied);
    assert_eq!(single_row(&ledger, 1), (100000, 0, 100000, false));
}

#[test]
fn chargeback_without_open_dispute_is_a_no_op() {
    let mut ledger = Ledger::new();
    ledger.apply(&deposit(1, 1, 100000));
    assert_eq!(ledger.apply(&chargeback(1, 1)), ApplyOutcome::Applied);
    assert_eq!(single_row(&ledger, 1), (100000, 0, 100000, false));
}

#[test]
fn dispute_of_a_withdrawal_is_a_no_op() {
    let mut ledger = Ledger::new();
    ledger.apply(&deposit(1, 1, 100000));
    ledger.apply(&withdrawal(1, 2, 30000));
    assert_eq!(ledger.apply(&dispute(1, 2)), ApplyOutcome::Applied);
    assert_eq!(single_row(&ledger, 1), (70000, 0, 70000, false));
}

#[test]
fn total_is_available_plus_held_throughout() {
    let mut ledger = Ledger::new();
    let records = vec![
        deposit(1, 1, 100000),
        deposit(1, 2, 40000),
        withdrawal(1, 3, 15000),
        dispute(1, 2),
        deposit(2, 4, 77777),
        resolve(1, 2),
        dispute(1, 1),
        chargeback(1, 1),
    ];
    for r in &records {
        ledger.apply(r);
        for row in ledger.rows() {
            assert_eq!(row.total, row.available + row.held);
        }
    }
}

#[test]
fn locked_account_ignores_everything() {
    let mut ledger = Ledger::new();
    ledger.apply(&deposit(1, 1, 100000));
    ledger.apply(&deposit(1, 2, 50000));
    ledger.apply(&dispute(1, 1));
    ledger.apply(&chargeback(1, 1));
    let frozen = single_row(&ledger, 1);
    assert!(frozen.3);
    // every further record for the client leaves it untouched
    ledger.apply(&deposit(1, 3, 10000));
    ledger.apply(&withdrawal(1, 4, 10000));
    ledger.apply(&dispute(1, 2));
    ledger.apply(&resolve(1, 2));
    ledger.apply(&chargeback(1, 2));
    assert_eq!(single_row(&ledger, 1), frozen);
}

#[test]
fn process_runs_a_whole_sequence() {
    let mut ledger = Ledger::new();
    let records = vec![
        deposit(1, 1, 100000),
        deposit(2, 2, 20000),
        dispute(1, 1),
        deposit(3, 3, 100000),
        dispute(9, 3),
    ];
    let outcomes = ledger.process(&records);
    assert_eq!(
        outcomes,
        vec![
            ApplyOutcome::Applied,
            ApplyOutcome::Applied,
            ApplyOutcome::Applied,
            ApplyOutcome::Applied,
            ApplyOutcome::DroppedOwnershipMismatch,
        ]
    );
    assert_eq!(single_row(&ledger, 1), (0, 100000, 100000, false));
    assert_eq!(single_row(&ledger, 2), (20000, 0, 20000, false));
    assert_eq!(single_row(&ledger, 3), (100000, 0, 100000, false));
}

#[test]
fn rows_come_in_first_seen_order() {
    let mut ledger = Ledger::new();
    ledger.apply(&deposit(5, 1, 10000));
    ledger.apply(&deposit(2, 2, 20000));
    ledger.apply(&deposit(5, 3, 30000));
    ledger.apply(&deposit(9, 4, 40000));
    let clients: Vec<u16> = ledger.rows().iter().map(|r| r.client).collect();
    assert_eq!(clients, vec![5, 2, 9]);
}

#[test]
fn missing_amount_is_reported() {
    let mut ledger = Ledger::new();
    let bad = Record {
        transaction_type: TransactionType::Deposit,
        client_id: 1,
        tx_id: 1,
        amount: None,
    };
    assert_eq!(ledger.apply(&bad), ApplyOutcome::MissingAmount);
    assert!(ledger.rows().is_empty());
}

#[test]
fn negative_amounts_pass_through_unchecked() {
    // amounts are signed; the engine applies them as they come
    let mut ledger = Ledger::new();
    ledger.apply(&deposit(1, 1, -50000));
    assert_eq!(single_row(&ledger, 1), (-50000, 0, -50000, false));
}

#[test]
fn maximal_deposits_accumulate_exactly() {
    let mut ledger = Ledger::new();
    assert_eq!(ledger.apply(&deposit(1, 1, i64::MAX)), ApplyOutcome::Applied);
    assert_eq!(ledger.apply(&deposit(1, 2, i64::MAX)), ApplyOutcome::Applied);
    let row = single_row(&ledger, 1);
    assert_eq!(row.0, 2 * (i64::MAX as i128));
    assert_eq!(row.2, 2 * (i64::MAX as i128));
}

#[test]
fn a_step_outside_the_balance_range_does_not_fit() {
    let mut account = Client::new(1);
    account.available = i128::MAX;
    account.total = i128::MAX;
    let top_up = Transaction {
        id: 1,
        transaction_type: TransactionType::Deposit,
        client_id: 1,
        amount: 1,
    };
    assert!(!account.fits(TransactionType::Deposit, &top_up));
    let refund = Transaction {
        id: 2,
        transaction_type: TransactionType::Withdrawal,
        client_id: 1,
        amount: -1,
    };
    assert!(!account.fits(TransactionType::Withdrawal, &refund));
}
