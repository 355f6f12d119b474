use payments_engine::amount::Amount;
use payments_engine::csv_accounts::Writer;
use payments_engine::csv_transactions::{
    CsvTransactionType, InvalidTransactionError, TransactionRecord, TransactionType,
};
use payments_engine::hashmap_ledger::HashMapLedger;
use payments_engine::ledger::{
    Account, DisputeStatus, DisputeTransaction, DisputeTransactionType, Ledger, LedgerError,
    StandardTransaction, StandardTransactionType, Transaction,
};
use rust_decimal::Decimal;

fn amt(text: &str) -> Amount {
    Amount::parse(text).unwrap()
}

fn text(a: Amount) -> String {
    let n = a.normalize();
    Decimal::from_i128_with_scale(n.mantissa, n.scale).to_string()
}

fn row(a: &Account) -> String {
    format!(
        "{},{},{},{},{}",
        a.client_id,
        text(a.available),
        text(a.held),
        text(a.total()),
        a.is_locked
    )
}

fn kind(name: &str) -> CsvTransactionType {
    match name {
        "deposit" => CsvTransactionType::Deposit,
        "withdrawal" => CsvTransactionType::Withdrawal,
        "dispute" => CsvTransactionType::Dispute,
        "resolve" => CsvTransactionType::Resolve,
        "chargeback" => CsvTransactionType::Chargeback,
        _ => panic!("unknown type {}", name),
    }
}

fn record(name: &str, client_id: u16, tx_id: u32, amount: Option<&str>) -> TransactionRecord {
    TransactionRecord { tx_type: kind(name), client_id, tx_id, amount: amount.map(amt) }
}

/// Runs rows through a fresh ledger, skipping rejected transactions, as the program does.
fn run(rows: &[(&str, u16, u32, Option<&str>)]) -> HashMapLedger {
    let mut ledger = HashMapLedger::new();
    for (name, client, tx, amount) in rows {
        let t = Transaction::try_from(record(name, *client, *tx, *amount)).unwrap();
        let _ = ledger.handle_transaction(t);
    }
    ledger
}

fn sorted_rows(ledger: &HashMapLedger) -> Vec<String> {
    let mut rows: Vec<String> = ledger.get_accounts().iter().map(row).collect();
    rows.sort();
    rows
}

fn expect(ledger: &HashMapLedger, expected: &[&str]) {
    let mut want: Vec<String> = expected.iter().map(|s| s.to_string()).collect();
    want.sort();
    assert_eq!(want, sorted_rows(ledger));
}

fn tx_deposit(client_id: u16, tx_id: u32, amount: &str) -> Transaction {
    Transaction::Standard(StandardTransaction {
        tx_type: StandardTransactionType::Deposit,
        client_id,
        tx_id,
        amount: amt(amount),
        dispute_status: None,
    })
}

fn tx_withdrawal(client_id: u16, tx_id: u32, amount: &str) -> Transaction {
    Transaction::Standard(StandardTransaction {
        tx_type: StandardTransactionType::Withdrawal,
        client_id,
        tx_id,
        amount: amt(amount),
        dispute_status: None,
    })
}

fn family(tx_type: DisputeTransactionType, client_id: u16, tx_id: u32) -> Transaction {
    Transaction::Dispute(DisputeTransaction { tx_type, client_id, tx_id })
}

fn tx_dispute(client_id: u16, tx_id: u32) -> Transaction {
    family(DisputeTransactionType::Dispute, client_id, tx_id)
}

fn tx_resolve(client_id: u16, tx_id: u32) -> Transaction {
    family(DisputeTransactionType::Resolve, client_id, tx_id)
}

fn tx_chargeback(client_id: u16, tx_id: u32) -> Transaction {
    family(DisputeTransactionType::Chargeback, client_id, tx_id)
}

fn account(ledger: &HashMapLedger, client_id: u16) -> Account {
    ledger.get_account(client_id).unwrap()
}

#[test]
fn basic_example() {
    let ledger = run(&[
        ("deposit", 1, 1, Some("1.0")),
        ("deposit", 2, 2, Some("2.0")),
        ("deposit", 1, 3, Some("2.0")),
        ("withdrawal", 1, 4, Some("1.5")),
        ("withdrawal", 2, 5, Some("3.0")),
    ]);
    expect(&ledger, &["1,1.5,0,1.5,false", "2,2,0,2,false"]);
}

#[test]
fn dispute() {
    let ledger = run(&[
        ("deposit", 1, 1, Some("1.0")),
        ("deposit", 2, 2, Some("2.0")),
        ("deposit", 1, 3, Some("2.0")),
        ("withdrawal", 1, 4, Some("1.5")),
        ("withdrawal", 2, 5, Some("3.0")),
        ("dispute", 1, 1, None),
    ]);
    expect(&ledger, &["1,0.5,1,1.5,false", "2,2,0,2,false"]);
}

#[test]
fn dispute_then_resolve() {
    let ledger = run(&[
        ("deposit", 1, 1, Some("1.0")),
        ("deposit", 2, 2, Some("2.0")),
        ("deposit", 1, 3, Some("2.0")),
        ("withdrawal", 1, 4, Some("1.5")),
        ("withdrawal", 2, 5, Some("3.0")),
        ("dispute", 1, 1, None),
        ("withdrawal", 1, 6, Some("0.5")),
        ("resolve", 1, 1, None),
        ("withdrawal", 1, 7, Some("0.5")),
    ]);
    expect(&ledger, &["1,0.5,0,0.5,false", "2,2,0,2,false"]);
}

#[test]
fn multiple_disputes_for_single_client() {
    let ledger = run(&[
        ("deposit", 1, 1, Some("1.0")),
        ("deposit", 2, 2, Some("2.0")),
        ("deposit", 1, 3, Some("2.0")),
        ("dispute", 1, 1, None),
        ("dispute", 1, 3, None),
        ("withdrawal", 1, 4, Some("1.5")),
        ("withdrawal", 2, 5, Some("3.0")),
    ]);
    expect(&ledger, &["1,0,3,3,false", "2,2,0,2,false"]);
}

#[test]
fn dispute_funds_already_withdrawn() {
    let ledger = run(&[
        ("deposit", 1, 1, Some("1.0")),
        ("withdrawal", 1, 2, Some("0.5")),
        ("dispute", 1, 1, None),
    ]);
    expect(&ledger, &["1,-0.5,1,0.5,false"]);
}

#[test]
fn dispute_then_chargeback_funds_already_withdrawn() {
    let ledger = run(&[
        ("deposit", 1, 1, Some("1.0")),
        ("withdrawal", 1, 2, Some("0.5")),
        ("dispute", 1, 1, None),
        ("chargeback", 1, 1, None),
    ]);
    expect(&ledger, &["1,-0.5,0,-0.5,true"]);
}

#[test]
fn withdrawal_over_available_rejected_then_smaller_one_accepted() {
    let mut ledger = HashMapLedger::new();
    assert_eq!(Ok(()), ledger.handle_transaction(tx_deposit(1, 1, "1.0")));
    assert_eq!(
        Err(LedgerError::InsufficientFunds),
        ledger.handle_transaction(tx_withdrawal(1, 4, "1.5"))
    );
    assert_eq!(Ok(()), ledger.handle_transaction(tx_withdrawal(1, 4, "0.5")));
    expect(&ledger, &["1,0.5,0,0.5,false"]);
}

#[test]
fn resolve_then_withdraw_scenario() {
    let ledger = run(&[
        ("deposit", 1, 1, Some("1.0")),
        ("dispute", 1, 1, None),
        ("resolve", 1, 1, None),
        ("withdrawal", 1, 7, Some("0.5")),
    ]);
    expect(&ledger, &["1,0.5,0,0.5,false"]);
}

#[test]
fn two_disputes_on_different_transactions_both_apply() {
    let ledger = run(&[
        ("deposit", 1, 1, Some("1.0")),
        ("deposit", 1, 3, Some("2.0")),
        ("dispute", 1, 1, None),
        ("dispute", 1, 3, None),
    ]);
    let a = account(&ledger, 1);
    assert_eq!(amt("3.0").normalize(), a.held.normalize());
    assert_eq!(Amount::zero(), a.available.normalize());
    expect(&ledger, &["1,0,3,3,false"]);
}

#[test]
fn total_is_available_plus_held_after_each_step() {
    let mut ledger = HashMapLedger::new();
    let steps = [
        tx_deposit(1, 1, "1.25"),
        tx_withdrawal(1, 2, "0.5"),
        tx_dispute(1, 1),
        tx_resolve(1, 1),
        tx_dispute(1, 1),
        tx_chargeback(1, 1),
    ];
    for t in steps {
        let _ = ledger.handle_transaction(t);
        let a = account(&ledger, 1);
        let sum = a.available.checked_add(&a.held).unwrap();
        assert_eq!(sum, a.total());
    }
    let a = account(&ledger, 1);
    assert_eq!("-0.5", text(a.total()));
    assert!(a.is_locked);
}

#[test]
fn duplicate_transaction_id_rejected_without_change() {
    let mut ledger = HashMapLedger::new();
    assert_eq!(Ok(()), ledger.handle_transaction(tx_deposit(1, 1, "1.0")));
    assert_eq!(
        Err(LedgerError::DuplicateTransactionId),
        ledger.handle_transaction(tx_deposit(1, 1, "5.0"))
    );
    assert_eq!(
        Err(LedgerError::DuplicateTransactionId),
        ledger.handle_transaction(tx_deposit(2, 1, "5.0"))
    );
    expect(&ledger, &["1,1,0,1,false"]);
    assert!(ledger.get_account(2).is_none());
    assert_eq!(amt("1.0"), ledger.get_transaction(1).unwrap().amount);
}

#[test]
fn dispute_resolve_chargeback_move_exact_amounts() {
    let mut ledger = HashMapLedger::new();
    ledger.handle_transaction(tx_deposit(1, 1, "10")).unwrap();
    ledger.handle_transaction(tx_deposit(1, 2, "2.5")).unwrap();
    ledger.handle_transaction(tx_dispute(1, 2)).unwrap();
    let a = account(&ledger, 1);
    assert_eq!(("10", "2.5", "12.5"), (text(a.available).as_str(), text(a.held).as_str(), text(a.total()).as_str()));
    assert_eq!(Some(DisputeStatus::Unresolved), ledger.get_transaction(2).unwrap().dispute_status);
    ledger.handle_transaction(tx_resolve(1, 2)).unwrap();
    expect(&ledger, &["1,12.5,0,12.5,false"]);
    assert_eq!(None, ledger.get_transaction(2).unwrap().dispute_status);
    ledger.handle_transaction(tx_dispute(1, 2)).unwrap();
    ledger.handle_transaction(tx_chargeback(1, 2)).unwrap();
    expect(&ledger, &["1,10,0,10,true"]);
    assert_eq!(Some(DisputeStatus::Chargeback), ledger.get_transaction(2).unwrap().dispute_status);
}

#[test]
fn withdrawal_cannot_be_disputed() {
    let mut ledger = HashMapLedger::new();
    ledger.handle_transaction(tx_deposit(1, 1, "3")).unwrap();
    ledger.handle_transaction(tx_withdrawal(1, 2, "1")).unwrap();
    for t in [tx_dispute(1, 2), tx_resolve(1, 2), tx_chargeback(1, 2)] {
        assert_eq!(Err(LedgerError::CannotDisputeWithdrawal), ledger.handle_transaction(t));
    }
    expect(&ledger, &["1,2,0,2,false"]);
}

#[test]
fn locked_account_refuses_deposits_and_withdrawals() {
    let mut ledger = HashMapLedger::new();
    ledger.handle_transaction(tx_deposit(1, 1, "1")).unwrap();
    ledger.handle_transaction(tx_deposit(1, 2, "4")).unwrap();
    ledger.handle_transaction(tx_dispute(1, 1)).unwrap();
    ledger.handle_transaction(tx_chargeback(1, 1)).unwrap();
    assert_eq!(Err(LedgerError::AccountLocked), ledger.handle_transaction(tx_deposit(1, 3, "1")));
    assert_eq!(Err(LedgerError::AccountLocked), ledger.handle_transaction(tx_withdrawal(1, 4, "1")));
    assert_eq!(Ok(()), ledger.handle_transaction(tx_dispute(1, 2)));
    assert_eq!(Ok(()), ledger.handle_transaction(tx_resolve(1, 2)));
    expect(&ledger, &["1,4,0,4,true"]);
}

#[test]
fn repeated_rejection_is_identical_and_changes_nothing() {
    let mut ledger = HashMapLedger::new();
    ledger.handle_transaction(tx_deposit(1, 1, "2")).unwrap();
    ledger.handle_transaction(tx_dispute(1, 1)).unwrap();
    let before = sorted_rows(&ledger);
    assert_eq!(Err(LedgerError::AlreadyDisputed), ledger.handle_transaction(tx_dispute(1, 1)));
    assert_eq!(Err(LedgerError::AlreadyDisputed), ledger.handle_transaction(tx_dispute(1, 1)));
    assert_eq!(before, sorted_rows(&ledger));
    ledger.handle_transaction(tx_resolve(1, 1)).unwrap();
    assert_eq!(Err(LedgerError::NotDisputed), ledger.handle_transaction(tx_resolve(1, 1)));
    assert_eq!(Err(LedgerError::NotDisputed), ledger.handle_transaction(tx_chargeback(1, 1)));
    ledger.handle_transaction(tx_dispute(1, 1)).unwrap();
    ledger.handle_transaction(tx_chargeback(1, 1)).unwrap();
    assert_eq!(Err(LedgerError::AlreadyChargedBack), ledger.handle_transaction(tx_chargeback(1, 1)));
    assert_eq!(Err(LedgerError::AlreadyChargedBack), ledger.handle_transaction(tx_resolve(1, 1)));
    assert_eq!(Err(LedgerError::AlreadyDisputed), ledger.handle_transaction(tx_dispute(1, 1)));
}

#[test]
fn each_ledger_error_has_an_input() {
    let mut ledger = HashMapLedger::new();
    assert_eq!(Err(LedgerError::InvalidAmount), ledger.handle_transaction(tx_deposit(1, 1, "0")));
    assert_eq!(Err(LedgerError::InvalidAmount), ledger.handle_transaction(tx_deposit(1, 1, "-1")));
    assert!(ledger.get_account(1).is_none());
    assert_eq!(Err(LedgerError::InsufficientFunds), ledger.handle_transaction(tx_withdrawal(1, 1, "1")));
    assert!(ledger.get_account(1).is_none());
    assert_eq!(Err(LedgerError::AccountNotFound), ledger.handle_transaction(tx_dispute(1, 1)));
    ledger.handle_transaction(tx_deposit(1, 1, "1")).unwrap();
    ledger.handle_transaction(tx_deposit(2, 2, "1")).unwrap();
    assert_eq!(Err(LedgerError::TransactionNotFound), ledger.handle_transaction(tx_dispute(1, 9)));
    assert_eq!(Err(LedgerError::ClientMismatch), ledger.handle_transaction(tx_dispute(2, 1)));
    let big = Decimal::MAX.to_string();
    assert_eq!(Err(LedgerError::BalanceOverflow), ledger.handle_transaction(tx_deposit(1, 3, &big)));
    assert!(ledger.get_transaction(3).is_none());
    expect(&ledger, &["1,1,0,1,false", "2,1,0,1,false"]);
}

#[test]
fn amount_arithmetic_is_exact() {
    let a = amt("1.5");
    let b = amt("0.25");
    assert_eq!(Some(amt("1.75")), a.checked_add(&b));
    assert_eq!(Some(amt("1.25")), a.checked_sub(&b));
    assert_eq!(Some(amt("-1.25")), b.checked_sub(&a));
    assert!(a.is_greater_than(&b));
    assert!(!b.is_greater_than(&a));
    assert!(!amt("1.0").is_greater_than(&amt("1")));
    assert!(amt("0.0001").is_positive());
    assert!(!amt("0").is_positive());
    assert_eq!(amt("-1.25"), a.neg().checked_add(&b).unwrap());
    let max = Amount::from_parts(payments_engine::amount::MAX_MANTISSA, 0).unwrap();
    assert_eq!(None, max.checked_add(&amt("1")));
    assert_eq!(None, max.checked_add(&amt("0.1")));
    assert!(max.is_greater_than(&amt("0.1")));
    assert!(amt("-0.1").is_greater_than(&max.neg()));
}

#[test]
fn amount_normalize_and_parts() {
    assert_eq!(Amount { mantissa: 15, scale: 1 }, Amount { mantissa: 1500, scale: 3 }.normalize());
    assert_eq!(Amount { mantissa: -2, scale: 0 }, Amount { mantissa: -200, scale: 2 }.normalize());
    assert_eq!(Amount::zero(), Amount { mantissa: 0, scale: 5 }.normalize());
    assert_eq!(Amount { mantissa: 10, scale: 0 }, Amount { mantissa: 10, scale: 0 }.normalize());
    assert_eq!(None, Amount::from_parts(1, 29));
    assert_eq!(None, Amount::from_parts(payments_engine::amount::MAX_MANTISSA + 1, 0));
    assert_eq!(Some(Amount { mantissa: -7, scale: 28 }), Amount::from_parts(-7, 28));
}

#[test]
fn account_new_and_total() {
    let a = Account::new(7);
    assert_eq!(7, a.client_id);
    assert_eq!(Amount::zero(), a.total());
    assert!(!a.is_locked);
    let b = Account { available: amt("-0.5"), held: amt("1.0"), ..a };
    assert_eq!(amt("0.5"), b.total());
}

#[test]
fn record_amount_must_suit_its_type() {
    assert_eq!(
        Err(InvalidTransactionError::AmountNotSpecified),
        Transaction::try_from(record("deposit", 1, 1, None))
    );
    assert_eq!(
        Err(InvalidTransactionError::AmountNotSpecified),
        Transaction::try_from(record("withdrawal", 1, 1, None))
    );
    assert_eq!(
        Err(InvalidTransactionError::AmountUnexpectedForDispute),
        Transaction::try_from(record("dispute", 1, 1, Some("3.0")))
    );
    assert_eq!(Ok(tx_deposit(1, 2, "5.0")), Transaction::try_from(record("deposit", 1, 2, Some("5.0"))));
    assert_eq!(Ok(tx_resolve(3, 4)), Transaction::try_from(record("resolve", 3, 4, None)));
    assert_eq!(
        TransactionType::Dispute(DisputeTransactionType::Chargeback),
        TransactionType::from(CsvTransactionType::Chargeback)
    );
    assert_eq!(
        TransactionType::Standard(StandardTransactionType::Withdrawal),
        TransactionType::from(CsvTransactionType::Withdrawal)
    );
}

#[test]
fn writer_keeps_its_destination() {
    let w = Writer::from_writer(vec![1u8, 2, 3]);
    assert_eq!(vec![1u8, 2, 3], w.into_inner());
}

#[test]
fn accounts_listed_once_each() {
    let ledger = run(&[
        ("deposit", 3, 1, Some("1")),
        ("deposit", 1, 2, Some("1")),
        ("deposit", 3, 3, Some("1")),
        ("deposit", 2, 4, Some("1")),
    ]);
    let ids: Vec<u16> = ledger.get_accounts().iter().map(|a| a.client_id).collect();
    assert_eq!(vec![3, 1, 2], ids);
}

#[test]
fn amount_parse_reads_decimal_text_exactly() {
    assert_eq!(Some(Amount { mantissa: 150, scale: 2 }), Amount::parse("1.50"));
    assert_eq!(Some(Amount { mantissa: -5, scale: 1 }), Amount::parse("-0.5"));
    assert_eq!(Some(Amount { mantissa: 42, scale: 0 }), Amount::parse("42"));
    assert_eq!(Some(Amount { mantissa: 1, scale: 28 }), Amount::parse("0.0000000000000000000000000001"));
    assert_eq!(None, Amount::parse("abc"));
    assert_eq!(None, Amount::parse(""));
    assert_eq!(None, Amount::parse("0.00000000000000000000000000001"));
}
