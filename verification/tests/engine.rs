use ledger_engine::amount::Amount;
use ledger_engine::engine::{
    apply_chargeback, apply_deposit, apply_dispute, apply_resolve, apply_withdrawal,
    cleanup_transaction, process_transactions, EngineError, Ledger,
};
use ledger_engine::models::{ClientBalance, OperationRecord, OperationType, TransactionState};
use std::collections::{HashMap, HashSet};

fn dec(mantissa: i128, scale: u32) -> Amount {
    Amount::new(mantissa, scale).unwrap()
}

fn create_balance() -> ClientBalance {
    ClientBalance::new()
}

fn op(kind: OperationType, client: u16, tx: u32, amount: Option<Amount>) -> OperationRecord {
    OperationRecord { kind, client, tx, amount }
}

fn deposit(client: u16, tx: u32, amount: Amount) -> OperationRecord {
    op(OperationType::Deposit, client, tx, Some(amount))
}

fn withdrawal(client: u16, tx: u32, amount: Amount) -> OperationRecord {
    op(OperationType::Withdrawal, client, tx, Some(amount))
}

fn dispute(client: u16, tx: u32) -> OperationRecord {
    op(OperationType::Dispute, client, tx, None)
}

fn resolve(client: u16, tx: u32) -> OperationRecord {
    op(OperationType::Resolve, client, tx, None)
}

fn chargeback(client: u16, tx: u32) -> OperationRecord {
    op(OperationType::Chargeback, client, tx, None)
}

fn same(a: Amount, b: Amount) -> bool {
    a.same_value(&b)
}

#[test]
fn test_apply_deposit() {
    let mut log = HashMap::new();
    let mut balance = create_balance();
    assert!(apply_deposit(&mut log, &mut balance, 1, 1, Some(dec(101234, 4))).is_ok());
    assert!(same(balance.available, dec(101234, 4)));
    assert!(same(balance.held, dec(0, 0)));
    assert!(log.contains_key(&1));
}

#[test]
fn test_apply_withdrawal_success() {
    let mut log = HashMap::new();
    let mut balance = create_balance();
    balance.available = dec(50, 1);
    assert!(apply_withdrawal(&mut balance, 1, 1, Some(dec(30, 1)), &mut log).is_ok());
    assert!(same(balance.available, dec(20, 1)));
    assert!(log.contains_key(&1));
}

#[test]
fn test_apply_withdrawal_fail_insufficient() {
    let mut log = HashMap::new();
    let mut balance = create_balance();
    balance.available = dec(10, 1);
    assert!(apply_withdrawal(&mut balance, 1, 1, Some(dec(20, 1)), &mut log).is_ok());
    assert!(same(balance.available, dec(10, 1)));
    assert!(!log.contains_key(&1));
}

#[test]
fn test_apply_withdrawal_fail_locked() {
    let mut log = HashMap::new();
    let mut balance = create_balance();
    balance.available = dec(50, 1);
    balance.locked = true;
    assert!(apply_withdrawal(&mut balance, 1, 1, Some(dec(30, 1)), &mut log).is_ok());
    assert!(same(balance.available, dec(50, 1)));
    assert!(!log.contains_key(&1));
}

#[test]
fn test_apply_dispute() {
    let mut log = HashMap::new();
    let mut tracker = HashSet::new();
    let mut balance = create_balance();
    log.insert(1, TransactionState { client: 1, amount: dec(100, 1), is_deposit: true });
    assert!(apply_dispute(&mut balance, 1, 1, &log, &mut tracker).is_ok());
    assert!(same(balance.available, dec(-100, 1)));
    assert!(same(balance.held, dec(100, 1)));
    assert!(tracker.contains(&1));
}

#[test]
fn test_apply_dispute_ignore_non_deposit() {
    let mut log = HashMap::new();
    let mut tracker = HashSet::new();
    let mut balance = create_balance();
    log.insert(1, TransactionState { client: 1, amount: dec(100, 1), is_deposit: false });
    assert!(apply_dispute(&mut balance, 1, 1, &log, &mut tracker).is_ok());
    assert!(same(balance.available, dec(0, 0)));
    assert!(same(balance.held, dec(0, 0)));
    assert!(!tracker.contains(&1));
}

#[test]
fn test_apply_resolve() {
    let mut log = HashMap::new();
    let mut tracker = HashSet::new();
    let mut balance = create_balance();
    log.insert(1, TransactionState { client: 1, amount: dec(100, 1), is_deposit: true });
    tracker.insert(1);
    balance.available = dec(-100, 1);
    balance.held = dec(100, 1);
    assert_eq!(apply_resolve(&mut balance, 1, 1, &log, &mut tracker), Ok(()));
    assert!(same(balance.available, dec(0, 0)));
    assert!(same(balance.held, dec(0, 0)));
    assert!(!tracker.contains(&1));
}

#[test]
fn test_apply_chargeback() {
    let mut log = HashMap::new();
    let mut tracker = HashSet::new();
    let mut balance = create_balance();
    log.insert(1, TransactionState { client: 1, amount: dec(100, 1), is_deposit: true });
    tracker.insert(1);
    balance.held = dec(100, 1);
    assert_eq!(apply_chargeback(&mut balance, 1, 1, &log, &mut tracker), Ok(()));
    assert!(same(balance.available, dec(0, 0)));
    assert!(same(balance.held, dec(0, 0)));
    assert!(balance.locked);
    assert!(!tracker.contains(&1));
}

#[test]
fn test_idempotency_duplicate_deposit() {
    let mut log = HashMap::new();
    let mut balance = create_balance();
    assert!(apply_deposit(&mut log, &mut balance, 1, 1, Some(dec(100, 1))).is_ok());
    assert!(apply_deposit(&mut log, &mut balance, 1, 1, Some(dec(100, 1))).is_ok());
    assert!(same(balance.available, dec(100, 1)));
}

#[test]
fn test_negative_zero_amount_skip() {
    let mut log = HashMap::new();
    let mut balance = create_balance();
    assert!(apply_deposit(&mut log, &mut balance, 1, 1, Some(dec(0, 0))).is_ok());
    assert!(apply_deposit(&mut log, &mut balance, 2, 1, Some(dec(-10, 1))).is_ok());
    assert!(same(balance.available, dec(0, 0)));
    assert!(!log.contains_key(&1));
    assert!(!log.contains_key(&2));
}

#[test]
fn test_post_lock_block() {
    let mut log = HashMap::new();
    let mut balance = create_balance();
    balance.locked = true;
    assert!(apply_deposit(&mut log, &mut balance, 1, 1, Some(dec(100, 1))).is_ok());
    assert!(same(balance.available, dec(0, 0)));
}

#[test]
fn test_max_values() {
    let mut log = HashMap::new();
    let mut balance = create_balance();
    assert!(apply_deposit(
        &mut log,
        &mut balance,
        u32::MAX,
        u16::MAX,
        Some(dec(100000000009999, 4)),
    )
    .is_ok());
    assert!(same(balance.available, dec(100000000009999, 4)));
    assert!(log.contains_key(&u32::MAX));
}

#[test]
fn test_cleanup_after_resolve() {
    let mut log = HashMap::new();
    let mut tracker = HashSet::new();
    let mut balance = create_balance();
    log.insert(1, TransactionState { client: 1, amount: dec(100, 1), is_deposit: true });
    tracker.insert(1);
    assert_eq!(apply_resolve(&mut balance, 1, 1, &log, &mut tracker), Ok(()));
    cleanup_transaction(&mut log, &tracker, 1);
    assert!(!log.contains_key(&1));
}

#[test]
fn integration_test_sample() {
    let records = vec![
        deposit(1, 1, dec(10, 1)),
        deposit(2, 2, dec(20, 1)),
        deposit(1, 3, dec(20, 1)),
        withdrawal(1, 4, dec(15, 1)),
        withdrawal(2, 5, dec(30, 1)),
    ];
    let balances = process_transactions(&records).unwrap();
    assert_eq!(balances.len(), 2);
    let b1 = balances.get(&1).unwrap();
    assert!(same(b1.available, dec(15, 1)));
    assert!(same(b1.held, dec(0, 1)));
    assert!(!b1.locked);
    let b2 = balances.get(&2).unwrap();
    assert!(same(b2.available, dec(20, 1)));
    assert!(same(b2.held, dec(0, 1)));
    assert!(!b2.locked);
}

#[test]
fn integration_test_dispute_chain() {
    let records = vec![
        deposit(1, 1, dec(100, 1)),
        dispute(1, 1),
        resolve(1, 1),
        deposit(1, 2, dec(50, 1)),
        dispute(1, 2),
        chargeback(1, 2),
    ];
    let balances = process_transactions(&records).unwrap();
    let b = balances.get(&1).unwrap();
    assert!(same(b.available, dec(100, 1)));
    assert!(same(b.held, dec(0, 1)));
    assert!(b.locked);
}

#[test]
fn empty_stream_has_no_accounts() {
    let balances = process_transactions(&Vec::new()).unwrap();
    assert!(balances.is_empty());
}

#[test]
fn rejected_operation_still_creates_the_account() {
    let balances = process_transactions(&vec![dispute(7, 99)]).unwrap();
    let b = balances.get(&7).unwrap();
    assert!(same(b.available, dec(0, 0)));
    assert!(same(b.held, dec(0, 0)));
    assert!(!b.locked);
}

#[test]
fn deposit_sums_amounts_of_different_scales() {
    let mut log = HashMap::new();
    let mut balance = create_balance();
    assert!(apply_deposit(&mut log, &mut balance, 1, 1, Some(dec(15, 1))).is_ok());
    assert!(apply_deposit(&mut log, &mut balance, 2, 1, Some(dec(20001, 4))).is_ok());
    assert!(same(balance.available, dec(35001, 4)));
    assert!(!same(balance.available, dec(15, 1)));
    assert!(!same(balance.available, dec(20001, 4)));
}

#[test]
fn deposit_without_amount_is_ignored() {
    let mut log = HashMap::new();
    let mut balance = create_balance();
    assert!(apply_deposit(&mut log, &mut balance, 1, 1, None).is_ok());
    assert!(same(balance.available, dec(0, 0)));
    assert!(log.is_empty());
}

#[test]
fn withdrawal_of_the_whole_balance_succeeds() {
    let mut log = HashMap::new();
    let mut balance = create_balance();
    balance.available = dec(50, 1);
    assert!(apply_withdrawal(&mut balance, 1, 1, Some(dec(5, 0)), &mut log).is_ok());
    assert!(same(balance.available, dec(0, 0)));
    assert!(!log.get(&1).unwrap().is_deposit);
}

#[test]
fn withdrawal_id_cannot_be_reused_by_deposit() {
    let records = vec![
        deposit(1, 1, dec(10, 0)),
        withdrawal(1, 2, dec(4, 0)),
        deposit(1, 2, dec(100, 0)),
    ];
    let balances = process_transactions(&records).unwrap();
    assert!(same(balances.get(&1).unwrap().available, dec(6, 0)));
}

#[test]
fn overdraft_leaves_available_unchanged() {
    let records = vec![deposit(1, 1, dec(10, 0)), withdrawal(1, 2, dec(100001, 4))];
    let balances = process_transactions(&records).unwrap();
    assert!(same(balances.get(&1).unwrap().available, dec(10, 0)));
}

#[test]
fn dispute_by_another_client_is_ignored() {
    let records = vec![deposit(1, 1, dec(10, 0)), dispute(2, 1)];
    let balances = process_transactions(&records).unwrap();
    let b1 = balances.get(&1).unwrap();
    assert!(same(b1.available, dec(10, 0)));
    assert!(same(b1.held, dec(0, 0)));
    let b2 = balances.get(&2).unwrap();
    assert!(same(b2.available, dec(0, 0)));
    assert!(same(b2.held, dec(0, 0)));
}

#[test]
fn dispute_of_withdrawal_is_ignored() {
    let records = vec![deposit(1, 1, dec(10, 0)), withdrawal(1, 2, dec(4, 0)), dispute(1, 2)];
    let balances = process_transactions(&records).unwrap();
    let b = balances.get(&1).unwrap();
    assert!(same(b.available, dec(6, 0)));
    assert!(same(b.held, dec(0, 0)));
}

#[test]
fn dispute_may_take_available_below_zero() {
    let records = vec![deposit(1, 1, dec(10, 0)), withdrawal(1, 2, dec(8, 0)), dispute(1, 1)];
    let balances = process_transactions(&records).unwrap();
    let b = balances.get(&1).unwrap();
    assert!(same(b.available, dec(-8, 0)));
    assert!(same(b.held, dec(10, 0)));
    assert!(same(b.total().unwrap(), dec(2, 0)));
}

#[test]
fn second_dispute_of_the_same_id_is_ignored() {
    let records = vec![deposit(1, 1, dec(10, 0)), dispute(1, 1), dispute(1, 1)];
    let balances = process_transactions(&records).unwrap();
    let b = balances.get(&1).unwrap();
    assert!(same(b.available, dec(0, 0)));
    assert!(same(b.held, dec(10, 0)));
}

#[test]
fn held_is_the_sum_of_open_disputes() {
    let records = vec![
        deposit(1, 1, dec(10, 0)),
        deposit(1, 2, dec(25, 1)),
        deposit(1, 3, dec(1, 0)),
        dispute(1, 1),
        dispute(1, 2),
        dispute(1, 3),
        resolve(1, 3),
    ];
    let balances = process_transactions(&records).unwrap();
    let b = balances.get(&1).unwrap();
    assert!(same(b.held, dec(125, 1)));
    assert!(same(b.available, dec(1, 0)));
}

#[test]
fn resolved_id_cannot_be_disputed_again() {
    let records = vec![deposit(1, 1, dec(10, 0)), dispute(1, 1), resolve(1, 1), dispute(1, 1)];
    let balances = process_transactions(&records).unwrap();
    let b = balances.get(&1).unwrap();
    assert!(same(b.available, dec(10, 0)));
    assert!(same(b.held, dec(0, 0)));
}

#[test]
fn resolve_without_dispute_forgets_the_record() {
    let records = vec![deposit(1, 1, dec(10, 0)), resolve(1, 1), dispute(1, 1)];
    let balances = process_transactions(&records).unwrap();
    let b = balances.get(&1).unwrap();
    assert!(same(b.available, dec(10, 0)));
    assert!(same(b.held, dec(0, 0)));
}

#[test]
fn locked_account_rejects_deposits_and_withdrawals() {
    let records = vec![
        deposit(1, 1, dec(10, 0)),
        deposit(1, 2, dec(5, 0)),
        dispute(1, 2),
        chargeback(1, 2),
        deposit(1, 3, dec(7, 0)),
        withdrawal(1, 4, dec(1, 0)),
    ];
    let balances = process_transactions(&records).unwrap();
    let b = balances.get(&1).unwrap();
    assert!(b.locked);
    assert!(same(b.available, dec(10, 0)));
    assert!(same(b.held, dec(0, 0)));
}

#[test]
fn locked_account_can_still_be_disputed() {
    let records = vec![
        deposit(1, 1, dec(10, 0)),
        deposit(1, 2, dec(5, 0)),
        dispute(1, 2),
        chargeback(1, 2),
        dispute(1, 1),
    ];
    let balances = process_transactions(&records).unwrap();
    let b = balances.get(&1).unwrap();
    assert!(b.locked);
    assert!(same(b.available, dec(0, 0)));
    assert!(same(b.held, dec(10, 0)));
}

#[test]
fn deposit_past_the_largest_decimal_is_an_overflow() {
    let max = dec(79228162514264337593543950335, 0);
    let mut log = HashMap::new();
    let mut balance = create_balance();
    assert_eq!(apply_deposit(&mut log, &mut balance, 1, 1, Some(max)), Ok(()));
    assert_eq!(
        apply_deposit(&mut log, &mut balance, 2, 1, Some(dec(1, 0))),
        Err(EngineError::Overflow)
    );
    assert!(same(balance.available, max));
    assert!(!log.contains_key(&2));
    let records = vec![deposit(1, 1, max), deposit(1, 2, dec(1, 0))];
    assert_eq!(process_transactions(&records).err(), Some(EngineError::Overflow));
}

#[test]
fn ledger_applies_operations_one_by_one() {
    let mut ledger = Ledger::new();
    assert_eq!(ledger.apply(&deposit(3, 1, dec(12345, 4))), Ok(()));
    assert_eq!(ledger.apply(&dispute(3, 1)), Ok(()));
    assert!(ledger.disputes.contains(&1));
    assert!(same(ledger.accounts.get(&3).unwrap().held, dec(12345, 4)));
    assert_eq!(ledger.apply(&chargeback(3, 1)), Ok(()));
    assert!(!ledger.disputes.contains(&1));
    assert!(!ledger.log.contains_key(&1));
    let b = ledger.accounts.get(&3).unwrap();
    assert!(b.locked);
    assert!(same(b.held, dec(0, 0)));
    assert!(same(b.available, dec(0, 0)));
}

#[test]
fn held_is_never_negative_at_any_point() {
    let records = vec![
        deposit(1, 1, dec(10, 0)),
        deposit(2, 2, dec(35, 1)),
        dispute(1, 1),
        resolve(2, 1),
        chargeback(2, 1),
        dispute(2, 2),
        resolve(1, 1),
        resolve(1, 1),
        chargeback(2, 2),
        chargeback(2, 2),
        dispute(2, 2),
        withdrawal(1, 3, dec(100, 0)),
    ];
    let mut ledger = Ledger::new();
    for record in &records {
        assert_eq!(ledger.apply(record), Ok(()));
        for balance in ledger.accounts.values() {
            assert!(Amount::zero().le(&balance.held));
        }
    }
    let b1 = ledger.accounts.get(&1).unwrap();
    assert!(same(b1.available, dec(10, 0)));
    assert!(same(b1.held, dec(0, 0)));
    assert!(!b1.locked);
    let b2 = ledger.accounts.get(&2).unwrap();
    assert!(same(b2.available, dec(0, 0)));
    assert!(same(b2.held, dec(0, 0)));
    assert!(b2.locked);
}

#[test]
fn forgotten_id_is_accepted_again() {
    let records = vec![
        deposit(1, 1, dec(10, 0)),
        dispute(1, 1),
        resolve(1, 1),
        deposit(1, 1, dec(10, 0)),
    ];
    let balances = process_transactions(&records).unwrap();
    assert!(same(balances.get(&1).unwrap().available, dec(20, 0)));
}

#[test]
fn chargeback_by_another_client_is_ignored() {
    let records = vec![deposit(1, 1, dec(10, 0)), dispute(1, 1), chargeback(2, 1)];
    let balances = process_transactions(&records).unwrap();
    let b1 = balances.get(&1).unwrap();
    assert!(same(b1.held, dec(10, 0)));
    assert!(!b1.locked);
    assert!(!balances.get(&2).unwrap().locked);
}

#[test]
fn dispute_that_overflows_changes_nothing() {
    let max = dec(79228162514264337593543950335, 0);
    let mut log = HashMap::new();
    let mut tracker = HashSet::new();
    let mut balance = create_balance();
    balance.available = dec(-5, 0);
    balance.held = dec(1, 0);
    log.insert(1, TransactionState { client: 1, amount: max, is_deposit: true });
    assert_eq!(
        apply_dispute(&mut balance, 1, 1, &log, &mut tracker),
        Err(EngineError::Overflow)
    );
    assert!(same(balance.available, dec(-5, 0)));
    assert!(same(balance.held, dec(1, 0)));
    assert!(!tracker.contains(&1));
}
