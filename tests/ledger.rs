use banking_mngt_backend::ledger::{Account, Ledger, LedgerError, Transaction};

fn balance(l: &Ledger, id: u64) -> i64 {
    l.get_account(id).expect("account exists").balance
}

fn tx(from_account: u64, to_account: u64, amount: i64, timestamp: u64) -> Transaction {
    Transaction { from_account, to_account, amount, timestamp }
}

fn acct(id: u64, owner: &str, balance: i64) -> Account {
    Account { id, owner: owner.to_string(), balance }
}

/// A ledger with accounts 0 and 1 empty and account 2 holding 100.
fn funded() -> Ledger {
    Ledger::from_parts(vec![acct(0, "alice", 0), acct(1, "bob", 0), acct(2, "carol", 100)], vec![])
        .expect("valid parts")
}

#[test]
fn ids_follow_call_order() {
    let mut l = Ledger::new();
    assert_eq!(l.create_account("a".to_string()), 0);
    assert_eq!(l.create_account("b".to_string()), 1);
    assert_eq!(l.create_account("".to_string()), 2);
    assert_eq!(l.create_account("a".to_string()), 3);
}

#[test]
fn created_account_is_visible() {
    let mut l = Ledger::new();
    l.create_account("x".to_string());
    let id = l.create_account("owner".to_string());
    let a = l.get_account(id).unwrap();
    assert_eq!(a.id, id);
    assert_eq!(a.owner, "owner");
    assert_eq!(a.balance, 0);
}

#[test]
fn transfer_moves_amount_and_logs_it() {
    let mut l = funded();
    assert_eq!(l.process_transaction(2, 1, 30, 7), Ok(()));
    assert_eq!(balance(&l, 2), 70);
    assert_eq!(balance(&l, 1), 30);
    assert_eq!(balance(&l, 0), 0);
    assert_eq!(l.process_transaction(2, 0, 20, 9), Ok(()));
    let (_, log) = l.into_parts();
    assert_eq!(log, vec![tx(2, 1, 30, 7), tx(2, 0, 20, 9)]);
}

#[test]
fn full_balance_may_be_sent() {
    let mut l = funded();
    assert_eq!(l.process_transaction(2, 0, 100, 1), Ok(()));
    assert_eq!(balance(&l, 2), 0);
    assert_eq!(balance(&l, 0), 100);
}

#[test]
fn unknown_account_is_refused_without_change() {
    let mut l = funded();
    assert_eq!(l.process_transaction(2, 5, 10, 1), Err(LedgerError::AccountNotFound));
    assert_eq!(l.process_transaction(9, 2, 10, 1), Err(LedgerError::AccountNotFound));
    assert_eq!(balance(&l, 2), 100);
    assert_eq!(l.latest_timestamp(), 0);
    let (_, log) = l.into_parts();
    assert!(log.is_empty());
}

#[test]
fn overdraft_is_refused_without_change() {
    let mut l = funded();
    assert_eq!(l.process_transaction(2, 0, 101, 1), Err(LedgerError::InsufficientFunds));
    assert_eq!(balance(&l, 2), 100);
    assert_eq!(balance(&l, 0), 0);
    let (_, log) = l.into_parts();
    assert!(log.is_empty());
}

#[test]
fn missing_account_wins_over_overdraft() {
    let mut l = funded();
    assert_eq!(l.process_transaction(0, 7, 50, 1), Err(LedgerError::AccountNotFound));
}

#[test]
fn self_transfer_keeps_balance_and_is_logged() {
    let mut l = funded();
    assert_eq!(l.process_transaction(2, 2, 60, 4), Ok(()));
    assert_eq!(balance(&l, 2), 100);
    assert_eq!(l.process_transaction(2, 2, 101, 5), Err(LedgerError::InsufficientFunds));
    let (_, log) = l.into_parts();
    assert_eq!(log, vec![tx(2, 2, 60, 4)]);
}

#[test]
fn negative_amount_is_accepted() {
    let mut l = funded();
    assert_eq!(l.process_transaction(0, 1, -25, 1), Ok(()));
    assert_eq!(balance(&l, 0), 25);
    assert_eq!(balance(&l, 1), -25);
}

#[test]
fn history_keeps_log_order() {
    let mut l = funded();
    l.create_account("dave".to_string());
    assert_eq!(l.process_transaction(2, 0, 10, 1), Ok(()));
    assert_eq!(l.process_transaction(2, 3, 10, 2), Ok(()));
    assert_eq!(l.process_transaction(0, 1, 5, 3), Ok(()));
    assert_eq!(l.process_transaction(3, 2, 1, 3), Ok(()));
    let (a, h) = l.get_account_with_history(0).unwrap();
    assert_eq!(a.id, 0);
    assert_eq!(a.balance, 5);
    assert_eq!(h, vec![tx(2, 0, 10, 1), tx(0, 1, 5, 3)]);
    let (_, h2) = l.get_account_with_history(2).unwrap();
    assert_eq!(h2, vec![tx(2, 0, 10, 1), tx(2, 3, 10, 2), tx(3, 2, 1, 3)]);
    let (_, h1) = l.get_account_with_history(1).unwrap();
    assert_eq!(h1, vec![tx(0, 1, 5, 3)]);
}

#[test]
fn history_of_unknown_account_is_absent() {
    let mut l = funded();
    assert_eq!(l.process_transaction(2, 0, 10, 1), Ok(()));
    assert!(l.get_account_with_history(3).is_none());
}

#[test]
fn alice_and_bob() {
    let mut l = Ledger::new();
    assert_eq!(l.create_account("alice".to_string()), 0);
    assert_eq!(l.create_account("bob".to_string()), 1);
    assert_eq!(l.process_transaction(0, 1, 50, 1), Err(LedgerError::InsufficientFunds));
    let carol = l.create_account("carol".to_string());
    let (mut accounts, log) = l.into_parts();
    accounts[carol as usize].balance = 100;
    let mut l = Ledger::from_parts(accounts, log).unwrap();
    assert_eq!(l.process_transaction(carol, 0, 100, 2), Ok(()));
    assert_eq!(balance(&l, 0), 100);
    assert_eq!(l.process_transaction(0, 1, 50, 3), Ok(()));
    assert_eq!(balance(&l, 0), 50);
    assert_eq!(balance(&l, 1), 50);
}

#[test]
fn empty_ledger_has_no_account() {
    let l = Ledger::new();
    assert!(l.get_account(999).is_none());
    assert!(l.get_account(0).is_none());
}

#[test]
fn parts_round_trip() {
    let mut l = funded();
    assert_eq!(l.process_transaction(2, 1, 40, 3), Ok(()));
    let (accounts, log) = l.into_parts();
    let l2 = Ledger::from_parts(accounts, log).unwrap();
    assert_eq!(balance(&l2, 1), 40);
    assert_eq!(l2.latest_timestamp(), 3);
    assert_eq!(l2.get_account(2).unwrap().owner, "carol");
}

#[test]
fn parts_with_bad_ids_are_refused() {
    assert!(Ledger::from_parts(vec![acct(1, "a", 0)], vec![]).is_none());
    assert!(Ledger::from_parts(vec![acct(0, "a", 0), acct(0, "b", 0)], vec![]).is_none());
}

#[test]
fn parts_with_bad_log_are_refused() {
    let two = || vec![acct(0, "a", 0), acct(1, "b", 0)];
    assert!(Ledger::from_parts(two(), vec![tx(0, 2, 1, 1)]).is_none());
    assert!(Ledger::from_parts(two(), vec![tx(2, 0, 1, 1)]).is_none());
    assert!(Ledger::from_parts(two(), vec![tx(0, 1, 1, 5), tx(1, 0, 1, 4)]).is_none());
    assert!(Ledger::from_parts(two(), vec![tx(0, 1, 1, 5), tx(1, 0, 1, 5)]).is_some());
}

#[test]
fn overflowing_transfer_does_not_fit() {
    let l = Ledger::from_parts(vec![acct(0, "a", 10), acct(1, "b", i64::MAX)], vec![]).unwrap();
    assert!(!l.transfer_fits(0, 1, 1));
    assert!(l.transfer_fits(0, 1, 0));
    assert!(!l.transfer_fits(0, 0, i64::MIN));
    assert!(l.transfer_fits(0, 1, 11));
    assert!(l.transfer_fits(0, 7, 1));
}

#[test]
fn latest_timestamp_follows_log() {
    let mut l = funded();
    assert_eq!(l.latest_timestamp(), 0);
    assert_eq!(l.process_transaction(2, 1, 1, 42), Ok(()));
    assert_eq!(l.latest_timestamp(), 42);
}

#[test]
fn error_messages() {
    assert_eq!(LedgerError::AccountNotFound.message(), "Account not found");
    assert_eq!(LedgerError::InsufficientFunds.message(), "Insufficient funds");
}
