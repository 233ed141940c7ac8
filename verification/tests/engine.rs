use rust_payments_engine::account::Account;
use rust_payments_engine::engine::Engine;
use rust_payments_engine::transaction::{Transaction, TxType};

#[test]
fn test_deposit() {
    let mut eng = Engine::new();
    eng.process_tx(Transaction::new(TxType::Deposit, 1, 1, 1));
    let accounts = eng.accounts_iter();
    let value = accounts.iter().next().unwrap();
    assert_eq!(value, &Account::new(1, 1, 0));
}

#[test]
fn test_withdrawal() {
    let mut eng = Engine::new();
    eng.process_tx(Transaction::new(TxType::Deposit, 1, 1, 15));
    eng.process_tx(Transaction::new(TxType::Withdrawal, 1, 1, 10));
    let accounts = eng.accounts_iter();
    let value = accounts.iter().next().unwrap();
    assert_eq!(value, &Account::new(1, 15 - 10, 0));
}

#[test]
fn test_over_withdrawal() {
    let mut eng = Engine::new();
    eng.process_tx(Transaction::new(TxType::Deposit, 1, 1, 15));
    eng.process_tx(Transaction::new(TxType::Withdrawal, 1, 1, 20));
    let accounts = eng.accounts_iter();
    let value = accounts.iter().next().unwrap();
    assert_eq!(value, &Account::new(1, 15, 0));
}

#[test]
fn test_multiple_clients() {
    let mut eng = Engine::new();
    eng.process_tx(Transaction::new(TxType::Deposit, 1, 1, 15));
    eng.process_tx(Transaction::new(TxType::Deposit, 2, 1, 15));
    eng.process_tx(Transaction::new(TxType::Deposit, 3, 1, 15));
    eng.process_tx(Transaction::new(TxType::Deposit, 1, 1, 15));
    let accounts = eng.accounts_iter();
    let iter = accounts.iter();
    assert_eq!(iter.count(), 3);
}

#[test]
fn test_dispute() {
    let mut eng = Engine::new();
    eng.process_tx(Transaction::new(TxType::Deposit, 1, 1, 5));
    eng.process_tx(Transaction::new(TxType::Deposit, 1, 2, 15));
    eng.process_tx(Transaction::new(TxType::Dispute, 1, 2, 0));
    let accounts = eng.accounts_iter();
    let value = accounts.iter().next().unwrap();
    assert_eq!(value, &Account::new(1, 5, 15));
}

#[test]
fn test_resolve() {
    let mut eng = Engine::new();
    eng.process_tx(Transaction::new(TxType::Deposit, 1, 1, 5));
    eng.process_tx(Transaction::new(TxType::Deposit, 1, 2, 15));
    eng.process_tx(Transaction::new(TxType::Dispute, 1, 2, 0));
    eng.process_tx(Transaction::new(TxType::Resolve, 1, 2, 0));
    let accounts = eng.accounts_iter();
    let value = accounts.iter().next().unwrap();
    assert_eq!(value, &Account::new(1, 20, 0));
}

#[test]
fn test_chargeback() {
    let mut eng = Engine::new();
    eng.process_tx(Transaction::new(TxType::Deposit, 1, 1, 5));
    eng.process_tx(Transaction::new(TxType::Deposit, 1, 2, 15));
    eng.process_tx(Transaction::new(TxType::Dispute, 1, 2, 0));
    eng.process_tx(Transaction::new(TxType::Chargeback, 1, 2, 0));
    let accounts = eng.accounts_iter();
    let value = accounts.iter().next().unwrap();
    let mut expected = Account::new(1, 5, 0);
    expected.locked = true;
    assert_eq!(value, &expected);
}

#[test]
fn test_withdraw_after_chargeback() {
    let mut eng = Engine::new();
    eng.process_tx(Transaction::new(TxType::Deposit, 1, 1, 5));
    eng.process_tx(Transaction::new(TxType::Deposit, 1, 2, 15));
    eng.process_tx(Transaction::new(TxType::Dispute, 1, 2, 0));
    eng.process_tx(Transaction::new(TxType::Chargeback, 1, 2, 0));
    // Withdrawal should not work
    eng.process_tx(Transaction::new(TxType::Withdrawal, 1, 3, 1));
    let accounts = eng.accounts_iter();
    let value = accounts.iter().next().unwrap();
    let mut expected = Account::new(1, 5, 0);
    expected.locked = true;
    assert_eq!(value, &expected);
}
