use payments::amount::Amount;
use payments::ledger::Ledger;
use payments::types::{Diagnostic, Transaction, TransactionType};

fn amt(minor: u64) -> Amount {
    Amount { minor }
}

fn tx(
    transaction_type: TransactionType,
    client_id: u16,
    transaction_id: u32,
    amount: Option<Amount>,
) -> Transaction {
    Transaction { transaction_type, client_id, transaction_id, amount, disputed: false }
}

fn deposit(client_id: u16, transaction_id: u32, minor: u64) -> Transaction {
    tx(TransactionType::Deposit, client_id, transaction_id, Some(amt(minor)))
}

#[test]
fn withdrawal_then_overdraft_rejected() {
    let mut ledger = Ledger::new();
    assert!(ledger.process(&deposit(1, 1, 15000)).is_none());
    assert!(ledger.process(&deposit(1, 2, 45000)).is_none());
    let w = tx(TransactionType::Withdrawal, 1, 3, Some(amt(20000)));
    assert!(ledger.process(&w).is_none());
    let account = ledger.get_account(1).unwrap();
    assert_eq!(account.available, amt(40000));
    assert_eq!(account.total, amt(40000));

    let overdraft = tx(TransactionType::Withdrawal, 1, 4, Some(amt(1000000)));
    let diag = ledger.process(&overdraft);
    assert_eq!(
        diag,
        Some(Diagnostic::WithdrawalInsufficient {
            amount: amt(1000000),
            client_id: 1,
            available: amt(40000),
        })
    );
    let account = ledger.get_account(1).unwrap();
    assert_eq!(account.available, amt(40000));
    assert_eq!(account.total, amt(40000));
    assert_eq!(account.held, amt(0));
}

#[test]
fn resolve_clears_disputed_flag() {
    let mut ledger = Ledger::new();
    ledger.process(&deposit(1, 1, 15000));
    ledger.process(&deposit(1, 2, 100000));
    ledger.process(&tx(TransactionType::Dispute, 1, 1, None));
    assert!(ledger.get_transaction(1).unwrap().disputed);
    ledger.process(&tx(TransactionType::Resolve, 1, 1, None));
    assert!(!ledger.get_transaction(1).unwrap().disputed);
    let account = ledger.get_account(1).unwrap();
    assert_eq!(account.available, amt(115000));
    assert_eq!(account.held, amt(0));
    assert_eq!(account.total, amt(115000));
    assert!(!account.locked);
}

#[test]
fn resolve_twice_is_noop() {
    let mut ledger = Ledger::new();
    ledger.process(&deposit(1, 1, 15000));
    ledger.process(&deposit(1, 2, 100000));
    ledger.process(&tx(TransactionType::Dispute, 1, 1, None));
    let resolve = tx(TransactionType::Resolve, 1, 1, None);
    assert!(ledger.process(&resolve).is_none());
    let after_first = ledger.get_account(1).unwrap();
    let diag = ledger.process(&resolve);
    assert_eq!(
        diag,
        Some(Diagnostic::ResolveNotHeld { amount: amt(15000), client_id: 1, held: amt(0) })
    );
    assert_eq!(ledger.get_account(1).unwrap(), after_first);
    assert!(!ledger.get_transaction(1).unwrap().disputed);
}

#[test]
fn chargeback_twice_is_noop() {
    let mut ledger = Ledger::new();
    ledger.process(&deposit(1, 1, 15000));
    ledger.process(&deposit(1, 2, 100000));
    ledger.process(&tx(TransactionType::Dispute, 1, 1, None));
    let chargeback = tx(TransactionType::Chargeback, 1, 1, None);
    assert!(ledger.process(&chargeback).is_none());
    let after_first = ledger.get_account(1).unwrap();
    assert!(after_first.locked);
    let diag = ledger.process(&chargeback);
    assert_eq!(
        diag,
        Some(Diagnostic::ChargebackNotHeld { amount: amt(15000), client_id: 1, held: amt(0) })
    );
    assert_eq!(ledger.get_account(1).unwrap(), after_first);
}

#[test]
fn dispute_unknown_transaction_has_no_effect() {
    let mut ledger = Ledger::new();
    let diag = ledger.process(&tx(TransactionType::Dispute, 7, 99, None));
    assert_eq!(
        diag,
        Some(Diagnostic::UnknownTransaction {
            transaction_type: TransactionType::Dispute,
            transaction_id: 99,
        })
    );
    assert!(ledger.get_account(7).is_none());
    assert!(ledger.get_transaction(99).is_none());
}

#[test]
fn resolve_and_chargeback_unknown_transaction_diagnosed() {
    let mut ledger = Ledger::new();
    assert_eq!(
        ledger.process(&tx(TransactionType::Resolve, 1, 5, None)),
        Some(Diagnostic::UnknownTransaction {
            transaction_type: TransactionType::Resolve,
            transaction_id: 5,
        })
    );
    assert_eq!(
        ledger.process(&tx(TransactionType::Chargeback, 1, 5, None)),
        Some(Diagnostic::UnknownTransaction {
            transaction_type: TransactionType::Chargeback,
            transaction_id: 5,
        })
    );
}

#[test]
fn dispute_without_headroom_sets_flag_but_moves_nothing() {
    let mut ledger = Ledger::new();
    ledger.process(&deposit(1, 1, 15000));
    // Available equals the disputed amount: the move needs strictly more.
    let diag = ledger.process(&tx(TransactionType::Dispute, 1, 1, None));
    assert_eq!(
        diag,
        Some(Diagnostic::DisputeInsufficient {
            amount: amt(15000),
            client_id: 1,
            available: amt(15000),
        })
    );
    let account = ledger.get_account(1).unwrap();
    assert_eq!(account.available, amt(15000));
    assert_eq!(account.held, amt(0));
    assert!(ledger.get_transaction(1).unwrap().disputed);
}

#[test]
fn cross_client_dispute_is_silent_noop() {
    let mut ledger = Ledger::new();
    ledger.process(&deposit(1, 1, 15000));
    ledger.process(&deposit(2, 2, 30000));
    let diag = ledger.process(&tx(TransactionType::Dispute, 2, 1, None));
    assert!(diag.is_none());
    assert!(!ledger.get_transaction(1).unwrap().disputed);
    assert_eq!(ledger.get_account(1).unwrap().available, amt(15000));
    assert_eq!(ledger.get_account(2).unwrap().available, amt(30000));
}

#[test]
fn withdrawal_for_unknown_client_only_records_history() {
    let mut ledger = Ledger::new();
    let diag = ledger.process(&tx(TransactionType::Withdrawal, 9, 4, Some(amt(2500))));
    assert!(diag.is_none());
    assert!(ledger.get_account(9).is_none());
    let record = ledger.get_transaction(4).unwrap();
    assert_eq!(record.client_id, 9);
    assert_eq!(record.amount, amt(2500));
}

#[test]
fn resolve_clears_flag_even_without_account() {
    let mut ledger = Ledger::new();
    // A withdrawal for a client with no account records history only; the
    // stored entry keeps the disputed field as given.
    let w = Transaction {
        transaction_type: TransactionType::Withdrawal,
        client_id: 9,
        transaction_id: 4,
        amount: Some(amt(2500)),
        disputed: true,
    };
    assert!(ledger.process(&w).is_none());
    assert!(ledger.get_transaction(4).unwrap().disputed);
    // The transaction is found and owned, so resolve clears the flag even
    // though no account exists; nothing else changes and nothing is logged.
    let diag = ledger.process(&tx(TransactionType::Resolve, 9, 4, None));
    assert!(diag.is_none());
    assert!(!ledger.get_transaction(4).unwrap().disputed);
    assert!(ledger.get_account(9).is_none());
}

#[test]
fn chargeback_clears_flag_even_without_account() {
    let mut ledger = Ledger::new();
    let w = Transaction {
        transaction_type: TransactionType::Withdrawal,
        client_id: 9,
        transaction_id: 4,
        amount: Some(amt(2500)),
        disputed: true,
    };
    assert!(ledger.process(&w).is_none());
    let diag = ledger.process(&tx(TransactionType::Chargeback, 9, 4, None));
    assert!(diag.is_none());
    assert!(!ledger.get_transaction(4).unwrap().disputed);
    assert!(ledger.get_account(9).is_none());
}

#[test]
fn resolve_not_disputed_is_diagnosed() {
    let mut ledger = Ledger::new();
    ledger.process(&deposit(1, 1, 15000));
    let diag = ledger.process(&tx(TransactionType::Resolve, 1, 1, None));
    assert_eq!(
        diag,
        Some(Diagnostic::ResolveNotHeld { amount: amt(15000), client_id: 1, held: amt(0) })
    );
    assert_eq!(ledger.get_account(1).unwrap().available, amt(15000));
}

#[test]
fn total_stays_sum_of_available_and_held() {
    let mut ledger = Ledger::new();
    ledger.process(&deposit(1, 1, 15000));
    ledger.process(&deposit(1, 2, 100000));
    ledger.process(&tx(TransactionType::Withdrawal, 1, 3, Some(amt(40000))));
    ledger.process(&tx(TransactionType::Dispute, 1, 1, None));
    let account = ledger.get_account(1).unwrap();
    assert_eq!(account.total.minor, account.available.minor + account.held.minor);
    ledger.process(&tx(TransactionType::Chargeback, 1, 1, None));
    let account = ledger.get_account(1).unwrap();
    assert_eq!(account.total.minor, account.available.minor + account.held.minor);
    assert!(account.locked);
}

#[test]
fn snapshot_lists_accounts_in_creation_order() {
    let mut ledger = Ledger::new();
    ledger.process(&deposit(5, 1, 10000));
    ledger.process(&deposit(2, 2, 20000));
    ledger.process(&deposit(5, 3, 5000));
    ledger.process(&deposit(9, 4, 30000));
    let accounts = ledger.accounts_in_order();
    let ids: Vec<u16> = accounts.iter().map(|a| a.client_id).collect();
    assert_eq!(ids, vec![5, 2, 9]);
    assert_eq!(accounts[0].available, amt(15000));
    assert_eq!(accounts[1].available, amt(20000));
    assert_eq!(accounts[2].available, amt(30000));
}

#[test]
fn deposit_overwrites_history_entry_with_same_id() {
    let mut ledger = Ledger::new();
    ledger.process(&deposit(1, 1, 15000));
    ledger.process(&deposit(1, 1, 20000));
    let record = ledger.get_transaction(1).unwrap();
    assert_eq!(record.amount, amt(20000));
    // Both deposits credited the account.
    assert_eq!(ledger.get_account(1).unwrap().available, amt(35000));
}
