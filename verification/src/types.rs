//! The ledger's data model: transactions as they arrive on the stream,
//! the retained transaction history entries, per-client accounts, and the
//! diagnostics produced when an operation is rejected.
//!
//! Each executable type that carries amounts has an abstract view whose
//! monetary fields are mathematical integers; the ledger's contracts are
//! stated over those views.

use vstd::prelude::*;
use crate::amount::Amount;

verus! {

/// The five kinds of transaction the ledger understands. The dispatch over
/// them is total: no other kind is representable.
#[derive(Clone, Copy, Debug, PartialEq, Eq, Structural)]
pub enum TransactionType {
    Deposit,
    Withdrawal,
    Dispute,
    Resolve,
    Chargeback,
}

/// One record of the input stream.
///
/// `amount` is present on deposits and withdrawals and absent (and ignored)
/// on disputes, resolutions and chargebacks, which instead reference an
/// earlier transaction by `transaction_id`. `disputed` is the only field
/// that mutates after a transaction is recorded in history.
#[derive(Clone, Copy, Debug)]
pub struct Transaction {
    pub transaction_type: TransactionType,
    pub client_id: u16,
    pub transaction_id: u32,
    pub amount: Option<Amount>,
    pub disputed: bool,
}

/// The amount a transaction carries, as a mathematical integer; zero when
/// the amount is absent.
pub open spec fn amount_of(t: Transaction) -> int {
    match t.amount {
        Some(a) => a@,
        None => 0,
    }
}

/// A transaction as retained in history. Only deposits and withdrawals are
/// retained, and those always carry an amount, so the amount here is plain.
#[derive(Clone, Copy, Debug, PartialEq, Eq, Structural)]
pub struct TxRecord {
    pub transaction_type: TransactionType,
    pub client_id: u16,
    pub amount: Amount,
    pub disputed: bool,
}

/// Abstract view of a history entry: the amount is a mathematical integer.
pub struct TxRecordView {
    pub transaction_type: TransactionType,
    pub client_id: u16,
    pub amount: int,
    pub disputed: bool,
}

impl View for TxRecord {
    type V = TxRecordView;

    open spec fn view(&self) -> TxRecordView {
        TxRecordView {
            transaction_type: self.transaction_type,
            client_id: self.client_id,
            amount: self.amount@,
            disputed: self.disputed,
        }
    }
}

/// A client's account: derived, mutable state, created lazily on the first
/// deposit. `total == available + held` at every observable point; `locked`
/// records that a chargeback has been applied (it is recorded, not enforced
/// as a gate on later operations, preserving the permissive behaviour).
#[derive(Clone, Copy, Debug, PartialEq, Eq, Structural)]
pub struct Account {
    pub client_id: u16,
    pub available: Amount,
    pub held: Amount,
    pub total: Amount,
    pub locked: bool,
}

/// Abstract view of an account: balances are mathematical integers.
pub struct AccountView {
    pub client_id: u16,
    pub available: int,
    pub held: int,
    pub total: int,
    pub locked: bool,
}

impl View for Account {
    type V = AccountView;

    open spec fn view(&self) -> AccountView {
        AccountView {
            client_id: self.client_id,
            available: self.available@,
            held: self.held@,
            total: self.total@,
            locked: self.locked,
        }
    }
}

impl Account {
    /// A fresh account for `client_id` with all balances zero and no lock.
    pub fn new(client_id: u16) -> (a: Account)
        ensures
            a@ == (AccountView {
                client_id,
                available: 0int,
                held: 0int,
                total: 0int,
                locked: false,
            }),
    {
        Account {
            client_id,
            available: Amount { minor: 0 },
            held: Amount { minor: 0 },
            total: Amount { minor: 0 },
            locked: false,
        }
    }
}

/// Why an operation was rejected. Every rejection is local and non-fatal:
/// the ledger is left in its prior state and processing continues. Each
/// variant names the offending amount, the client and the balance that
/// blocked the operation, so a caller can render a human-readable message.
#[derive(Clone, Copy, Debug, PartialEq, Eq, Structural)]
pub enum Diagnostic {
    /// A withdrawal asked for more than the available balance.
    WithdrawalInsufficient { amount: Amount, client_id: u16, available: Amount },
    /// A dispute could not move funds because the available balance does
    /// not strictly exceed the disputed amount.
    DisputeInsufficient { amount: Amount, client_id: u16, available: Amount },
    /// A resolve found the transaction not under dispute, or the held
    /// balance short of its amount.
    ResolveNotHeld { amount: Amount, client_id: u16, held: Amount },
    /// A chargeback found the transaction not under dispute, or the held
    /// balance short of its amount.
    ChargebackNotHeld { amount: Amount, client_id: u16, held: Amount },
    /// A dispute, resolve or chargeback referenced a transaction id that is
    /// not in history.
    UnknownTransaction { transaction_type: TransactionType, transaction_id: u32 },
}

/// Abstract view of a diagnostic: amounts are mathematical integers.
pub enum DiagView {
    WithdrawalInsufficient { amount: int, client_id: u16, available: int },
    DisputeInsufficient { amount: int, client_id: u16, available: int },
    ResolveNotHeld { amount: int, client_id: u16, held: int },
    ChargebackNotHeld { amount: int, client_id: u16, held: int },
    UnknownTransaction { transaction_type: TransactionType, transaction_id: u32 },
}

impl View for Diagnostic {
    type V = DiagView;

    open spec fn view(&self) -> DiagView {
        match *self {
            Diagnostic::WithdrawalInsufficient { amount, client_id, available } =>
                DiagView::WithdrawalInsufficient { amount: amount@, client_id, available: available@ },
            Diagnostic::DisputeInsufficient { amount, client_id, available } =>
                DiagView::DisputeInsufficient { amount: amount@, client_id, available: available@ },
            Diagnostic::ResolveNotHeld { amount, client_id, held } =>
                DiagView::ResolveNotHeld { amount: amount@, client_id, held: held@ },
            Diagnostic::ChargebackNotHeld { amount, client_id, held } =>
                DiagView::ChargebackNotHeld { amount: amount@, client_id, held: held@ },
            Diagnostic::UnknownTransaction { transaction_type, transaction_id } =>
                DiagView::UnknownTransaction { transaction_type, transaction_id },
        }
    }
}

/// The view of an optional diagnostic, for use in contracts.
pub open spec fn diag_view(r: Option<Diagnostic>) -> Option<DiagView> {
    match r {
        Some(d) => Some(d@),
        None => None,
    }
}

} // verus!
