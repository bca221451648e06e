//! The mathematical model of the ledger.
//!
//! A ledger is abstracted as two maps — transaction history by transaction
//! id and account state by client id — together with the sequence of client
//! ids in the order their accounts were created. Each of the five
//! transaction kinds is a transition function on this view that also yields
//! the diagnostic, if any, that the operation emits. The executable ledger
//! ensures that every mutation equals the corresponding transition.

use vstd::prelude::*;
use crate::types::{
    Transaction, TransactionType, TxRecordView, AccountView, DiagView, amount_of,
};

verus! {

/// Abstract state of a ledger.
#[verifier::ext_equal]
pub struct LedgerView {
    /// Retained deposit/withdrawal records, keyed by transaction id.
    pub txs: Map<u32, TxRecordView>,
    /// Account state, keyed by client id.
    pub accounts: Map<u16, AccountView>,
    /// Client ids in the order their accounts were created.
    pub order: Seq<u16>,
}

/// A transition's outcome: the new state and the diagnostic, if any.
#[verifier::ext_equal]
pub struct Step {
    pub state: LedgerView,
    pub diag: Option<DiagView>,
}

impl LedgerView {
    /// The empty ledger: no history, no accounts.
    pub open spec fn empty() -> LedgerView {
        LedgerView { txs: Map::empty(), accounts: Map::empty(), order: Seq::empty() }
    }

    /// Well-formedness, maintained by every transition from the empty
    /// ledger on: every account's balances are non-negative with
    /// `total == available + held`, accounts are keyed by their own client
    /// id, history amounts are non-negative, and `order` lists exactly the
    /// account keys, each once.
    pub open spec fn wf(self) -> bool {
        &&& forall|c: u16| #[trigger] self.accounts.contains_key(c) ==> {
            let a = self.accounts[c];
            &&& a.client_id == c
            &&& a.available >= 0
            &&& a.held >= 0
            &&& a.total == a.available + a.held
        }
        &&& forall|i: u32| #[trigger] self.txs.contains_key(i) ==> self.txs[i].amount >= 0
        &&& self.order.no_duplicates()
        &&& forall|c: u16| self.accounts.contains_key(c) <==> #[trigger] self.order.contains(c)
    }
}

/// The history entry a deposit or withdrawal leaves behind.
pub open spec fn record_of(t: Transaction) -> TxRecordView {
    TxRecordView {
        transaction_type: t.transaction_type,
        client_id: t.client_id,
        amount: amount_of(t),
        disputed: t.disputed,
    }
}

/// Whether a deposit's addition stays within the executable representation
/// of balances. Callers of the executable ledger must ensure this, and
/// should abort rather than truncate when it fails.
pub open spec fn deposit_fits(s: LedgerView, t: Transaction) -> bool {
    s.accounts.contains_key(t.client_id) ==> s.accounts[t.client_id].total + amount_of(t)
        <= u64::MAX
}

/// Deposit: record the transaction (overwriting any prior entry with the
/// same id), then credit the client's available balance, creating the
/// account if this is the client's first deposit. Deposits always succeed.
pub open spec fn deposit_step(s: LedgerView, t: Transaction) -> Step {
    let txs = s.txs.insert(t.transaction_id, record_of(t));
    if s.accounts.contains_key(t.client_id) {
        let a = s.accounts[t.client_id];
        let a2 = AccountView {
            client_id: a.client_id,
            available: a.available + amount_of(t),
            held: a.held,
            total: a.available + amount_of(t) + a.held,
            locked: a.locked,
        };
        Step {
            state: LedgerView { txs, accounts: s.accounts.insert(t.client_id, a2), order: s.order },
            diag: None,
        }
    } else {
        let a = AccountView {
            client_id: t.client_id,
            available: amount_of(t),
            held: 0,
            total: amount_of(t),
            locked: false,
        };
        Step {
            state: LedgerView {
                txs,
                accounts: s.accounts.insert(t.client_id, a),
                order: s.order.push(t.client_id),
            },
            diag: None,
        }
    }
}

/// Withdrawal: record the transaction unconditionally (it stays available
/// as a reference for a later dispute), then, if the client has an account,
/// debit it — unless the available balance is short, in which case the
/// balances stay unchanged and a diagnostic is emitted. Without an account
/// nothing further happens.
pub open spec fn withdraw_step(s: LedgerView, t: Transaction) -> Step {
    let txs = s.txs.insert(t.transaction_id, record_of(t));
    if s.accounts.contains_key(t.client_id) {
        let a = s.accounts[t.client_id];
        if a.available < amount_of(t) {
            Step {
                state: LedgerView { txs, accounts: s.accounts, order: s.order },
                diag: Some(DiagView::WithdrawalInsufficient {
                    amount: amount_of(t),
                    client_id: t.client_id,
                    available: a.available,
                }),
            }
        } else {
            let a2 = AccountView {
                client_id: a.client_id,
                available: a.available - amount_of(t),
                held: a.held,
                total: a.total - amount_of(t),
                locked: a.locked,
            };
            Step {
                state: LedgerView {
                    txs,
                    accounts: s.accounts.insert(t.client_id, a2),
                    order: s.order,
                },
                diag: None,
            }
        }
    } else {
        Step { state: LedgerView { txs, accounts: s.accounts, order: s.order }, diag: None }
    }
}

/// Dispute: look the referenced transaction up in history. Unknown id:
/// diagnostic, no state change. Recorded under another client: silent
/// no-op. Otherwise, if the client has an account, the entry is flagged
/// disputed; the entry's amount moves from available to held only when
/// available strictly exceeds it, else a diagnostic is emitted; the flag
/// stays set either way, a deliberate asymmetry with resolve and
/// chargeback, which clear it unconditionally.
pub open spec fn dispute_step(s: LedgerView, t: Transaction) -> Step {
    if !s.txs.contains_key(t.transaction_id) {
        Step {
            state: s,
            diag: Some(DiagView::UnknownTransaction {
                transaction_type: TransactionType::Dispute,
                transaction_id: t.transaction_id,
            }),
        }
    } else {
        let rec = s.txs[t.transaction_id];
        if rec.client_id != t.client_id {
            Step { state: s, diag: None }
        } else if !s.accounts.contains_key(t.client_id) {
            Step { state: s, diag: None }
        } else {
            let rec2 = TxRecordView {
                transaction_type: rec.transaction_type,
                client_id: rec.client_id,
                amount: rec.amount,
                disputed: true,
            };
            let txs = s.txs.insert(t.transaction_id, rec2);
            let a = s.accounts[t.client_id];
            if a.available > rec.amount {
                let a2 = AccountView {
                    client_id: a.client_id,
                    available: a.available - rec.amount,
                    held: a.held + rec.amount,
                    total: a.total,
                    locked: a.locked,
                };
                Step {
                    state: LedgerView {
                        txs,
                        accounts: s.accounts.insert(t.client_id, a2),
                        order: s.order,
                    },
                    diag: None,
                }
            } else {
                Step {
                    state: LedgerView { txs, accounts: s.accounts, order: s.order },
                    diag: Some(DiagView::DisputeInsufficient {
                        amount: rec.amount,
                        client_id: t.client_id,
                        available: a.available,
                    }),
                }
            }
        }
    }
}

/// Resolve: same lookup and ownership checks as a dispute. Once the entry
/// is found and owned by the caller its disputed flag is cleared, whether
/// or not anything else happens. With an account present, the held funds
/// move back to available only when the entry was disputed and the held
/// balance covers its amount, else a diagnostic is emitted; without an
/// account the balances cannot change and only the flag is cleared.
pub open spec fn resolve_step(s: LedgerView, t: Transaction) -> Step {
    if !s.txs.contains_key(t.transaction_id) {
        Step {
            state: s,
            diag: Some(DiagView::UnknownTransaction {
                transaction_type: TransactionType::Resolve,
                transaction_id: t.transaction_id,
            }),
        }
    } else {
        let rec = s.txs[t.transaction_id];
        if rec.client_id != t.client_id {
            Step { state: s, diag: None }
        } else {
            let rec2 = TxRecordView {
                transaction_type: rec.transaction_type,
                client_id: rec.client_id,
                amount: rec.amount,
                disputed: false,
            };
            let txs = s.txs.insert(t.transaction_id, rec2);
            if !s.accounts.contains_key(t.client_id) {
                Step { state: LedgerView { txs, accounts: s.accounts, order: s.order }, diag: None }
            } else {
                let a = s.accounts[t.client_id];
                if rec.disputed && a.held >= rec.amount {
                    let a2 = AccountView {
                        client_id: a.client_id,
                        available: a.available + rec.amount,
                        held: a.held - rec.amount,
                        total: a.total,
                        locked: a.locked,
                    };
                    Step {
                        state: LedgerView {
                            txs,
                            accounts: s.accounts.insert(t.client_id, a2),
                            order: s.order,
                        },
                        diag: None,
                    }
                } else {
                    Step {
                        state: LedgerView { txs, accounts: s.accounts, order: s.order },
                        diag: Some(DiagView::ResolveNotHeld {
                            amount: rec.amount,
                            client_id: t.client_id,
                            held: a.held,
                        }),
                    }
                }
            }
        }
    }
}

/// Chargeback: same lookup and ownership checks as a resolve, and the
/// disputed flag is likewise cleared once the entry is found and owned,
/// whether or not anything else happens. With an account present, when the
/// entry was disputed and the held balance covers its amount, the amount
/// leaves both held and total and the account is locked; else a diagnostic
/// is emitted. Without an account only the flag is cleared.
pub open spec fn chargeback_step(s: LedgerView, t: Transaction) -> Step {
    if !s.txs.contains_key(t.transaction_id) {
        Step {
            state: s,
            diag: Some(DiagView::UnknownTransaction {
                transaction_type: TransactionType::Chargeback,
                transaction_id: t.transaction_id,
            }),
        }
    } else {
        let rec = s.txs[t.transaction_id];
        if rec.client_id != t.client_id {
            Step { state: s, diag: None }
        } else {
            let rec2 = TxRecordView {
                transaction_type: rec.transaction_type,
                client_id: rec.client_id,
                amount: rec.amount,
                disputed: false,
            };
            let txs = s.txs.insert(t.transaction_id, rec2);
            if !s.accounts.contains_key(t.client_id) {
                Step { state: LedgerView { txs, accounts: s.accounts, order: s.order }, diag: None }
            } else {
                let a = s.accounts[t.client_id];
                if rec.disputed && a.held >= rec.amount {
                    let a2 = AccountView {
                        client_id: a.client_id,
                        available: a.available,
                        held: a.held - rec.amount,
                        total: a.total - rec.amount,
                        locked: true,
                    };
                    Step {
                        state: LedgerView {
                            txs,
                            accounts: s.accounts.insert(t.client_id, a2),
                            order: s.order,
                        },
                        diag: None,
                    }
                } else {
                    Step {
                        state: LedgerView { txs, accounts: s.accounts, order: s.order },
                        diag: Some(DiagView::ChargebackNotHeld {
                            amount: rec.amount,
                            client_id: t.client_id,
                            held: a.held,
                        }),
                    }
                }
            }
        }
    }
}

/// The total dispatch over the five transaction kinds.
pub open spec fn process_step(s: LedgerView, t: Transaction) -> Step {
    match t.transaction_type {
        TransactionType::Deposit => deposit_step(s, t),
        TransactionType::Withdrawal => withdraw_step(s, t),
        TransactionType::Dispute => dispute_step(s, t),
        TransactionType::Resolve => resolve_step(s, t),
        TransactionType::Chargeback => chargeback_step(s, t),
    }
}

/// The state after replaying a stream of transactions, in order, from the
/// empty ledger.
pub open spec fn replay(ts: Seq<Transaction>) -> LedgerView
    decreases ts.len(),
{
    if ts.len() == 0 {
        LedgerView::empty()
    } else {
        process_step(replay(ts.drop_last()), ts.last()).state
    }
}

/// What the executable ledger requires of a transaction before processing
/// it: deposits and withdrawals carry an amount, and a deposit's credit
/// stays within the executable representation.
pub open spec fn process_pre(s: LedgerView, t: Transaction) -> bool {
    &&& (t.transaction_type is Deposit || t.transaction_type is Withdrawal) ==> t.amount is Some
    &&& t.transaction_type is Deposit ==> deposit_fits(s, t)
}

} // verus!
