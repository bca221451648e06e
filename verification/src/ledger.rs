//! The executable ledger.
//!
//! `Ledger` owns the transaction history and the account map, both keyed by
//! integer ids, plus the client ids in account-creation order so that a
//! snapshot of all accounts comes out deterministically. Every mutation is
//! proved equal to the corresponding transition function of the abstract
//! model, and to preserve well-formedness.

use vstd::prelude::*;
use std::collections::HashMap;
use crate::amount::Amount;
use crate::types::{
    Transaction, TransactionType, TxRecord, TxRecordView, Account, AccountView, Diagnostic,
    diag_view,
};
use crate::model::{
    LedgerView, deposit_fits, deposit_step, withdraw_step, dispute_step, resolve_step,
    chargeback_step, process_step, process_pre,
};
use crate::laws::{
    lemma_deposit_preserves_wf, lemma_withdraw_preserves_wf, lemma_dispute_preserves_wf,
    lemma_resolve_preserves_wf, lemma_chargeback_preserves_wf,
};

verus! {

broadcast use vstd::std_specs::hash::group_hash_axioms;

/// The abstraction of the transaction-history map: each retained record,
/// by its view.
pub open spec fn tx_map_view(m: Map<u32, TxRecord>) -> Map<u32, TxRecordView> {
    Map::new(|i: u32| m.contains_key(i), |i: u32| m[i]@)
}

/// The abstraction of the account map: each account, by its view.
pub open spec fn account_map_view(m: Map<u16, Account>) -> Map<u16, AccountView> {
    Map::new(|c: u16| m.contains_key(c), |c: u16| m[c]@)
}

proof fn lemma_tx_map_view_insert(m: Map<u32, TxRecord>, i: u32, r: TxRecord)
    ensures
        tx_map_view(m.insert(i, r)) == tx_map_view(m).insert(i, r@),
{
    assert(tx_map_view(m.insert(i, r)) =~= tx_map_view(m).insert(i, r@));
}

proof fn lemma_account_map_view_insert(m: Map<u16, Account>, c: u16, a: Account)
    ensures
        account_map_view(m.insert(c, a)) == account_map_view(m).insert(c, a@),
{
    assert(account_map_view(m.insert(c, a)) =~= account_map_view(m).insert(c, a@));
}

/// The ledger: transaction history and account state, exclusively owned,
/// mutated only through `process` and the five handlers it dispatches to.
pub struct Ledger {
    transactions_by_id: HashMap<u32, TxRecord>,
    account_by_id: HashMap<u16, Account>,
    client_order: Vec<u16>,
}

impl View for Ledger {
    type V = LedgerView;

    closed spec fn view(&self) -> LedgerView {
        LedgerView {
            txs: tx_map_view(self.transactions_by_id@),
            accounts: account_map_view(self.account_by_id@),
            order: self.client_order@,
        }
    }
}

impl Ledger {
    /// A ledger with no history and no accounts.
    pub fn new() -> (l: Ledger)
        ensures
            l@ == LedgerView::empty(),
            l@.wf(),
    {
        let l = Ledger {
            transactions_by_id: HashMap::new(),
            account_by_id: HashMap::new(),
            client_order: Vec::new(),
        };
        proof {
            assert(tx_map_view(l.transactions_by_id@) =~= Map::<u32, TxRecordView>::empty());
            assert(account_map_view(l.account_by_id@) =~= Map::<u16, AccountView>::empty());
            assert(l@ =~= LedgerView::empty());
        }
        l
    }

    /// Record the deposit in history (overwriting any prior entry with the
    /// same id) and credit the client's available balance, creating the
    /// account on the client's first deposit. Deposits always succeed, so
    /// no diagnostic comes back.
    pub fn deposit(&mut self, t: &Transaction) -> (r: Option<Diagnostic>)
        requires
            old(self)@.wf(),
            t.amount is Some,
            deposit_fits(old(self)@, *t),
        ensures
            final(self)@ == deposit_step(old(self)@, *t).state,
            diag_view(r) == deposit_step(old(self)@, *t).diag,
            final(self)@.wf(),
            r is None,
    {
        proof {
            lemma_deposit_preserves_wf(old(self)@, *t);
        }
        let amount = t.amount.unwrap();
        let rec = TxRecord {
            transaction_type: t.transaction_type,
            client_id: t.client_id,
            amount,
            disputed: t.disputed,
        };
        self.transactions_by_id.insert(t.transaction_id, rec);
        proof {
            lemma_tx_map_view_insert(old(self).transactions_by_id@, t.transaction_id, rec);
        }
        let existing: Option<Account> = match self.account_by_id.get(&t.client_id) {
            Some(a) => Some(*a),
            None => None,
        };
        match existing {
            Some(acct) => {
                proof {
                    assert(old(self)@.accounts.contains_key(t.client_id));
                    assert(old(self)@.accounts[t.client_id] == acct@);
                }
                let available = acct.available.minor + amount.minor;
                let updated = Account {
                    client_id: acct.client_id,
                    available: Amount { minor: available },
                    held: acct.held,
                    total: Amount { minor: available + acct.held.minor },
                    locked: acct.locked,
                };
                self.account_by_id.insert(t.client_id, updated);
                proof {
                    lemma_account_map_view_insert(
                        old(self).account_by_id@,
                        t.client_id,
                        updated,
                    );
                    assert(self@ =~= deposit_step(old(self)@, *t).state);
                }
            },
            None => {
                let created = Account {
                    client_id: t.client_id,
                    available: amount,
                    held: Amount { minor: 0 },
                    total: amount,
                    locked: false,
                };
                self.account_by_id.insert(t.client_id, created);
                self.client_order.push(t.client_id);
                proof {
                    lemma_account_map_view_insert(
                        old(self).account_by_id@,
                        t.client_id,
                        created,
                    );
                    assert(self@ =~= deposit_step(old(self)@, *t).state);
                }
            },
        }
        None
    }

    /// Record the withdrawal in history unconditionally, then debit the
    /// client's account when it exists and its available balance covers the
    /// amount; a short balance leaves the balances unchanged and yields the
    /// diagnostic. A withdrawal for an unknown client only records history.
    pub fn withdraw(&mut self, t: &Transaction) -> (r: Option<Diagnostic>)
        requires
            old(self)@.wf(),
            t.amount is Some,
        ensures
            final(self)@ == withdraw_step(old(self)@, *t).state,
            diag_view(r) == withdraw_step(old(self)@, *t).diag,
            final(self)@.wf(),
    {
        proof {
            lemma_withdraw_preserves_wf(old(self)@, *t);
        }
        let amount = t.amount.unwrap();
        let rec = TxRecord {
            transaction_type: t.transaction_type,
            client_id: t.client_id,
            amount,
            disputed: t.disputed,
        };
        self.transactions_by_id.insert(t.transaction_id, rec);
        proof {
            lemma_tx_map_view_insert(old(self).transactions_by_id@, t.transaction_id, rec);
        }
        let existing: Option<Account> = match self.account_by_id.get(&t.client_id) {
            Some(a) => Some(*a),
            None => None,
        };
        match existing {
            Some(acct) => {
                proof {
                    assert(old(self)@.accounts.contains_key(t.client_id));
                    assert(old(self)@.accounts[t.client_id] == acct@);
                }
                if acct.available.minor < amount.minor {
                    proof {
                        assert(self@ =~= withdraw_step(old(self)@, *t).state);
                    }
                    Some(Diagnostic::WithdrawalInsufficient {
                        amount,
                        client_id: t.client_id,
                        available: acct.available,
                    })
                } else {
                    let updated = Account {
                        client_id: acct.client_id,
                        available: Amount { minor: acct.available.minor - amount.minor },
                        held: acct.held,
                        total: Amount { minor: acct.total.minor - amount.minor },
                        locked: acct.locked,
                    };
                    self.account_by_id.insert(t.client_id, updated);
                    proof {
                        lemma_account_map_view_insert(
                            old(self).account_by_id@,
                            t.client_id,
                            updated,
                        );
                        assert(self@ =~= withdraw_step(old(self)@, *t).state);
                    }
                    None
                }
            },
            None => {
                proof {
                    assert(self@ =~= withdraw_step(old(self)@, *t).state);
                }
                None
            },
        }
    }

    /// Look the referenced transaction up; an unknown id yields the
    /// diagnostic and no state change, and a record held by another client
    /// is a silent no-op. Otherwise, when the client has an account, the
    /// record is flagged disputed, and its amount moves from available to
    /// held only when available strictly exceeds it — else only the flag
    /// changes and the diagnostic comes back.
    pub fn dispute(&mut self, t: &Transaction) -> (r: Option<Diagnostic>)
        requires
            old(self)@.wf(),
        ensures
            final(self)@ == dispute_step(old(self)@, *t).state,
            diag_view(r) == dispute_step(old(self)@, *t).diag,
            final(self)@.wf(),
    {
        proof {
            lemma_dispute_preserves_wf(old(self)@, *t);
        }
        let fetched: Option<TxRecord> = match self.transactions_by_id.get(&t.transaction_id) {
            Some(r0) => Some(*r0),
            None => None,
        };
        match fetched {
            None => Some(Diagnostic::UnknownTransaction {
                transaction_type: TransactionType::Dispute,
                transaction_id: t.transaction_id,
            }),
            Some(rec) => {
                proof {
                    assert(old(self)@.txs.contains_key(t.transaction_id));
                    assert(old(self)@.txs[t.transaction_id] == rec@);
                }
                if rec.client_id == t.client_id {
                    let existing: Option<Account> = match self.account_by_id.get(&t.client_id) {
                        Some(a) => Some(*a),
                        None => None,
                    };
                    match existing {
                        Some(acct) => {
                            proof {
                                assert(old(self)@.accounts.contains_key(t.client_id));
                                assert(old(self)@.accounts[t.client_id] == acct@);
                            }
                            let flagged = TxRecord {
                                transaction_type: rec.transaction_type,
                                client_id: rec.client_id,
                                amount: rec.amount,
                                disputed: true,
                            };
                            self.transactions_by_id.insert(t.transaction_id, flagged);
                            proof {
                                lemma_tx_map_view_insert(
                                    old(self).transactions_by_id@,
                                    t.transaction_id,
                                    flagged,
                                );
                            }
                            if acct.available.minor > rec.amount.minor {
                                let updated = Account {
                                    client_id: acct.client_id,
                                    available: Amount {
                                        minor: acct.available.minor - rec.amount.minor,
                                    },
                                    held: Amount { minor: acct.held.minor + rec.amount.minor },
                                    total: acct.total,
                                    locked: acct.locked,
                                };
                                self.account_by_id.insert(t.client_id, updated);
                                proof {
                                    lemma_account_map_view_insert(
                                        old(self).account_by_id@,
                                        t.client_id,
                                        updated,
                                    );
                                    assert(self@ =~= dispute_step(old(self)@, *t).state);
                                }
                                None
                            } else {
                                proof {
                                    assert(self@ =~= dispute_step(old(self)@, *t).state);
                                }
                                Some(Diagnostic::DisputeInsufficient {
                                    amount: rec.amount,
                                    client_id: t.client_id,
                                    available: acct.available,
                                })
                            }
                        },
                        None => None,
                    }
                } else {
                    None
                }
            },
        }
    }

    /// Look the referenced transaction up with the same checks as a
    /// dispute. Once the record is found and owned by the caller its
    /// disputed flag is cleared, whether or not anything else happens.
    /// When the client has an account, held funds move back to available
    /// only when the record was disputed and the held balance covers its
    /// amount — else the diagnostic comes back.
    pub fn resolve(&mut self, t: &Transaction) -> (r: Option<Diagnostic>)
        requires
            old(self)@.wf(),
        ensures
            final(self)@ == resolve_step(old(self)@, *t).state,
            diag_view(r) == resolve_step(old(self)@, *t).diag,
            final(self)@.wf(),
    {
        proof {
            lemma_resolve_preserves_wf(old(self)@, *t);
        }
        let fetched: Option<TxRecord> = match self.transactions_by_id.get(&t.transaction_id) {
            Some(r0) => Some(*r0),
            None => None,
        };
        match fetched {
            None => Some(Diagnostic::UnknownTransaction {
                transaction_type: TransactionType::Resolve,
                transaction_id: t.transaction_id,
            }),
            Some(rec) => {
                proof {
                    assert(old(self)@.txs.contains_key(t.transaction_id));
                    assert(old(self)@.txs[t.transaction_id] == rec@);
                }
                if rec.client_id == t.client_id {
                    let cleared = TxRecord {
                        transaction_type: rec.transaction_type,
                        client_id: rec.client_id,
                        amount: rec.amount,
                        disputed: false,
                    };
                    self.transactions_by_id.insert(t.transaction_id, cleared);
                    proof {
                        lemma_tx_map_view_insert(
                            old(self).transactions_by_id@,
                            t.transaction_id,
                            cleared,
                        );
                    }
                    let existing: Option<Account> = match self.account_by_id.get(&t.client_id) {
                        Some(a) => Some(*a),
                        None => None,
                    };
                    match existing {
                        Some(acct) => {
                            proof {
                                assert(old(self)@.accounts.contains_key(t.client_id));
                                assert(old(self)@.accounts[t.client_id] == acct@);
                            }
                            if rec.disputed && acct.held.minor >= rec.amount.minor {
                                let updated = Account {
                                    client_id: acct.client_id,
                                    available: Amount {
                                        minor: acct.available.minor + rec.amount.minor,
                                    },
                                    held: Amount { minor: acct.held.minor - rec.amount.minor },
                                    total: acct.total,
                                    locked: acct.locked,
                                };
                                self.account_by_id.insert(t.client_id, updated);
                                proof {
                                    lemma_account_map_view_insert(
                                        old(self).account_by_id@,
                                        t.client_id,
                                        updated,
                                    );
                                    assert(self@ =~= resolve_step(old(self)@, *t).state);
                                }
                                None
                            } else {
                                proof {
                                    assert(self@ =~= resolve_step(old(self)@, *t).state);
                                }
                                Some(Diagnostic::ResolveNotHeld {
                                    amount: rec.amount,
                                    client_id: t.client_id,
                                    held: acct.held,
                                })
                            }
                        },
                        None => {
                            proof {
                                assert(self@ =~= resolve_step(old(self)@, *t).state);
                            }
                            None
                        },
                    }
                } else {
                    None
                }
            },
        }
    }

    /// Look the referenced transaction up with the same checks as a
    /// resolve, and clear the record's disputed flag likewise once it is
    /// found and owned. When the client has an account and the record was
    /// disputed with the held balance covering its amount, the amount
    /// leaves both held and total and the account is locked — else the
    /// diagnostic comes back.
    pub fn chargeback(&mut self, t: &Transaction) -> (r: Option<Diagnostic>)
        requires
            old(self)@.wf(),
        ensures
            final(self)@ == chargeback_step(old(self)@, *t).state,
            diag_view(r) == chargeback_step(old(self)@, *t).diag,
            final(self)@.wf(),
    {
        proof {
            lemma_chargeback_preserves_wf(old(self)@, *t);
        }
        let fetched: Option<TxRecord> = match self.transactions_by_id.get(&t.transaction_id) {
            Some(r0) => Some(*r0),
            None => None,
        };
        match fetched {
            None => Some(Diagnostic::UnknownTransaction {
                transaction_type: TransactionType::Chargeback,
                transaction_id: t.transaction_id,
            }),
            Some(rec) => {
                proof {
                    assert(old(self)@.txs.contains_key(t.transaction_id));
                    assert(old(self)@.txs[t.transaction_id] == rec@);
                }
                if rec.client_id == t.client_id {
                    let cleared = TxRecord {
                        transaction_type: rec.transaction_type,
                        client_id: rec.client_id,
                        amount: rec.amount,
                        disputed: false,
                    };
                    self.transactions_by_id.insert(t.transaction_id, cleared);
                    proof {
                        lemma_tx_map_view_insert(
                            old(self).transactions_by_id@,
                            t.transaction_id,
                            cleared,
                        );
                    }
                    let existing: Option<Account> = match self.account_by_id.get(&t.client_id) {
                        Some(a) => Some(*a),
                        None => None,
                    };
                    match existing {
                        Some(acct) => {
                            proof {
                                assert(old(self)@.accounts.contains_key(t.client_id));
                                assert(old(self)@.accounts[t.client_id] == acct@);
                            }
                            if rec.disputed && acct.held.minor >= rec.amount.minor {
                                let updated = Account {
                                    client_id: acct.client_id,
                                    available: acct.available,
                                    held: Amount { minor: acct.held.minor - rec.amount.minor },
                                    total: Amount { minor: acct.total.minor - rec.amount.minor },
                                    locked: true,
                                };
                                self.account_by_id.insert(t.client_id, updated);
                                proof {
                                    lemma_account_map_view_insert(
                                        old(self).account_by_id@,
                                        t.client_id,
                                        updated,
                                    );
                                    assert(self@ =~= chargeback_step(old(self)@, *t).state);
                                }
                                None
                            } else {
                                proof {
                                    assert(self@ =~= chargeback_step(old(self)@, *t).state);
                                }
                                Some(Diagnostic::ChargebackNotHeld {
                                    amount: rec.amount,
                                    client_id: t.client_id,
                                    held: acct.held,
                                })
                            }
                        },
                        None => {
                            proof {
                                assert(self@ =~= chargeback_step(old(self)@, *t).state);
                            }
                            None
                        },
                    }
                } else {
                    None
                }
            },
        }
    }

    /// Apply one transaction of the stream: the total dispatch over the
    /// five kinds. The returned diagnostic, if any, says why an operation
    /// was rejected; the ledger is then unchanged except for any history
    /// recording or flag change the rules prescribe.
    pub fn process(&mut self, t: &Transaction) -> (r: Option<Diagnostic>)
        requires
            old(self)@.wf(),
            process_pre(old(self)@, *t),
        ensures
            final(self)@ == process_step(old(self)@, *t).state,
            diag_view(r) == process_step(old(self)@, *t).diag,
            final(self)@.wf(),
    {
        match t.transaction_type {
            TransactionType::Deposit => self.deposit(t),
            TransactionType::Withdrawal => self.withdraw(t),
            TransactionType::Dispute => self.dispute(t),
            TransactionType::Resolve => self.resolve(t),
            TransactionType::Chargeback => self.chargeback(t),
        }
    }

    /// A read-only snapshot of one client's account; nothing comes back
    /// for a client that never deposited.
    pub fn get_account(&self, client_id: u16) -> (r: Option<Account>)
        ensures
            match r {
                Some(a) => self@.accounts.contains_key(client_id)
                    && a@ == self@.accounts[client_id],
                None => !self@.accounts.contains_key(client_id),
            },
    {
        match self.account_by_id.get(&client_id) {
            Some(a) => Some(*a),
            None => None,
        }
    }

    /// A read-only snapshot of one history entry; nothing comes back for a
    /// transaction id never recorded by a deposit or withdrawal.
    pub fn get_transaction(&self, transaction_id: u32) -> (r: Option<TxRecord>)
        ensures
            match r {
                Some(rec) => self@.txs.contains_key(transaction_id)
                    && rec@ == self@.txs[transaction_id],
                None => !self@.txs.contains_key(transaction_id),
            },
    {
        match self.transactions_by_id.get(&transaction_id) {
            Some(rec) => Some(*rec),
            None => None,
        }
    }

    /// All accounts, one per known client, in the order the accounts were
    /// first created.
    pub fn accounts_in_order(&self) -> (r: Vec<Account>)
        requires
            self@.wf(),
        ensures
            r@.len() == self@.order.len(),
            forall|i: int|
                0 <= i < r@.len() ==> #[trigger] r@[i]@ == self@.accounts[self@.order[i]],
    {
        let mut out: Vec<Account> = Vec::new();
        let mut idx: usize = 0;
        while idx < self.client_order.len()
            invariant
                self@.wf(),
                idx <= self.client_order.len(),
                out@.len() == idx,
                forall|i: int|
                    0 <= i < idx ==> #[trigger] out@[i]@ == self@.accounts[self@.order[i]],
            decreases self.client_order.len() - idx,
        {
            let c = self.client_order[idx];
            proof {
                assert(self@.order.contains(c));
                assert(self@.accounts.contains_key(c));
            }
            match self.account_by_id.get(&c) {
                Some(a) => out.push(*a),
                None => {
                    proof {
                        assert(false);
                    }
                },
            }
            idx = idx + 1;
        }
        out
    }
}

impl Default for Ledger {
    /// The same empty ledger `new` returns.
    fn default() -> (l: Ledger)
        ensures
            l@ == LedgerView::empty(),
            l@.wf(),
    {
        Ledger::new()
    }
}

} // verus!
