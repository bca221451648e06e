//! Laws of the ledger's transition system.
//!
//! These proofs hold of every state and every transaction, not merely of
//! chosen inputs: the well-formedness invariant (balances non-negative,
//! `total == available + held`, creation order in step with the account
//! map) survives every transition, and settling a dispute — by resolve or
//! by chargeback — is idempotent on the state.

use vstd::prelude::*;
use crate::types::{Transaction, TransactionType};
use crate::model::{
    LedgerView, process_step, deposit_step, withdraw_step, dispute_step, resolve_step,
    chargeback_step, replay,
};

verus! {

broadcast use vstd::seq_lib::lemma_seq_contains_after_push;

/// Pushing an element a sequence does not contain keeps it duplicate-free.
proof fn lemma_push_no_duplicates(s: Seq<u16>, v: u16)
    requires
        s.no_duplicates(),
        !s.contains(v),
    ensures
        s.push(v).no_duplicates(),
{
    assert forall|i: int, j: int|
        0 <= i < s.push(v).len() && 0 <= j < s.push(v).len() && i != j implies s.push(v)[i]
        != s.push(v)[j] by {
        if i < s.len() && j < s.len() {
        } else if j == s.len() {
            assert(s.push(v)[j] == v);
            assert(s.contains(s[i]));
        } else {
            assert(s.push(v)[i] == v);
            assert(s.contains(s[j]));
        }
    }
}

/// A deposit keeps the ledger well-formed, whatever the transaction holds.
pub proof fn lemma_deposit_preserves_wf(s: LedgerView, t: Transaction)
    requires
        s.wf(),
    ensures
        deposit_step(s, t).state.wf(),
{
    if !s.accounts.contains_key(t.client_id) {
        assert(!s.order.contains(t.client_id));
        lemma_push_no_duplicates(s.order, t.client_id);
    }
}

/// A withdrawal keeps the ledger well-formed.
pub proof fn lemma_withdraw_preserves_wf(s: LedgerView, t: Transaction)
    requires
        s.wf(),
    ensures
        withdraw_step(s, t).state.wf(),
{
}

/// A dispute keeps the ledger well-formed.
pub proof fn lemma_dispute_preserves_wf(s: LedgerView, t: Transaction)
    requires
        s.wf(),
    ensures
        dispute_step(s, t).state.wf(),
{
}

/// A resolve keeps the ledger well-formed.
pub proof fn lemma_resolve_preserves_wf(s: LedgerView, t: Transaction)
    requires
        s.wf(),
    ensures
        resolve_step(s, t).state.wf(),
{
}

/// A chargeback keeps the ledger well-formed.
pub proof fn lemma_chargeback_preserves_wf(s: LedgerView, t: Transaction)
    requires
        s.wf(),
    ensures
        chargeback_step(s, t).state.wf(),
{
}

/// The well-formedness invariant is preserved by every transition: for
/// every account of the resulting state the balances are non-negative with
/// `total == available + held`, and the creation order still lists exactly
/// the account keys. This holds of every well-formed state and every
/// transaction, malformed ones included.
pub proof fn lemma_process_preserves_wf(s: LedgerView, t: Transaction)
    requires
        s.wf(),
    ensures
        process_step(s, t).state.wf(),
{
    match t.transaction_type {
        TransactionType::Deposit => lemma_deposit_preserves_wf(s, t),
        TransactionType::Withdrawal => lemma_withdraw_preserves_wf(s, t),
        TransactionType::Dispute => lemma_dispute_preserves_wf(s, t),
        TransactionType::Resolve => lemma_resolve_preserves_wf(s, t),
        TransactionType::Chargeback => lemma_chargeback_preserves_wf(s, t),
    }
}

/// The empty ledger is well-formed.
pub proof fn lemma_empty_wf()
    ensures
        LedgerView::empty().wf(),
{
}

/// The invariant holds at every observation point: whatever ordered stream
/// of transactions is replayed from the empty ledger — arbitrarily long and
/// possibly malformed — the resulting state is well-formed, and so is every
/// intermediate state, each being the replay of a prefix.
pub proof fn lemma_replay_wf(ts: Seq<Transaction>)
    ensures
        replay(ts).wf(),
    decreases ts.len(),
{
    if ts.len() == 0 {
        lemma_empty_wf();
    } else {
        lemma_replay_wf(ts.drop_last());
        lemma_process_preserves_wf(replay(ts.drop_last()), ts.last());
    }
}

/// Settling is idempotent: once a resolve or chargeback has been processed,
/// processing the same instruction again leaves the state exactly as it
/// was — the referenced transaction is no longer disputed, so the second
/// pass emits at most a diagnostic.
pub proof fn lemma_settle_idempotent(s: LedgerView, t: Transaction)
    requires
        t.transaction_type is Resolve || t.transaction_type is Chargeback,
    ensures
        process_step(process_step(s, t).state, t).state == process_step(s, t).state,
{
    let s1 = process_step(s, t).state;
    if s.txs.contains_key(t.transaction_id) && s.txs[t.transaction_id].client_id
        == t.client_id {
        let rec1 = s1.txs[t.transaction_id];
        assert(!rec1.disputed);
        assert(s1.txs.insert(t.transaction_id, rec1) =~= s1.txs);
        assert(process_step(s1, t).state =~= s1);
    } else {
        assert(process_step(s1, t).state == s1);
    }
}

} // verus!
