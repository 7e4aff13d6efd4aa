use vstd::prelude::*;
use crate::client::limit_ok;
use crate::ledger::{LedgerModel, apply_model, lemma_apply_preserves_well_formed, run_model};
use crate::types::{ApplyOutcome, ClientId, Record, TransactionType, TxId, in_balance_range};

verus! {

/// Law: at any point in processing, every account's `total` is exactly
/// `available` plus `held`. This holds by the ledger invariant, which
/// [`crate::ledger::Ledger::apply`] maintains.
pub proof fn lemma_total_is_available_plus_held(m: LedgerModel, c: ClientId)
    requires
        m.well_formed(),
        m.accounts.dom().contains(c),
    ensures
        m.accounts[c].total == m.accounts[c].available + m.accounts[c].held,
{
}

/// Law: once an account is locked, no record of any kind changes its
/// available funds, held funds, total or disputed set; the account is
/// in a terminal state.
pub proof fn lemma_locked_account_is_frozen(pre: LedgerModel, r: Record, c: ClientId)
    requires
        pre.accounts.dom().contains(c),
        pre.accounts[c].locked,
    ensures
        apply_model(pre, r).0.accounts.dom().contains(c),
        apply_model(pre, r).0.accounts[c] == pre.accounts[c],
{
}

/// Law: a locked account stays frozen for the whole rest of a run:
/// however many records follow, of whatever kind, its available funds,
/// held funds, total, locked flag and disputed set never move again.
pub proof fn lemma_locked_account_frozen_for_rest_of_run(
    pre: LedgerModel,
    rs: Seq<Record>,
    c: ClientId,
)
    requires
        pre.accounts.dom().contains(c),
        pre.accounts[c].locked,
    ensures
        run_model(pre, rs).accounts.dom().contains(c),
        run_model(pre, rs).accounts[c] == pre.accounts[c],
    decreases rs.len(),
{
    if rs.len() > 0 {
        lemma_locked_account_frozen_for_rest_of_run(pre, rs.drop_last(), c);
        lemma_locked_account_is_frozen(run_model(pre, rs.drop_last()), rs.last(), c);
    }
}

/// Law: a transaction id that was accepted as a deposit or withdrawal
/// is never accepted again: a second deposit or withdrawal under the
/// same id is dropped as a duplicate and the whole ledger is left
/// untouched.
pub proof fn lemma_duplicate_id_rejected(pre: LedgerModel, r: Record)
    requires
        r.transaction_type.carries_amount(),
        r.amount is Some,
        pre.transactions.dom().contains(r.tx_id),
    ensures
        apply_model(pre, r) == (pre, ApplyOutcome::DroppedDuplicate),
{
}

/// Law: the transaction table is write-once: whatever record comes in,
/// an id already in the table keeps its original type, client and
/// amount.
pub proof fn lemma_accepted_transaction_immutable(pre: LedgerModel, r: Record, x: TxId)
    requires
        pre.transactions.dom().contains(x),
    ensures
        apply_model(pre, r).0.transactions.dom().contains(x),
        apply_model(pre, r).0.transactions[x] == pre.transactions[x],
{
}

/// Law: a dispute followed by its resolve is a round trip: both are
/// accepted and the client's available funds, held funds and total
/// come back exactly to their pre-dispute values.
pub proof fn lemma_dispute_resolve_round_trip(pre: LedgerModel, c: ClientId, x: TxId)
    requires
        pre.well_formed(),
        pre.transactions.dom().contains(x),
        pre.transactions[x].transaction_type is Deposit,
        pre.transactions[x].client_id == c,
        pre.accounts.dom().contains(c),
        !pre.accounts[c].locked,
        limit_ok(pre.accounts[c], TransactionType::Dispute, pre.transactions[x]),
    ensures
        ({
            let d = Record {
                transaction_type: TransactionType::Dispute,
                client_id: c,
                tx_id: x,
                amount: None,
            };
            let s = Record {
                transaction_type: TransactionType::Resolve,
                client_id: c,
                tx_id: x,
                amount: None,
            };
            let (m1, o1) = apply_model(pre, d);
            let (m2, o2) = apply_model(m1, s);
            &&& o1 == ApplyOutcome::Applied
            &&& o2 == ApplyOutcome::Applied
            &&& m2.accounts[c].available == pre.accounts[c].available
            &&& m2.accounts[c].held == pre.accounts[c].held
            &&& m2.accounts[c].total == pre.accounts[c].total
            &&& m2.accounts[c].locked == pre.accounts[c].locked
        }),
{
    let d = Record {
        transaction_type: TransactionType::Dispute,
        client_id: c,
        tx_id: x,
        amount: None,
    };
    let (m1, o1) = apply_model(pre, d);
    assert(pre.account_ok(c));
    assert(m1.accounts[c].disputes.contains(x));
}

/// Law: a dispute followed by its chargeback takes the disputed amount
/// out of the held funds and locks the account; from then on no record
/// of any kind changes the account again. The one precondition beyond
/// validity of the dispute is that the account's total stays
/// representable after the chargeback.
pub proof fn lemma_dispute_chargeback_locks(pre: LedgerModel, c: ClientId, x: TxId)
    requires
        pre.well_formed(),
        pre.transactions.dom().contains(x),
        pre.transactions[x].transaction_type is Deposit,
        pre.transactions[x].client_id == c,
        pre.accounts.dom().contains(c),
        !pre.accounts[c].locked,
        limit_ok(pre.accounts[c], TransactionType::Dispute, pre.transactions[x]),
        in_balance_range(pre.accounts[c].total - pre.transactions[x].amount),
    ensures
        ({
            let d = Record {
                transaction_type: TransactionType::Dispute,
                client_id: c,
                tx_id: x,
                amount: None,
            };
            let b = Record {
                transaction_type: TransactionType::Chargeback,
                client_id: c,
                tx_id: x,
                amount: None,
            };
            let (m1, o1) = apply_model(pre, d);
            let (m2, o2) = apply_model(m1, b);
            &&& o1 == ApplyOutcome::Applied
            &&& o2 == ApplyOutcome::Applied
            &&& m2.accounts[c].held == m1.accounts[c].held - pre.transactions[x].amount
            &&& m2.accounts[c].available == m1.accounts[c].available
            &&& m2.accounts[c].locked
            &&& forall|r: Record| (#[trigger] apply_model(m2, r)).0.accounts[c] == m2.accounts[c]
        }),
{
    let d = Record {
        transaction_type: TransactionType::Dispute,
        client_id: c,
        tx_id: x,
        amount: None,
    };
    let b = Record {
        transaction_type: TransactionType::Chargeback,
        client_id: c,
        tx_id: x,
        amount: None,
    };
    let (m1, o1) = apply_model(pre, d);
    assert(pre.account_ok(c));
    assert(m1.accounts[c].disputes.contains(x));
    let (m2, o2) = apply_model(m1, b);
    assert forall|r: Record| (#[trigger] apply_model(m2, r)).0.accounts[c] == m2.accounts[c] by {
        lemma_locked_account_is_frozen(m2, r, c);
    }
}

/// Law: well-formedness of the ledger survives any single record; with
/// [`lemma_total_is_available_plus_held`] this gives the balance
/// invariant at every point of a run.
pub proof fn lemma_any_record_preserves_well_formed(pre: LedgerModel, r: Record)
    requires
        pre.well_formed(),
    ensures
        apply_model(pre, r).0.well_formed(),
{
    lemma_apply_preserves_well_formed(pre, r);
}

/// Law: well-formedness — and with it the balance invariant of every
/// account — holds after every whole run of records.
pub proof fn lemma_run_preserves_well_formed(pre: LedgerModel, rs: Seq<Record>)
    requires
        pre.well_formed(),
    ensures
        run_model(pre, rs).well_formed(),
    decreases rs.len(),
{
    if rs.len() > 0 {
        lemma_run_preserves_well_formed(pre, rs.drop_last());
        lemma_apply_preserves_well_formed(run_model(pre, rs.drop_last()), rs.last());
    }
}

} // verus!
