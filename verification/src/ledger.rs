use vstd::prelude::*;
use std::collections::HashMap;
use crate::client::{AccountModel, Client, fresh_account, handle_model, limit_ok};
use crate::types::{ApplyOutcome, ClientId, Record, Transaction, TransactionType, TxId, in_balance_range};

verus! {

broadcast use vstd::std_specs::hash::group_hash_axioms;

/// Mathematical model of the whole ledger: the write-once transaction
/// table, every account by client id, and the order in which clients
/// were first seen.
#[verifier::ext_equal]
pub struct LedgerModel {
    pub transactions: Map<TxId, Transaction>,
    pub accounts: Map<ClientId, AccountModel>,
    pub order: Seq<ClientId>,
}

impl LedgerModel {
    /// The account invariants: the id matches the key, `total` is the
    /// sum of `available` and `held`, every balance is representable,
    /// and everything under dispute is a deposit of this very client,
    /// present in the table.
    pub open spec fn account_ok(self, c: ClientId) -> bool {
        let a = self.accounts[c];
        &&& a.id == c
        &&& a.total == a.available + a.held
        &&& in_balance_range(a.available)
        &&& in_balance_range(a.held)
        &&& in_balance_range(a.total)
        &&& forall|x: TxId| #[trigger] a.disputes.contains(x) ==> self.transactions.dom().contains(x)
            && self.transactions[x].transaction_type is Deposit
            && self.transactions[x].client_id == c
    }

    /// The ledger invariants: the table holds only deposits and
    /// withdrawals under their own id, every account is well formed,
    /// and the first-seen order lists exactly the known clients, each
    /// once.
    pub open spec fn well_formed(self) -> bool {
        &&& forall|x: TxId| #[trigger] self.transactions.dom().contains(x)
            ==> self.transactions[x].id == x && self.transactions[x].transaction_type.carries_amount()
        &&& forall|c: ClientId| #[trigger] self.accounts.dom().contains(c) ==> self.account_ok(c)
        &&& self.order.no_duplicates()
        &&& forall|c: ClientId| self.accounts.dom().contains(c) <==> #[trigger] self.order.contains(c)
    }

    /// The empty ledger.
    pub open spec fn empty() -> LedgerModel {
        LedgerModel {
            transactions: Map::empty(),
            accounts: Map::empty(),
            order: Seq::empty(),
        }
    }
}

/// What one record does to the ledger, and why it was accepted or
/// dropped. This is the whole semantics of [`Ledger::apply`].
pub open spec fn apply_model(pre: LedgerModel, r: Record) -> (LedgerModel, ApplyOutcome) {
    if r.transaction_type.carries_amount() {
        match r.amount {
            None => (pre, ApplyOutcome::MissingAmount),
            Some(m) => if pre.transactions.dom().contains(r.tx_id) {
                (pre, ApplyOutcome::DroppedDuplicate)
            } else {
                let t = Transaction {
                    id: r.tx_id,
                    transaction_type: r.transaction_type,
                    client_id: r.client_id,
                    amount: m,
                };
                let a0 = if pre.accounts.dom().contains(r.client_id) {
                    pre.accounts[r.client_id]
                } else {
                    fresh_account(r.client_id)
                };
                if limit_ok(a0, r.transaction_type, t) {
                    (LedgerModel {
                        transactions: pre.transactions.insert(r.tx_id, t),
                        accounts: pre.accounts.insert(r.client_id, handle_model(a0, r.transaction_type, t)),
                        order: if pre.accounts.dom().contains(r.client_id) {
                            pre.order
                        } else {
                            pre.order.push(r.client_id)
                        },
                    }, ApplyOutcome::Applied)
                } else {
                    (pre, ApplyOutcome::DroppedOutOfRange)
                }
            },
        }
    } else {
        if !pre.transactions.dom().contains(r.tx_id) {
            (pre, ApplyOutcome::DroppedUnknownReference)
        } else if pre.transactions[r.tx_id].client_id != r.client_id {
            (pre, ApplyOutcome::DroppedOwnershipMismatch)
        } else if !pre.accounts.dom().contains(r.client_id) {
            (pre, ApplyOutcome::DroppedUnknownClient)
        } else {
            let t = pre.transactions[r.tx_id];
            let a0 = pre.accounts[r.client_id];
            if limit_ok(a0, r.transaction_type, t) {
                (LedgerModel {
                    transactions: pre.transactions,
                    accounts: pre.accounts.insert(r.client_id, handle_model(a0, r.transaction_type, t)),
                    order: pre.order,
                }, ApplyOutcome::Applied)
            } else {
                (pre, ApplyOutcome::DroppedOutOfRange)
            }
        }
    }
}

/// The ledger after a whole sequence of records, applied in order.
pub open spec fn run_model(m: LedgerModel, rs: Seq<Record>) -> LedgerModel
    decreases rs.len(),
{
    if rs.len() == 0 {
        m
    } else {
        apply_model(run_model(m, rs.drop_last()), rs.last()).0
    }
}

/// One row of the final report, in fixed-point units.
#[derive(Clone, Copy, Debug, PartialEq, Eq, Structural)]
pub struct ClientRow {
    pub client: ClientId,
    pub available: i128,
    pub held: i128,
    pub total: i128,
    pub locked: bool,
}

/// Whether `row` reports exactly the state of client `c` in model `m`.
pub open spec fn row_matches(row: ClientRow, m: LedgerModel, c: ClientId) -> bool {
    &&& row.client == c
    &&& row.available == m.accounts[c].available
    &&& row.held == m.accounts[c].held
    &&& row.total == m.accounts[c].total
    &&& row.locked == m.accounts[c].locked
}

/// The ledger engine: the authoritative transaction table and client
/// table, with one entry point per record.
pub struct Ledger {
    transactions: HashMap<TxId, Transaction>,
    clients: HashMap<ClientId, Client>,
    client_order: Vec<ClientId>,
}

impl View for Ledger {
    type V = LedgerModel;

    closed spec fn view(&self) -> LedgerModel {
        LedgerModel {
            transactions: self.transactions@,
            accounts: Map::new(
                |c: ClientId| self.clients@.dom().contains(c),
                |c: ClientId| self.clients@[c]@,
            ),
            order: self.client_order@,
        }
    }
}

impl Ledger {
    /// An engine with no transactions and no clients.
    pub fn new() -> (l: Ledger)
        ensures
            l@ == LedgerModel::empty(),
            l@.well_formed(),
    {
        let l = Ledger {
            transactions: HashMap::new(),
            clients: HashMap::new(),
            client_order: Vec::new(),
        };
        proof {
            assert(l@ =~~= LedgerModel::empty());
        }
        l
    }

    /// Classify one record and route it to the account state machine,
    /// after the uniqueness, reference and ownership checks. Every
    /// invalid condition drops the record and leaves the ledger as it
    /// was; the outcome says which.
    pub fn apply(&mut self, record: &Record) -> (outcome: ApplyOutcome)
        requires
            old(self)@.well_formed(),
        ensures
            final(self)@.well_formed(),
            (final(self)@, outcome) == apply_model(old(self)@, *record),
    {
        let outcome = self.apply_inner(record);
        proof {
            lemma_apply_preserves_well_formed(old(self)@, *record);
        }
        outcome
    }

    fn apply_inner(&mut self, record: &Record) -> (outcome: ApplyOutcome)
        requires
            old(self)@.well_formed(),
        ensures
            (final(self)@, outcome) == apply_model(old(self)@, *record),
    {
        match record.transaction_type {
            TransactionType::Deposit | TransactionType::Withdrawal => {
                let amount = match record.amount {
                    Some(m) => m,
                    None => {
                        return ApplyOutcome::MissingAmount;
                    },
                };
                if self.transactions.contains_key(&record.tx_id) {
                    return ApplyOutcome::DroppedDuplicate;
                }
                let t = Transaction {
                    id: record.tx_id,
                    transaction_type: record.transaction_type,
                    client_id: record.client_id,
                    amount,
                };
                let fits_ok = match self.clients.get(&record.client_id) {
                    Some(c) => c.fits(record.transaction_type, &t),
                    None => {
                        proof {
                            lemma_fresh_account_fits(record.client_id, record.transaction_type, t);
                        }
                        true
                    },
                };
                if !fits_ok {
                    return ApplyOutcome::DroppedOutOfRange;
                }
                let (mut account, is_new) = match self.clients.remove(&record.client_id) {
                    Some(a) => (a, false),
                    None => (Client::new(record.client_id), true),
                };
                proof {
                    if old(self)@.accounts.dom().contains(record.client_id) {
                        assert(old(self)@.account_ok(record.client_id));
                        assert(account@ == old(self)@.accounts[record.client_id]);
                    }
                    assert(account@.id == record.client_id);
                }
                account.handle_transaction(record.transaction_type, &t);
                self.transactions.insert(record.tx_id, t);
                self.clients.insert(record.client_id, account);
                if is_new {
                    self.client_order.push(record.client_id);
                }
                proof {
                    assert(self@ =~~= apply_model(old(self)@, *record).0);
                }
                ApplyOutcome::Applied
            },
            TransactionType::Dispute | TransactionType::Resolve | TransactionType::Chargeback => {
                let t = match self.transactions.get(&record.tx_id) {
                    Some(t) => *t,
                    None => {
                        return ApplyOutcome::DroppedUnknownReference;
                    },
                };
                if t.client_id != record.client_id {
                    return ApplyOutcome::DroppedOwnershipMismatch;
                }
                let fits_ok = match self.clients.get(&record.client_id) {
                    Some(c) => c.fits(record.transaction_type, &t),
                    None => {
                        return ApplyOutcome::DroppedUnknownClient;
                    },
                };
                if !fits_ok {
                    return ApplyOutcome::DroppedOutOfRange;
                }
                let mut account = match self.clients.remove(&record.client_id) {
                    Some(a) => a,
                    None => {
                        proof {
                            assert(false);
                        }
                        Client::new(record.client_id)
                    },
                };
                proof {
                    assert(old(self)@.accounts.dom().contains(record.client_id));
                    assert(old(self)@.account_ok(record.client_id));
                    assert(account@ == old(self)@.accounts[record.client_id]);
                    assert(account@.id == record.client_id);
                }
                account.handle_transaction(record.transaction_type, &t);
                self.clients.insert(record.client_id, account);
                proof {
                    assert(self@ =~~= apply_model(old(self)@, *record).0);
                }
                ApplyOutcome::Applied
            },
        }
    }

    /// Apply a whole run of records in input order, returning the
    /// outcome of each.
    pub fn process(&mut self, records: &Vec<Record>) -> (outcomes: Vec<ApplyOutcome>)
        requires
            old(self)@.well_formed(),
        ensures
            final(self)@.well_formed(),
            final(self)@ == run_model(old(self)@, records@),
            outcomes@.len() == records@.len(),
            forall|i: int| 0 <= i < records@.len()
                ==> outcomes@[i] == apply_model(run_model(old(self)@, records@.take(i)), records@[i]).1,
    {
        let mut outcomes: Vec<ApplyOutcome> = Vec::new();
        let n = records.len();
        let mut i: usize = 0;
        while i < n
            invariant
                n == records@.len(),
                0 <= i <= n,
                self@.well_formed(),
                self@ == run_model(old(self)@, records@.take(i as int)),
                outcomes@.len() == i,
                forall|j: int| 0 <= j < i
                    ==> outcomes@[j] == apply_model(run_model(old(self)@, records@.take(j)), records@[j]).1,
            decreases n - i,
        {
            let o = self.apply(&records[i]);
            outcomes.push(o);
            proof {
                assert(records@.take(i + 1).drop_last() =~= records@.take(i as int));
                assert(records@.take(i + 1).last() == records@[i as int]);
            }
            i += 1;
        }
        proof {
            assert(records@.take(n as int) =~= records@);
        }
        outcomes
    }

    /// The final report: one row per client that appeared in any
    /// accepted transaction, in the order the clients were first seen.
    pub fn rows(&self) -> (rs: Vec<ClientRow>)
        requires
            self@.well_formed(),
        ensures
            rs@.len() == self@.order.len(),
            forall|i: int| 0 <= i < rs@.len() ==> row_matches(#[trigger] rs@[i], self@, self@.order[i]),
    {
        let mut rs: Vec<ClientRow> = Vec::new();
        let n = self.client_order.len();
        let mut i: usize = 0;
        while i < n
            invariant
                n == self@.order.len(),
                0 <= i <= n,
                self@.well_formed(),
                rs@.len() == i,
                forall|j: int| 0 <= j < i ==> row_matches(#[trigger] rs@[j], self@, self@.order[j]),
            decreases n - i,
        {
            let c = self.client_order[i];
            match self.clients.get(&c) {
                Some(cl) => {
                    rs.push(ClientRow {
                        client: c,
                        available: cl.available,
                        held: cl.held,
                        total: cl.total,
                        locked: cl.locked,
                    });
                },
                None => {
                    proof {
                        assert(self@.order.contains(self@.order[i as int]));
                        assert(false);
                    }
                },
            }
            i += 1;
        }
        rs
    }
}

/// A brand-new account can always absorb a deposit or withdrawal: all
/// its balances are zero and one amount never leaves the range.
pub proof fn lemma_fresh_account_fits(c: ClientId, t: TransactionType, tx: Transaction)
    requires
        t.carries_amount(),
    ensures
        limit_ok(fresh_account(c), t, tx),
{
}

/// Applying any one record keeps the ledger well formed.
pub proof fn lemma_apply_preserves_well_formed(pre: LedgerModel, r: Record)
    requires
        pre.well_formed(),
    ensures
        apply_model(pre, r).0.well_formed(),
{
    let post = apply_model(pre, r).0;
    assert forall|c: ClientId| #[trigger] post.accounts.dom().contains(c) implies post.account_ok(c) by {
        if pre.accounts.dom().contains(c) {
            assert(pre.account_ok(c));
        }
    }
    assert forall|c: ClientId| post.accounts.dom().contains(c) implies #[trigger] post.order.contains(c) by {
        if pre.accounts.dom().contains(c) {
            assert(pre.order.contains(c));
            if post.order != pre.order {
                assert(post.order.drop_last() == pre.order);
                let k = choose|k: int| 0 <= k < pre.order.len() && pre.order[k] == c;
                assert(post.order[k] == c);
            }
        } else {
            assert(post.order.last() == c);
        }
    }
    assert forall|c: ClientId| #[trigger] post.order.contains(c) implies post.accounts.dom().contains(c) by {
        if !pre.order.contains(c) {
            let k = choose|k: int| 0 <= k < post.order.len() && post.order[k] == c;
            if k < post.order.len() - 1 || post.order == pre.order {
                assert(pre.order.contains(c));
            }
        }
    }
    if post.order != pre.order {
        let q = post.order;
        assert(q.drop_last() == pre.order);
        assert(!pre.order.contains(q.last()));
        assert forall|i: int, j: int|
            0 <= i < q.len() && 0 <= j < q.len() && i != j implies q[i] != q[j] by {
            if i < q.len() - 1 && j < q.len() - 1 {
                assert(pre.order[i] == q[i] && pre.order[j] == q[j]);
            } else if j == q.len() - 1 && i < j {
                assert(q[i] == pre.order[i]);
                assert(pre.order.contains(pre.order[i]));
            } else if i == q.len() - 1 && j < i {
                assert(q[j] == pre.order[j]);
                assert(pre.order.contains(pre.order[j]));
            }
        }
        assert(q.no_duplicates());
    }
}

} // verus!

