use vstd::prelude::*;
use std::collections::HashSet;
use crate::types::{Balance, ClientId, Transaction, TransactionType, TxId, in_balance_range};

verus! {

broadcast use vstd::std_specs::hash::group_hash_axioms;

/// Mathematical model of one client account: unbounded integers for
/// the balances and a set for the deposits currently under dispute.
#[verifier::ext_equal]
pub struct AccountModel {
    pub id: ClientId,
    pub available: int,
    pub held: int,
    pub total: int,
    pub locked: bool,
    pub disputes: Set<TxId>,
}

/// The state a newly created account starts in: all balances zero,
/// unlocked, nothing under dispute.
pub open spec fn fresh_account(id: ClientId) -> AccountModel {
    AccountModel {
        id,
        available: 0,
        held: 0,
        total: 0,
        locked: false,
        disputes: Set::empty(),
    }
}

/// `total` is derived, never independently set.
pub open spec fn balanced(a: AccountModel) -> bool {
    a.total == a.available + a.held
}

/// Recompute the derived `total` field.
pub open spec fn settle(a: AccountModel) -> AccountModel {
    AccountModel { total: a.available + a.held, ..a }
}

/// The type-specific balance move, before `total` is recomputed and
/// without the locked gate. Invalid conditions are silent no-ops.
pub open spec fn transition(a: AccountModel, t: TransactionType, tx: Transaction) -> AccountModel {
    match t {
        TransactionType::Deposit => AccountModel { available: a.available + tx.amount, ..a },
        TransactionType::Withdrawal => if a.available >= tx.amount {
            AccountModel { available: a.available - tx.amount, ..a }
        } else {
            a
        },
        TransactionType::Dispute => if tx.transaction_type is Deposit {
            AccountModel {
                available: a.available - tx.amount,
                held: a.held + tx.amount,
                disputes: a.disputes.insert(tx.id),
                ..a
            }
        } else {
            a
        },
        TransactionType::Resolve => if a.disputes.contains(tx.id) {
            AccountModel {
                available: a.available + tx.amount,
                held: a.held - tx.amount,
                disputes: a.disputes.remove(tx.id),
                ..a
            }
        } else {
            a
        },
        TransactionType::Chargeback => if a.disputes.contains(tx.id) {
            AccountModel {
                held: a.held - tx.amount,
                locked: true,
                disputes: a.disputes.remove(tx.id),
                ..a
            }
        } else {
            a
        },
    }
}

/// What one classified transaction does to one account: a locked
/// account ignores everything; otherwise the balances move and `total`
/// is recomputed.
pub open spec fn handle_model(a: AccountModel, t: TransactionType, tx: Transaction) -> AccountModel {
    if a.locked {
        a
    } else {
        settle(transition(a, t, tx))
    }
}

/// Every balance of the successor state is representable, so the
/// executable account can take this exact step.
pub open spec fn limit_ok(a: AccountModel, t: TransactionType, tx: Transaction) -> bool {
    let b = handle_model(a, t, tx);
    in_balance_range(b.available) && in_balance_range(b.held) && in_balance_range(b.total)
}

/// One client account: balances in fixed-point units, the locked flag,
/// and the set of deposit ids currently under an open dispute.
pub struct Client {
    pub id: ClientId,
    pub available: Balance,
    pub held: Balance,
    pub total: Balance,
    pub locked: bool,
    pub disputes: HashSet<TxId>,
}

impl View for Client {
    type V = AccountModel;

    open spec fn view(&self) -> AccountModel {
        AccountModel {
            id: self.id,
            available: self.available as int,
            held: self.held as int,
            total: self.total as int,
            locked: self.locked,
            disputes: self.disputes@,
        }
    }
}

impl Client {
    /// A new account, created lazily on the first transaction that
    /// references an unseen client id.
    pub fn new(id: ClientId) -> (c: Client)
        ensures
            c@ == fresh_account(id),
    {
        let c = Client {
            id,
            available: 0,
            held: 0,
            total: 0,
            locked: false,
            disputes: HashSet::new(),
        };
        proof {
            assert(c@ =~~= fresh_account(id));
        }
        c
    }

    /// Whether this account can take the step for `transaction` without
    /// leaving the representable balance range.
    pub fn fits(&self, transaction_type: TransactionType, transaction: &Transaction) -> (r: bool)
        ensures
            r == limit_ok(self@, transaction_type, *transaction),
    {
        if self.locked {
            return true;
        }
        let amount: Balance = transaction.amount as Balance;
        match transaction_type {
            TransactionType::Deposit => match self.available.checked_add(amount) {
                Some(av) => av.checked_add(self.held).is_some(),
                None => false,
            },
            TransactionType::Withdrawal => if self.available >= amount {
                match self.available.checked_sub(amount) {
                    Some(av) => av.checked_add(self.held).is_some(),
                    None => false,
                }
            } else {
                self.available.checked_add(self.held).is_some()
            },
            TransactionType::Dispute => if matches!(transaction.transaction_type, TransactionType::Deposit) {
                self.available.checked_sub(amount).is_some()
                    && self.held.checked_add(amount).is_some()
                    && self.available.checked_add(self.held).is_some()
            } else {
                self.available.checked_add(self.held).is_some()
            },
            TransactionType::Resolve => if self.disputes.contains(&transaction.id) {
                self.available.checked_add(amount).is_some()
                    && self.held.checked_sub(amount).is_some()
                    && self.available.checked_add(self.held).is_some()
            } else {
                self.available.checked_add(self.held).is_some()
            },
            TransactionType::Chargeback => if self.disputes.contains(&transaction.id) {
                match self.held.checked_sub(amount) {
                    Some(h) => self.available.checked_add(h).is_some(),
                    None => false,
                }
            } else {
                self.available.checked_add(self.held).is_some()
            },
        }
    }

    /// Apply one classified transaction to this account. The locked
    /// gate comes before any type-specific logic; afterwards `total`
    /// is recomputed, even for the silent no-ops.
    pub fn handle_transaction(&mut self, transaction_type: TransactionType, transaction: &Transaction)
        requires
            transaction.client_id == old(self).id,
            limit_ok(old(self)@, transaction_type, *transaction),
        ensures
            final(self)@ == handle_model(old(self)@, transaction_type, *transaction),
    {
        if self.locked {
            return;
        }
        let amount: Balance = transaction.amount as Balance;
        match transaction_type {
            TransactionType::Deposit => self.deposit(amount),
            TransactionType::Withdrawal => self.withdrawal(amount),
            TransactionType::Dispute => self.dispute(
                transaction.id,
                transaction.transaction_type,
                amount,
            ),
            TransactionType::Resolve => self.resolve(transaction.id, amount),
            TransactionType::Chargeback => self.chargeback(transaction.id, amount),
        }
        self.calculate_total();
        proof {
            assert(self@ =~~= handle_model(old(self)@, transaction_type, *transaction));
        }
    }

    /// A deposit always credits `available`.
    pub fn deposit(&mut self, amount: Balance)
        requires
            in_balance_range(old(self).available + amount),
        ensures
            final(self).available == old(self).available + amount,
            final(self).id == old(self).id,
            final(self).held == old(self).held,
            final(self).total == old(self).total,
            final(self).locked == old(self).locked,
            final(self).disputes@ == old(self).disputes@,
    {
        self.available = self.available + amount;
    }

    /// Recompute the derived `total` field.
    pub fn calculate_total(&mut self)
        requires
            in_balance_range(old(self).available + old(self).held),
        ensures
            final(self).total == old(self).available + old(self).held,
            final(self).id == old(self).id,
            final(self).available == old(self).available,
            final(self).held == old(self).held,
            final(self).locked == old(self).locked,
            final(self).disputes@ == old(self).disputes@,
    {
        self.total = self.available + self.held;
    }

    /// A withdrawal debits `available` only when the funds are there;
    /// an under-funded withdrawal is a silent no-op.
    pub fn withdrawal(&mut self, amount: Balance)
        requires
            old(self).available >= amount ==> in_balance_range(old(self).available - amount),
        ensures
            final(self).available == if old(self).available >= amount {
                old(self).available - amount
            } else {
                old(self).available as int
            },
            final(self).id == old(self).id,
            final(self).held == old(self).held,
            final(self).total == old(self).total,
            final(self).locked == old(self).locked,
            final(self).disputes@ == old(self).disputes@,
    {
        if self.available >= amount {
            self.available = self.available - amount;
        }
    }

    /// A dispute is valid only against a deposit: the amount moves from
    /// `available` to `held` and the id joins the disputed set.
    pub fn dispute(&mut self, tx_id: TxId, transaction_type: TransactionType, amount: Balance)
        requires
            transaction_type is Deposit ==> in_balance_range(old(self).available - amount)
                && in_balance_range(old(self).held + amount),
        ensures
            final(self).id == old(self).id,
            final(self).total == old(self).total,
            final(self).locked == old(self).locked,
            transaction_type is Deposit ==> final(self).available == old(self).available - amount
                && final(self).held == old(self).held + amount
                && final(self).disputes@ == old(self).disputes@.insert(tx_id),
            !(transaction_type is Deposit) ==> final(self).available == old(self).available
                && final(self).held == old(self).held
                && final(self).disputes@ == old(self).disputes@,
    {
        if matches!(transaction_type, TransactionType::Deposit) {
            self.disputes.insert(tx_id);
            self.available = self.available - amount;
            self.held = self.held + amount;
        }
    }

    /// A resolve closes an open dispute, moving the amount back from
    /// `held` to `available`; without an open dispute it is a no-op.
    pub fn resolve(&mut self, tx_id: TxId, amount: Balance)
        requires
            old(self).disputes@.contains(tx_id) ==> in_balance_range(old(self).available + amount)
                && in_balance_range(old(self).held - amount),
        ensures
            final(self).id == old(self).id,
            final(self).total == old(self).total,
            final(self).locked == old(self).locked,
            old(self).disputes@.contains(tx_id) ==> final(self).available == old(self).available + amount
                && final(self).held == old(self).held - amount
                && final(self).disputes@ == old(self).disputes@.remove(tx_id),
            !old(self).disputes@.contains(tx_id) ==> final(self).available == old(self).available
                && final(self).held == old(self).held
                && final(self).disputes@ == old(self).disputes@,
    {
        if self.disputes.contains(&tx_id) {
            self.disputes.remove(&tx_id);
            self.available = self.available + amount;
            self.held = self.held - amount;
        }
    }

    /// A chargeback closes an open dispute by withdrawing the held
    /// amount and locking the account for good; without an open
    /// dispute it is a no-op.
    pub fn chargeback(&mut self, tx_id: TxId, amount: Balance)
        requires
            old(self).disputes@.contains(tx_id) ==> in_balance_range(old(self).held - amount),
        ensures
            final(self).id == old(self).id,
            final(self).total == old(self).total,
            final(self).available == old(self).available,
            old(self).disputes@.contains(tx_id) ==> final(self).held == old(self).held - amount
                && final(self).locked
                && final(self).disputes@ == old(self).disputes@.remove(tx_id),
            !old(self).disputes@.contains(tx_id) ==> final(self).held == old(self).held
                && final(self).locked == old(self).locked
                && final(self).disputes@ == old(self).disputes@,
    {
        if self.disputes.contains(&tx_id) {
            self.disputes.remove(&tx_id);
            self.held = self.held - amount;
            self.locked = true;
        }
    }
}

} // verus!
