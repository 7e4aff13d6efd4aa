use vstd::prelude::*;

verus! {

/// Identifier of a transaction: a global, write-once namespace.
pub type TxId = u32;

/// Identifier of a client account.
pub type ClientId = u16;

/// A monetary amount carried by a deposit or withdrawal, counted in
/// fixed-point units of one ten-thousandth (four fractional digits),
/// so `12_3456` stands for the decimal value `12.3456`.
pub type Amount = i64;

/// A running balance of an account, in the same fixed-point units as
/// [`Amount`]. Balances get the wider type so that very long runs of
/// deposits stay representable.
pub type Balance = i128;

/// Number of fractional decimal digits carried by every amount.
pub const AMOUNT_SCALE: u32 = 4;

/// The five kinds of record the ledger accepts.
#[derive(Clone, Copy, Debug, PartialEq, Eq, Structural)]
pub enum TransactionType {
    Deposit,
    Withdrawal,
    Dispute,
    Resolve,
    Chargeback,
}

impl TransactionType {
    /// True for the two kinds that carry their own amount and occupy a
    /// fresh transaction id; the other three reference a prior one.
    pub open spec fn carries_amount(self) -> bool {
        self is Deposit || self is Withdrawal
    }
}

/// A deposit or withdrawal as the ledger stores it: once accepted, the
/// id is permanently associated with this client and amount.
#[derive(Clone, Copy, Debug, PartialEq, Eq, Structural)]
pub struct Transaction {
    pub id: TxId,
    pub transaction_type: TransactionType,
    pub client_id: ClientId,
    pub amount: Amount,
}

/// One incoming row, already parsed into typed fields. Deposits and
/// withdrawals carry their amount in `amount`; for the three
/// referencing kinds `tx_id` names the prior transaction and `amount`
/// is `None`.
#[derive(Clone, Copy, Debug, PartialEq, Eq)]
pub struct Record {
    pub transaction_type: TransactionType,
    pub client_id: ClientId,
    pub tx_id: TxId,
    pub amount: Option<Amount>,
}

/// Why the ledger accepted or silently dropped one record. Every drop
/// leaves the ledger exactly as it was.
#[derive(Clone, Copy, Debug, PartialEq, Eq, Structural)]
pub enum ApplyOutcome {
    /// The record reached the account state machine (which may itself
    /// have treated it as a no-op, e.g. on a locked account).
    Applied,
    /// A deposit or withdrawal reused an already-accepted transaction id.
    DroppedDuplicate,
    /// A dispute, resolve or chargeback referenced an unknown transaction id.
    DroppedUnknownReference,
    /// The referenced transaction belongs to a different client.
    DroppedOwnershipMismatch,
    /// A dispute, resolve or chargeback named a client that never transacted.
    DroppedUnknownClient,
    /// Applying the record would push a balance outside the
    /// representable fixed-point range.
    DroppedOutOfRange,
    /// A deposit or withdrawal arrived without an amount; the caller
    /// should treat the whole input as malformed.
    MissingAmount,
}

/// Whether a mathematical balance is representable.
pub open spec fn in_balance_range(x: int) -> bool {
    i128::MIN <= x <= i128::MAX
}

} // verus!
