//! A verified transaction ledger: deposits, withdrawals and the
//! dispute / resolve / chargeback state machine over per-client
//! accounts, with exact fixed-point balances. The engine's whole
//! behaviour is stated by [`ledger::apply_model`]; the laws the
//! ledger obeys are proved in [`laws`].

pub mod client;
pub mod laws;
pub mod ledger;
pub mod parse;
pub mod types;

pub use client::Client;
pub use ledger::{ClientRow, Ledger};
pub use parse::{ParseError, parse_amount, parse_u16, parse_u32, record_from_fields};
pub use types::{Amount, ApplyOutcome, Balance, ClientId, Record, Transaction, TransactionType, TxId};
