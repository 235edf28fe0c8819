//! An account-balance ledger: a balance per account, a total-issuance counter,
//! and two transitions (minting and transferring) that keep the counter equal
//! to the sum of all balances.
//!
//! - [`types`]: accounts, amounts, events and errors.
//! - [`rules`]: what an operation does to the balances it touches.
//! - [`balances`]: the balance table as a map, its sum and its listing.
//! - [`state`]: the whole ledger as a mathematical value, with its transitions.
//! - [`ledger`]: the executable ledger, [`Pallet`].
//! - [`laws`]: what holds of the transitions on every state.

pub mod balances;
pub mod laws;
pub mod ledger;
mod order;
pub mod rules;
pub mod state;
pub mod types;

pub use ledger::Pallet;
pub use rules::{credit, debit, mint, settle, Minting, Settlement};
pub use state::{Call, LedgerState};
pub use types::{AccountId, Balance, Error, Event};
