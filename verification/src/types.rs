//! The plain values the ledger works on.

use vstd::prelude::*;

verus! {

/// Identifies a participant of the ledger.
pub type AccountId = u64;

/// An amount of ledger value.
pub type Balance = u128;

/// What a successful operation reports to the outside.
#[derive(Clone, Copy, Debug, PartialEq, Eq)]
pub enum Event {
    /// A transfer succeeded.
    Transferred { from: AccountId, to: AccountId, amount: Balance },
}

/// Why an operation was refused. A refused operation changes nothing.
#[derive(Clone, Copy, Debug, PartialEq, Eq)]
pub enum Error {
    /// The sending account has no recorded balance.
    NonExistentAccount,
    /// The sending account holds less than the amount asked for.
    InsufficientBalance,
    /// A balance or the total issuance would exceed what `Balance` can hold.
    Overflow,
}

} // verus!
