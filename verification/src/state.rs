//! The ledger as a mathematical value, and its two transitions.

use crate::balances::{recorded, sum_of_balances};
use crate::rules::{minted, settled};
use crate::types::{AccountId, Balance, Error, Event};
use vstd::prelude::*;

verus! {

/// Everything the ledger holds at one moment.
#[verifier::ext_equal]
pub struct LedgerState {
    /// The balance table. An account without an entry does not exist for the
    /// ledger; an entry of zero is an existing account.
    pub balances: Map<AccountId, Balance>,
    /// The issuance counter. Unset counts as zero.
    pub total_issuance: Option<Balance>,
    /// The events emitted so far, oldest first.
    pub events: Seq<Event>,
}

impl LedgerState {
    /// The ledger before anything was written: no balance, no issuance, no
    /// event.
    pub open spec fn empty() -> LedgerState {
        LedgerState { balances: Map::empty(), total_issuance: None, events: Seq::empty() }
    }

    /// The balance recorded for `who`.
    pub open spec fn balance_of(self, who: AccountId) -> Option<Balance> {
        recorded(self.balances, who)
    }

    /// The issuance counter equals the sum of all balances.
    pub open spec fn balanced(self) -> bool {
        &&& self.balances.dom().finite()
        &&& sum_of_balances(self.balances) == self.total_issuance.unwrap_or(0)
    }

    /// The state after `amount` was minted for `dest`, or `Overflow` if the
    /// destination's balance or the issuance counter cannot take it.
    pub open spec fn mint(self, dest: AccountId, amount: Balance) -> Result<LedgerState, Error> {
        match minted(self.balance_of(dest), self.total_issuance, amount) {
            Err(e) => Err(e),
            Ok(after) => Ok(
                LedgerState {
                    balances: self.balances.insert(dest, after.balance),
                    total_issuance: Some(after.total_issuance),
                    events: self.events,
                },
            ),
        }
    }

    /// The state after `amount` moved from `sender` to `dest`, or the error
    /// that refuses the move. The sender's entry stays in the table when it
    /// reaches zero.
    pub open spec fn transfer(self, sender: AccountId, dest: AccountId, amount: Balance) -> Result<
        LedgerState,
        Error,
    > {
        match settled(self.balance_of(sender), self.balance_of(dest), sender == dest, amount) {
            Err(e) => Err(e),
            Ok(after) => Ok(
                LedgerState {
                    balances: self.balances.insert(dest, after.dest).insert(sender, after.sender),
                    total_issuance: self.total_issuance,
                    events: self.events.push(Event::Transferred { from: sender, to: dest, amount }),
                },
            ),
        }
    }

    /// The outcome of one call.
    pub open spec fn apply(self, call: Call) -> Result<LedgerState, Error> {
        match call {
            Call::Mint { dest, amount } => self.mint(dest, amount),
            Call::Transfer { sender, dest, amount } => self.transfer(sender, dest, amount),
        }
    }

    /// The state after `calls` ran in turn, each on the state the one before
    /// left; `None` as soon as one of them fails.
    pub open spec fn run(self, calls: Seq<Call>) -> Option<LedgerState>
        decreases calls.len(),
    {
        if calls.len() == 0 {
            Some(self)
        } else {
            match self.run(calls.drop_last()) {
                Some(before) => match before.apply(calls.last()) {
                    Ok(after) => Some(after),
                    Err(_) => None,
                },
                None => None,
            }
        }
    }
}

/// One call of one of the two operations, with its arguments.
#[derive(Clone, Copy, Debug, PartialEq, Eq)]
pub enum Call {
    /// Mint `amount` for `dest`.
    Mint { dest: AccountId, amount: Balance },
    /// Move `amount` from `sender` to `dest`.
    Transfer { sender: AccountId, dest: AccountId, amount: Balance },
}

} // verus!
