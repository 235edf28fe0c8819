//! The arithmetic of the two operations, on single balances.
//!
//! These functions decide what a balance becomes and which error, if any,
//! refuses the change. They touch no table, so they serve both the in-memory
//! ledger of this crate and a host that keeps its balances elsewhere.

use crate::types::{Balance, Error};
use vstd::prelude::*;

verus! {

/// A balance after `amount` was added to it, an absent balance counting as
/// zero; `Overflow` where the sum does not fit into `Balance`.
pub open spec fn credited(balance: Option<Balance>, amount: Balance) -> Result<Balance, Error> {
    if balance.unwrap_or(0) + amount <= Balance::MAX {
        Ok((balance.unwrap_or(0) + amount) as Balance)
    } else {
        Err(Error::Overflow)
    }
}

/// A balance after `amount` was taken from it; `NonExistentAccount` where no
/// balance is recorded, `InsufficientBalance` where it does not cover the
/// amount.
pub open spec fn debited(balance: Option<Balance>, amount: Balance) -> Result<Balance, Error> {
    match balance {
        None => Err(Error::NonExistentAccount),
        Some(held) => if held < amount {
            Err(Error::InsufficientBalance)
        } else {
            Ok((held - amount) as Balance)
        },
    }
}

/// What a mint leaves behind: the destination's balance and the issuance
/// counter.
#[derive(Clone, Copy, Debug, PartialEq, Eq)]
pub struct Minting {
    /// What the destination holds afterwards.
    pub balance: Balance,
    /// What the issuance counter reads afterwards.
    pub total_issuance: Balance,
}

/// The outcome of minting `amount` for a destination holding `balance` while
/// the issuance counter reads `total_issuance`. Both are raised by `amount`;
/// if either cannot take it, nothing is, and the outcome is `Overflow`.
pub open spec fn minted(
    balance: Option<Balance>,
    total_issuance: Option<Balance>,
    amount: Balance,
) -> Result<Minting, Error> {
    match (credited(balance, amount), credited(total_issuance, amount)) {
        (Ok(balance), Ok(total_issuance)) => Ok(Minting { balance, total_issuance }),
        _ => Err(Error::Overflow),
    }
}

/// The balances of the two parties after a transfer.
#[derive(Clone, Copy, Debug, PartialEq, Eq)]
pub struct Settlement {
    /// What the sender holds afterwards.
    pub sender: Balance,
    /// What the destination holds afterwards.
    pub dest: Balance,
}

/// The outcome of moving `amount` from a sender holding `sender` to a
/// destination holding `dest`.
///
/// The sender is checked first (recorded, then solvent), the credit second.
/// All three checks look at the balances as they are before the transfer. With
/// `to_self` the two parties are one account: `dest` is not read, the credit is
/// checked against the sender's balance, and the account ends with what it had.
pub open spec fn settled(
    sender: Option<Balance>,
    dest: Option<Balance>,
    to_self: bool,
    amount: Balance,
) -> Result<Settlement, Error> {
    match sender {
        None => Err(Error::NonExistentAccount),
        Some(held) => if held < amount {
            Err(Error::InsufficientBalance)
        } else if to_self {
            if held + amount > Balance::MAX {
                Err(Error::Overflow)
            } else {
                Ok(Settlement { sender: held, dest: held })
            }
        } else {
            if dest.unwrap_or(0) + amount > Balance::MAX {
                Err(Error::Overflow)
            } else {
                Ok(
                    Settlement {
                        sender: (held - amount) as Balance,
                        dest: (dest.unwrap_or(0) + amount) as Balance,
                    },
                )
            }
        },
    }
}

/// Adds `amount` to a balance, or reports `Overflow`.
pub fn credit(balance: Option<Balance>, amount: Balance) -> (result: Result<Balance, Error>)
    ensures
        result == credited(balance, amount),
{
    let held: Balance = match balance {
        Some(b) => b,
        None => 0,
    };
    match held.checked_add(amount) {
        Some(raised) => Ok(raised),
        None => Err(Error::Overflow),
    }
}

/// Takes `amount` from a balance, or reports why it cannot be taken.
pub fn debit(balance: Option<Balance>, amount: Balance) -> (result: Result<Balance, Error>)
    ensures
        result == debited(balance, amount),
{
    match balance {
        None => Err(Error::NonExistentAccount),
        Some(held) => match held.checked_sub(amount) {
            Some(remainder) => Ok(remainder),
            None => Err(Error::InsufficientBalance),
        },
    }
}

/// Decides a mint of `amount`.
pub fn mint(balance: Option<Balance>, total_issuance: Option<Balance>, amount: Balance) -> (result:
    Result<Minting, Error>)
    ensures
        result == minted(balance, total_issuance, amount),
{
    let balance = match credit(balance, amount) {
        Ok(balance) => balance,
        Err(e) => { return Err(e); },
    };
    match credit(total_issuance, amount) {
        Ok(total_issuance) => Ok(Minting { balance, total_issuance }),
        Err(e) => Err(e),
    }
}

/// Decides a transfer of `amount` between two balances.
pub fn settle(
    sender: Option<Balance>,
    dest: Option<Balance>,
    to_self: bool,
    amount: Balance,
) -> (result: Result<Settlement, Error>)
    ensures
        result == settled(sender, dest, to_self, amount),
{
    let remainder = match debit(sender, amount) {
        Ok(remainder) => remainder,
        Err(e) => { return Err(e); },
    };
    if to_self {
        // credited and debited at once: the account is back at what it held
        match credit(sender, amount) {
            Ok(raised) => Ok(Settlement { sender: raised - amount, dest: raised - amount }),
            Err(e) => Err(e),
        }
    } else {
        match credit(dest, amount) {
            Ok(raised) => Ok(Settlement { sender: remainder, dest: raised }),
            Err(e) => Err(e),
        }
    }
}

} // verus!
