//! The executable ledger.

use crate::balances::{
    is_listing, lemma_sum_of_entries_prefix, lemma_sum_of_entries_step, lemma_sum_of_listing,
    sum_of_balances, sum_of_entries,
};
use crate::laws::{lemma_mint_keeps_balance, lemma_transfer_keeps_balance};
use crate::order::lemma_increasing_is_ascending;
use crate::rules::{mint, settle};
use crate::state::LedgerState;
use crate::types::{AccountId, Balance, Error, Event};
use std::collections::BTreeMap;
use vstd::prelude::*;
use vstd::std_specs::btree::increasing_seq;
use vstd::std_specs::iter::IteratorSpec;

verus! {

/// The ledger: a balance per account, the issuance counter, and the events
/// emitted so far.
pub struct Pallet {
    balances: BTreeMap<AccountId, Balance>,
    total_issuance: Option<Balance>,
    events: Vec<Event>,
}

impl View for Pallet {
    type V = LedgerState;

    closed spec fn view(&self) -> LedgerState {
        LedgerState {
            balances: self.balances@,
            total_issuance: self.total_issuance,
            events: self.events@,
        }
    }
}

impl Pallet {
    /// A ledger that holds nothing.
    pub fn new() -> (ledger: Pallet)
        ensures
            ledger@ == LedgerState::empty(),
    {
        Pallet { balances: BTreeMap::new(), total_issuance: None, events: Vec::new() }
    }

    /// The balance recorded for `who`, if any.
    pub fn get(&self, who: AccountId) -> (balance: Option<Balance>)
        ensures
            balance == self@.balance_of(who),
    {
        match self.balances.get(&who) {
            Some(held) => Some(*held),
            None => None,
        }
    }

    /// The issuance counter, if it was ever set.
    pub fn total_issuance(&self) -> (issued: Option<Balance>)
        ensures
            issued == self@.total_issuance,
    {
        self.total_issuance
    }

    /// The events emitted so far, oldest first.
    pub fn events(&self) -> (events: &Vec<Event>)
        ensures
            events@ == self@.events,
    {
        &self.events
    }

    /// The table as a list: every recorded account with its balance, in
    /// ascending order of account.
    pub fn iterate(&self) -> (entries: Vec<(AccountId, Balance)>)
        ensures
            is_listing(entries@, self@.balances),
    {
        let mut entries: Vec<(AccountId, Balance)> = Vec::new();
        let ghost all = self.balances.iter().remaining();
        for pair in it: self.balances.iter()
            invariant
                it.seq() == all,
                entries@.len() == it.index(),
                forall|i: int|
                    0 <= i < entries@.len() ==> #[trigger] entries@[i] == (*all[i].0, *all[i].1),
        {
            entries.push((*pair.0, *pair.1));
        }
        proof {
            let accounts = all.map_values(|kv: (&AccountId, &Balance)| *kv.0);
            assert(increasing_seq(accounts));
            lemma_increasing_is_ascending(accounts);
            assert forall|i: int, j: int| 0 <= i < j < entries@.len() implies entries@[i].0
                < entries@[j].0 by {
                assert(accounts[i] == entries@[i].0);
                assert(accounts[j] == entries@[j].0);
            }
            assert forall|who: AccountId, held: Balance| #[trigger]
                entries@.contains((who, held)) implies self.balances@.contains_pair(who, held) by {
                let i = choose|i: int| 0 <= i < entries@.len() && entries@[i] == (who, held);
                assert(self.balances@.contains_key(*all[i].0));
            }
            assert forall|who: AccountId, held: Balance| #[trigger]
                self.balances@.contains_pair(who, held) implies entries@.contains((who, held)) by {
                assert(all.contains((&who, &held)));
                let i = choose|i: int| 0 <= i < all.len() && all[i] == (&who, &held);
                assert(entries@[i] == (who, held));
            }
        }
        entries
    }

    /// Writes `amount` as the balance of `who`, whatever stood there. This is
    /// for setting up an initial state: the issuance counter is not touched, so
    /// the ledger is balanced again only once the counter has been set to
    /// match.
    pub fn insert_balance(&mut self, who: AccountId, amount: Balance)
        ensures
            final(self)@ == (LedgerState {
                balances: old(self)@.balances.insert(who, amount),
                ..old(self)@
            }),
    {
        self.balances.insert(who, amount);
    }

    /// Writes the issuance counter, whatever stood there. This is for setting
    /// up an initial state: no balance is touched.
    pub fn set_total_issuance(&mut self, issued: Option<Balance>)
        ensures
            final(self)@ == (LedgerState { total_issuance: issued, ..old(self)@ }),
    {
        self.total_issuance = issued;
    }

    /// Whether the issuance counter equals the sum of all balances.
    pub fn is_balanced(&self) -> (ok: bool)
        ensures
            ok == self@.balanced(),
    {
        let issued: Balance = match self.total_issuance {
            Some(issued) => issued,
            None => 0,
        };
        let entries = self.iterate();
        proof {
            lemma_sum_of_listing(entries@, self.balances@);
        }
        let mut sum: Balance = 0;
        let mut i: usize = 0;
        while i < entries.len()
            invariant
                i <= entries@.len(),
                sum == sum_of_entries(entries@.take(i as int)),
                sum_of_entries(entries@) == sum_of_balances(self.balances@),
            decreases entries@.len() - i,
        {
            proof {
                lemma_sum_of_entries_step(entries@, i as int);
                lemma_sum_of_entries_prefix(entries@, i + 1);
            }
            match sum.checked_add(entries[i].1) {
                Some(more) => { sum = more; },
                None => { return false; },
            }
            i += 1;
        }
        assert(entries@.take(i as int) =~= entries@);
        sum == issued
    }

    /// Hands out the events emitted so far, oldest first, and forgets them.
    pub fn take_events(&mut self) -> (events: Vec<Event>)
        ensures
            events@ == old(self)@.events,
            final(self)@ == (LedgerState { events: Seq::empty(), ..old(self)@ }),
    {
        let mut events: Vec<Event> = Vec::new();
        std::mem::swap(&mut self.events, &mut events);
        events
    }

    /// Creates `amount` for `dest` and counts it as issued. Any caller may do
    /// so for any destination; `_caller` is not looked at.
    ///
    /// Fails with `Overflow`, changing nothing, if the destination's balance
    /// or the issuance counter cannot take the amount. Emits no event.
    pub fn mint_unsafe(&mut self, _caller: AccountId, dest: AccountId, amount: Balance) -> (result:
        Result<(), Error>)
        ensures
            match old(self)@.mint(dest, amount) {
                Ok(next) => result is Ok && final(self)@ == next,
                Err(e) => result == Err::<(), Error>(e) && final(self)@ == old(self)@,
            },
            result == Err::<(), Error>(Error::Overflow) <==> (old(self)@.balance_of(dest).unwrap_or(0)
                + amount > Balance::MAX || old(self)@.total_issuance.unwrap_or(0) + amount
                > Balance::MAX),
            old(self)@.balanced() ==> final(self)@.balanced(),
    {
        proof {
            if self@.balanced() {
                lemma_mint_keeps_balance(self@, dest, amount);
            }
        }
        let after = match mint(self.get(dest), self.total_issuance, amount) {
            Ok(after) => after,
            Err(e) => { return Err(e); },
        };
        self.balances.insert(dest, after.balance);
        self.total_issuance = Some(after.total_issuance);
        Ok(())
    }

    /// Moves `amount` from `caller` to `dest` and emits `Event::Transferred`.
    /// The issuance counter is not touched.
    ///
    /// Fails, changing nothing and emitting nothing, with
    /// `NonExistentAccount` if `caller` has no recorded balance, else with
    /// `InsufficientBalance` if that balance is below `amount`, else with
    /// `Overflow` if the destination's balance cannot take the amount. All
    /// three are decided on the balances as they stand before the call.
    ///
    /// A sender that gives away all it has keeps an entry of zero, and so
    /// stays an existing account. A transfer to oneself passes the same
    /// checks and leaves the balance as it was.
    pub fn transfer(&mut self, caller: AccountId, dest: AccountId, amount: Balance) -> (result:
        Result<(), Error>)
        ensures
            match old(self)@.transfer(caller, dest, amount) {
                Ok(next) => result is Ok && final(self)@ == next,
                Err(e) => result == Err::<(), Error>(e) && final(self)@ == old(self)@,
            },
            result == Err::<(), Error>(Error::NonExistentAccount) <==> old(self)@.balance_of(
                caller,
            ) is None,
            result == Err::<(), Error>(Error::InsufficientBalance) <==> (old(self)@.balance_of(
                caller,
            ) matches Some(held) && held < amount),
            result == Err::<(), Error>(Error::Overflow) <==> (old(self)@.balance_of(
                caller,
            ) matches Some(held) && held >= amount && old(self)@.balance_of(dest).unwrap_or(0)
                + amount > Balance::MAX),
            old(self)@.balanced() ==> final(self)@.balanced(),
    {
        proof {
            if self@.balanced() {
                lemma_transfer_keeps_balance(self@, caller, dest, amount);
            }
        }
        let after = match settle(self.get(caller), self.get(dest), caller == dest, amount) {
            Ok(after) => after,
            Err(e) => { return Err(e); },
        };
        self.balances.insert(dest, after.dest);
        self.balances.insert(caller, after.sender);
        self.events.push(Event::Transferred { from: caller, to: dest, amount });
        Ok(())
    }
}

} // verus!
