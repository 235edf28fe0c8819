//! What holds of the ledger's transitions, whatever the state and the
//! arguments.

use crate::balances::{
    is_listing, lemma_listing_drop_last, lemma_sum_insert, lemma_sum_split, sum_of_balances,
};
use crate::state::{Call, LedgerState};
use crate::types::{AccountId, Balance, Event};
use vstd::prelude::*;

verus! {

/// Minting that does not overflow succeeds, raises the destination's balance
/// and the issuance counter by exactly `amount`, leaves every other balance as
/// it was, and emits no event.
pub proof fn lemma_mint_adds_amount(state: LedgerState, dest: AccountId, amount: Balance)
    requires
        state.balance_of(dest).unwrap_or(0) + amount <= Balance::MAX,
        state.total_issuance.unwrap_or(0) + amount <= Balance::MAX,
    ensures
        state.mint(dest, amount) matches Ok(next) && {
            &&& next.balance_of(dest) is Some
            &&& next.balance_of(dest).unwrap() == state.balance_of(dest).unwrap_or(0) + amount
            &&& next.total_issuance is Some
            &&& next.total_issuance.unwrap() == state.total_issuance.unwrap_or(0) + amount
            &&& forall|who: AccountId|
                who != dest ==> next.balance_of(who) == state.balance_of(who)
            &&& next.events == state.events
        },
{
}

/// Minting keeps a balanced ledger balanced.
pub proof fn lemma_mint_keeps_balance(state: LedgerState, dest: AccountId, amount: Balance)
    requires
        state.balanced(),
    ensures
        state.mint(dest, amount) matches Ok(next) ==> next.balanced(),
{
    if let Ok(next) = state.mint(dest, amount) {
        lemma_sum_insert(state.balances, dest, next.balances[dest]);
    }
}

/// A successful transfer moves exactly `amount`: the sender holds `amount`
/// less and the destination `amount` more, an account that sends to itself
/// holds what it held, no other balance changes, the issuance counter and the
/// sum of all balances stay as they were, and one event records the move.
pub proof fn lemma_transfer_conserves(
    state: LedgerState,
    sender: AccountId,
    dest: AccountId,
    amount: Balance,
)
    requires
        state.balances.dom().finite(),
    ensures
        state.transfer(sender, dest, amount) matches Ok(next) ==> {
            &&& next.total_issuance == state.total_issuance
            &&& sum_of_balances(next.balances) == sum_of_balances(state.balances)
            &&& next.balance_of(sender) is Some
            &&& next.balance_of(dest) is Some
            &&& sender != dest ==> {
                &&& next.balance_of(sender).unwrap() == state.balance_of(sender).unwrap() - amount
                &&& next.balance_of(dest).unwrap() == state.balance_of(dest).unwrap_or(0) + amount
            }
            &&& sender == dest ==> next.balance_of(sender) == state.balance_of(sender)
            &&& forall|who: AccountId|
                who != sender && who != dest ==> next.balance_of(who) == state.balance_of(who)
            &&& next.events == state.events.push(
                Event::Transferred { from: sender, to: dest, amount },
            )
        },
{
    if let Ok(next) = state.transfer(sender, dest, amount) {
        let credited = state.balances.insert(dest, next.balances[dest]);
        lemma_sum_insert(state.balances, dest, credited[dest]);
        lemma_sum_insert(credited, sender, next.balances[sender]);
    }
}

/// Transferring keeps a balanced ledger balanced.
pub proof fn lemma_transfer_keeps_balance(
    state: LedgerState,
    sender: AccountId,
    dest: AccountId,
    amount: Balance,
)
    requires
        state.balanced(),
    ensures
        state.transfer(sender, dest, amount) matches Ok(next) ==> next.balanced(),
{
    lemma_transfer_conserves(state, sender, dest, amount);
}

/// In a balanced ledger a transfer to another account succeeds whenever the
/// sender has a recorded balance that covers the amount: the credit cannot
/// overflow, because the two balances together are at most the issuance.
pub proof fn lemma_transfer_within_balance_succeeds(
    state: LedgerState,
    sender: AccountId,
    dest: AccountId,
    amount: Balance,
)
    requires
        state.balanced(),
        sender != dest,
        state.balance_of(sender) matches Some(held) && amount <= held,
    ensures
        state.transfer(sender, dest, amount) is Ok,
{
    if state.balances.contains_key(dest) {
        let rest = state.balances.remove(sender);
        lemma_sum_split(state.balances, sender);
        lemma_sum_split(rest, dest);
    }
}

/// Any run of successful mints and transfers that starts from a balanced
/// ledger passes through balanced ledgers only: after each call the issuance
/// counter equals the sum of all balances.
pub proof fn lemma_calls_keep_balance(state: LedgerState, calls: Seq<Call>, n: int)
    requires
        state.balanced(),
        state.run(calls) is Some,
        0 <= n <= calls.len(),
    ensures
        state.run(calls.take(n)) matches Some(reached) && reached.balanced(),
    decreases calls.len(),
{
    if n == calls.len() {
        assert(calls.take(n) =~= calls);
        if calls.len() > 0 {
            lemma_calls_keep_balance(state, calls.drop_last(), n - 1);
            assert(calls.drop_last().take(n - 1) =~= calls.drop_last());
            let before = state.run(calls.drop_last()).unwrap();
            match calls.last() {
                Call::Mint { dest, amount } => lemma_mint_keeps_balance(before, dest, amount),
                Call::Transfer { sender, dest, amount } => lemma_transfer_keeps_balance(
                    before,
                    sender,
                    dest,
                    amount,
                ),
            }
        }
    } else {
        lemma_calls_keep_balance(state, calls.drop_last(), n);
        assert(calls.drop_last().take(n) =~= calls.take(n));
    }
}

/// A table has one listing only. So what `Pallet::iterate` returns is fixed by
/// what the table holds, and two calls on one state return the same list.
pub proof fn lemma_listing_unique(
    first: Seq<(AccountId, Balance)>,
    second: Seq<(AccountId, Balance)>,
    balances: Map<AccountId, Balance>,
)
    requires
        is_listing(first, balances),
        is_listing(second, balances),
    ensures
        first == second,
    decreases first.len(),
{
    if first.len() == 0 || second.len() == 0 {
        if first.len() > 0 {
            assert(first.contains(first[0]));
            assert(second.contains((first[0].0, first[0].1)));
        }
        if second.len() > 0 {
            assert(second.contains(second[0]));
            assert(first.contains((second[0].0, second[0].1)));
        }
        assert(first =~= second);
    } else {
        let a = first.last();
        let b = second.last();
        lemma_listing_drop_last(first, balances);
        lemma_listing_drop_last(second, balances);
        assert(second.contains((a.0, a.1)));
        let j = choose|j: int| 0 <= j < second.len() && second[j] == (a.0, a.1);
        assert(second[j].0 <= second[second.len() - 1].0);
        assert(first.contains((b.0, b.1)));
        let i = choose|i: int| 0 <= i < first.len() && first[i] == (b.0, b.1);
        assert(first[i].0 <= first[first.len() - 1].0);
        assert(a == b);
        lemma_listing_unique(first.drop_last(), second.drop_last(), balances.remove(a.0));
        assert(first =~= first.drop_last().push(a));
        assert(second =~= second.drop_last().push(b));
    }
}

} // verus!
