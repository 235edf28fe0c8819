//! The balance table as a mathematical map, and the sum of what it records.

use crate::types::{AccountId, Balance};
use vstd::prelude::*;

verus! {

/// The balance recorded for `who`, or `None` where the table has no entry.
/// An entry of zero is a recorded balance.
pub open spec fn recorded(balances: Map<AccountId, Balance>, who: AccountId) -> Option<Balance> {
    if balances.contains_key(who) {
        Some(balances[who])
    } else {
        None
    }
}

/// The sum of all recorded balances of a finite table; zero for the empty one.
pub open spec fn sum_of_balances(balances: Map<AccountId, Balance>) -> nat
    decreases balances.dom().len(),
{
    if balances.dom().finite() && balances.dom().len() > 0 {
        let who = balances.dom().choose();
        balances[who] as nat + sum_of_balances(balances.remove(who))
    } else {
        0
    }
}

/// Any one entry can be split off the sum: the sum is that entry's balance
/// plus the sum of the table without it.
pub proof fn lemma_sum_split(balances: Map<AccountId, Balance>, who: AccountId)
    requires
        balances.dom().finite(),
        balances.contains_key(who),
    ensures
        sum_of_balances(balances) == balances[who] + sum_of_balances(balances.remove(who)),
    decreases balances.dom().len(),
{
    let first = balances.dom().choose();
    if first != who {
        let rest = balances.remove(first);
        lemma_sum_split(rest, who);
        lemma_sum_split(balances.remove(who), first);
        assert(rest.remove(who) =~= balances.remove(who).remove(first));
    }
}

/// Writing `amount` for `who` replaces that entry's share of the sum, if it had
/// one, by `amount`.
pub proof fn lemma_sum_insert(balances: Map<AccountId, Balance>, who: AccountId, amount: Balance)
    requires
        balances.dom().finite(),
    ensures
        sum_of_balances(balances.insert(who, amount)) + recorded(balances, who).unwrap_or(0)
            == sum_of_balances(balances) + amount,
{
    let written = balances.insert(who, amount);
    lemma_sum_split(written, who);
    assert(written.remove(who) =~= balances.remove(who));
    if balances.contains_key(who) {
        lemma_sum_split(balances, who);
    } else {
        assert(balances.remove(who) =~= balances);
    }
}

/// `entries` lists the table: it holds exactly the table's entries, each once,
/// in ascending order of account.
pub open spec fn is_listing(
    entries: Seq<(AccountId, Balance)>,
    balances: Map<AccountId, Balance>,
) -> bool {
    &&& forall|i: int, j: int| 0 <= i < j < entries.len() ==> entries[i].0 < entries[j].0
    &&& forall|who: AccountId, held: Balance|
        #![trigger entries.contains((who, held))]
        #![trigger balances.contains_pair(who, held)]
        entries.contains((who, held)) <==> balances.contains_pair(who, held)
}

/// The sum of the balances in a list of entries.
pub open spec fn sum_of_entries(entries: Seq<(AccountId, Balance)>) -> nat
    decreases entries.len(),
{
    if entries.len() == 0 {
        0
    } else {
        sum_of_entries(entries.drop_last()) + entries.last().1 as nat
    }
}

/// The sum over the first `n + 1` entries is the sum over the first `n` plus
/// the balance of entry `n`.
pub proof fn lemma_sum_of_entries_step(entries: Seq<(AccountId, Balance)>, n: int)
    requires
        0 <= n < entries.len(),
    ensures
        sum_of_entries(entries.take(n + 1)) == sum_of_entries(entries.take(n)) + entries[n].1,
{
    assert(entries.take(n + 1).drop_last() =~= entries.take(n));
}

/// The sum over a prefix of a list never exceeds the sum over the list.
pub proof fn lemma_sum_of_entries_prefix(entries: Seq<(AccountId, Balance)>, n: int)
    requires
        0 <= n <= entries.len(),
    ensures
        sum_of_entries(entries.take(n)) <= sum_of_entries(entries),
    decreases entries.len() - n,
{
    if n == entries.len() {
        assert(entries.take(n) =~= entries);
    } else {
        lemma_sum_of_entries_step(entries, n);
        lemma_sum_of_entries_prefix(entries, n + 1);
    }
}

/// Without its last entry, a listing lists the table without that entry's
/// account.
pub proof fn lemma_listing_drop_last(
    entries: Seq<(AccountId, Balance)>,
    balances: Map<AccountId, Balance>,
)
    requires
        is_listing(entries, balances),
        entries.len() > 0,
    ensures
        balances.contains_pair(entries.last().0, entries.last().1),
        is_listing(entries.drop_last(), balances.remove(entries.last().0)),
{
    let (last, held) = entries.last();
    let others = entries.drop_last();
    let rest = balances.remove(last);
    assert(entries[entries.len() - 1] == (last, held));
    assert(entries.contains((last, held)));
    assert forall|who: AccountId, amount: Balance| #[trigger]
        others.contains((who, amount)) implies rest.contains_pair(who, amount) by {
        let i = choose|i: int| 0 <= i < others.len() && others[i] == (who, amount);
        assert(entries[i] == (who, amount));
        assert(entries.contains((who, amount)));
        assert(entries[i].0 < entries[entries.len() - 1].0);
    }
    assert forall|who: AccountId, amount: Balance| #[trigger]
        rest.contains_pair(who, amount) implies others.contains((who, amount)) by {
        assert(balances.contains_pair(who, amount));
        assert(entries.contains((who, amount)));
        let i = choose|i: int| 0 <= i < entries.len() && entries[i] == (who, amount);
        assert(others[i] == (who, amount));
    }
}

/// A listing of a table sums to what the table sums to.
pub proof fn lemma_sum_of_listing(
    entries: Seq<(AccountId, Balance)>,
    balances: Map<AccountId, Balance>,
)
    requires
        balances.dom().finite(),
        is_listing(entries, balances),
    ensures
        sum_of_entries(entries) == sum_of_balances(balances),
    decreases entries.len(),
{
    if entries.len() == 0 {
        assert forall|who: AccountId| !balances.contains_key(who) by {
            if balances.contains_key(who) {
                assert(balances.contains_pair(who, balances[who]));
                assert(entries.contains((who, balances[who])));
            }
        }
        assert(balances.dom() =~= Set::<AccountId>::empty());
    } else {
        lemma_listing_drop_last(entries, balances);
        lemma_sum_of_listing(entries.drop_last(), balances.remove(entries.last().0));
        lemma_sum_split(balances, entries.last().0);
    }
}

} // verus!
