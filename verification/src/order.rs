//! The order in which a `BTreeMap` hands out its keys, in plain terms.

use crate::types::AccountId;
use vstd::prelude::*;
use vstd::std_specs::btree::increasing_seq;
use vstd::std_specs::cmp::OrdSpec;

verus! {

/// A sequence of accounts that vstd calls increasing is strictly ascending.
pub proof fn lemma_increasing_is_ascending(accounts: Seq<AccountId>)
    requires
        increasing_seq(accounts),
    ensures
        forall|i: int, j: int| 0 <= i < j < accounts.len() ==> accounts[i] < accounts[j],
{
    assert forall|i: int, j: int| 0 <= i < j < accounts.len() implies accounts[i]
        < accounts[j] by {
        assert(accounts[i].cmp_spec(&accounts[j]) is Less);
    }
}

} // verus!
