//! A user's accounts, split by margining.
use vstd::prelude::*;
use crate::address::Address;
use crate::seq_util::{lemma_take_all, lemma_take_succ};
use super::check::{AccountSnapshot, SubAccountMargining, SubAccountSnapshot};

verus! {

/// A user's account and sub accounts, with their addresses.
pub struct UserAccountsInfo {
    pub account: AccountSnapshot,
    pub account_address: Address,
    pub sub_accounts: Vec<SubAccountSnapshot>,
    pub sub_account_addresses: Vec<Address>,
}

/// Indices of the sub accounts with the given margining, in order.
pub open spec fn margined_indices(subs: Seq<SubAccountSnapshot>, m: SubAccountMargining) -> Seq<int>
    decreases subs.len(),
{
    if subs.len() == 0 {
        Seq::empty()
    } else {
        let acc = margined_indices(subs.drop_last(), m);
        if subs.last().margining_type == m {
            acc.push(subs.len() - 1)
        } else {
            acc
        }
    }
}

/// Every sub account with the given margining has an address.
pub open spec fn addresses_cover(info: UserAccountsInfo, m: SubAccountMargining) -> bool {
    forall|i: int|
        0 <= i < info.sub_accounts@.len() && (#[trigger] info.sub_accounts@[i]).margining_type == m
            ==> i < info.sub_account_addresses@.len()
}

proof fn lemma_margined_indices_bounds(subs: Seq<SubAccountSnapshot>, m: SubAccountMargining)
    ensures
        forall|j: int|
            0 <= j < margined_indices(subs, m).len() ==> 0 <= #[trigger] margined_indices(
                subs,
                m,
            )[j] < subs.len() && subs[margined_indices(subs, m)[j]].margining_type == m,
    decreases subs.len(),
{
    if subs.len() > 0 {
        lemma_margined_indices_bounds(subs.drop_last(), m);
    }
}

/// An index is among the indices of a margining exactly when it is a sub
/// account's index and that sub account has this margining.
proof fn lemma_margined_indices_contains(subs: Seq<SubAccountSnapshot>, m: SubAccountMargining, i: int)
    ensures
        margined_indices(subs, m).contains(i) <==> (0 <= i < subs.len() && subs[i].margining_type
            == m),
    decreases subs.len(),
{
    if subs.len() > 0 {
        let init = subs.drop_last();
        let acc = margined_indices(init, m);
        lemma_margined_indices_contains(init, m, i);
        lemma_margined_indices_bounds(init, m);
        if 0 <= i < subs.len() - 1 {
            assert(init[i] == subs[i]);
        }
        if subs.last().margining_type == m {
            let cur = acc.push(subs.len() - 1);
            if cur.contains(i) {
                let j = choose|j: int| 0 <= j < cur.len() && cur[j] == i;
                if j < acc.len() {
                    assert(acc[j] == i);
                }
            }
            if acc.contains(i) {
                let j = choose|j: int| 0 <= j < acc.len() && acc[j] == i;
                assert(cur[j] == i);
            }
            assert(cur[acc.len() as int] == subs.len() - 1);
        } else {
            if acc.contains(i) {
                let j = choose|j: int| 0 <= j < acc.len() && acc[j] == i;
                assert(0 <= acc[j] < init.len());
            }
        }
    }
}

proof fn lemma_margined_counts(subs: Seq<SubAccountSnapshot>)
    ensures
        margined_indices(subs, SubAccountMargining::Cross).len() + margined_indices(
            subs,
            SubAccountMargining::Isolated,
        ).len() == subs.len(),
    decreases subs.len(),
{
    if subs.len() > 0 {
        lemma_margined_counts(subs.drop_last());
    }
}

/// Every sub account is either cross-margined or isolated, never both: the
/// cross and the isolated sub accounts' indices are disjoint, together they
/// are every sub account's index and nothing else, and their counts add up
/// to the number of sub accounts.
pub proof fn lemma_cross_and_isolated_partition(subs: Seq<SubAccountSnapshot>)
    ensures
        forall|i: int|
            #![trigger margined_indices(subs, SubAccountMargining::Cross).contains(i)]
            #![trigger margined_indices(subs, SubAccountMargining::Isolated).contains(i)]
            !(margined_indices(subs, SubAccountMargining::Cross).contains(i) && margined_indices(
                subs,
                SubAccountMargining::Isolated,
            ).contains(i)),
        forall|i: int|
            #![trigger margined_indices(subs, SubAccountMargining::Cross).contains(i)]
            #![trigger margined_indices(subs, SubAccountMargining::Isolated).contains(i)]
            (margined_indices(subs, SubAccountMargining::Cross).contains(i) || margined_indices(
                subs,
                SubAccountMargining::Isolated,
            ).contains(i)) <==> 0 <= i < subs.len(),
        margined_indices(subs, SubAccountMargining::Cross).len() + margined_indices(
            subs,
            SubAccountMargining::Isolated,
        ).len() == subs.len(),
{
    assert forall|i: int|
        #![trigger margined_indices(subs, SubAccountMargining::Cross).contains(i)]
        #![trigger margined_indices(subs, SubAccountMargining::Isolated).contains(i)]
        (margined_indices(subs, SubAccountMargining::Cross).contains(i) || margined_indices(
            subs,
            SubAccountMargining::Isolated,
        ).contains(i)) <==> 0 <= i < subs.len() by {
        lemma_margined_indices_contains(subs, SubAccountMargining::Cross, i);
        lemma_margined_indices_contains(subs, SubAccountMargining::Isolated, i);
    }
    assert forall|i: int|
        #![trigger margined_indices(subs, SubAccountMargining::Cross).contains(i)]
        #![trigger margined_indices(subs, SubAccountMargining::Isolated).contains(i)]
        !(margined_indices(subs, SubAccountMargining::Cross).contains(i) && margined_indices(
            subs,
            SubAccountMargining::Isolated,
        ).contains(i)) by {
        lemma_margined_indices_contains(subs, SubAccountMargining::Cross, i);
        lemma_margined_indices_contains(subs, SubAccountMargining::Isolated, i);
    }
    lemma_margined_counts(subs);
}

impl UserAccountsInfo {
    fn split(&self, m: SubAccountMargining) -> (r: (Vec<Address>, Vec<&SubAccountSnapshot>))
        requires
            addresses_cover(*self, m),
        ensures
            r.0@.len() == margined_indices(self.sub_accounts@, m).len(),
            r.1@.len() == margined_indices(self.sub_accounts@, m).len(),
            forall|j: int|
                0 <= j < r.0@.len() ==> #[trigger] r.0@[j]
                    == self.sub_account_addresses@[margined_indices(self.sub_accounts@, m)[j]],
            forall|j: int|
                0 <= j < r.1@.len() ==> *(#[trigger] r.1@[j])
                    == self.sub_accounts@[margined_indices(self.sub_accounts@, m)[j]],
    {
        let mut keys: Vec<Address> = Vec::new();
        let mut subs: Vec<&SubAccountSnapshot> = Vec::new();
        for k in 0..self.sub_accounts.len()
            invariant
                addresses_cover(*self, m),
                keys@.len() == margined_indices(self.sub_accounts@.take(k as int), m).len(),
                subs@.len() == keys@.len(),
                forall|j: int|
                    0 <= j < keys@.len() ==> #[trigger] keys@[j]
                        == self.sub_account_addresses@[margined_indices(
                        self.sub_accounts@.take(k as int),
                        m,
                    )[j]],
                forall|j: int|
                    0 <= j < subs@.len() ==> *(#[trigger] subs@[j])
                        == self.sub_accounts@[margined_indices(
                        self.sub_accounts@.take(k as int),
                        m,
                    )[j]],
        {
            proof {
                lemma_take_succ(self.sub_accounts@, k as int);
                lemma_margined_indices_bounds(self.sub_accounts@.take(k as int), m);
            }
            let sub = &self.sub_accounts[k];
            if sub.margining_type == m {
                keys.push(self.sub_account_addresses[k]);
                subs.push(sub);
            }
        }
        proof {
            lemma_take_all(self.sub_accounts@);
        }
        (keys, subs)
    }

    /// The isolated sub accounts, in order, with their addresses.
    pub fn get_isolated(&self) -> (r: (Vec<Address>, Vec<&SubAccountSnapshot>))
        requires
            addresses_cover(*self, SubAccountMargining::Isolated),
        ensures
            r.0@.len() == margined_indices(self.sub_accounts@, SubAccountMargining::Isolated).len(),
            r.1@.len() == r.0@.len(),
            forall|j: int|
                0 <= j < r.0@.len() ==> #[trigger] r.0@[j]
                    == self.sub_account_addresses@[margined_indices(
                    self.sub_accounts@,
                    SubAccountMargining::Isolated,
                )[j]],
            forall|j: int|
                0 <= j < r.1@.len() ==> *(#[trigger] r.1@[j]) == self.sub_accounts@[margined_indices(
                    self.sub_accounts@,
                    SubAccountMargining::Isolated,
                )[j]],
    {
        self.split(SubAccountMargining::Isolated)
    }

    /// The cross-margined sub accounts, in order, with their addresses.
    pub fn get_cross(&self) -> (r: (Vec<Address>, Vec<&SubAccountSnapshot>))
        requires
            addresses_cover(*self, SubAccountMargining::Cross),
        ensures
            r.0@.len() == margined_indices(self.sub_accounts@, SubAccountMargining::Cross).len(),
            r.1@.len() == r.0@.len(),
            forall|j: int|
                0 <= j < r.0@.len() ==> #[trigger] r.0@[j]
                    == self.sub_account_addresses@[margined_indices(
                    self.sub_accounts@,
                    SubAccountMargining::Cross,
                )[j]],
            forall|j: int|
                0 <= j < r.1@.len() ==> *(#[trigger] r.1@[j]) == self.sub_accounts@[margined_indices(
                    self.sub_accounts@,
                    SubAccountMargining::Cross,
                )[j]],
    {
        self.split(SubAccountMargining::Cross)
    }
}

} // verus!
