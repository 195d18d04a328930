//! The accounts and sub-accounts the liquidator watches: which of them an
//! update is about, and which fetched ones are new and need a subscription.
use vstd::prelude::*;
use dashmap::DashMap;
use std::collections::hash_map::RandomState;
use crate::address::Address;
use crate::liquidator::error::Error;

verus! {

/// An address as its four words: the key it is watched under.
pub type WatchKey = (u64, u64, u64, u64);

#[verifier::external_type_specification]
#[verifier::external_body]
#[verifier::reject_recursive_types(K)]
#[verifier::reject_recursive_types(V)]
#[verifier::reject_recursive_types(S)]
pub struct ExDashMap<K, V, S>(DashMap<K, V, S>);

/// Name for what a map of watched addresses holds: each address, as its four
/// words, with its flag.
pub uninterp spec fn watched_entries(m: DashMap<WatchKey, bool, RandomState>) -> Map<WatchKey, bool>;

/// Calls `DashMap::new`, which makes an empty map.
#[verifier::external_body]
fn new_watch_map() -> (r: DashMap<WatchKey, bool, RandomState>)
    ensures
        watched_entries(r) =~= Map::empty(),
{
    DashMap::new()
}

/// Calls `DashMap::contains_key`, which tells whether the key is in the map.
#[verifier::external_body]
fn watch_map_contains(m: &DashMap<WatchKey, bool, RandomState>, key: WatchKey) -> (r: bool)
    ensures
        r == watched_entries(*m).dom().contains(key),
{
    m.contains_key(&key)
}

/// Calls `DashMap::insert`, which maps the key to the value, replacing the
/// value it had.
#[verifier::external_body]
fn watch_map_insert(m: &mut DashMap<WatchKey, bool, RandomState>, key: WatchKey, value: bool)
    ensures
        watched_entries(*final(m)) == watched_entries(*old(m)).insert(key, value),
{
    m.insert(key, value);
}

/// The words of an address, the key it is watched under.
pub open spec fn key_of(a: Address) -> WatchKey {
    (a.w0, a.w1, a.w2, a.w3)
}

/// The addresses of `fetched`, in order, that are neither among the `known`
/// keys nor earlier in `fetched`.
pub open spec fn newly_seen(known: Set<WatchKey>, fetched: Seq<Address>) -> Seq<Address>
    decreases fetched.len(),
{
    if fetched.len() == 0 {
        Seq::empty()
    } else {
        let prev = newly_seen(known, fetched.drop_last());
        let a = fetched.last();
        if known.contains(key_of(a)) || fetched.drop_last().contains(a) {
            prev
        } else {
            prev.push(a)
        }
    }
}

/// Watching fetched addresses subscribes to each address that was not
/// watched yet exactly once: the new addresses are fetched ones that were not
/// watched, none occurs twice, and every fetched address is either watched
/// already or among them.
pub proof fn lemma_newly_seen(known: Set<WatchKey>, fetched: Seq<Address>)
    ensures
        forall|i: int, j: int| 0 <= i < j < newly_seen(known, fetched).len()
            ==> newly_seen(known, fetched)[i] != newly_seen(known, fetched)[j],
        forall|x: Address| #[trigger] newly_seen(known, fetched).contains(x)
            ==> fetched.contains(x) && !known.contains(key_of(x)),
        forall|x: Address| #[trigger] fetched.contains(x)
            ==> known.contains(key_of(x)) || newly_seen(known, fetched).contains(x),
    decreases fetched.len(),
{
    if fetched.len() > 0 {
        let init = fetched.drop_last();
        let a = fetched.last();
        let prev = newly_seen(known, init);
        lemma_newly_seen(known, init);
        assert forall|x: Address| #[trigger] init.contains(x) implies fetched.contains(x) by {
            let i = choose|i: int| 0 <= i < init.len() && init[i] == x;
            assert(fetched[i] == x);
        }
        assert(fetched[fetched.len() - 1] == a);
        assert forall|x: Address| #[trigger] fetched.contains(x) implies
            known.contains(key_of(x)) || newly_seen(known, fetched).contains(x) by {
            let i = choose|i: int| 0 <= i < fetched.len() && fetched[i] == x;
            if i < fetched.len() - 1 {
                assert(init[i] == x);
            }
            if !known.contains(key_of(a)) && !init.contains(a) {
                assert(prev.push(a)[prev.len() as int] == a);
                if init.contains(x) {
                    let k = choose|k: int| 0 <= k < prev.len() && prev[k] == x;
                    if prev.contains(x) {
                        assert(prev.push(a)[k] == x);
                    }
                }
            }
        }
        if !known.contains(key_of(a)) && !init.contains(a) {
            let cur = prev.push(a);
            assert forall|x: Address| #[trigger] cur.contains(x) implies fetched.contains(x) && !known.contains(key_of(x)) by {
                let k = choose|k: int| 0 <= k < cur.len() && cur[k] == x;
                if k < prev.len() {
                    assert(prev[k] == x);
                    assert(prev.contains(x));
                    assert(init.contains(x));
                } else {
                    assert(x == a);
                    assert(fetched.contains(a));
                }
            }
            assert forall|i: int, j: int| 0 <= i < j < cur.len() implies cur[i] != cur[j] by {
                if j == prev.len() {
                    assert(prev.contains(cur[i]));
                }
            }
        }
    }
}

/// What an account update is about.
#[derive(Clone, Copy, Debug, PartialEq, Eq, Structural)]
pub enum WatchedKind {
    Account,
    SubAccount,
}

/// The accounts and sub-accounts being watched, and the users (by
/// authority) whose context is cached.
pub struct WatchedAccounts {
    pub accounts: DashMap<WatchKey, bool, RandomState>,
    pub sub_accounts: DashMap<WatchKey, bool, RandomState>,
    pub users: DashMap<WatchKey, bool, RandomState>,
}

/// An update of a watched account or sub-account: what it is about, the
/// user it belongs to, and whether that user was not cached before.
#[derive(Clone, Copy, Debug, PartialEq, Eq, Structural)]
pub struct UserUpdate {
    pub kind: WatchedKind,
    pub authority: Address,
    pub new_user: bool,
}

impl WatchedAccounts {
    /// The keys of the watched accounts.
    pub open spec fn account_keys(&self) -> Set<WatchKey> {
        watched_entries(self.accounts).dom()
    }

    /// The keys of the watched sub-accounts.
    pub open spec fn sub_account_keys(&self) -> Set<WatchKey> {
        watched_entries(self.sub_accounts).dom()
    }

    /// The authorities of the cached users.
    pub open spec fn user_keys(&self) -> Set<WatchKey> {
        watched_entries(self.users).dom()
    }

    /// Nothing watched, no user cached.
    pub fn new() -> (r: WatchedAccounts)
        ensures
            r.account_keys() == Set::<WatchKey>::empty(),
            r.sub_account_keys() == Set::<WatchKey>::empty(),
            r.user_keys() == Set::<WatchKey>::empty(),
    {
        WatchedAccounts { accounts: new_watch_map(), sub_accounts: new_watch_map(), users: new_watch_map() }
    }

    /// What an update of the given address is about: a watched account, else
    /// a watched sub-account, else it is not recognized.
    pub fn classify(&self, address: Address) -> (r: Result<WatchedKind, Error>)
        ensures
            self.account_keys().contains(key_of(address)) ==> r == Ok::<WatchedKind, Error>(WatchedKind::Account),
            !self.account_keys().contains(key_of(address)) && self.sub_account_keys().contains(key_of(address))
                ==> r == Ok::<WatchedKind, Error>(WatchedKind::SubAccount),
            !self.account_keys().contains(key_of(address)) && !self.sub_account_keys().contains(key_of(address))
                ==> r matches Err(Error::UnrecognizedAccount),
    {
        let key = (address.w0, address.w1, address.w2, address.w3);
        if watch_map_contains(&self.accounts, key) {
            Ok(WatchedKind::Account)
        } else if watch_map_contains(&self.sub_accounts, key) {
            Ok(WatchedKind::SubAccount)
        } else {
            Err(Error::UnrecognizedAccount)
        }
    }

    /// Takes an update of the given address, whose data names the given
    /// authority: it is about a watched account, else a watched sub-account,
    /// else it is not recognized. When recognized, the authority's user is
    /// cached (added when it was not) and the update says whether it is new.
    /// The watched accounts and sub-accounts are unchanged.
    pub fn process_update(&mut self, address: Address, authority: Address) -> (r: Result<
        UserUpdate,
        Error,
    >)
        ensures
            final(self).account_keys() == old(self).account_keys(),
            final(self).sub_account_keys() == old(self).sub_account_keys(),
            !old(self).account_keys().contains(key_of(address)) && !old(
                self,
            ).sub_account_keys().contains(key_of(address)) ==> (r matches Err(
                Error::UnrecognizedAccount,
            ) && final(self).user_keys() == old(self).user_keys()),
            old(self).account_keys().contains(key_of(address)) || old(
                self,
            ).sub_account_keys().contains(key_of(address)) ==> (r matches Ok(u) && u.authority
                == authority && u.new_user == !old(self).user_keys().contains(key_of(authority))
                && (u.kind == if old(self).account_keys().contains(key_of(address)) {
                WatchedKind::Account
            } else {
                WatchedKind::SubAccount
            }) && final(self).user_keys() == old(self).user_keys().insert(key_of(authority))),
    {
        let kind = match self.classify(address) {
            Ok(kind) => kind,
            Err(e) => {
                return Err(e);
            },
        };
        let key = (authority.w0, authority.w1, authority.w2, authority.w3);
        let new_user = !watch_map_contains(&self.users, key);
        if new_user {
            watch_map_insert(&mut self.users, key, true);
        }
        proof {
            assert(watched_entries(self.users).dom() =~= watched_entries(old(self).users).dom().insert(key));
        }
        Ok(UserUpdate { kind, authority, new_user })
    }

    /// Watches the fetched accounts (or sub-accounts) and returns those that
    /// were not watched yet, in the order fetched, each once.
    fn watch_new(map: &mut DashMap<WatchKey, bool, RandomState>, fetched: &Vec<Address>) -> (r: Vec<Address>)
        ensures
            r@ == newly_seen(watched_entries(*old(map)).dom(), fetched@),
            forall|k: WatchKey| #[trigger] watched_entries(*final(map)).dom().contains(k) <==> (
                watched_entries(*old(map)).dom().contains(k)
                || exists|j: int| 0 <= j < fetched.len() && key_of(#[trigger] fetched@[j]) == k),
    {
        let ghost known = watched_entries(*map).dom();
        let mut added: Vec<Address> = Vec::new();
        for i in 0..fetched.len()
            invariant
                known == watched_entries(*old(map)).dom(),
                added@ == newly_seen(known, fetched@.take(i as int)),
                forall|k: WatchKey| #[trigger] watched_entries(*map).dom().contains(k) <==> (
                    known.contains(k) || exists|j: int| 0 <= j < i && key_of(#[trigger] fetched@[j]) == k),
        {
            let a = fetched[i];
            let key = (a.w0, a.w1, a.w2, a.w3);
            let ghost s = fetched@.take(i + 1);
            proof {
                assert(s.drop_last() =~= fetched@.take(i as int));
                assert(s.last() == a);
                assert(key == key_of(a));
                if fetched@.take(i as int).contains(a) {
                    let j = choose|j: int| 0 <= j < i && fetched@.take(i as int)[j] == a;
                    assert(key_of(fetched@[j]) == key);
                }
                if exists|j: int| 0 <= j < i && key_of(#[trigger] fetched@[j]) == key {
                    let j = choose|j: int| 0 <= j < i && key_of(#[trigger] fetched@[j]) == key;
                    assert(fetched@.take(i as int)[j] == a);
                }
            }
            if !watch_map_contains(map, key) {
                watch_map_insert(map, key, true);
                added.push(a);
            }
            proof {
                assert forall|k: WatchKey| #[trigger] watched_entries(*map).dom().contains(k) <==> (
                    known.contains(k) || exists|j: int| 0 <= j < i + 1 && key_of(#[trigger] fetched@[j]) == k) by {
                    if k == key {
                        assert(key_of(fetched@[i as int]) == k);
                    }
                    if exists|j: int| 0 <= j < i + 1 && key_of(#[trigger] fetched@[j]) == k {
                        let j = choose|j: int| 0 <= j < i + 1 && key_of(#[trigger] fetched@[j]) == k;
                        if j < i {
                            assert(exists|j: int| 0 <= j < i && key_of(#[trigger] fetched@[j]) == k);
                        }
                    }
                }
            }
        }
        proof {
            assert(fetched@.take(fetched.len() as int) =~= fetched@);
        }
        added
    }

    /// Watches fetched accounts and sub-accounts, and returns the addresses to
    /// subscribe to: the accounts that were not watched yet, then the
    /// sub-accounts that were not watched yet, each in the order fetched.
    pub fn watch_all(&mut self, accounts: &Vec<Address>, sub_accounts: &Vec<Address>) -> (r: Vec<Address>)
        ensures
            r@ == newly_seen(old(self).account_keys(), accounts@) + newly_seen(old(self).sub_account_keys(), sub_accounts@),
            forall|k: WatchKey| #[trigger] final(self).account_keys().contains(k) <==> (
                old(self).account_keys().contains(k)
                || exists|j: int| 0 <= j < accounts.len() && key_of(#[trigger] accounts@[j]) == k),
            forall|k: WatchKey| #[trigger] final(self).sub_account_keys().contains(k) <==> (
                old(self).sub_account_keys().contains(k)
                || exists|j: int| 0 <= j < sub_accounts.len() && key_of(#[trigger] sub_accounts@[j]) == k),
    {
        let mut new_accounts = Self::watch_new(&mut self.accounts, accounts);
        let mut new_sub_accounts = Self::watch_new(&mut self.sub_accounts, sub_accounts);
        new_accounts.append(&mut new_sub_accounts);
        new_accounts
    }
}

} // verus!
