//! The accounts of the clients that one processor serves.

use crate::account::{Account, AccountView, ClientId};
use std::collections::HashMap;
use vstd::prelude::*;
use vstd::std_specs::iter::IteratorSpec;

verus! {

broadcast use vstd::std_specs::hash::group_hash_axioms;

/// The accounts by client. An account comes into being when its client is
/// first looked up.
#[derive(Debug)]
pub struct AccountStore {
    accounts: HashMap<ClientId, Account>,
}

impl View for AccountStore {
    type V = Map<ClientId, AccountView>;

    closed spec fn view(&self) -> Map<ClientId, AccountView> {
        self.accounts@.map_values(|a: Account| a@)
    }
}

impl AccountStore {
    /// A store without accounts.
    pub fn new() -> (r: AccountStore)
        ensures
            r@ == Map::<ClientId, AccountView>::empty(),
    {
        AccountStore { accounts: HashMap::new() }
    }

    /// The account of `client` as it stands, if the store has one.
    pub fn get(&self, client: ClientId) -> (r: Option<&Account>)
        ensures
            match r {
                Some(account) => self@.contains_key(client) && self@[client] == account@,
                None => !self@.contains_key(client),
            },
    {
        self.accounts.get(&client)
    }

    /// The account of `client`, made first where the store has none.
    pub fn get_mut(&mut self, client: ClientId) -> (r: &mut Account)
        ensures
            r@ == old(self).account_of(client),
            final(self)@ == old(self)@.insert(client, final(r)@),
    {
        let r = self.accounts.entry(client).or_insert(Account::new(client));
        r
    }

    /// Moves every account of `other` into this store. Where both stores hold
    /// an account of the same client, the one of `other` stays.
    pub fn extend(&mut self, other: AccountStore)
        ensures
            final(self)@ == old(self)@.union_prefer_right(other@),
    {
        let items = other.entries();
        let mut i: usize = 0;
        while i < items.len()
            invariant
                i <= items@.len(),
                forall|j: int|
                    0 <= j < items@.len() ==> other@.contains_key(#[trigger] items@[j].0)
                        && other@[items@[j].0] == items@[j].1@,
                forall|c: ClientId|
                    other@.contains_key(c) ==> exists|j: int|
                        0 <= j < items@.len() && #[trigger] items@[j].0 == c,
                forall|c: ClientId|
                    self@.contains_key(c) <==> old(self)@.contains_key(c) || exists|j: int|
                        0 <= j < i && #[trigger] items@[j].0 == c,
                forall|c: ClientId|
                    self@.contains_key(c) ==> self@[c] == if exists|j: int|
                        0 <= j < i && #[trigger] items@[j].0 == c {
                        other@[c]
                    } else {
                        old(self)@[c]
                    },
            decreases items@.len() - i,
        {
            let (client, account) = items[i];
            let ghost before = self@;
            self.accounts.insert(client, account);
            proof {
                assert(self@ =~= before.insert(client, account@));
                assert(items@[i as int].0 == client);
            }
            i = i + 1;
        }
        proof {
            assert(self@ =~= old(self)@.union_prefer_right(other@));
        }
    }

    /// The accounts with their clients, in no particular order.
    pub fn entries(&self) -> (r: Vec<(ClientId, Account)>)
        ensures
            r@.len() == self@.dom().len(),
            forall|i: int|
                0 <= i < r@.len() ==> self@.contains_key(#[trigger] r@[i].0) && self@[r@[i].0]
                    == r@[i].1@,
            forall|c: ClientId|
                self@.contains_key(c) ==> exists|i: int| 0 <= i < r@.len() && #[trigger] r@[i].0 == c,
            forall|i: int, j: int|
                0 <= i < j < r@.len() ==> #[trigger] r@[i].0 != #[trigger] r@[j].0,
    {
        let mut out: Vec<(ClientId, Account)> = Vec::new();
        let ghost all = self.accounts.iter().remaining();
        for pair in it: self.accounts.iter()
            invariant
                it.seq() == all,
                out@.len() == it.index(),
                forall|i: int|
                    0 <= i < out@.len() ==> (#[trigger] out@[i]).0 == *all[i].0 && out@[i].1
                        == *all[i].1,
        {
            out.push((*pair.0, *pair.1));
        }
        proof {
            let m = self.accounts@;
            assert(self@.dom() =~= m.dom());
            assert(all.no_duplicates());
            assert forall|c: ClientId| self@.contains_key(c) implies exists|i: int|
                0 <= i < out@.len() && #[trigger] out@[i].0 == c by {
                assert(m.contains_key(c));
                assert(all.contains((&c, &m[c])));
                let i = choose|i: int| 0 <= i < all.len() && all[i] == (&c, &m[c]);
                assert(out@[i].0 == c);
            }
            assert forall|i: int, j: int| 0 <= i < j < out@.len() implies #[trigger] out@[i].0
                != #[trigger] out@[j].0 by {
                if out@[i].0 == out@[j].0 {
                    assert(m.contains_key(*all[i].0) && m[*all[i].0] == *all[i].1);
                    assert(m.contains_key(*all[j].0) && m[*all[j].0] == *all[j].1);
                    assert(all[i] == all[j]);
                }
            }
        }
        out
    }

    /// The account that a look-up of `client` finds: the one in the store, or
    /// else a new one.
    pub open spec fn account_of(self, client: ClientId) -> AccountView {
        if self@.contains_key(client) {
            self@[client]
        } else {
            AccountView::new(client)
        }
    }
}

impl Default for AccountStore {
    /// A store without accounts.
    fn default() -> (r: AccountStore)
        ensures
            r@ == Map::<ClientId, AccountView>::empty(),
    {
        AccountStore::new()
    }
}

} // verus!
