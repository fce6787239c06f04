//! A keyed store from accounts to values.

use crate::account::AccountId;
use vstd::prelude::*;

verus! {

/// One record of the store.
#[derive(Debug, PartialEq, Eq)]
pub struct AccountEntry<V> {
    pub key: AccountId,
    pub value: V,
}

/// A store that holds at most one value per account. Records keep the order
/// in which their accounts first arrived.
#[derive(Debug, PartialEq, Eq)]
pub struct AccountMap<V> {
    entries: Vec<AccountEntry<V>>,
}

impl<V> AccountMap<V> {
    /// The records of the store, in order.
    pub closed spec fn entries(&self) -> Seq<AccountEntry<V>> {
        self.entries@
    }

    /// Whether the record at a position belongs to the given account.
    pub open spec fn holds_at(&self, i: int, key: Seq<char>) -> bool {
        0 <= i < self.entries().len() && self.entries()[i].key@ == key
    }

    /// A position at which the account's record stands, if it has one.
    pub open spec fn position(&self, key: Seq<char>) -> int {
        choose|i: int| self.holds_at(i, key)
    }

    /// No account has two records.
    pub open spec fn wf(&self) -> bool {
        forall|i: int, j: int|
            self.holds_at(i, self.entries()[j].key@) && 0 <= j < self.entries().len() ==> i == j
    }

    /// The store as a map from account names to values.
    pub open spec fn view(&self) -> Map<Seq<char>, V> {
        Map::new(
            |key: Seq<char>| exists|i: int| self.holds_at(i, key),
            |key: Seq<char>| self.entries()[self.position(key)].value,
        )
    }

    /// The record at a position is what the map holds for its account.
    pub proof fn lemma_entry_in_view(&self, i: int)
        requires
            self.wf(),
            0 <= i < self.entries().len(),
        ensures
            self@.contains_key(self.entries()[i].key@),
            self@[self.entries()[i].key@] == self.entries()[i].value,
            self.position(self.entries()[i].key@) == i,
    {
        let key = self.entries()[i].key@;
        assert(self.holds_at(i, key));
        let p = self.position(key);
        assert(self.holds_at(p, key));
        assert(self.holds_at(p, self.entries()[i].key@));
    }

    /// An account of the map has a record at its position.
    pub proof fn lemma_view_in_entries(&self, key: Seq<char>)
        requires
            self@.contains_key(key),
        ensures
            self.holds_at(self.position(key), key),
            self@[key] == self.entries()[self.position(key)].value,
    {
    }

    /// A store without records.
    pub fn new() -> (store: AccountMap<V>)
        ensures
            store.wf(),
            store@ == Map::<Seq<char>, V>::empty(),
            store.entries().len() == 0,
    {
        let store = AccountMap { entries: Vec::new() };
        assert(store@ =~= Map::<Seq<char>, V>::empty());
        store
    }

    /// How many accounts have a record.
    pub fn len(&self) -> (n: usize)
        ensures
            n == self.entries().len(),
    {
        self.entries.len()
    }

    /// The record at a position.
    pub fn entry(&self, i: usize) -> (e: &AccountEntry<V>)
        requires
            i < self.entries().len(),
        ensures
            *e == self.entries()[i as int],
    {
        &self.entries[i]
    }

    /// The position of the account's record.
    pub fn find(&self, key: &AccountId) -> (found: Option<usize>)
        requires
            self.wf(),
        ensures
            match found {
                Some(i) => self.holds_at(i as int, key@) && self@.contains_key(key@)
                    && self.position(key@) == i,
                None => !self@.contains_key(key@),
            },
    {
        let n: usize = self.entries.len();
        let mut i: usize = 0;
        while i < n
            invariant
                self.wf(),
                n == self.entries().len(),
                i <= n,
                forall|k: int| 0 <= k < i ==> !self.holds_at(k, key@),
            decreases n - i,
        {
            if self.entries[i].key.same(key) {
                proof {
                    self.lemma_entry_in_view(i as int);
                }
                return Some(i);
            }
            i += 1;
        }
        None
    }

    /// Whether the account has a record.
    pub fn contains(&self, key: &AccountId) -> (r: bool)
        requires
            self.wf(),
        ensures
            r == self@.contains_key(key@),
    {
        self.find(key).is_some()
    }

    /// The value held for the account.
    pub fn get(&self, key: &AccountId) -> (value: Option<&V>)
        requires
            self.wf(),
        ensures
            match value {
                Some(v) => self@.contains_key(key@) && *v == self@[key@],
                None => !self@.contains_key(key@),
            },
    {
        match self.find(key) {
            Some(i) => Some(&self.entries[i].value),
            None => None,
        }
    }

    /// Sets the value held for the account, in place of any earlier one.
    pub fn insert(&mut self, key: AccountId, value: V)
        requires
            old(self).wf(),
        ensures
            final(self).wf(),
            final(self)@ == old(self)@.insert(key@, value),
            old(self)@.contains_key(key@) ==> final(self).entries().len() == old(self).entries().len(),
            !old(self)@.contains_key(key@) ==> final(self).entries().len() == old(self).entries().len()
                + 1,
    {
        let ghost before = *self;
        let ghost name = key@;
        match self.find(&key) {
            Some(i) => {
                self.entries.set(i, AccountEntry { key, value });
                proof {
                    assert forall|a: int, b: int|
                        self.holds_at(a, self.entries()[b].key@) && 0 <= b < self.entries().len()
                        implies a == b by {
                        assert(self.entries()[a].key@ == before.entries()[a].key@);
                        assert(self.entries()[b].key@ == before.entries()[b].key@);
                        assert(before.holds_at(a, before.entries()[b].key@));
                    }
                    assert forall|k: Seq<char>| #[trigger]
                        self@.contains_key(k) == before@.insert(name, value).contains_key(
                            k,
                        ) by {
                        if self@.contains_key(k) {
                            let p = self.position(k);
                            assert(before.holds_at(p, k));
                        }
                        if before@.contains_key(k) {
                            let p = before.position(k);
                            assert(self.holds_at(p, k));
                        }
                        if k == name {
                            assert(self.holds_at(i as int, k));
                        }
                    }
                    assert forall|k: Seq<char>| #[trigger] self@.contains_key(k) implies self@[k]
                        == before@.insert(name, value)[k] by {
                        let p = self.position(k);
                        assert(self.holds_at(p, k));
                        self.lemma_entry_in_view(p);
                        if k != name {
                            assert(before.holds_at(p, k));
                            before.lemma_entry_in_view(p);
                        } else {
                            assert(self.holds_at(i as int, self.entries()[p].key@));
                        }
                    }
                    assert(self@ =~= before@.insert(name, value));
                }
            },
            None => {
                self.entries.push(AccountEntry { key, value });
                proof {
                    let n = before.entries().len() as int;
                    assert forall|a: int, b: int|
                        self.holds_at(a, self.entries()[b].key@) && 0 <= b < self.entries().len()
                        implies a == b by {
                        if a < n && b < n {
                            assert(before.holds_at(a, before.entries()[b].key@));
                        } else if a < n {
                            assert(before.holds_at(a, name));
                        } else if b < n {
                            assert(before.holds_at(b, name));
                        }
                    }
                    assert forall|k: Seq<char>| #[trigger]
                        self@.contains_key(k) == before@.insert(name, value).contains_key(
                            k,
                        ) by {
                        if self@.contains_key(k) {
                            let p = self.position(k);
                            if p < n {
                                assert(before.holds_at(p, k));
                            }
                        }
                        if before@.contains_key(k) {
                            let p = before.position(k);
                            assert(self.holds_at(p, k));
                        }
                        if k == name {
                            assert(self.holds_at(n, k));
                        }
                    }
                    assert forall|k: Seq<char>| #[trigger] self@.contains_key(k) implies self@[k]
                        == before@.insert(name, value)[k] by {
                        let p = self.position(k);
                        assert(self.holds_at(p, k));
                        self.lemma_entry_in_view(p);
                        if k != name {
                            assert(before.holds_at(p, k));
                            before.lemma_entry_in_view(p);
                        } else {
                            assert(self.holds_at(n, self.entries()[p].key@));
                        }
                    }
                    assert(self@ =~= before@.insert(name, value));
                }
            },
        }
    }

    /// Takes the account's record out of the store and hands back its value.
    pub fn remove(&mut self, key: &AccountId) -> (value: Option<V>)
        requires
            old(self).wf(),
        ensures
            final(self).wf(),
            final(self)@ == old(self)@.remove(key@),
            match value {
                Some(v) => old(self)@.contains_key(key@) && v == old(self)@[key@]
                    && final(self).entries().len() + 1 == old(self).entries().len(),
                None => !old(self)@.contains_key(key@) && final(self).entries() == old(
                    self,
                ).entries(),
            },
    {
        let ghost before = *self;
        let ghost name = key@;
        match self.find(key) {
            Some(i) => {
                let taken = self.entries.remove(i);
                proof {
                    let at = i as int;
                    before.lemma_entry_in_view(at);
                    assert forall|a: int| 0 <= a < self.entries().len() implies self.entries()[a]
                        == before.entries()[if a < at {
                        a
                    } else {
                        a + 1
                    }] by {}
                    assert forall|a: int, b: int|
                        self.holds_at(a, self.entries()[b].key@) && 0 <= b < self.entries().len()
                        implies a == b by {
                        let a_before = if a < at {
                            a
                        } else {
                            a + 1
                        };
                        let b_before = if b < at {
                            b
                        } else {
                            b + 1
                        };
                        assert(before.holds_at(a_before, before.entries()[b_before].key@));
                    }
                    assert forall|k: Seq<char>| #[trigger]
                        self@.contains_key(k) == before@.remove(name).contains_key(k) by {
                        if self@.contains_key(k) {
                            let p = self.position(k);
                            let shifted = if p < at {
                                p
                            } else {
                                p + 1
                            };
                            assert(before.holds_at(shifted, k));
                            if k == name {
                                assert(before.holds_at(shifted, before.entries()[at].key@));
                            }
                        }
                        if before@.contains_key(k) && k != name {
                            let p = before.position(k);
                            assert(p != at);
                            let moved = if p < at {
                                p
                            } else {
                                p - 1
                            };
                            assert(self.holds_at(moved, k));
                        }
                    }
                    assert forall|k: Seq<char>| #[trigger] self@.contains_key(k) implies self@[k]
                        == before@.remove(name)[k] by {
                        let p = self.position(k);
                        assert(self.holds_at(p, k));
                        self.lemma_entry_in_view(p);
                        let shifted = if p < at {
                            p
                        } else {
                            p + 1
                        };
                        assert(before.holds_at(shifted, k));
                        before.lemma_entry_in_view(shifted);
                    }
                    assert(self@ =~= before@.remove(name));
                }
                Some(taken.value)
            },
            None => {
                proof {
                    assert(self@ =~= before@.remove(name));
                }
                None
            },
        }
    }

    /// Takes every record out of the store.
    pub fn clear(&mut self)
        ensures
            final(self).wf(),
            final(self)@ == Map::<Seq<char>, V>::empty(),
            final(self).entries().len() == 0,
    {
        self.entries.clear();
        assert(self@ =~= Map::<Seq<char>, V>::empty());
    }

    /// Makes a store of the given records, unless an account has two.
    pub fn from_entries(entries: Vec<AccountEntry<V>>) -> (result: Option<AccountMap<V>>)
        ensures
            match result {
                Some(store) => store.wf() && store.entries() == entries@,
                None => exists|i: int, j: int|
                    0 <= i < j < entries@.len() && entries@[i].key@ == entries@[j].key@,
            },
    {
        let n: usize = entries.len();
        let mut j: usize = 0;
        while j < n
            invariant
                n == entries.len(),
                j <= n,
                forall|a: int, b: int| 0 <= a < b < j ==> entries@[a].key@ != entries@[b].key@,
            decreases n - j,
        {
            let mut i: usize = 0;
            while i < j
                invariant
                    n == entries.len(),
                    i <= j < n,
                    forall|a: int| 0 <= a < i ==> entries@[a].key@ != entries@[j as int].key@,
                decreases j - i,
            {
                if entries[i].key.same(&entries[j].key) {
                    return None;
                }
                i += 1;
            }
            j += 1;
        }
        let store = AccountMap { entries };
        assert forall|a: int, b: int|
            store.holds_at(a, store.entries()[b].key@) && 0 <= b < store.entries().len() implies a
            == b by {
            if a < b {
                assert(entries@[a].key@ != entries@[b].key@);
            } else if b < a {
                assert(entries@[b].key@ != entries@[a].key@);
            }
        }
        Some(store)
    }
}

} // verus!
