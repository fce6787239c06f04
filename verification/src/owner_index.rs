//! The index from each owner to the tokens it holds.

use crate::account::AccountId;
use crate::account_map::AccountMap;
use vstd::prelude::*;

verus! {

/// For each account that owns a token, the numbers of its tokens.
pub struct OwnerIndex {
    sets: AccountMap<Vec<u64>>,
}

/// Position of a token in a list, if it is there.
fn position_in(list: &Vec<u64>, token_id: u64) -> (found: Option<usize>)
    ensures
        match found {
            Some(i) => i < list.len() && list[i as int] == token_id,
            None => !list@.contains(token_id),
        },
{
    let n: usize = list.len();
    let mut i: usize = 0;
    while i < n
        invariant
            n == list.len(),
            i <= n,
            forall|k: int| 0 <= k < i ==> list[k] != token_id,
        decreases n - i,
    {
        if list[i] == token_id {
            return Some(i);
        }
        i += 1;
    }
    None
}

impl OwnerIndex {
    /// The stored lists.
    pub closed spec fn store(&self) -> AccountMap<Vec<u64>> {
        self.sets
    }

    /// Whether the index records the token under the account.
    pub open spec fn holds(&self, account: Seq<char>, token_id: u64) -> bool {
        self.store()@.contains_key(account) && self.store()@[account]@.contains(token_id)
    }

    /// The index is well formed when no account has two lists, no list is
    /// empty and no list names a token twice.
    pub open spec fn wf(&self) -> bool {
        &&& self.store().wf()
        &&& forall|a: Seq<char>| #[trigger]
            self.store()@.contains_key(a) ==> self.store()@[a]@.len() > 0
                && self.store()@[a]@.no_duplicates()
    }

    /// An index that records nothing.
    pub fn new() -> (index: OwnerIndex)
        ensures
            index.wf(),
            forall|a: Seq<char>, t: u64| !index.holds(a, t),
    {
        OwnerIndex { sets: AccountMap::new() }
    }

    /// Records the token under the account. Nothing changes if it is
    /// recorded there already.
    pub fn add(&mut self, owner_id: &AccountId, token_id: u64)
        requires
            old(self).wf(),
        ensures
            final(self).wf(),
            forall|a: Seq<char>, t: u64|
                final(self).holds(a, t) <==> (old(self).holds(a, t) || (a == owner_id@ && t
                    == token_id)),
    {
        let ghost before = *self;
        let mut list: Vec<u64> = match self.sets.remove(owner_id) {
            Some(list) => list,
            None => Vec::new(),
        };
        let ghost held = list@;
        if position_in(&list, token_id).is_none() {
            list.push(token_id);
            proof {
                assert forall|t: u64| list@.contains(t) <==> (held.contains(t) || t
                    == token_id) by {
                    if held.contains(t) {
                        let k = choose|k: int| 0 <= k < held.len() && held[k] == t;
                        assert(list@[k] == t);
                    }
                    if t == token_id {
                        assert(list@[held.len() as int] == t);
                    }
                }
            }
        }
        let ghost kept = list@;
        self.sets.insert(owner_id.clone(), list);
        proof {
            assert(self.store()@ =~= before.store()@.insert(owner_id@, list));
            assert forall|a: Seq<char>, t: u64|
                self.holds(a, t) <==> (before.holds(a, t) || (a == owner_id@ && t
                    == token_id)) by {
                if a == owner_id@ {
                    assert(self.store()@[a]@ == kept);
                }
            }
        }
    }

    /// Strikes the token from the account's list, and the list from the
    /// index once it is empty. Nothing changes if it is not recorded there.
    pub fn remove(&mut self, owner_id: &AccountId, token_id: u64)
        requires
            old(self).wf(),
        ensures
            final(self).wf(),
            forall|a: Seq<char>, t: u64|
                final(self).holds(a, t) <==> (old(self).holds(a, t) && !(a == owner_id@ && t
                    == token_id)),
    {
        let ghost before = *self;
        match self.sets.remove(owner_id) {
            Some(list) => {
                let mut list = list;
                let ghost held = list@;
                match position_in(&list, token_id) {
                    Some(i) => {
                        list.remove(i);
                        proof {
                            let at = i as int;
                            assert forall|t: u64| list@.contains(t) <==> (held.contains(t) && t
                                != token_id) by {
                                if list@.contains(t) {
                                    let k = choose|k: int| 0 <= k < list@.len() && list@[k] == t;
                                    let k_before = if k < at {
                                        k
                                    } else {
                                        k + 1
                                    };
                                    assert(held[k_before] == t);
                                }
                                if held.contains(t) && t != token_id {
                                    let k = choose|k: int| 0 <= k < held.len() && held[k] == t;
                                    let k_after = if k < at {
                                        k
                                    } else {
                                        k - 1
                                    };
                                    assert(list@[k_after] == t);
                                }
                            }
                            assert forall|x: int, y: int|
                                0 <= x < list@.len() && 0 <= y < list@.len() && x
                                    != y implies list@[x] != list@[y] by {
                                let x_before = if x < at {
                                    x
                                } else {
                                    x + 1
                                };
                                let y_before = if y < at {
                                    y
                                } else {
                                    y + 1
                                };
                                assert(held[x_before] != held[y_before]);
                            }
                        }
                    },
                    None => {},
                }
                let ghost kept = list@;
                if list.len() > 0 {
                    self.sets.insert(owner_id.clone(), list);
                    proof {
                        assert(self.store()@ =~= before.store()@.insert(owner_id@, list));
                        assert forall|a: Seq<char>, t: u64|
                            self.holds(a, t) <==> (before.holds(a, t) && !(a == owner_id@ && t
                                == token_id)) by {
                            if a == owner_id@ {
                                assert(self.store()@[a]@ == kept);
                            }
                        }
                    }
                } else {
                    proof {
                        assert forall|a: Seq<char>, t: u64|
                            self.holds(a, t) <==> (before.holds(a, t) && !(a == owner_id@ && t
                                == token_id)) by {
                            if a == owner_id@ && before.holds(a, t) {
                                assert(held.contains(t));
                                assert(!kept.contains(t));
                            }
                        }
                    }
                }
            },
            None => {},
        }
    }

    /// The tokens recorded under the account, in the order of the list.
    pub fn tokens_of(&self, owner_id: &AccountId) -> (tokens: Vec<u64>)
        requires
            self.wf(),
        ensures
            tokens@.no_duplicates(),
            forall|t: u64| tokens@.contains(t) <==> self.holds(owner_id@, t),
    {
        match self.sets.get(owner_id) {
            Some(list) => {
                let tokens = list.clone();
                assert(tokens@ =~= list@);
                tokens
            },
            None => Vec::new(),
        }
    }
}

} // verus!
