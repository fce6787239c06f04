//! The record of one token: its owner, its approvals and its royalty table.

use crate::account::AccountId;
use crate::account_map::AccountMap;
use crate::royalty::{RoyaltyTable, Share};
use vstd::prelude::*;

verus! {

/// A token record as a mathematical value.
pub struct TokenView {
    /// The account that owns the token.
    pub owner: Seq<char>,
    /// The approval identifier that each approved account holds.
    pub approvals: Map<Seq<char>, u64>,
    /// The identifier that the next approval will get.
    pub next_approval_id: u64,
    /// The royalty table attached at mint time.
    pub royalty: Seq<Share>,
}

/// Whether an account holds an approval for the token and, where an
/// identifier is given, holds it under exactly that identifier.
pub open spec fn approved(token: TokenView, account: Seq<char>, approval_id: Option<u64>) -> bool {
    &&& token.approvals.contains_key(account)
    &&& match approval_id {
        Some(id) => token.approvals[account] == id,
        None => true,
    }
}

/// The record after the owner approved an account: the account holds the
/// next identifier, in place of any it held, and the counter has moved on.
pub open spec fn approve_step(token: TokenView, grantee: Seq<char>) -> TokenView {
    TokenView {
        approvals: token.approvals.insert(grantee, token.next_approval_id),
        next_approval_id: (token.next_approval_id + 1) as u64,
        ..token
    }
}

/// The record after the owner revoked an account's approval.
pub open spec fn revoke_step(token: TokenView, grantee: Seq<char>) -> TokenView {
    TokenView { approvals: token.approvals.remove(grantee), ..token }
}

/// The record after the owner revoked every approval.
pub open spec fn revoke_all_step(token: TokenView) -> TokenView {
    TokenView { approvals: Map::empty(), ..token }
}

/// The record after the token went to a new owner: no approval is left.
pub open spec fn transfer_step(token: TokenView, receiver: Seq<char>) -> TokenView {
    TokenView { owner: receiver, approvals: Map::empty(), ..token }
}

/// Whether a caller may move the token: it is the owner, or it holds an
/// approval that matches the expected identifier where one is given.
pub open spec fn may_transfer(token: TokenView, caller: Seq<char>, approval_id: Option<u64>) -> bool {
    caller == token.owner || approved(token, caller, approval_id)
}

/// A token record.
#[derive(Debug, PartialEq, Eq)]
pub struct Token {
    owner_id: AccountId,
    approved_account_ids: AccountMap<u64>,
    next_approval_id: u64,
    royalty: RoyaltyTable,
}

impl View for Token {
    type V = TokenView;

    closed spec fn view(&self) -> TokenView {
        TokenView {
            owner: self.owner_id@,
            approvals: self.approved_account_ids@,
            next_approval_id: self.next_approval_id,
            royalty: self.royalty@,
        }
    }
}

impl Token {
    /// A record is well formed when its stores are, its royalty table is
    /// valid, and every approval in force was issued before the counter's
    /// present value.
    pub closed spec fn wf(&self) -> bool {
        &&& self.approved_account_ids.wf()
        &&& self.royalty.wf()
        &&& forall|a: Seq<char>| #[trigger]
            self.approved_account_ids@.contains_key(a) ==> self.approved_account_ids@[a]
                < self.next_approval_id
    }

    /// Every approval in force carries an identifier below the counter.
    pub proof fn lemma_approvals_below_counter(&self, account: Seq<char>)
        requires
            self.wf(),
            self@.approvals.contains_key(account),
        ensures
            self@.approvals[account] < self@.next_approval_id,
    {
    }

    /// A well formed record has a valid royalty table.
    pub proof fn lemma_royalty_valid(&self)
        requires
            self.wf(),
        ensures
            crate::royalty::valid_table(self@.royalty),
    {
    }

    /// The record of a newly minted token.
    pub fn new(owner_id: AccountId, royalty: RoyaltyTable) -> (token: Token)
        requires
            royalty.wf(),
        ensures
            token.wf(),
            token@ == (TokenView {
                owner: owner_id@,
                approvals: Map::empty(),
                next_approval_id: 0,
                royalty: royalty@,
            }),
    {
        Token { owner_id, approved_account_ids: AccountMap::new(), next_approval_id: 0, royalty }
    }

    /// The account that owns the token.
    pub fn owner_id(&self) -> (owner: &AccountId)
        ensures
            owner@ == self@.owner,
    {
        &self.owner_id
    }

    /// The identifier that the next approval will get.
    pub fn next_approval_id(&self) -> (id: u64)
        ensures
            id == self@.next_approval_id,
    {
        self.next_approval_id
    }

    /// The royalty table attached to the token.
    pub fn royalty(&self) -> (table: &RoyaltyTable)
        ensures
            table@ == self@.royalty,
            self.wf() ==> table.wf(),
    {
        &self.royalty
    }

    /// The approvals in force.
    pub fn approved_account_ids(&self) -> (store: &AccountMap<u64>)
        ensures
            store@ == self@.approvals,
            self.wf() ==> store.wf(),
    {
        &self.approved_account_ids
    }

    /// The approval identifier that an account holds, if any.
    pub fn approval_id_of(&self, account: &AccountId) -> (id: Option<u64>)
        requires
            self.wf(),
        ensures
            match id {
                Some(i) => self@.approvals.contains_key(account@) && self@.approvals[account@] == i,
                None => !self@.approvals.contains_key(account@),
            },
    {
        match self.approved_account_ids.get(account) {
            Some(id) => Some(*id),
            None => None,
        }
    }

    /// Whether an account holds an approval and, where an identifier is
    /// given, holds it under exactly that identifier.
    pub fn is_approved(&self, account: &AccountId, approval_id: Option<u64>) -> (r: bool)
        requires
            self.wf(),
        ensures
            r == approved(self@, account@, approval_id),
    {
        match self.approved_account_ids.get(account) {
            Some(held) => match approval_id {
                Some(expected) => *held == expected,
                None => true,
            },
            None => false,
        }
    }

    /// Whether a caller may move the token.
    pub fn may_transfer(&self, caller: &AccountId, approval_id: Option<u64>) -> (r: bool)
        requires
            self.wf(),
        ensures
            r == may_transfer(self@, caller@, approval_id),
    {
        caller.same(&self.owner_id) || self.is_approved(caller, approval_id)
    }

    /// Approves an account under the next identifier and hands that
    /// identifier back.
    pub fn approve(&mut self, grantee: AccountId) -> (id: u64)
        requires
            old(self).wf(),
            old(self)@.next_approval_id < u64::MAX,
        ensures
            final(self).wf(),
            final(self)@ == approve_step(old(self)@, grantee@),
            id == old(self)@.next_approval_id,
    {
        let id: u64 = self.next_approval_id;
        self.approved_account_ids.insert(grantee, id);
        self.next_approval_id = id + 1;
        id
    }

    /// Revokes an account's approval; says whether it held one.
    pub fn revoke(&mut self, grantee: &AccountId) -> (held: bool)
        requires
            old(self).wf(),
        ensures
            final(self).wf(),
            final(self)@ == revoke_step(old(self)@, grantee@),
            held == old(self)@.approvals.contains_key(grantee@),
    {
        self.approved_account_ids.remove(grantee).is_some()
    }

    /// Revokes every approval.
    pub fn revoke_all(&mut self)
        requires
            old(self).wf(),
        ensures
            final(self).wf(),
            final(self)@ == revoke_all_step(old(self)@),
    {
        self.approved_account_ids.clear();
    }

    /// Hands the token to a new owner and clears every approval; gives back
    /// the previous owner.
    pub fn transfer_to(&mut self, receiver_id: AccountId) -> (previous: AccountId)
        requires
            old(self).wf(),
        ensures
            final(self).wf(),
            final(self)@ == transfer_step(old(self)@, receiver_id@),
            previous@ == old(self)@.owner,
    {
        let previous = self.owner_id.clone();
        self.owner_id = receiver_id;
        self.approved_account_ids.clear();
        previous
    }

    /// Rebuilds a record from its parts, unless an approval among them
    /// carries an identifier that the counter has not issued yet.
    pub fn restore(
        owner_id: AccountId,
        approved_account_ids: AccountMap<u64>,
        next_approval_id: u64,
        royalty: RoyaltyTable,
    ) -> (result: Option<Token>)
        requires
            approved_account_ids.wf(),
            royalty.wf(),
        ensures
            match result {
                Some(token) => {
                    &&& token.wf()
                    &&& token@ == (TokenView {
                        owner: owner_id@,
                        approvals: approved_account_ids@,
                        next_approval_id,
                        royalty: royalty@,
                    })
                },
                None => exists|a: Seq<char>|
                    approved_account_ids@.contains_key(a) && approved_account_ids@[a]
                        >= next_approval_id,
            },
    {
        let n: usize = approved_account_ids.len();
        let mut i: usize = 0;
        while i < n
            invariant
                approved_account_ids.wf(),
                n == approved_account_ids.entries().len(),
                i <= n,
                forall|k: int| 0 <= k < i ==> approved_account_ids.entries()[k].value < next_approval_id,
            decreases n - i,
        {
            if approved_account_ids.entry(i).value >= next_approval_id {
                proof {
                    approved_account_ids.lemma_entry_in_view(i as int);
                }
                return None;
            }
            i += 1;
        }
        proof {
            assert forall|a: Seq<char>| #[trigger]
                approved_account_ids@.contains_key(a) implies approved_account_ids@[a]
                < next_approval_id by {
                approved_account_ids.lemma_view_in_entries(a);
            }
        }
        Some(Token { owner_id, approved_account_ids, next_approval_id, royalty })
    }
}

} // verus!
