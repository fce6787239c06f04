//! Account identifiers.

use vstd::prelude::*;

verus! {

/// The name of an account on the host ledger.
#[derive(Debug, PartialEq, Eq)]
pub struct AccountId {
    name: String,
}

impl View for AccountId {
    type V = Seq<char>;

    closed spec fn view(&self) -> Seq<char> {
        self.name@
    }
}

impl AccountId {
    /// Wraps an account name.
    pub fn new(name: String) -> (id: AccountId)
        ensures
            id@ == name@,
    {
        AccountId { name }
    }

    /// The account name as text.
    pub fn as_str(&self) -> (s: &str)
        ensures
            s@ == self@,
    {
        self.name.as_str()
    }

    /// Whether two identifiers name the same account.
    pub fn same(&self, other: &AccountId) -> (r: bool)
        ensures
            r == (self@ == other@),
    {
        self.name == other.name
    }
}

impl Clone for AccountId {
    fn clone(&self) -> (id: AccountId)
        ensures
            id@ == self@,
    {
        AccountId { name: self.name.clone() }
    }
}

/// The name behind an account that may be absent.
pub open spec fn optional_account(account: Option<AccountId>) -> Option<Seq<char>> {
    match account {
        Some(id) => Some(id@),
        None => None,
    }
}

/// The characters of a text that may be absent.
pub open spec fn optional_text(text: Option<String>) -> Option<Seq<char>> {
    match text {
        Some(t) => Some(t@),
        None => None,
    }
}

/// What a call carries from the host: who made it, the payment attached to
/// it, and the time of the block it runs in.
#[derive(Debug)]
pub struct CallContext {
    pub predecessor_id: AccountId,
    pub attached_deposit: u128,
    pub block_timestamp: u64,
}

/// An instruction to move currency to an account.
#[derive(Debug, PartialEq, Eq)]
pub struct Transfer {
    pub receiver_id: AccountId,
    pub amount: u128,
}

/// An instruction to move currency, as a mathematical value.
pub struct Payment {
    pub receiver: Seq<char>,
    pub amount: nat,
}

impl View for Transfer {
    type V = Payment;

    open spec fn view(&self) -> Payment {
        Payment { receiver: self.receiver_id@, amount: self.amount as nat }
    }
}

/// The payment behind an instruction that may be absent.
pub open spec fn optional_payment(transfer: Option<Transfer>) -> Option<Payment> {
    match transfer {
        Some(t) => Some(t@),
        None => None,
    }
}

} // verus!
