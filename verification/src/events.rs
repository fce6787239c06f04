//! Event records: what each state-changing operation reports for indexers.

use crate::account::{optional_account, AccountId};
use vstd::prelude::*;

verus! {

/// Name of the standard that the token ledger's events follow.
pub const NFT_STANDARD_NAME: &'static str = "nep171";

/// Version of the metadata standard; events carry it as their version.
pub const NFT_METADATA_SPEC: &'static str = "1.0.0";

/// Name of the standard that the marketplace's events follow.
pub const MARKET_STANDARD_NAME: &'static str = "nft_market";

/// The operation that an event reports.
#[derive(Clone, Copy, Debug, PartialEq, Eq)]
pub enum Operation {
    Mint,
    Transfer,
    Approve,
    Revoke,
    RevokeAll,
    StorageDeposit,
    List,
    Unlist,
    Purchase,
    Settle,
    Revert,
}

/// An event record: standard name, version, operation tag and payload.
///
/// The payload names the token, the account that the operation acted for,
/// the other account involved, the account that acted under an approval, and
/// an amount or approval identifier, each where the operation has one.
#[derive(Debug, PartialEq, Eq)]
pub struct EventLog {
    pub standard: String,
    pub version: String,
    pub operation: Operation,
    pub token_id: Option<u64>,
    pub account_id: AccountId,
    pub other_id: Option<AccountId>,
    pub authorized_id: Option<AccountId>,
    pub amount: Option<u128>,
}

/// An event record as a mathematical value.
pub struct EventRecord {
    pub standard: Seq<char>,
    pub version: Seq<char>,
    pub operation: Operation,
    pub token_id: Option<u64>,
    pub account: Seq<char>,
    pub other: Option<Seq<char>>,
    pub authorized: Option<Seq<char>>,
    pub amount: Option<u128>,
}

impl View for EventLog {
    type V = EventRecord;

    open spec fn view(&self) -> EventRecord {
        EventRecord {
            standard: self.standard@,
            version: self.version@,
            operation: self.operation,
            token_id: self.token_id,
            account: self.account_id@,
            other: optional_account(self.other_id),
            authorized: optional_account(self.authorized_id),
            amount: self.amount,
        }
    }
}

/// The record of a token ledger event.
pub open spec fn ledger_event(
    operation: Operation,
    token_id: u64,
    account: Seq<char>,
    other: Option<Seq<char>>,
    authorized: Option<Seq<char>>,
    amount: Option<u128>,
) -> EventRecord {
    EventRecord {
        standard: NFT_STANDARD_NAME@,
        version: NFT_METADATA_SPEC@,
        operation,
        token_id: Some(token_id),
        account,
        other,
        authorized,
        amount,
    }
}

/// The record of a marketplace event.
pub open spec fn market_event(
    operation: Operation,
    token_id: Option<u64>,
    account: Seq<char>,
    other: Option<Seq<char>>,
    amount: Option<u128>,
) -> EventRecord {
    EventRecord {
        standard: MARKET_STANDARD_NAME@,
        version: NFT_METADATA_SPEC@,
        operation,
        token_id,
        account,
        other,
        authorized: None,
        amount,
    }
}

impl EventLog {
    /// Writes the record of a token ledger event.
    pub fn ledger(
        operation: Operation,
        token_id: u64,
        account_id: AccountId,
        other_id: Option<AccountId>,
        authorized_id: Option<AccountId>,
        amount: Option<u128>,
    ) -> (log: EventLog)
        ensures
            log@ == ledger_event(
                operation,
                token_id,
                account_id@,
                optional_account(other_id),
                optional_account(authorized_id),
                amount,
            ),
    {
        EventLog {
            standard: NFT_STANDARD_NAME.to_owned(),
            version: NFT_METADATA_SPEC.to_owned(),
            operation,
            token_id: Some(token_id),
            account_id,
            other_id,
            authorized_id,
            amount,
        }
    }

    /// Writes the record of a marketplace event.
    pub fn market(
        operation: Operation,
        token_id: Option<u64>,
        account_id: AccountId,
        other_id: Option<AccountId>,
        amount: Option<u128>,
    ) -> (log: EventLog)
        ensures
            log@ == market_event(operation, token_id, account_id@, optional_account(other_id), amount),
    {
        EventLog {
            standard: MARKET_STANDARD_NAME.to_owned(),
            version: NFT_METADATA_SPEC.to_owned(),
            operation,
            token_id,
            account_id,
            other_id,
            authorized_id: None,
            amount,
        }
    }
}

} // verus!
