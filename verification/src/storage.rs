//! Storage rent: what a call owes for the persistent bytes it adds.

use vstd::prelude::*;

verus! {

/// Price of one byte of persistent storage, in the smallest currency unit.
pub open spec fn byte_cost() -> nat {
    10_000_000_000_000_000_000
}

/// Bytes that a call added to persistent storage, given the usage measured
/// just before and just after its writes. A call that freed storage added none.
pub open spec fn bytes_added(usage_before: u64, usage_after: u64) -> nat {
    if usage_after >= usage_before {
        (usage_after - usage_before) as nat
    } else {
        0
    }
}

/// Rent owed for the bytes that a call added.
pub open spec fn rent_due(usage_before: u64, usage_after: u64) -> nat {
    bytes_added(usage_before, usage_after) * byte_cost()
}

/// What the accountant reports about a call that paid enough.
#[derive(Clone, Copy, Debug, PartialEq, Eq)]
pub struct StorageReceipt {
    /// Rent charged for the added bytes.
    pub rent: u128,
    /// Part of the attached payment that goes back to the caller.
    pub refund: u128,
}

/// The attached payment does not cover the price plus the rent.
#[derive(Clone, Copy, Debug, PartialEq, Eq)]
pub struct InsufficientStorageDeposit {
    /// Rent charged for the added bytes.
    pub rent: u128,
}

/// Calls `near_sdk::env::storage_byte_cost`, which returns the fixed price
/// per byte of storage, ten to the nineteenth units.
#[verifier::external_body]
fn host_byte_cost() -> (cost: u128)
    ensures
        cost == byte_cost(),
{
    near_sdk::env::storage_byte_cost()
}

/// Rent owed for the storage added between two usage measurements.
pub fn storage_rent(usage_before: u64, usage_after: u64) -> (rent: u128)
    ensures
        rent == rent_due(usage_before, usage_after),
{
    let added: u64 = if usage_after >= usage_before {
        usage_after - usage_before
    } else {
        0
    };
    let cost: u128 = host_byte_cost();
    assert(added * cost <= u128::MAX) by (nonlinear_arith)
        requires
            added <= u64::MAX,
            cost == 10_000_000_000_000_000_000u128,
    ;
    (added as u128) * cost
}

/// Charges a call for the storage it added on top of the price it owes.
///
/// The call is covered when the attached payment is at least the price plus
/// the rent; whatever was attached beyond that is the refund.
pub fn settle_storage(
    usage_before: u64,
    usage_after: u64,
    price_due: u128,
    attached: u128,
) -> (result: Result<StorageReceipt, InsufficientStorageDeposit>)
    ensures
        match result {
            Ok(receipt) => {
                &&& price_due + rent_due(usage_before, usage_after) <= attached
                &&& receipt.rent == rent_due(usage_before, usage_after)
                &&& receipt.refund == attached - price_due - rent_due(usage_before, usage_after)
            },
            Err(e) => {
                &&& price_due + rent_due(usage_before, usage_after) > attached
                &&& e.rent == rent_due(usage_before, usage_after)
            },
        },
{
    let rent: u128 = storage_rent(usage_before, usage_after);
    if attached >= price_due && attached - price_due >= rent {
        Ok(StorageReceipt { rent, refund: attached - price_due - rent })
    } else {
        Err(InsufficientStorageDeposit { rent })
    }
}

} // verus!
