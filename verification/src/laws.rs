//! Laws that relate the operations of the ledger and of the marketplace.

use crate::account::Payment;
use crate::ledger::{mint_error, minted, with_token, LedgerView};
use crate::market::{payments_of, payments_view, purchase_error, purchasing, settlement_of, unlist_error, unlist_step, MarketError, MarketView, Settlement, Settling};
use crate::royalty::{total_due, Due};
use crate::token::{approve_step, approved, may_transfer, revoke_all_step, revoke_step, transfer_step, TokenView};
use vstd::prelude::*;

verus! {

/// Every mint that is accepted adds exactly one token, and the supply does
/// not exceed the cap afterwards.
pub proof fn lemma_mint_adds_one_token(
    ledger: LedgerView,
    caller: Seq<char>,
    receiver: Seq<char>,
    attached: u128,
    now: u64,
    usage_before: u64,
    usage_after: u64,
)
    requires
        mint_error(ledger, caller, attached, now, usage_before, usage_after) is None,
    ensures
        minted(ledger, receiver).tokens.len() == ledger.tokens.len() + 1,
        minted(ledger, receiver).tokens.len() <= ledger.max_supply,
        minted(ledger, receiver).tokens.last().owner == receiver,
{
}

/// No mint is accepted once the supply has reached the cap.
pub proof fn lemma_no_mint_beyond_cap(
    ledger: LedgerView,
    caller: Seq<char>,
    attached: u128,
    now: u64,
    usage_before: u64,
    usage_after: u64,
)
    requires
        ledger.tokens.len() >= ledger.max_supply,
    ensures
        mint_error(ledger, caller, attached, now, usage_before, usage_after) == Some(
            crate::ledger::LedgerError::SupplyExhausted,
        ),
{
}

/// A transfer leaves no approval behind: whoever was approved before, under
/// whatever identifier, is approved no longer, and only the new owner may
/// move the token.
pub proof fn lemma_transfer_clears_approvals(
    token: TokenView,
    receiver: Seq<char>,
    account: Seq<char>,
    approval_id: Option<u64>,
)
    ensures
        !approved(transfer_step(token, receiver), account, approval_id),
        may_transfer(transfer_step(token, receiver), account, approval_id) <==> account == receiver,
        transfer_step(token, receiver).owner == receiver,
{
}

/// Once an approval is revoked, the account is not approved, under any
/// identifier or none: so after an approval and its revocation, and so when
/// every approval is revoked.
pub proof fn lemma_revoke_ends_approval(
    token: TokenView,
    grantee: Seq<char>,
    approval_id: Option<u64>,
)
    ensures
        !approved(revoke_step(token, grantee), grantee, approval_id),
        !approved(revoke_step(approve_step(token, grantee), grantee), grantee, approval_id),
        !approved(revoke_all_step(approve_step(token, grantee)), grantee, approval_id),
{
}

/// On the ledger: after the owner approved an account for a token and then
/// revoked it, the account is not approved for that token.
pub proof fn lemma_approve_then_revoke(
    ledger: LedgerView,
    token_id: u64,
    grantee: Seq<char>,
    approval_id: Option<u64>,
)
    requires
        token_id < ledger.tokens.len(),
    ensures
        ({
            let granted = with_token(
                ledger,
                token_id,
                approve_step(ledger.tokens[token_id as int], grantee),
            );
            let revoked = with_token(
                granted,
                token_id,
                revoke_step(granted.tokens[token_id as int], grantee),
            );
            !approved(revoked.tokens[token_id as int], grantee, approval_id)
        }),
{
}

/// An approval that is granted anew gets a new identifier: the identifier
/// that the account held before opens nothing any more.
pub proof fn lemma_reapproval_invalidates(token: TokenView, grantee: Seq<char>)
    requires
        token.next_approval_id < u64::MAX - 1,
    ensures
        ({
            let first = approve_step(token, grantee);
            let second = approve_step(first, grantee);
            &&& approved(first, grantee, Some(token.next_approval_id))
            &&& !approved(second, grantee, Some(token.next_approval_id))
            &&& approved(second, grantee, Some(first.next_approval_id))
        }),
{
}

/// Sum of the amounts of a sequence of payments.
pub open spec fn total_paid(payments: Seq<Payment>) -> nat
    decreases payments.len(),
{
    if payments.len() == 0 {
        0
    } else {
        total_paid(payments.drop_last()) + payments.last().amount
    }
}

/// The payments that a payout table asks for add up to what the table asks
/// for.
pub proof fn lemma_payments_add_up(dues: Seq<Due>)
    ensures
        total_paid(payments_of(dues)) == total_due(dues),
    decreases dues.len(),
{
    if dues.len() > 0 {
        lemma_payments_add_up(dues.drop_last());
        assert(payments_of(dues).drop_last() =~= payments_of(dues.drop_last()));
    }
}

/// Whatever the ledger's result, a purchase that ends moves exactly the
/// price: to the beneficiaries and the seller when it settles, back to the
/// buyer when it does not.
pub proof fn lemma_settlement_moves_price(
    settlement: Settlement,
    purchase: Settling,
    outcome: Option<Seq<Due>>,
)
    requires
        settlement_of(settlement, purchase, outcome),
    ensures
        match settlement {
            Settlement::Settled { payouts, seller_payment, .. } => total_paid(
                payments_view(payouts@),
            ) + seller_payment.amount == purchase.price,
            Settlement::Reverted { refund, .. } => refund.amount == purchase.price
                && refund.receiver_id@ == purchase.buyer,
        },
{
    match settlement {
        Settlement::Settled { payouts, seller_payment, .. } => {
            lemma_payments_add_up(outcome->0);
        },
        Settlement::Reverted { .. } => {},
    }
}

/// A purchase that has started locks its token: until the token is listed
/// anew, every further purchase of it is refused as not listed, whatever
/// payment comes with it. The purchase itself awaits its result under the
/// identifier it was given.
pub proof fn lemma_purchase_locks_listing(
    market: MarketView,
    token_id: u64,
    buyer: Seq<char>,
    attached: u128,
    later_payment: u128,
)
    requires
        purchase_error(market, token_id, attached) is None,
    ensures
        purchase_error(purchasing(market, token_id, buyer), token_id, later_payment) == Some(
            MarketError::NotListed,
        ),
        purchasing(market, token_id, buyer).pending.contains_key(market.next_purchase_id),
        purchasing(market, token_id, buyer).pending[market.next_purchase_id].price == attached,
        purchasing(market, token_id, buyer).pending[market.next_purchase_id].buyer == buyer,
{
}

/// Taking a listing down twice is the same as taking it down once: the
/// second call changes nothing, and after an accepted first call the second
/// is accepted too.
pub proof fn lemma_unlist_twice(market: MarketView, caller: Seq<char>, token_id: u64)
    ensures
        unlist_step(unlist_step(market, caller, token_id), caller, token_id) == unlist_step(
            market,
            caller,
            token_id,
        ),
        unlist_error(market, caller, token_id) is None ==> unlist_error(
            unlist_step(market, caller, token_id),
            caller,
            token_id,
        ) is None,
{
    let once = unlist_step(market, caller, token_id);
    let twice = unlist_step(once, caller, token_id);
    if unlist_error(market, caller, token_id) is None {
        assert(once.listings.remove(token_id) =~= once.listings);
    }
}

} // verus!
