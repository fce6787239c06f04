//! The marketplace: prepaid storage balances, sale listings and the two
//! steps of a purchase.

use crate::account::{AccountId, CallContext, Payment, Transfer};
use crate::account_map::AccountMap;
use crate::events::{market_event, EventLog, Operation};
use crate::royalty::{acceptable_dues, total_due, Due, Payout};
use crate::storage::{byte_cost, storage_rent};
use std::collections::HashMap;
use vstd::prelude::*;
use vstd::std_specs::hash::*;

verus! {

broadcast use vstd::std_specs::hash::group_hash_axioms;

/// Bytes of persistent storage that one listing is charged for.
pub const LISTING_BYTES: u64 = 1000;

/// Rent that one listing costs its seller.
pub open spec fn listing_rent() -> nat {
    LISTING_BYTES as nat * byte_cost()
}

/// Why the marketplace refuses a call.
#[derive(Clone, Copy, Debug, PartialEq, Eq)]
pub enum MarketError {
    /// The seller's storage balance does not cover one listing.
    NoStorageCredit,
    /// The sale terms did not come from the token ledger, so they prove no
    /// approval.
    NotApproved,
    /// The caller is not the seller of the listing.
    NotSeller,
    /// The token is not listed.
    NotListed,
    /// The attached payment is not the listing's price.
    PriceMismatch,
    /// The storage balance would exceed what an amount can hold.
    BalanceOverflow,
    /// The purchase identifiers are used up.
    PurchaseIdsExhausted,
    /// No purchase with this identifier awaits its result.
    UnknownPurchase,
}

/// A sale listing.
#[derive(Debug, PartialEq, Eq)]
pub struct Listing {
    pub token_id: u64,
    pub seller_id: AccountId,
    pub approval_id: u64,
    pub price: u128,
}

/// A sale listing as a mathematical value.
pub struct Offer {
    pub token_id: u64,
    pub seller: Seq<char>,
    pub approval_id: u64,
    pub price: u128,
}

impl View for Listing {
    type V = Offer;

    open spec fn view(&self) -> Offer {
        Offer {
            token_id: self.token_id,
            seller: self.seller_id@,
            approval_id: self.approval_id,
            price: self.price,
        }
    }
}

/// A purchase whose payment was taken and whose transfer is under way.
#[derive(Debug, PartialEq, Eq)]
pub struct PendingPurchase {
    pub purchase_id: u64,
    pub token_id: u64,
    pub buyer_id: AccountId,
    pub seller_id: AccountId,
    pub approval_id: u64,
    pub price: u128,
}

/// A purchase under way, as a mathematical value.
pub struct Settling {
    pub purchase_id: u64,
    pub token_id: u64,
    pub buyer: Seq<char>,
    pub seller: Seq<char>,
    pub approval_id: u64,
    pub price: u128,
}

impl View for PendingPurchase {
    type V = Settling;

    open spec fn view(&self) -> Settling {
        Settling {
            purchase_id: self.purchase_id,
            token_id: self.token_id,
            buyer: self.buyer_id@,
            seller: self.seller_id@,
            approval_id: self.approval_id,
            price: self.price,
        }
    }
}

impl Clone for PendingPurchase {
    fn clone(&self) -> (copy: PendingPurchase)
        ensures
            copy@ == self@,
    {
        PendingPurchase {
            purchase_id: self.purchase_id,
            token_id: self.token_id,
            buyer_id: self.buyer_id.clone(),
            seller_id: self.seller_id.clone(),
            approval_id: self.approval_id,
            price: self.price,
        }
    }
}

/// What the marketplace hands back when a purchase starts.
#[derive(Debug, PartialEq, Eq)]
pub struct PurchaseReceipt {
    /// The transfer to ask of the token ledger, and the identifier under
    /// which its result is awaited.
    pub request: PendingPurchase,
    /// The event to log.
    pub event: EventLog,
}

/// How a purchase ended.
#[derive(Debug, PartialEq, Eq)]
pub enum Settlement {
    /// The token went to the buyer: the price goes to the beneficiaries and
    /// the seller.
    Settled { payouts: Vec<Transfer>, seller_payment: Transfer, event: EventLog },
    /// The token did not go to the buyer: the price goes back to the buyer.
    Reverted { refund: Transfer, event: EventLog },
}

/// The marketplace.
pub struct Marketplace {
    owner_id: AccountId,
    ledger_id: AccountId,
    storage_deposits: AccountMap<u128>,
    listings: HashMap<u64, Listing>,
    pending: HashMap<u64, PendingPurchase>,
    next_purchase_id: u64,
}

/// The marketplace as a mathematical value.
pub struct MarketView {
    /// The account that owns the marketplace.
    pub owner: Seq<char>,
    /// The token ledger whose tokens are sold here.
    pub ledger: Seq<char>,
    /// The prepaid storage balance of each account that has one.
    pub balances: Map<Seq<char>, u128>,
    /// The listings, by token number.
    pub listings: Map<u64, Offer>,
    /// The purchases under way, by purchase identifier.
    pub pending: Map<u64, Settling>,
    /// The identifier that the next purchase will get.
    pub next_purchase_id: u64,
}

impl View for Marketplace {
    type V = MarketView;

    closed spec fn view(&self) -> MarketView {
        MarketView {
            owner: self.owner_id@,
            ledger: self.ledger_id@,
            balances: self.storage_deposits@,
            listings: self.listings@.map_values(|l: Listing| l@),
            pending: self.pending@.map_values(|p: PendingPurchase| p@),
            next_purchase_id: self.next_purchase_id,
        }
    }
}

/// The storage balance of an account; nothing for an account without one.
pub open spec fn balance_of(market: MarketView, account: Seq<char>) -> nat {
    if market.balances.contains_key(account) {
        market.balances[account] as nat
    } else {
        0
    }
}

/// The error, if any, with which a listing is refused.
pub open spec fn list_error(market: MarketView, caller: Seq<char>, seller: Seq<char>) -> Option<
    MarketError,
> {
    if caller != market.ledger {
        Some(MarketError::NotApproved)
    } else if balance_of(market, seller) < listing_rent() {
        Some(MarketError::NoStorageCredit)
    } else {
        None
    }
}

/// The marketplace after a listing: the seller has paid the rent of one
/// listing, and the token is listed on the new terms.
pub open spec fn listed(market: MarketView, offer: Offer) -> MarketView {
    MarketView {
        balances: market.balances.insert(
            offer.seller,
            (balance_of(market, offer.seller) - listing_rent()) as u128,
        ),
        listings: market.listings.insert(offer.token_id, offer),
        ..market
    }
}

/// The error, if any, with which taking a listing down is refused.
pub open spec fn unlist_error(market: MarketView, caller: Seq<char>, token_id: u64) -> Option<
    MarketError,
> {
    if market.listings.contains_key(token_id) && market.listings[token_id].seller != caller {
        Some(MarketError::NotSeller)
    } else {
        None
    }
}

/// The marketplace after a call to take a listing down: the listing is gone
/// if the call was accepted, and nothing has changed if it was refused.
pub open spec fn unlist_step(market: MarketView, caller: Seq<char>, token_id: u64) -> MarketView {
    if unlist_error(market, caller, token_id) is None {
        MarketView { listings: market.listings.remove(token_id), ..market }
    } else {
        market
    }
}

/// The error, if any, with which a purchase is refused.
pub open spec fn purchase_error(market: MarketView, token_id: u64, attached: u128) -> Option<
    MarketError,
> {
    if !market.listings.contains_key(token_id) {
        Some(MarketError::NotListed)
    } else if attached != market.listings[token_id].price {
        Some(MarketError::PriceMismatch)
    } else if market.next_purchase_id == u64::MAX {
        Some(MarketError::PurchaseIdsExhausted)
    } else {
        None
    }
}

/// The purchase that starts when a buyer takes a listing.
pub open spec fn started(market: MarketView, token_id: u64, buyer: Seq<char>) -> Settling {
    Settling {
        purchase_id: market.next_purchase_id,
        token_id,
        buyer,
        seller: market.listings[token_id].seller,
        approval_id: market.listings[token_id].approval_id,
        price: market.listings[token_id].price,
    }
}

/// The marketplace after a purchase started: the listing is gone and the
/// purchase awaits its result.
pub open spec fn purchasing(market: MarketView, token_id: u64, buyer: Seq<char>) -> MarketView {
    MarketView {
        listings: market.listings.remove(token_id),
        pending: market.pending.insert(market.next_purchase_id, started(market, token_id, buyer)),
        next_purchase_id: (market.next_purchase_id + 1) as u64,
        ..market
    }
}

/// The payments that a payout table asks for, line by line.
pub open spec fn payments_of(dues: Seq<Due>) -> Seq<Payment> {
    Seq::new(dues.len(), |i: int| Payment { receiver: dues[i].account, amount: dues[i].amount })
}

/// The views of a sequence of transfers.
pub open spec fn payments_view(transfers: Seq<Transfer>) -> Seq<Payment> {
    Seq::new(transfers.len(), |i: int| transfers[i]@)
}

/// The payout table behind a result of the token ledger; none stands for a
/// refused transfer.
pub open spec fn optional_dues(outcome: Option<Payout>) -> Option<Seq<Due>> {
    match outcome {
        Some(p) => Some(p.dues()),
        None => None,
    }
}

/// Whether a purchase settles: the ledger moved the token and handed back a
/// payout table that can be honoured out of the price.
pub open spec fn settles(purchase: Settling, outcome: Option<Seq<Due>>) -> bool {
    outcome matches Some(dues) && acceptable_dues(dues, purchase.price as nat)
}

/// What a purchase ends in, given the ledger's result.
///
/// A purchase that settles pays each beneficiary what the payout table
/// names, in the table's order, and the seller the rest of the price. Any
/// other purchase gives the whole price back to the buyer.
pub open spec fn settlement_of(
    settlement: Settlement,
    purchase: Settling,
    outcome: Option<Seq<Due>>,
) -> bool {
    match settlement {
        Settlement::Settled { payouts, seller_payment, event } => {
            &&& settles(purchase, outcome)
            &&& payments_view(payouts@) == payments_of(outcome->0)
            &&& seller_payment@ == (Payment {
                receiver: purchase.seller,
                amount: (purchase.price - total_due(outcome->0)) as nat,
            })
            &&& event@ == market_event(
                Operation::Settle,
                Some(purchase.token_id),
                purchase.buyer,
                Some(purchase.seller),
                Some(purchase.price),
            )
        },
        Settlement::Reverted { refund, event } => {
            &&& !settles(purchase, outcome)
            &&& refund@ == (Payment { receiver: purchase.buyer, amount: purchase.price as nat })
            &&& event@ == market_event(
                Operation::Revert,
                Some(purchase.token_id),
                purchase.buyer,
                Some(purchase.seller),
                Some(purchase.price),
            )
        },
    }
}

impl Marketplace {
    /// The marketplace is well formed when its balances are, each listing
    /// stands under its own token, and each purchase under way stands under
    /// its own identifier, which was issued before the counter's value.
    pub closed spec fn wf(&self) -> bool {
        &&& self.storage_deposits.wf()
        &&& forall|t: u64| #[trigger]
            self.listings@.contains_key(t) ==> self.listings@[t].token_id == t
        &&& forall|p: u64| #[trigger]
            self.pending@.contains_key(p) ==> self.pending@[p].purchase_id == p && p
                < self.next_purchase_id
    }

    /// What holds of every well formed marketplace.
    pub proof fn lemma_wf(&self)
        requires
            self.wf(),
        ensures
            forall|t: u64| #[trigger]
                self@.listings.contains_key(t) ==> self@.listings[t].token_id == t,
            forall|p: u64| #[trigger]
                self@.pending.contains_key(p) ==> self@.pending[p].purchase_id == p && p
                    < self@.next_purchase_id,
    {
    }

    /// Sets up a marketplace for the tokens of one ledger.
    pub fn new(owner_id: AccountId, ledger_id: AccountId) -> (market: Marketplace)
        ensures
            market.wf(),
            market@ == (MarketView {
                owner: owner_id@,
                ledger: ledger_id@,
                balances: Map::empty(),
                listings: Map::empty(),
                pending: Map::empty(),
                next_purchase_id: 0,
            }),
    {
        let market = Marketplace {
            owner_id,
            ledger_id,
            storage_deposits: AccountMap::new(),
            listings: HashMap::new(),
            pending: HashMap::new(),
            next_purchase_id: 0,
        };
        assert(market@.listings =~= Map::empty());
        assert(market@.pending =~= Map::empty());
        market
    }

    /// The account that owns the marketplace.
    pub fn owner_id(&self) -> (owner: &AccountId)
        ensures
            owner@ == self@.owner,
    {
        &self.owner_id
    }

    /// The token ledger whose tokens are sold here.
    pub fn ledger_id(&self) -> (ledger: &AccountId)
        ensures
            ledger@ == self@.ledger,
    {
        &self.ledger_id
    }

    /// The identifier that the next purchase will get.
    pub fn next_purchase_id(&self) -> (id: u64)
        ensures
            id == self@.next_purchase_id,
    {
        self.next_purchase_id
    }

    /// The storage balances, as stored.
    pub fn storage_deposits(&self) -> (store: &AccountMap<u128>)
        ensures
            store@ == self@.balances,
            self.wf() ==> store.wf(),
    {
        &self.storage_deposits
    }

    /// The listings, as stored.
    pub fn listings(&self) -> (store: &HashMap<u64, Listing>)
        ensures
            store@.map_values(|l: Listing| l@) == self@.listings,
    {
        &self.listings
    }

    /// The purchases under way, as stored.
    pub fn pending(&self) -> (store: &HashMap<u64, PendingPurchase>)
        ensures
            store@.map_values(|p: PendingPurchase| p@) == self@.pending,
    {
        &self.pending
    }

    /// Rebuilds a marketplace from its records, unless two listings stand
    /// for one token, two purchases carry one identifier, or a purchase
    /// carries an identifier that the counter has not issued yet.
    pub fn restore(
        owner_id: AccountId,
        ledger_id: AccountId,
        storage_deposits: AccountMap<u128>,
        listings: Vec<Listing>,
        pending: Vec<PendingPurchase>,
        next_purchase_id: u64,
    ) -> (result: Option<Marketplace>)
        requires
            storage_deposits.wf(),
        ensures
            match result {
                Some(market) => {
                    &&& market.wf()
                    &&& market@.owner == owner_id@
                    &&& market@.ledger == ledger_id@
                    &&& market@.balances == storage_deposits@
                    &&& market@.next_purchase_id == next_purchase_id
                    &&& forall|i: int|
                        0 <= i < listings@.len() ==> market@.listings.contains_key(
                            (#[trigger] listings@[i]).token_id,
                        ) && market@.listings[listings@[i].token_id] == listings@[i]@
                    &&& forall|t: u64| #[trigger]
                        market@.listings.contains_key(t) ==> exists|i: int|
                            0 <= i < listings@.len() && (#[trigger] listings@[i]).token_id == t
                    &&& forall|i: int|
                        0 <= i < pending@.len() ==> market@.pending.contains_key(
                            (#[trigger] pending@[i]).purchase_id,
                        ) && market@.pending[pending@[i].purchase_id] == pending@[i]@
                    &&& forall|p: u64| #[trigger]
                        market@.pending.contains_key(p) ==> exists|i: int|
                            0 <= i < pending@.len() && (#[trigger] pending@[i]).purchase_id == p
                },
                None => {
                    ||| exists|i: int, j: int|
                        0 <= i < j < listings@.len() && (#[trigger] listings@[i]).token_id == (
                        #[trigger] listings@[j]).token_id
                    ||| exists|i: int, j: int|
                        0 <= i < j < pending@.len() && (#[trigger] pending@[i]).purchase_id == (
                        #[trigger] pending@[j]).purchase_id
                    ||| exists|i: int|
                        0 <= i < pending@.len() && (#[trigger] pending@[i]).purchase_id
                            >= next_purchase_id
                },
            },
    {
        let ghost all_listings = listings@;
        let ghost all_pending = pending@;
        let mut left = listings;
        let mut waiting = pending;
        let mut listed: HashMap<u64, Listing> = HashMap::new();
        while left.len() > 0
            invariant
                all_listings == listings@,
                left@.len() <= all_listings.len(),
                left@ == all_listings.take(left@.len() as int),
                forall|t: u64| #[trigger] listed@.contains_key(t) ==> listed@[t].token_id == t,
                forall|i: int|
                    left@.len() <= i < all_listings.len() ==> listed@.contains_key(
                        (#[trigger] all_listings[i]).token_id,
                    ) && listed@[all_listings[i].token_id]@ == all_listings[i]@,
                forall|t: u64| #[trigger]
                    listed@.contains_key(t) ==> exists|i: int|
                        left@.len() <= i < all_listings.len() && (
                        #[trigger] all_listings[i]).token_id == t,
            decreases left@.len(),
        {
            let ghost rest = left@.len() - 1;
            let listing = left.pop().unwrap();
            assert(listing == all_listings[rest]);
            if listed.contains_key(&listing.token_id) {
                proof {
                    let j = choose|j: int|
                        rest < j < all_listings.len() && (#[trigger] all_listings[j]).token_id
                            == listing.token_id;
                    assert(all_listings[rest].token_id == all_listings[j].token_id);
                }
                return None;
            }
            let ghost before = listed@;
            listed.insert(listing.token_id, listing);
            proof {
                assert forall|t: u64| #[trigger] listed@.contains_key(t) implies exists|i: int|
                    rest <= i < all_listings.len() && (#[trigger] all_listings[i]).token_id
                        == t by {
                    if t != listing.token_id {
                        assert(before.contains_key(t));
                        let i = choose|i: int|
                            rest + 1 <= i < all_listings.len() && (
                            #[trigger] all_listings[i]).token_id == t;
                        assert(all_listings[i].token_id == t);
                    } else {
                        assert(all_listings[rest].token_id == t);
                    }
                }
            }
        }
        let mut awaited: HashMap<u64, PendingPurchase> = HashMap::new();
        while waiting.len() > 0
            invariant
                all_pending == pending@,
                waiting@.len() <= all_pending.len(),
                waiting@ == all_pending.take(waiting@.len() as int),
                forall|p: u64| #[trigger]
                    awaited@.contains_key(p) ==> awaited@[p].purchase_id == p && p
                        < next_purchase_id,
                forall|i: int|
                    waiting@.len() <= i < all_pending.len() ==> awaited@.contains_key(
                        (#[trigger] all_pending[i]).purchase_id,
                    ) && awaited@[all_pending[i].purchase_id]@ == all_pending[i]@,
                forall|p: u64| #[trigger]
                    awaited@.contains_key(p) ==> exists|i: int|
                        waiting@.len() <= i < all_pending.len() && (
                        #[trigger] all_pending[i]).purchase_id == p,
            decreases waiting@.len(),
        {
            let ghost rest = waiting@.len() - 1;
            let purchase = waiting.pop().unwrap();
            assert(purchase == all_pending[rest]);
            if purchase.purchase_id >= next_purchase_id {
                return None;
            }
            if awaited.contains_key(&purchase.purchase_id) {
                proof {
                    let j = choose|j: int|
                        rest < j < all_pending.len() && (#[trigger] all_pending[j]).purchase_id
                            == purchase.purchase_id;
                    assert(all_pending[rest].purchase_id == all_pending[j].purchase_id);
                }
                return None;
            }
            let ghost before = awaited@;
            awaited.insert(purchase.purchase_id, purchase);
            proof {
                assert forall|p: u64| #[trigger] awaited@.contains_key(p) implies exists|i: int|
                    rest <= i < all_pending.len() && (#[trigger] all_pending[i]).purchase_id
                        == p by {
                    if p != purchase.purchase_id {
                        assert(before.contains_key(p));
                        let i = choose|i: int|
                            rest + 1 <= i < all_pending.len() && (
                            #[trigger] all_pending[i]).purchase_id == p;
                        assert(all_pending[i].purchase_id == p);
                    } else {
                        assert(all_pending[rest].purchase_id == p);
                    }
                }
            }
        }
        Some(
            Marketplace {
                owner_id,
                ledger_id,
                storage_deposits,
                listings: listed,
                pending: awaited,
                next_purchase_id,
            },
        )
    }

    /// The storage balance of an account.
    pub fn storage_balance_of(&self, account_id: &AccountId) -> (balance: u128)
        requires
            self.wf(),
        ensures
            balance == balance_of(self@, account_id@),
    {
        match self.storage_deposits.get(account_id) {
            Some(b) => *b,
            None => 0,
        }
    }

    /// The listing of a token, if it is listed.
    pub fn listing(&self, token_id: u64) -> (found: Option<&Listing>)
        requires
            self.wf(),
        ensures
            match found {
                Some(l) => self@.listings.contains_key(token_id) && l@ == self@.listings[token_id],
                None => !self@.listings.contains_key(token_id),
            },
    {
        self.listings.get(&token_id)
    }

    /// The purchase under way with the given identifier, if there is one.
    pub fn pending_purchase(&self, purchase_id: u64) -> (found: Option<&PendingPurchase>)
        requires
            self.wf(),
        ensures
            match found {
                Some(p) => self@.pending.contains_key(purchase_id) && p@
                    == self@.pending[purchase_id],
                None => !self@.pending.contains_key(purchase_id),
            },
    {
        self.pending.get(&purchase_id)
    }

    /// Credits the attached payment to the caller's storage balance.
    pub fn deposit_storage(&mut self, ctx: &CallContext) -> (result: Result<EventLog, MarketError>)
        requires
            old(self).wf(),
        ensures
            final(self).wf(),
            match result {
                Ok(event) => {
                    &&& balance_of(old(self)@, ctx.predecessor_id@) + ctx.attached_deposit
                        <= u128::MAX
                    &&& final(self)@ == (MarketView {
                        balances: old(self)@.balances.insert(
                            ctx.predecessor_id@,
                            (balance_of(old(self)@, ctx.predecessor_id@)
                                + ctx.attached_deposit) as u128,
                        ),
                        ..old(self)@
                    })
                    &&& event@ == market_event(
                        Operation::StorageDeposit,
                        None,
                        ctx.predecessor_id@,
                        None,
                        Some(ctx.attached_deposit),
                    )
                },
                Err(e) => {
                    &&& balance_of(old(self)@, ctx.predecessor_id@) + ctx.attached_deposit
                        > u128::MAX
                    &&& e == MarketError::BalanceOverflow
                    &&& *final(self) == *old(self)
                },
            },
    {
        let balance: u128 = self.storage_balance_of(&ctx.predecessor_id);
        if ctx.attached_deposit > u128::MAX - balance {
            return Err(MarketError::BalanceOverflow);
        }
        self.storage_deposits.insert(ctx.predecessor_id.clone(), balance + ctx.attached_deposit);
        Ok(
            EventLog::market(
                Operation::StorageDeposit,
                None,
                ctx.predecessor_id.clone(),
                None,
                Some(ctx.attached_deposit),
            ),
        )
    }

    /// Lists a token for sale on the terms that its owner sent along with an
    /// approval of the marketplace.
    ///
    /// The call must come from the token ledger, which sends it only when
    /// the token's owner approves the marketplace: that is what shows the
    /// approval. The seller pays the rent of one listing out of its storage
    /// balance. A token that is listed already is listed anew.
    pub fn list_for_sale(
        &mut self,
        ctx: &CallContext,
        token_id: u64,
        seller_id: AccountId,
        approval_id: u64,
        price: u128,
    ) -> (result: Result<EventLog, MarketError>)
        requires
            old(self).wf(),
        ensures
            final(self).wf(),
            match result {
                Ok(event) => {
                    &&& list_error(old(self)@, ctx.predecessor_id@, seller_id@) is None
                    &&& final(self)@ == listed(
                        old(self)@,
                        Offer { token_id, seller: seller_id@, approval_id, price },
                    )
                    &&& event@ == market_event(
                        Operation::List,
                        Some(token_id),
                        seller_id@,
                        None,
                        Some(price),
                    )
                },
                Err(e) => {
                    &&& list_error(old(self)@, ctx.predecessor_id@, seller_id@) == Some(e)
                    &&& *final(self) == *old(self)
                },
            },
    {
        if !ctx.predecessor_id.same(&self.ledger_id) {
            return Err(MarketError::NotApproved);
        }
        let rent: u128 = storage_rent(0, LISTING_BYTES);
        let balance: u128 = self.storage_balance_of(&seller_id);
        if balance < rent {
            return Err(MarketError::NoStorageCredit);
        }
        let ghost before = *self;
        self.storage_deposits.insert(seller_id.clone(), balance - rent);
        self.listings.insert(
            token_id,
            Listing { token_id, seller_id: seller_id.clone(), approval_id, price },
        );
        proof {
            assert(self@.listings =~= before@.listings.insert(
                token_id,
                Offer { token_id, seller: seller_id@, approval_id, price },
            ));
        }
        Ok(EventLog::market(Operation::List, Some(token_id), seller_id, None, Some(price)))
    }

    /// Takes a token's listing down on behalf of its seller. Nothing changes
    /// if the token is not listed.
    pub fn unlist(&mut self, ctx: &CallContext, token_id: u64) -> (result: Result<
        Option<EventLog>,
        MarketError,
    >)
        requires
            old(self).wf(),
        ensures
            final(self).wf(),
            final(self)@ == unlist_step(old(self)@, ctx.predecessor_id@, token_id),
            match result {
                Ok(Some(event)) => {
                    &&& unlist_error(old(self)@, ctx.predecessor_id@, token_id) is None
                    &&& old(self)@.listings.contains_key(token_id)
                    &&& event@ == market_event(
                        Operation::Unlist,
                        Some(token_id),
                        ctx.predecessor_id@,
                        None,
                        Some(old(self)@.listings[token_id].price),
                    )
                },
                Ok(None) => {
                    &&& unlist_error(old(self)@, ctx.predecessor_id@, token_id) is None
                    &&& !old(self)@.listings.contains_key(token_id)
                    &&& *final(self) == *old(self)
                },
                Err(e) => {
                    &&& unlist_error(old(self)@, ctx.predecessor_id@, token_id) == Some(e)
                    &&& *final(self) == *old(self)
                },
            },
    {
        let ghost before = *self;
        let price: u128 = match self.listings.get(&token_id) {
            None => {
                proof {
                    assert(before@.listings.remove(token_id) =~= before@.listings);
                }
                return Ok(None);
            },
            Some(listing) => {
                if !listing.seller_id.same(&ctx.predecessor_id) {
                    return Err(MarketError::NotSeller);
                }
                listing.price
            },
        };
        let _ = self.listings.remove(&token_id);
        proof {
            assert(self@.listings =~= before@.listings.remove(token_id));
        }
        Ok(
            Some(
                EventLog::market(
                    Operation::Unlist,
                    Some(token_id),
                    ctx.predecessor_id.clone(),
                    None,
                    Some(price),
                ),
            ),
        )
    }

    /// Starts the purchase of a listed token for the caller, who must attach
    /// exactly the listing's price.
    ///
    /// The listing is taken down at once, so that no second purchase can
    /// start on it. What is handed back names the transfer to ask of the
    /// token ledger: the token, the buyer as its new owner, the approval
    /// identifier captured when the token was listed, and the price. The
    /// purchase then awaits the ledger's result under its identifier.
    pub fn purchase(&mut self, ctx: &CallContext, token_id: u64) -> (result: Result<
        PurchaseReceipt,
        MarketError,
    >)
        requires
            old(self).wf(),
        ensures
            final(self).wf(),
            match result {
                Ok(receipt) => {
                    &&& purchase_error(old(self)@, token_id, ctx.attached_deposit) is None
                    &&& final(self)@ == purchasing(old(self)@, token_id, ctx.predecessor_id@)
                    &&& receipt.request@ == started(old(self)@, token_id, ctx.predecessor_id@)
                    &&& receipt.request.price == ctx.attached_deposit
                    &&& receipt.event@ == market_event(
                        Operation::Purchase,
                        Some(token_id),
                        ctx.predecessor_id@,
                        Some(old(self)@.listings[token_id].seller),
                        Some(ctx.attached_deposit),
                    )
                },
                Err(e) => {
                    &&& purchase_error(old(self)@, token_id, ctx.attached_deposit) == Some(e)
                    &&& *final(self) == *old(self)
                },
            },
    {
        let ghost before = *self;
        let purchase_id: u64 = self.next_purchase_id;
        let request = match self.listings.get(&token_id) {
            None => {
                return Err(MarketError::NotListed);
            },
            Some(listing) => {
                if ctx.attached_deposit != listing.price {
                    return Err(MarketError::PriceMismatch);
                }
                if purchase_id == u64::MAX {
                    return Err(MarketError::PurchaseIdsExhausted);
                }
                PendingPurchase {
                    purchase_id,
                    token_id,
                    buyer_id: ctx.predecessor_id.clone(),
                    seller_id: listing.seller_id.clone(),
                    approval_id: listing.approval_id,
                    price: listing.price,
                }
            },
        };
        let _ = self.listings.remove(&token_id);
        self.pending.insert(purchase_id, request.clone());
        self.next_purchase_id = purchase_id + 1;
        proof {
            assert(self@.listings =~= before@.listings.remove(token_id));
            assert(self@.pending =~= before@.pending.insert(purchase_id, request@));
        }
        let event = EventLog::market(
            Operation::Purchase,
            Some(token_id),
            ctx.predecessor_id.clone(),
            Some(request.seller_id.clone()),
            Some(request.price),
        );
        Ok(PurchaseReceipt { request, event })
    }

    /// Ends a purchase with the token ledger's result: the payout table of a
    /// transfer that went through, or none for a transfer that was refused.
    ///
    /// The purchase no longer awaits anything afterwards, and the listing
    /// that it took down stays down.
    pub fn resolve_purchase(&mut self, purchase_id: u64, outcome: Option<Payout>) -> (result:
        Result<Settlement, MarketError>)
        requires
            old(self).wf(),
        ensures
            final(self).wf(),
            match result {
                Ok(settlement) => {
                    &&& old(self)@.pending.contains_key(purchase_id)
                    &&& final(self)@ == (MarketView {
                        pending: old(self)@.pending.remove(purchase_id),
                        ..old(self)@
                    })
                    &&& settlement_of(
                        settlement,
                        old(self)@.pending[purchase_id],
                        optional_dues(outcome),
                    )
                },
                Err(e) => {
                    &&& !old(self)@.pending.contains_key(purchase_id)
                    &&& e == MarketError::UnknownPurchase
                    &&& *final(self) == *old(self)
                },
            },
    {
        let ghost before = *self;
        if self.pending.get(&purchase_id).is_none() {
            return Err(MarketError::UnknownPurchase);
        }
        let purchase: PendingPurchase = self.pending.remove(&purchase_id).unwrap();
        proof {
            assert(self@.pending =~= before@.pending.remove(purchase_id));
            assert(purchase@ == before@.pending[purchase_id]);
        }
        let accepted: Option<(Payout, u128)> = match outcome {
            Some(payout) => match payout.total_within(purchase.price) {
                Some(total) => Some((payout, total)),
                None => None,
            },
            None => None,
        };
        match accepted {
            Some((payout, total)) => {
                let ghost dues = payout.dues();
                let n: usize = payout.entries.len();
                let mut payouts: Vec<Transfer> = Vec::new();
                let mut i: usize = 0;
                while i < n
                    invariant
                        n == payout.entries.len(),
                        i <= n,
                        dues == payout.dues(),
                        payouts.len() == i,
                        forall|k: int|
                            0 <= k < i ==> (#[trigger] payouts[k])@ == payments_of(dues)[k],
                    decreases n - i,
                {
                    let entry = &payout.entries[i];
                    payouts.push(
                        Transfer { receiver_id: entry.account.clone(), amount: entry.amount },
                    );
                    i += 1;
                }
                assert(payments_view(payouts@) =~= payments_of(dues));
                let event = EventLog::market(
                    Operation::Settle,
                    Some(purchase.token_id),
                    purchase.buyer_id,
                    Some(purchase.seller_id.clone()),
                    Some(purchase.price),
                );
                Ok(
                    Settlement::Settled {
                        payouts,
                        seller_payment: Transfer {
                            receiver_id: purchase.seller_id,
                            amount: purchase.price - total,
                        },
                        event,
                    },
                )
            },
            None => {
                let event = EventLog::market(
                    Operation::Revert,
                    Some(purchase.token_id),
                    purchase.buyer_id.clone(),
                    Some(purchase.seller_id),
                    Some(purchase.price),
                );
                Ok(
                    Settlement::Reverted {
                        refund: Transfer { receiver_id: purchase.buyer_id, amount: purchase.price },
                        event,
                    },
                )
            },
        }
    }
}

} // verus!
