use runner_nft::account::{AccountId, CallContext, Transfer};
use runner_nft::account_map::AccountMap;
use runner_nft::events::{EventLog, Operation};
use runner_nft::market::{
    Listing, MarketError, Marketplace, PendingPurchase, PurchaseReceipt, Settlement, LISTING_BYTES,
};
use runner_nft::royalty::{Payout, PayoutEntry};

const MARKET_RENT: u128 = 10_000_000_000_000_000_000_000;
const MARKET_NEAR: u128 = 1_000_000_000_000_000_000_000_000;

fn market_account(name: &str) -> AccountId {
    AccountId::new(name.to_string())
}

fn market_call(caller: &str, attached: u128) -> CallContext {
    CallContext { predecessor_id: market_account(caller), attached_deposit: attached, block_timestamp: 100 }
}

fn market_fixture() -> Marketplace {
    Marketplace::new(market_account("owner"), market_account("nft"))
}

fn market_with_listing(price: u128) -> Marketplace {
    let mut market = market_fixture();
    market.deposit_storage(&market_call("alice", MARKET_RENT)).unwrap();
    market.list_for_sale(&market_call("nft", 0), 3, market_account("alice"), 7, price).unwrap();
    market
}

#[test]
fn new_market_is_empty() {
    let market = market_fixture();
    assert_eq!(market.owner_id().as_str(), "owner");
    assert_eq!(market.ledger_id().as_str(), "nft");
    assert_eq!(market.next_purchase_id(), 0);
    assert_eq!(market.storage_balance_of(&market_account("alice")), 0);
    assert!(market.listing(0).is_none());
    assert!(market.pending_purchase(0).is_none());
    assert!(market.listings().is_empty());
    assert!(market.pending().is_empty());
    assert_eq!(market.storage_deposits().len(), 0);
}

#[test]
fn deposit_credits_the_caller() {
    let mut market = market_fixture();
    let event = market.deposit_storage(&market_call("alice", 40)).unwrap();
    assert_eq!(
        event,
        EventLog {
            standard: "nft_market".to_string(),
            version: "1.0.0".to_string(),
            operation: Operation::StorageDeposit,
            token_id: None,
            account_id: market_account("alice"),
            other_id: None,
            authorized_id: None,
            amount: Some(40),
        }
    );
    market.deposit_storage(&market_call("alice", 2)).unwrap();
    market.deposit_storage(&market_call("bob", 5)).unwrap();
    assert_eq!(market.storage_balance_of(&market_account("alice")), 42);
    assert_eq!(market.storage_balance_of(&market_account("bob")), 5);
    assert_eq!(market.storage_balance_of(&market_account("carol")), 0);
}

#[test]
fn deposit_stops_at_the_largest_amount() {
    let mut market = market_fixture();
    market.deposit_storage(&market_call("alice", u128::MAX - 1)).unwrap();
    assert_eq!(market.deposit_storage(&market_call("alice", 2)), Err(MarketError::BalanceOverflow));
    assert_eq!(market.storage_balance_of(&market_account("alice")), u128::MAX - 1);
    assert!(market.deposit_storage(&market_call("alice", 1)).is_ok());
    assert_eq!(market.storage_balance_of(&market_account("alice")), u128::MAX);
}

#[test]
fn listing_costs_the_rent_of_a_thousand_bytes() {
    assert_eq!(LISTING_BYTES, 1000);
    let mut market = market_fixture();
    market.deposit_storage(&market_call("alice", MARKET_RENT + 5)).unwrap();
    let event = market
        .list_for_sale(&market_call("nft", 0), 3, market_account("alice"), 7, 3 * MARKET_NEAR)
        .unwrap();
    assert_eq!(
        event,
        EventLog::market(Operation::List, Some(3), market_account("alice"), None, Some(3 * MARKET_NEAR))
    );
    assert_eq!(market.storage_balance_of(&market_account("alice")), 5);
    assert_eq!(
        market.listing(3),
        Some(&Listing {
            token_id: 3,
            seller_id: market_account("alice"),
            approval_id: 7,
            price: 3 * MARKET_NEAR,
        })
    );
    assert!(market.listing(4).is_none());
}

#[test]
fn listing_needs_storage_credit() {
    let mut market = market_fixture();
    assert_eq!(
        market.list_for_sale(&market_call("nft", 0), 3, market_account("alice"), 7, 10),
        Err(MarketError::NoStorageCredit)
    );
    market.deposit_storage(&market_call("alice", MARKET_RENT - 1)).unwrap();
    assert_eq!(
        market.list_for_sale(&market_call("nft", 0), 3, market_account("alice"), 7, 10),
        Err(MarketError::NoStorageCredit)
    );
    assert!(market.listing(3).is_none());
    assert_eq!(market.storage_balance_of(&market_account("alice")), MARKET_RENT - 1);
    market.deposit_storage(&market_call("alice", 1)).unwrap();
    assert!(market.list_for_sale(&market_call("nft", 0), 3, market_account("alice"), 7, 10).is_ok());
    assert_eq!(market.storage_balance_of(&market_account("alice")), 0);
}

#[test]
fn listing_must_come_from_the_ledger() {
    let mut market = market_fixture();
    market.deposit_storage(&market_call("alice", MARKET_RENT)).unwrap();
    assert_eq!(
        market.list_for_sale(&market_call("alice", 0), 3, market_account("alice"), 7, 10),
        Err(MarketError::NotApproved)
    );
    assert_eq!(
        market.list_for_sale(&market_call("eve", 0), 3, market_account("nobody"), 7, 10),
        Err(MarketError::NotApproved)
    );
    assert!(market.listing(3).is_none());
    assert_eq!(market.storage_balance_of(&market_account("alice")), MARKET_RENT);
}

#[test]
fn listing_again_replaces_the_terms_and_costs_again() {
    let mut market = market_fixture();
    market.deposit_storage(&market_call("alice", 2 * MARKET_RENT)).unwrap();
    market.list_for_sale(&market_call("nft", 0), 3, market_account("alice"), 7, 10).unwrap();
    market.list_for_sale(&market_call("nft", 0), 3, market_account("alice"), 8, 20).unwrap();
    assert_eq!(
        market.listing(3),
        Some(&Listing { token_id: 3, seller_id: market_account("alice"), approval_id: 8, price: 20 })
    );
    assert_eq!(market.listings().len(), 1);
    assert_eq!(market.storage_balance_of(&market_account("alice")), 0);
    assert_eq!(
        market.list_for_sale(&market_call("nft", 0), 3, market_account("alice"), 9, 30),
        Err(MarketError::NoStorageCredit)
    );
}

#[test]
fn unlist_is_for_the_seller() {
    let mut market = market_with_listing(10);
    assert_eq!(market.unlist(&market_call("bob", 0), 3), Err(MarketError::NotSeller));
    assert_eq!(market.unlist(&market_call("nft", 0), 3), Err(MarketError::NotSeller));
    assert!(market.listing(3).is_some());
    let event = market.unlist(&market_call("alice", 0), 3).unwrap();
    assert_eq!(
        event,
        Some(EventLog::market(Operation::Unlist, Some(3), market_account("alice"), None, Some(10)))
    );
    assert!(market.listing(3).is_none());
}

#[test]
fn unlist_twice_changes_nothing_the_second_time() {
    let mut market = market_with_listing(10);
    market.deposit_storage(&market_call("alice", 9)).unwrap();
    assert!(market.unlist(&market_call("alice", 0), 3).unwrap().is_some());
    let balance = market.storage_balance_of(&market_account("alice"));
    assert_eq!(market.unlist(&market_call("alice", 0), 3), Ok(None));
    assert_eq!(market.unlist(&market_call("bob", 0), 3), Ok(None));
    assert!(market.listing(3).is_none());
    assert!(market.listings().is_empty());
    assert_eq!(market.storage_balance_of(&market_account("alice")), balance);
    assert_eq!(market.next_purchase_id(), 0);
}

#[test]
fn unlist_gives_no_rent_back() {
    let mut market = market_with_listing(10);
    assert_eq!(market.storage_balance_of(&market_account("alice")), 0);
    market.unlist(&market_call("alice", 0), 3).unwrap();
    assert_eq!(market.storage_balance_of(&market_account("alice")), 0);
    assert_eq!(
        market.list_for_sale(&market_call("nft", 0), 3, market_account("alice"), 8, 10),
        Err(MarketError::NoStorageCredit)
    );
}

#[test]
fn purchase_takes_the_listing_down() {
    let mut market = market_with_listing(3 * MARKET_NEAR);
    let receipt = market.purchase(&market_call("bob", 3 * MARKET_NEAR), 3).unwrap();
    let request = PendingPurchase {
        purchase_id: 0,
        token_id: 3,
        buyer_id: market_account("bob"),
        seller_id: market_account("alice"),
        approval_id: 7,
        price: 3 * MARKET_NEAR,
    };
    assert_eq!(
        receipt,
        PurchaseReceipt {
            request: request.clone(),
            event: EventLog::market(
                Operation::Purchase,
                Some(3),
                market_account("bob"),
                Some(market_account("alice")),
                Some(3 * MARKET_NEAR),
            ),
        }
    );
    assert!(market.listing(3).is_none());
    assert_eq!(market.pending_purchase(0), Some(&request));
    assert_eq!(market.next_purchase_id(), 1);
    assert_eq!(market.purchase(&market_call("carol", 3 * MARKET_NEAR), 3), Err(MarketError::NotListed));
    assert_eq!(market.pending().len(), 1);
}

#[test]
fn purchase_wants_the_exact_price() {
    let mut market = market_with_listing(10);
    assert_eq!(market.purchase(&market_call("bob", 9), 3), Err(MarketError::PriceMismatch));
    assert_eq!(market.purchase(&market_call("bob", 11), 3), Err(MarketError::PriceMismatch));
    assert_eq!(market.purchase(&market_call("bob", 10), 4), Err(MarketError::NotListed));
    assert!(market.listing(3).is_some());
    assert_eq!(market.next_purchase_id(), 0);
    assert!(market.pending().is_empty());
}

#[test]
fn purchase_stops_when_identifiers_run_out() {
    let listing = Listing { token_id: 3, seller_id: market_account("alice"), approval_id: 7, price: 10 };
    let mut market = Marketplace::restore(
        market_account("owner"),
        market_account("nft"),
        AccountMap::new(),
        vec![listing],
        vec![],
        u64::MAX,
    )
    .unwrap();
    assert_eq!(market.purchase(&market_call("bob", 10), 3), Err(MarketError::PurchaseIdsExhausted));
    assert!(market.listing(3).is_some());
}

#[test]
fn settled_purchase_pays_beneficiaries_and_seller() {
    let mut market = market_with_listing(30 * MARKET_NEAR);
    let request = market.purchase(&market_call("bob", 30 * MARKET_NEAR), 3).unwrap().request;
    let payout = Payout {
        entries: vec![PayoutEntry { account: market_account("treasury"), amount: 6 * MARKET_NEAR }],
        remainder: 24 * MARKET_NEAR,
    };
    let settlement = market.resolve_purchase(request.purchase_id, Some(payout)).unwrap();
    assert_eq!(
        settlement,
        Settlement::Settled {
            payouts: vec![Transfer { receiver_id: market_account("treasury"), amount: 6 * MARKET_NEAR }],
            seller_payment: Transfer { receiver_id: market_account("alice"), amount: 24 * MARKET_NEAR },
            event: EventLog::market(
                Operation::Settle,
                Some(3),
                market_account("bob"),
                Some(market_account("alice")),
                Some(30 * MARKET_NEAR),
            ),
        }
    );
    assert!(market.pending_purchase(0).is_none());
    assert!(market.listing(3).is_none());
}

#[test]
fn settlement_goes_by_the_table_and_not_by_the_claimed_remainder() {
    let mut market = market_with_listing(100);
    market.purchase(&market_call("bob", 100), 3).unwrap();
    let payout = Payout {
        entries: vec![
            PayoutEntry { account: market_account("a"), amount: 10 },
            PayoutEntry { account: market_account("b"), amount: 0 },
            PayoutEntry { account: market_account("c"), amount: 25 },
        ],
        remainder: 1_000_000,
    };
    match market.resolve_purchase(0, Some(payout)).unwrap() {
        Settlement::Settled { payouts, seller_payment, .. } => {
            assert_eq!(
                payouts,
                vec![
                    Transfer { receiver_id: market_account("a"), amount: 10 },
                    Transfer { receiver_id: market_account("b"), amount: 0 },
                    Transfer { receiver_id: market_account("c"), amount: 25 },
                ]
            );
            assert_eq!(seller_payment, Transfer { receiver_id: market_account("alice"), amount: 65 });
            let paid: u128 = payouts.iter().map(|t| t.amount).sum();
            assert_eq!(paid + seller_payment.amount, 100);
        }
        other => panic!("not settled: {:?}", other),
    }
}

#[test]
fn refused_transfer_gives_the_price_back() {
    let mut market = market_with_listing(3 * MARKET_NEAR);
    market.purchase(&market_call("bob", 3 * MARKET_NEAR), 3).unwrap();
    let settlement = market.resolve_purchase(0, None).unwrap();
    assert_eq!(
        settlement,
        Settlement::Reverted {
            refund: Transfer { receiver_id: market_account("bob"), amount: 3 * MARKET_NEAR },
            event: EventLog::market(
                Operation::Revert,
                Some(3),
                market_account("bob"),
                Some(market_account("alice")),
                Some(3 * MARKET_NEAR),
            ),
        }
    );
    assert!(market.listing(3).is_none());
    assert!(market.pending().is_empty());
}

#[test]
fn payout_table_beyond_the_price_gives_the_price_back() {
    let mut market = market_with_listing(100);
    market.purchase(&market_call("bob", 100), 3).unwrap();
    let greedy = Payout {
        entries: vec![
            PayoutEntry { account: market_account("a"), amount: 60 },
            PayoutEntry { account: market_account("b"), amount: 41 },
        ],
        remainder: 0,
    };
    match market.resolve_purchase(0, Some(greedy)).unwrap() {
        Settlement::Reverted { refund, .. } => {
            assert_eq!(refund, Transfer { receiver_id: market_account("bob"), amount: 100 });
        }
        other => panic!("not reverted: {:?}", other),
    }
}

#[test]
fn payout_table_with_seven_lines_gives_the_price_back() {
    let mut market = market_with_listing(100);
    market.purchase(&market_call("bob", 100), 3).unwrap();
    let long = Payout {
        entries: (0..7)
            .map(|i| PayoutEntry { account: market_account(&format!("a{}", i)), amount: 1 })
            .collect(),
        remainder: 93,
    };
    assert!(matches!(
        market.resolve_purchase(0, Some(long)).unwrap(),
        Settlement::Reverted { .. }
    ));
}

#[test]
fn purchase_is_resolved_once() {
    let mut market = market_with_listing(100);
    market.purchase(&market_call("bob", 100), 3).unwrap();
    assert_eq!(market.resolve_purchase(1, None), Err(MarketError::UnknownPurchase));
    assert!(market.pending_purchase(0).is_some());
    assert!(market.resolve_purchase(0, None).is_ok());
    assert_eq!(market.resolve_purchase(0, None), Err(MarketError::UnknownPurchase));
}

#[test]
fn purchases_get_rising_identifiers() {
    let mut market = market_fixture();
    market.deposit_storage(&market_call("alice", 2 * MARKET_RENT)).unwrap();
    market.list_for_sale(&market_call("nft", 0), 1, market_account("alice"), 0, 10).unwrap();
    market.list_for_sale(&market_call("nft", 0), 2, market_account("alice"), 0, 20).unwrap();
    assert_eq!(market.purchase(&market_call("bob", 20), 2).unwrap().request.purchase_id, 0);
    assert_eq!(market.purchase(&market_call("carol", 10), 1).unwrap().request.purchase_id, 1);
    assert_eq!(market.pending_purchase(1).unwrap().buyer_id, market_account("carol"));
    assert_eq!(market.pending_purchase(0).unwrap().token_id, 2);
}

#[test]
fn restore_checks_the_records() {
    let listing = |token_id: u64| Listing {
        token_id,
        seller_id: market_account("alice"),
        approval_id: 0,
        price: 10,
    };
    let pending = |purchase_id: u64| PendingPurchase {
        purchase_id,
        token_id: 1,
        buyer_id: market_account("bob"),
        seller_id: market_account("alice"),
        approval_id: 0,
        price: 10,
    };
    let mut balances = AccountMap::new();
    balances.insert(market_account("alice"), 12u128);
    let market = Marketplace::restore(
        market_account("owner"),
        market_account("nft"),
        balances,
        vec![listing(1), listing(2)],
        vec![pending(0), pending(4)],
        5,
    )
    .unwrap();
    assert_eq!(market.storage_balance_of(&market_account("alice")), 12);
    assert_eq!(market.listing(2), Some(&listing(2)));
    assert_eq!(market.pending_purchase(4), Some(&pending(4)));
    assert_eq!(market.next_purchase_id(), 5);
    let restore = |listings: Vec<Listing>, waiting: Vec<PendingPurchase>, next: u64| {
        Marketplace::restore(
            market_account("owner"),
            market_account("nft"),
            AccountMap::new(),
            listings,
            waiting,
            next,
        )
    };
    assert!(restore(vec![listing(1), listing(1)], vec![], 0).is_none());
    assert!(restore(vec![], vec![pending(1), pending(1)], 5).is_none());
    assert!(restore(vec![], vec![pending(5)], 5).is_none());
    assert!(restore(vec![], vec![pending(4)], 5).is_some());
}

#[test]
fn account_map_keeps_one_value_per_account() {
    let mut map: AccountMap<u128> = AccountMap::new();
    map.insert(market_account("a"), 1);
    map.insert(market_account("b"), 2);
    map.insert(market_account("a"), 3);
    assert_eq!(map.len(), 2);
    assert_eq!(map.get(&market_account("a")), Some(&3));
    assert_eq!(map.find(&market_account("b")), Some(1));
    assert!(map.contains(&market_account("b")));
    assert_eq!(map.entry(0).key, market_account("a"));
    assert_eq!(map.remove(&market_account("a")), Some(3));
    assert_eq!(map.remove(&market_account("a")), None);
    assert_eq!(map.get(&market_account("a")), None);
    assert_eq!(map.len(), 1);
    map.clear();
    assert_eq!(map.len(), 0);
    let doubled = AccountMap::from_entries(vec![
        runner_nft::account_map::AccountEntry { key: market_account("a"), value: 1u8 },
        runner_nft::account_map::AccountEntry { key: market_account("a"), value: 2u8 },
    ]);
    assert!(doubled.is_none());
    let single = AccountMap::from_entries(vec![
        runner_nft::account_map::AccountEntry { key: market_account("a"), value: 1u8 },
        runner_nft::account_map::AccountEntry { key: market_account("b"), value: 2u8 },
    ])
    .unwrap();
    assert_eq!(single.get(&market_account("b")), Some(&2));
}
