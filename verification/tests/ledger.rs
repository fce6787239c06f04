use runner_nft::account::{AccountId, CallContext, Transfer};
use runner_nft::events::{EventLog, Operation};
use runner_nft::ledger::{
    ApprovalReceipt, Contract, LedgerError, MintReceipt, SaleNotice, TransferReceipt,
};
use runner_nft::metadata::{
    NFTContractMetadata, TokenMetadata, DATA_IMAGE_SVG_ICON, MAX_BASE_URI_BYTES,
};
use runner_nft::royalty::{Payout, PayoutEntry, RoyaltyShare, RoyaltyTable};
use runner_nft::token::Token;

const LEDGER_NEAR: u128 = 1_000_000_000_000_000_000_000_000;
const LEDGER_PRICE: u128 = 5 * LEDGER_NEAR;
const LEDGER_START: u64 = 1;
const LEDGER_END: u64 = 1_690_000_000_000_000_000;

fn ledger_account(name: &str) -> AccountId {
    AccountId::new(name.to_string())
}

fn ledger_call(caller: &str, attached: u128, now: u64) -> CallContext {
    CallContext { predecessor_id: ledger_account(caller), attached_deposit: attached, block_timestamp: now }
}

fn ledger_fixture(max_supply: u128) -> Contract {
    let table = RoyaltyTable::from_shares(vec![RoyaltyShare {
        account: ledger_account("treasury"),
        basis_points: 2000,
    }])
    .unwrap();
    Contract::new_default_meta(
        ledger_account("owner"),
        ledger_account("treasury"),
        max_supply,
        "https://example.org/runners".to_string(),
        LEDGER_PRICE,
        LEDGER_START,
        LEDGER_END,
        Some(table),
    )
}

fn ledger_mint(ledger: &mut Contract, who: &str) -> u64 {
    ledger
        .nft_mint(&ledger_call(who, LEDGER_PRICE, 100), ledger_account(who), 0, 0)
        .unwrap()
        .token_id
}

#[test]
fn default_metadata_is_filled_in() {
    let ledger = ledger_fixture(9);
    assert_eq!(
        ledger.nft_metadata(),
        &NFTContractMetadata {
            spec: "nft-1.0.0".to_string(),
            name: "Chubby Runners".to_string(),
            symbol: "RUNNER".to_string(),
            icon: Some(DATA_IMAGE_SVG_ICON.to_string()),
            base_uri: Some("https://example.org/runners".to_string()),
            reference: None,
            reference_hash: None,
        }
    );
    assert!(DATA_IMAGE_SVG_ICON.starts_with("data:image/svg+xml,%3Csvg id='Layer_2'"));
    assert_eq!(DATA_IMAGE_SVG_ICON.len(), 1290);
    assert_eq!(ledger.nft_total_supply(), 0);
    assert_eq!(ledger.owner_id().as_str(), "owner");
    assert_eq!(ledger.treasury_id().as_str(), "treasury");
    assert_eq!(ledger.mint_price(), LEDGER_PRICE);
    assert_eq!(ledger.max_supply(), 9);
    assert_eq!(ledger.mint_start(), LEDGER_START);
    assert_eq!(ledger.mint_end(), LEDGER_END);
    assert_eq!(ledger.perpetual_royalties().len(), 1);
}

#[test]
fn ledger_without_royalties_has_the_empty_table() {
    let ledger = Contract::new(
        ledger_account("owner"),
        NFTContractMetadata::describe("N".to_string(), None, "b".to_string()),
        ledger_account("treasury"),
        1,
        2,
        3,
        4,
        None,
    );
    assert_eq!(ledger.perpetual_royalties().len(), 0);
    assert_eq!(ledger.nft_metadata().name, "N");
    assert_eq!(ledger.nft_metadata().icon, None);
}

#[test]
fn mint_creates_the_records_and_reports_the_money() {
    let mut ledger = ledger_fixture(9);
    let attached = 5_008_000_000_000_000_000_000_000;
    let receipt = ledger.nft_mint(&ledger_call("alice", attached, 100), ledger_account("alice"), 1_000, 1_500);
    assert_eq!(
        receipt,
        Ok(MintReceipt {
            token_id: 0,
            rent: 5_000_000_000_000_000_000_000,
            treasury_payment: Some(Transfer {
                receiver_id: ledger_account("treasury"),
                amount: LEDGER_PRICE,
            }),
            refund: Some(Transfer {
                receiver_id: ledger_account("alice"),
                amount: 3_000_000_000_000_000_000_000,
            }),
            event: EventLog {
                standard: "nep171".to_string(),
                version: "1.0.0".to_string(),
                operation: Operation::Mint,
                token_id: Some(0),
                account_id: ledger_account("alice"),
                other_id: None,
                authorized_id: None,
                amount: None,
            },
        })
    );
    assert_eq!(ledger.nft_total_supply(), 1);
    let token = ledger.nft_token(0).unwrap();
    assert_eq!(token.owner_id().as_str(), "alice");
    assert_eq!(token.next_approval_id(), 0);
    assert_eq!(token.approved_account_ids().len(), 0);
    assert_eq!(token.royalty().len(), 1);
    assert_eq!(token.royalty().share(0).basis_points, 2000);
    assert_eq!(
        ledger.nft_token_metadata(0),
        Some(&TokenMetadata {
            title: "A-Runner #0".to_string(),
            description: "Near Runner play-to-earn game NFT".to_string(),
            media: "img/0.jpg".to_string(),
            reference: "data/0.json".to_string(),
            copies: 1,
        })
    );
    assert_eq!(ledger.nft_tokens_for_owner(&ledger_account("alice")), vec![0]);
    assert!(ledger.nft_token(1).is_none());
    assert!(ledger.nft_token_metadata(1).is_none());
}

#[test]
fn mint_numbers_tokens_in_sequence() {
    let mut ledger = ledger_fixture(30);
    for expected in 0..12u64 {
        assert_eq!(ledger_mint(&mut ledger, "alice"), expected);
    }
    assert_eq!(ledger.nft_token_metadata(11).unwrap().title, "A-Runner #11");
    assert_eq!(ledger.nft_token_metadata(11).unwrap().media, "img/11.jpg");
    assert_eq!(ledger.nft_token_metadata(11).unwrap().reference, "data/11.json");
    assert_eq!(ledger.nft_total_supply(), 12);
}

#[test]
fn mint_with_exact_payment_refunds_nothing() {
    let mut ledger = ledger_fixture(9);
    let attached = LEDGER_PRICE + 10_000_000_000_000_000_000;
    let receipt = ledger
        .nft_mint(&ledger_call("alice", attached, 100), ledger_account("alice"), 7, 8)
        .unwrap();
    assert_eq!(receipt.refund, None);
    assert_eq!(receipt.rent, 10_000_000_000_000_000_000);
}

#[test]
fn mint_fails_beyond_the_cap() {
    let mut ledger = ledger_fixture(9);
    for _ in 0..9 {
        ledger_mint(&mut ledger, "alice");
    }
    assert_eq!(ledger.nft_total_supply(), 9);
    let tenth = ledger.nft_mint(
        &ledger_call("alice", 5_008_000_000_000_000_000_000_000, 100),
        ledger_account("alice"),
        0,
        800,
    );
    assert_eq!(tenth, Err(LedgerError::SupplyExhausted));
    assert_eq!(ledger.nft_total_supply(), 9);
    assert!(ledger.nft_token(9).is_none());
    let by_treasury = ledger.nft_mint(&ledger_call("treasury", 1, 100), ledger_account("treasury"), 0, 0);
    assert_eq!(by_treasury, Err(LedgerError::SupplyExhausted));
}

#[test]
fn mint_window_is_closed_at_its_end_and_open_at_its_start() {
    let mut ledger = ledger_fixture(9);
    let early = ledger.nft_mint(&ledger_call("alice", LEDGER_PRICE, 0), ledger_account("alice"), 0, 0);
    assert_eq!(early, Err(LedgerError::MintWindowClosed));
    let late = ledger.nft_mint(&ledger_call("alice", LEDGER_PRICE, LEDGER_END), ledger_account("alice"), 0, 0);
    assert_eq!(late, Err(LedgerError::MintWindowClosed));
    assert_eq!(ledger.nft_total_supply(), 0);
    assert!(ledger
        .nft_mint(&ledger_call("alice", LEDGER_PRICE, LEDGER_START), ledger_account("alice"), 0, 0)
        .is_ok());
    assert!(ledger
        .nft_mint(&ledger_call("alice", LEDGER_PRICE, LEDGER_END - 1), ledger_account("alice"), 0, 0)
        .is_ok());
}

#[test]
fn mint_window_comes_before_payment() {
    let mut ledger = ledger_fixture(9);
    let result = ledger.nft_mint(&ledger_call("alice", 0, 0), ledger_account("alice"), 0, 0);
    assert_eq!(result, Err(LedgerError::MintWindowClosed));
}

#[test]
fn mint_needs_price_plus_rent() {
    let mut ledger = ledger_fixture(9);
    let short = ledger.nft_mint(&ledger_call("alice", LEDGER_PRICE - 1, 100), ledger_account("alice"), 0, 0);
    assert_eq!(short, Err(LedgerError::InsufficientPayment));
    let no_rent = ledger.nft_mint(&ledger_call("alice", LEDGER_PRICE, 100), ledger_account("alice"), 0, 1);
    assert_eq!(no_rent, Err(LedgerError::InsufficientPayment));
    assert_eq!(ledger.nft_total_supply(), 0);
    assert_eq!(ledger.nft_tokens_for_owner(&ledger_account("alice")), Vec::<u64>::new());
}

#[test]
fn treasury_mints_outside_the_window_for_the_rent_alone() {
    let mut ledger = ledger_fixture(9);
    let nothing = ledger.nft_mint(&ledger_call("treasury", 0, 0), ledger_account("bob"), 0, 0);
    assert_eq!(nothing, Err(LedgerError::InsufficientPayment));
    let rent: u128 = 20_000_000_000_000_000_000;
    let short = ledger.nft_mint(&ledger_call("treasury", rent - 1, 0), ledger_account("bob"), 0, 2);
    assert_eq!(short, Err(LedgerError::InsufficientPayment));
    let receipt = ledger
        .nft_mint(&ledger_call("treasury", rent + 5, LEDGER_END + 9), ledger_account("bob"), 0, 2)
        .unwrap();
    assert_eq!(receipt.treasury_payment, None);
    assert_eq!(receipt.rent, rent);
    assert_eq!(receipt.refund, Some(Transfer { receiver_id: ledger_account("treasury"), amount: 5 }));
    assert_eq!(ledger.nft_token(0).unwrap().owner_id().as_str(), "bob");
    let one = ledger.nft_mint(&ledger_call("treasury", 1, 0), ledger_account("bob"), 5, 5).unwrap();
    assert_eq!(one.refund, Some(Transfer { receiver_id: ledger_account("treasury"), amount: 1 }));
}

#[test]
fn approve_issues_rising_identifiers() {
    let mut ledger = ledger_fixture(9);
    ledger_mint(&mut ledger, "alice");
    let first = ledger
        .nft_approve(&ledger_call("alice", 0, 100), 0, ledger_account("market"), None)
        .unwrap();
    assert_eq!(
        first,
        ApprovalReceipt {
            approval_id: 0,
            notice: None,
            event: EventLog::ledger(
                Operation::Approve,
                0,
                ledger_account("alice"),
                Some(ledger_account("market")),
                None,
                Some(0),
            ),
        }
    );
    let second = ledger
        .nft_approve(&ledger_call("alice", 0, 100), 0, ledger_account("other"), None)
        .unwrap();
    assert_eq!(second.approval_id, 1);
    let again = ledger
        .nft_approve(&ledger_call("alice", 0, 100), 0, ledger_account("market"), None)
        .unwrap();
    assert_eq!(again.approval_id, 2);
    assert!(ledger.nft_is_approved(0, &ledger_account("market"), None));
    assert!(ledger.nft_is_approved(0, &ledger_account("market"), Some(2)));
    assert!(!ledger.nft_is_approved(0, &ledger_account("market"), Some(0)));
    assert!(ledger.nft_is_approved(0, &ledger_account("other"), Some(1)));
    assert!(!ledger.nft_is_approved(0, &ledger_account("nobody"), None));
    assert!(!ledger.nft_is_approved(1, &ledger_account("market"), None));
    let token = ledger.nft_token(0).unwrap();
    assert_eq!(token.next_approval_id(), 3);
    assert_eq!(token.approval_id_of(&ledger_account("market")), Some(2));
    assert_eq!(token.approved_account_ids().len(), 2);
}

#[test]
fn approve_hands_the_sale_terms_on() {
    let mut ledger = ledger_fixture(9);
    ledger_mint(&mut ledger, "alice");
    let receipt = ledger
        .nft_approve(
            &ledger_call("alice", 0, 100),
            0,
            ledger_account("market"),
            Some("{\"sale_conditions\":\"3\"}".to_string()),
        )
        .unwrap();
    assert_eq!(
        receipt.notice,
        Some(SaleNotice {
            token_id: 0,
            owner_id: ledger_account("alice"),
            approval_id: 0,
            grantee_id: ledger_account("market"),
            msg: "{\"sale_conditions\":\"3\"}".to_string(),
        })
    );
}

#[test]
fn approve_is_for_the_owner_only() {
    let mut ledger = ledger_fixture(9);
    ledger_mint(&mut ledger, "alice");
    let by_other = ledger.nft_approve(&ledger_call("bob", 0, 100), 0, ledger_account("market"), None);
    assert_eq!(by_other, Err(LedgerError::NotOwner));
    let missing = ledger.nft_approve(&ledger_call("alice", 0, 100), 5, ledger_account("market"), None);
    assert_eq!(missing, Err(LedgerError::NotOwner));
    assert!(!ledger.nft_is_approved(0, &ledger_account("market"), None));
    assert_eq!(ledger.nft_token(0).unwrap().next_approval_id(), 0);
}

#[test]
fn approve_stops_when_identifiers_run_out() {
    let royalty = RoyaltyTable::empty();
    let token = Token::restore(
        ledger_account("alice"),
        runner_nft::account_map::AccountMap::new(),
        u64::MAX,
        royalty,
    )
    .unwrap();
    let mut ledger = Contract::restore(
        ledger_account("owner"),
        NFTContractMetadata::describe("N".to_string(), None, "b".to_string()),
        ledger_account("treasury"),
        9,
        LEDGER_PRICE,
        LEDGER_START,
        LEDGER_END,
        RoyaltyTable::empty(),
        vec![token],
        vec![TokenMetadata::minted(0)],
    )
    .unwrap();
    let result = ledger.nft_approve(&ledger_call("alice", 0, 100), 0, ledger_account("market"), None);
    assert_eq!(result, Err(LedgerError::ApprovalIdsExhausted));
    assert!(!ledger.nft_is_approved(0, &ledger_account("market"), None));
}

#[test]
fn revoke_after_approve_ends_the_approval() {
    let mut ledger = ledger_fixture(9);
    ledger_mint(&mut ledger, "alice");
    let id = ledger
        .nft_approve(&ledger_call("alice", 0, 100), 0, ledger_account("market"), None)
        .unwrap()
        .approval_id;
    let event = ledger.nft_revoke(&ledger_call("alice", 1, 100), 0, &ledger_account("market")).unwrap();
    assert_eq!(
        event,
        EventLog::ledger(
            Operation::Revoke,
            0,
            ledger_account("alice"),
            Some(ledger_account("market")),
            None,
            None,
        )
    );
    assert!(!ledger.nft_is_approved(0, &ledger_account("market"), None));
    assert!(!ledger.nft_is_approved(0, &ledger_account("market"), Some(id)));
    assert_eq!(ledger.nft_token(0).unwrap().next_approval_id(), 1);
}

#[test]
fn revoke_of_nothing_changes_nothing() {
    let mut ledger = ledger_fixture(9);
    ledger_mint(&mut ledger, "alice");
    ledger.nft_approve(&ledger_call("alice", 0, 100), 0, ledger_account("other"), None).unwrap();
    assert!(ledger.nft_revoke(&ledger_call("alice", 1, 100), 0, &ledger_account("market")).is_ok());
    assert!(ledger.nft_revoke(&ledger_call("alice", 1, 100), 0, &ledger_account("market")).is_ok());
    assert!(ledger.nft_is_approved(0, &ledger_account("other"), Some(0)));
    assert_eq!(ledger.nft_token(0).unwrap().approved_account_ids().len(), 1);
}

#[test]
fn revoke_is_for_the_owner_only() {
    let mut ledger = ledger_fixture(9);
    ledger_mint(&mut ledger, "alice");
    ledger.nft_approve(&ledger_call("alice", 0, 100), 0, ledger_account("market"), None).unwrap();
    assert_eq!(
        ledger.nft_revoke(&ledger_call("market", 1, 100), 0, &ledger_account("market")),
        Err(LedgerError::NotOwner)
    );
    assert_eq!(
        ledger.nft_revoke(&ledger_call("alice", 1, 100), 3, &ledger_account("market")),
        Err(LedgerError::NotOwner)
    );
    assert_eq!(ledger.nft_revoke_all(&ledger_call("bob", 1, 100), 0), Err(LedgerError::NotOwner));
    assert_eq!(ledger.nft_revoke_all(&ledger_call("alice", 1, 100), 3), Err(LedgerError::NotOwner));
    assert!(ledger.nft_is_approved(0, &ledger_account("market"), Some(0)));
}

#[test]
fn revoke_all_ends_every_approval() {
    let mut ledger = ledger_fixture(9);
    ledger_mint(&mut ledger, "alice");
    ledger.nft_approve(&ledger_call("alice", 0, 100), 0, ledger_account("market"), None).unwrap();
    ledger.nft_approve(&ledger_call("alice", 0, 100), 0, ledger_account("other"), None).unwrap();
    let event = ledger.nft_revoke_all(&ledger_call("alice", 1, 100), 0).unwrap();
    assert_eq!(
        event,
        EventLog::ledger(Operation::RevokeAll, 0, ledger_account("alice"), None, None, None)
    );
    assert!(!ledger.nft_is_approved(0, &ledger_account("market"), None));
    assert!(!ledger.nft_is_approved(0, &ledger_account("other"), None));
    assert_eq!(ledger.nft_token(0).unwrap().next_approval_id(), 2);
    assert!(ledger.nft_revoke_all(&ledger_call("alice", 1, 100), 0).is_ok());
}

#[test]
fn transfer_moves_the_token_and_clears_approvals() {
    let mut ledger = ledger_fixture(9);
    ledger_mint(&mut ledger, "alice");
    ledger_mint(&mut ledger, "alice");
    ledger.nft_approve(&ledger_call("alice", 0, 100), 1, ledger_account("market"), None).unwrap();
    ledger.nft_approve(&ledger_call("alice", 0, 100), 1, ledger_account("other"), None).unwrap();
    let receipt = ledger.nft_transfer(&ledger_call("alice", 1, 100), 1, ledger_account("bob"), None);
    assert_eq!(
        receipt,
        Ok(TransferReceipt {
            previous_owner_id: ledger_account("alice"),
            event: EventLog::ledger(
                Operation::Transfer,
                1,
                ledger_account("alice"),
                Some(ledger_account("bob")),
                None,
                None,
            ),
        })
    );
    let token = ledger.nft_token(1).unwrap();
    assert_eq!(token.owner_id().as_str(), "bob");
    assert_eq!(token.approved_account_ids().len(), 0);
    assert_eq!(token.next_approval_id(), 2);
    assert!(!ledger.nft_is_approved(1, &ledger_account("market"), None));
    assert!(!ledger.nft_is_approved(1, &ledger_account("other"), None));
    assert_eq!(ledger.nft_tokens_for_owner(&ledger_account("alice")), vec![0]);
    assert_eq!(ledger.nft_tokens_for_owner(&ledger_account("bob")), vec![1]);
    assert_eq!(ledger.nft_token(0).unwrap().owner_id().as_str(), "alice");
}

#[test]
fn transfer_of_the_last_token_empties_the_index_entry() {
    let mut ledger = ledger_fixture(9);
    ledger_mint(&mut ledger, "alice");
    ledger.nft_transfer(&ledger_call("alice", 1, 100), 0, ledger_account("bob"), None).unwrap();
    assert_eq!(ledger.nft_tokens_for_owner(&ledger_account("alice")), Vec::<u64>::new());
    ledger.nft_transfer(&ledger_call("bob", 1, 100), 0, ledger_account("alice"), None).unwrap();
    assert_eq!(ledger.nft_tokens_for_owner(&ledger_account("alice")), vec![0]);
    assert_eq!(ledger.nft_tokens_for_owner(&ledger_account("bob")), Vec::<u64>::new());
}

#[test]
fn transfer_by_an_approved_account() {
    let mut ledger = ledger_fixture(9);
    ledger_mint(&mut ledger, "alice");
    ledger.nft_approve(&ledger_call("alice", 0, 100), 0, ledger_account("market"), None).unwrap();
    let wrong = ledger.nft_transfer(&ledger_call("market", 1, 100), 0, ledger_account("bob"), Some(7));
    assert_eq!(wrong, Err(LedgerError::NotOwnerOrApproved));
    let receipt = ledger
        .nft_transfer(&ledger_call("market", 1, 100), 0, ledger_account("bob"), Some(0))
        .unwrap();
    assert_eq!(
        receipt.event,
        EventLog::ledger(
            Operation::Transfer,
            0,
            ledger_account("alice"),
            Some(ledger_account("bob")),
            Some(ledger_account("market")),
            None,
        )
    );
    let replay = ledger.nft_transfer(&ledger_call("market", 1, 100), 0, ledger_account("carol"), Some(0));
    assert_eq!(replay, Err(LedgerError::NotOwnerOrApproved));
    assert_eq!(ledger.nft_token(0).unwrap().owner_id().as_str(), "bob");
}

#[test]
fn transfer_errors_come_in_order() {
    let mut ledger = ledger_fixture(9);
    ledger_mint(&mut ledger, "alice");
    assert_eq!(
        ledger.nft_transfer(&ledger_call("alice", 1, 100), 4, ledger_account("bob"), None),
        Err(LedgerError::TokenNotFound)
    );
    assert_eq!(
        ledger.nft_transfer(&ledger_call("bob", 1, 100), 0, ledger_account("alice"), None),
        Err(LedgerError::NotOwnerOrApproved)
    );
    assert_eq!(
        ledger.nft_transfer(&ledger_call("alice", 1, 100), 0, ledger_account("alice"), None),
        Err(LedgerError::SenderIsReceiver)
    );
    assert_eq!(ledger.nft_token(0).unwrap().owner_id().as_str(), "alice");
    assert_eq!(ledger.nft_tokens_for_owner(&ledger_account("alice")), vec![0]);
}

#[test]
fn transfer_payout_splits_the_price() {
    let mut ledger = ledger_fixture(9);
    ledger_mint(&mut ledger, "alice");
    let id = ledger
        .nft_approve(&ledger_call("alice", 0, 100), 0, ledger_account("market"), None)
        .unwrap()
        .approval_id;
    let receipt = ledger
        .nft_transfer_payout(&ledger_call("market", 1, 100), 0, ledger_account("bob"), id, 30 * LEDGER_NEAR)
        .unwrap();
    assert_eq!(receipt.previous_owner_id, ledger_account("alice"));
    assert_eq!(
        receipt.payout,
        Payout {
            entries: vec![PayoutEntry { account: ledger_account("treasury"), amount: 6 * LEDGER_NEAR }],
            remainder: 24 * LEDGER_NEAR,
        }
    );
    assert_eq!(
        receipt.event,
        EventLog::ledger(
            Operation::Transfer,
            0,
            ledger_account("alice"),
            Some(ledger_account("bob")),
            Some(ledger_account("market")),
            Some(30 * LEDGER_NEAR),
        )
    );
    assert_eq!(ledger.nft_token(0).unwrap().owner_id().as_str(), "bob");
    assert!(!ledger.nft_is_approved(0, &ledger_account("market"), None));
}

#[test]
fn transfer_payout_errors() {
    let mut ledger = ledger_fixture(9);
    ledger_mint(&mut ledger, "alice");
    ledger.nft_approve(&ledger_call("alice", 0, 100), 0, ledger_account("market"), None).unwrap();
    ledger.nft_approve(&ledger_call("alice", 0, 100), 0, ledger_account("market"), None).unwrap();
    assert_eq!(
        ledger.nft_transfer_payout(&ledger_call("market", 1, 100), 9, ledger_account("bob"), 1, 10),
        Err(LedgerError::TokenNotFound)
    );
    assert_eq!(
        ledger.nft_transfer_payout(&ledger_call("eve", 1, 100), 0, ledger_account("bob"), 1, 10),
        Err(LedgerError::NotOwnerOrApproved)
    );
    assert_eq!(
        ledger.nft_transfer_payout(&ledger_call("market", 1, 100), 0, ledger_account("bob"), 0, 10),
        Err(LedgerError::StaleApproval)
    );
    assert_eq!(
        ledger.nft_transfer_payout(&ledger_call("market", 1, 100), 0, ledger_account("alice"), 1, 10),
        Err(LedgerError::SenderIsReceiver)
    );
    assert_eq!(ledger.nft_token(0).unwrap().owner_id().as_str(), "alice");
    assert!(ledger.nft_is_approved(0, &ledger_account("market"), Some(1)));
    assert!(ledger
        .nft_transfer_payout(&ledger_call("alice", 1, 100), 0, ledger_account("bob"), 99, 10)
        .is_ok());
}

#[test]
fn set_meta_is_for_the_ledger_owner() {
    let mut ledger = ledger_fixture(9);
    let refused = ledger.set_meta(
        &ledger_call("alice", 0, 100),
        "New".to_string(),
        "https://new".to_string(),
        None,
        3,
    );
    assert_eq!(refused, Err(LedgerError::NotContractOwner));
    assert_eq!(ledger.max_supply(), 9);
    assert_eq!(ledger.nft_metadata().name, "Chubby Runners");
    let accepted = ledger.set_meta(
        &ledger_call("owner", 0, 100),
        "New".to_string(),
        "https://new".to_string(),
        Some("icon".to_string()),
        3,
    );
    assert_eq!(accepted, Ok(()));
    assert_eq!(ledger.max_supply(), 3);
    assert_eq!(
        ledger.nft_metadata(),
        &NFTContractMetadata {
            spec: "nft-1.0.0".to_string(),
            name: "New".to_string(),
            symbol: "RUNNER".to_string(),
            icon: Some("icon".to_string()),
            base_uri: Some("https://new".to_string()),
            reference: None,
            reference_hash: None,
        }
    );
}

#[test]
fn set_meta_limits_the_base_address_in_bytes() {
    let mut ledger = ledger_fixture(9);
    assert_eq!(MAX_BASE_URI_BYTES, 100);
    let hundred = "a".repeat(100);
    assert_eq!(
        ledger.set_meta(&ledger_call("owner", 0, 100), "N".to_string(), hundred.clone(), None, 9),
        Ok(())
    );
    assert_eq!(ledger.nft_metadata().base_uri, Some(hundred));
    let longer = "a".repeat(101);
    assert_eq!(
        ledger.set_meta(&ledger_call("owner", 0, 100), "M".to_string(), longer, None, 1),
        Err(LedgerError::BaseUriTooLong)
    );
    let fifty_one_two_byte_chars = "é".repeat(51);
    assert_eq!(
        ledger.set_meta(&ledger_call("owner", 0, 100), "M".to_string(), fifty_one_two_byte_chars, None, 1),
        Err(LedgerError::BaseUriTooLong)
    );
    assert_eq!(ledger.nft_metadata().name, "N");
    assert_eq!(ledger.max_supply(), 9);
    assert_eq!(
        ledger.set_meta(&ledger_call("alice", 0, 100), "M".to_string(), "a".repeat(500), None, 1),
        Err(LedgerError::NotContractOwner)
    );
}

#[test]
fn set_meta_may_lower_the_cap_below_the_supply() {
    let mut ledger = ledger_fixture(9);
    ledger_mint(&mut ledger, "alice");
    ledger_mint(&mut ledger, "alice");
    ledger.set_meta(&ledger_call("owner", 0, 100), "N".to_string(), "b".to_string(), None, 1).unwrap();
    assert_eq!(ledger.nft_total_supply(), 2);
    assert_eq!(
        ledger.nft_mint(&ledger_call("alice", LEDGER_PRICE, 100), ledger_account("alice"), 0, 0),
        Err(LedgerError::SupplyExhausted)
    );
}

#[test]
fn restore_rebuilds_the_owner_index() {
    let mut ledger = ledger_fixture(9);
    ledger_mint(&mut ledger, "alice");
    ledger_mint(&mut ledger, "bob");
    ledger_mint(&mut ledger, "alice");
    let tokens: Vec<Token> = vec![
        Token::new(ledger_account("alice"), RoyaltyTable::empty()),
        Token::new(ledger_account("bob"), RoyaltyTable::empty()),
        Token::new(ledger_account("alice"), RoyaltyTable::empty()),
    ];
    let metadata: Vec<TokenMetadata> = (0..3).map(TokenMetadata::minted).collect();
    let restored = Contract::restore(
        ledger_account("owner"),
        NFTContractMetadata::describe("N".to_string(), None, "b".to_string()),
        ledger_account("treasury"),
        9,
        LEDGER_PRICE,
        LEDGER_START,
        LEDGER_END,
        RoyaltyTable::empty(),
        tokens,
        metadata,
    )
    .unwrap();
    assert_eq!(restored.nft_total_supply(), 3);
    assert_eq!(restored.nft_tokens_for_owner(&ledger_account("alice")), vec![0, 2]);
    assert_eq!(restored.nft_tokens_for_owner(&ledger_account("bob")), vec![1]);
    assert_eq!(
        restored.nft_tokens_for_owner(&ledger_account("alice")),
        ledger.nft_tokens_for_owner(&ledger_account("alice"))
    );
    let uneven = Contract::restore(
        ledger_account("owner"),
        NFTContractMetadata::describe("N".to_string(), None, "b".to_string()),
        ledger_account("treasury"),
        9,
        LEDGER_PRICE,
        LEDGER_START,
        LEDGER_END,
        RoyaltyTable::empty(),
        vec![Token::new(ledger_account("alice"), RoyaltyTable::empty())],
        vec![],
    );
    assert!(uneven.is_none());
}

#[test]
fn restore_of_a_token_checks_its_approvals() {
    let mut approvals = runner_nft::account_map::AccountMap::new();
    approvals.insert(ledger_account("market"), 4u64);
    assert!(Token::restore(ledger_account("alice"), approvals, 4, RoyaltyTable::empty()).is_none());
    let mut approvals = runner_nft::account_map::AccountMap::new();
    approvals.insert(ledger_account("market"), 4u64);
    let token = Token::restore(ledger_account("alice"), approvals, 5, RoyaltyTable::empty()).unwrap();
    assert!(token.is_approved(&ledger_account("market"), Some(4)));
    assert!(token.may_transfer(&ledger_account("market"), None));
    assert!(token.may_transfer(&ledger_account("alice"), Some(77)));
    assert!(!token.may_transfer(&ledger_account("bob"), None));
}
