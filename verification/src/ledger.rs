//! The token ledger: token records, their owners and the rules that change them.

use crate::account::{optional_payment, optional_text, AccountId, CallContext, Payment, Transfer};
use crate::events::{ledger_event, EventLog, Operation};
use crate::metadata::{described, minted_description, ContractDescription, NFTContractMetadata, TokenDescription, TokenMetadata, DATA_IMAGE_SVG_ICON, DEFAULT_NAME, MAX_BASE_URI_BYTES};
use crate::owner_index::OwnerIndex;
use crate::royalty::{dues_of, seller_remainder, valid_table, Payout, RoyaltyTable, Share};
use crate::storage::{rent_due, settle_storage};
use crate::token::{approve_step, approved, may_transfer, revoke_all_step, revoke_step, transfer_step, Token, TokenView};
use vstd::prelude::*;
use vstd::utf8::encode_utf8;

verus! {

/// Why the ledger refuses a call.
#[derive(Clone, Copy, Debug, PartialEq, Eq)]
pub enum LedgerError {
    /// Every token that may exist has been minted.
    SupplyExhausted,
    /// The attached payment is below the price plus the storage rent.
    InsufficientPayment,
    /// The mint window is not open and the caller is not the treasury.
    MintWindowClosed,
    /// The caller does not own the token.
    NotOwner,
    /// No token has this number.
    TokenNotFound,
    /// The caller neither owns the token nor holds a matching approval.
    NotOwnerOrApproved,
    /// The token would go to the account that already owns it.
    SenderIsReceiver,
    /// The caller's approval no longer carries the expected identifier.
    StaleApproval,
    /// The token's approval identifiers are used up.
    ApprovalIdsExhausted,
    /// The caller does not own the ledger.
    NotContractOwner,
    /// The base address is longer than the metadata takes.
    BaseUriTooLong,
}

/// The token ledger.
pub struct Contract {
    owner_id: AccountId,
    tokens_per_owner: OwnerIndex,
    tokens_by_id: Vec<Token>,
    token_metadata_by_id: Vec<TokenMetadata>,
    metadata: NFTContractMetadata,
    treasury_id: AccountId,
    mint_price: u128,
    max_supply: u128,
    mint_start: u64,
    mint_end: u64,
    perpetual_royalties: RoyaltyTable,
}

/// The ledger as a mathematical value. A token's number is its position in
/// `tokens`.
pub struct LedgerView {
    pub owner: Seq<char>,
    pub treasury: Seq<char>,
    pub metadata: ContractDescription,
    pub mint_price: u128,
    pub max_supply: u128,
    pub mint_start: u64,
    pub mint_end: u64,
    pub royalties: Seq<Share>,
    pub tokens: Seq<TokenView>,
    pub token_metadata: Seq<TokenDescription>,
}

impl View for Contract {
    type V = LedgerView;

    closed spec fn view(&self) -> LedgerView {
        LedgerView {
            owner: self.owner_id@,
            treasury: self.treasury_id@,
            metadata: self.metadata@,
            mint_price: self.mint_price,
            max_supply: self.max_supply,
            mint_start: self.mint_start,
            mint_end: self.mint_end,
            royalties: self.perpetual_royalties@,
            tokens: Seq::new(self.tokens_by_id@.len(), |i: int| self.tokens_by_id@[i]@),
            token_metadata: Seq::new(
                self.token_metadata_by_id@.len(),
                |i: int| self.token_metadata_by_id@[i]@,
            ),
        }
    }
}

/// The ledger right after it was set up: the given settings and no token.
pub open spec fn opened(
    owner: Seq<char>,
    metadata: ContractDescription,
    treasury: Seq<char>,
    max_supply: u128,
    mint_price: u128,
    mint_start: u64,
    mint_end: u64,
    royalties: Seq<Share>,
) -> LedgerView {
    LedgerView {
        owner,
        treasury,
        metadata,
        mint_price,
        max_supply,
        mint_start,
        mint_end,
        royalties,
        tokens: Seq::empty(),
        token_metadata: Seq::empty(),
    }
}

/// The royalty table behind one that may be absent: none stands for the
/// empty table.
pub open spec fn optional_royalties(table: Option<RoyaltyTable>) -> Seq<Share> {
    match table {
        Some(t) => t@,
        None => Seq::empty(),
    }
}

impl Contract {
    /// The owner index, as stored.
    pub closed spec fn index(&self) -> OwnerIndex {
        self.tokens_per_owner
    }

    /// Whether the owner index records the token under the account.
    pub open spec fn owns(&self, account: Seq<char>, token_id: u64) -> bool {
        self.index().holds(account, token_id)
    }

    /// The ledger is well formed when each token has its descriptive record,
    /// every record and table is well formed, and the owner index records
    /// each token under its owner and nowhere else.
    pub closed spec fn wf(&self) -> bool {
        &&& self.tokens_by_id@.len() == self.token_metadata_by_id@.len()
        &&& self.perpetual_royalties.wf()
        &&& self.tokens_per_owner.wf()
        &&& forall|i: int| 0 <= i < self.tokens_by_id@.len() ==> (#[trigger] self.tokens_by_id@[i]).wf()
        &&& forall|a: Seq<char>, t: u64|
            self.tokens_per_owner.holds(a, t) <==> (t < self.tokens_by_id@.len()
                && self.tokens_by_id@[t as int]@.owner == a)
    }

    /// What holds of every well formed ledger: each token has a descriptive
    /// record; the tables are valid; every approval in force was issued
    /// before its token's counter reached its present value; and the owner
    /// index records a token under an account exactly when that account is
    /// the token's owner.
    pub proof fn lemma_wf(&self)
        requires
            self.wf(),
        ensures
            self@.tokens.len() == self@.token_metadata.len(),
            valid_table(self@.royalties),
            forall|i: int| 0 <= i < self@.tokens.len() ==> valid_table((#[trigger] self@.tokens[i]).royalty),
            forall|i: int, a: Seq<char>|
                0 <= i < self@.tokens.len() && (#[trigger] self@.tokens[i].approvals.contains_key(a))
                    ==> self@.tokens[i].approvals[a] < self@.tokens[i].next_approval_id,
            forall|a: Seq<char>, t: u64|
                self.owns(a, t) <==> (t < self@.tokens.len() && self@.tokens[t as int].owner == a),
    {
        assert forall|i: int| 0 <= i < self@.tokens.len() implies valid_table(
            (#[trigger] self@.tokens[i]).royalty,
        ) by {
            self.tokens_by_id@[i].lemma_royalty_valid();
        }
        assert forall|i: int, a: Seq<char>|
            0 <= i < self@.tokens.len() && (#[trigger] self@.tokens[i].approvals.contains_key(
                a,
            )) implies self@.tokens[i].approvals[a] < self@.tokens[i].next_approval_id by {
            self.tokens_by_id@[i].lemma_approvals_below_counter(a);
        }
    }

    /// At no time does a token have two owners: the index records it under
    /// one account at most.
    pub proof fn lemma_single_owner(&self, first: Seq<char>, second: Seq<char>, token_id: u64)
        requires
            self.wf(),
            self.owns(first, token_id),
            self.owns(second, token_id),
        ensures
            first == second,
            token_id < self@.tokens.len(),
            self@.tokens[token_id as int].owner == first,
    {
    }

    /// Sets up a ledger with the given settings and no token. Without a
    /// royalty table, tokens carry the empty one.
    pub fn new(
        owner_id: AccountId,
        metadata: NFTContractMetadata,
        treasury_id: AccountId,
        max_supply: u128,
        mint_price: u128,
        mint_start: u64,
        mint_end: u64,
        perpetual_royalties: Option<RoyaltyTable>,
    ) -> (this: Contract)
        requires
            perpetual_royalties matches Some(table) ==> table.wf(),
        ensures
            this.wf(),
            this@ == opened(
                owner_id@,
                metadata@,
                treasury_id@,
                max_supply,
                mint_price,
                mint_start,
                mint_end,
                optional_royalties(perpetual_royalties),
            ),
    {
        let royalty = match perpetual_royalties {
            Some(table) => table,
            None => RoyaltyTable::empty(),
        };
        let this = Contract {
            owner_id,
            tokens_per_owner: OwnerIndex::new(),
            tokens_by_id: Vec::new(),
            token_metadata_by_id: Vec::new(),
            metadata,
            treasury_id,
            mint_price,
            max_supply,
            mint_start,
            mint_end,
            perpetual_royalties: royalty,
        };
        assert(this@.tokens =~= Seq::empty());
        assert(this@.token_metadata =~= Seq::empty());
        this
    }

    /// Sets up a ledger under the default name and icon.
    pub fn new_default_meta(
        owner_id: AccountId,
        treasury_id: AccountId,
        max_supply: u128,
        base_uri: String,
        mint_price: u128,
        mint_start: u64,
        mint_end: u64,
        perpetual_royalties: Option<RoyaltyTable>,
    ) -> (this: Contract)
        requires
            perpetual_royalties matches Some(table) ==> table.wf(),
        ensures
            this.wf(),
            this@ == opened(
                owner_id@,
                described(DEFAULT_NAME@, Some(DATA_IMAGE_SVG_ICON@), base_uri@),
                treasury_id@,
                max_supply,
                mint_price,
                mint_start,
                mint_end,
                optional_royalties(perpetual_royalties),
            ),
    {
        Contract::new(
            owner_id,
            NFTContractMetadata::describe(
                DEFAULT_NAME.to_owned(),
                Some(DATA_IMAGE_SVG_ICON.to_owned()),
                base_uri,
            ),
            treasury_id,
            max_supply,
            mint_price,
            mint_start,
            mint_end,
            perpetual_royalties,
        )
    }
}

/// What the ledger hands back for a mint.
#[derive(Debug, PartialEq, Eq)]
pub struct MintReceipt {
    /// Number of the new token.
    pub token_id: u64,
    /// Rent charged for the storage that the new records take.
    pub rent: u128,
    /// The mint price on its way to the treasury; none when the treasury mints.
    pub treasury_payment: Option<Transfer>,
    /// What was attached beyond price and rent, on its way back to the caller.
    pub refund: Option<Transfer>,
    /// The event to log.
    pub event: EventLog,
}

/// Sale terms on their way to the account that an owner approved.
#[derive(Debug, PartialEq, Eq)]
pub struct SaleNotice {
    pub token_id: u64,
    pub owner_id: AccountId,
    pub approval_id: u64,
    pub grantee_id: AccountId,
    pub msg: String,
}

/// Sale terms on their way, as a mathematical value.
pub struct Notice {
    pub token_id: u64,
    pub owner: Seq<char>,
    pub approval_id: u64,
    pub grantee: Seq<char>,
    pub msg: Seq<char>,
}

impl View for SaleNotice {
    type V = Notice;

    open spec fn view(&self) -> Notice {
        Notice {
            token_id: self.token_id,
            owner: self.owner_id@,
            approval_id: self.approval_id,
            grantee: self.grantee_id@,
            msg: self.msg@,
        }
    }
}

/// The notice behind one that may be absent.
pub open spec fn optional_notice(notice: Option<SaleNotice>) -> Option<Notice> {
    match notice {
        Some(n) => Some(n@),
        None => None,
    }
}

/// What the ledger hands back for an approval.
#[derive(Debug, PartialEq, Eq)]
pub struct ApprovalReceipt {
    /// The identifier under which the account is now approved.
    pub approval_id: u64,
    /// The sale terms to forward to the approved account, if any came along.
    pub notice: Option<SaleNotice>,
    /// The event to log.
    pub event: EventLog,
}

/// What the ledger hands back for a transfer.
#[derive(Debug, PartialEq, Eq)]
pub struct TransferReceipt {
    /// The account that owned the token before.
    pub previous_owner_id: AccountId,
    /// The event to log.
    pub event: EventLog,
}

/// What the ledger hands back for a transfer with payout.
#[derive(Debug, PartialEq, Eq)]
pub struct PayoutReceipt {
    /// The account that owned the token before.
    pub previous_owner_id: AccountId,
    /// The split of the sale price.
    pub payout: Payout,
    /// The event to log.
    pub event: EventLog,
}

/// Whether a mint is made by the treasury.
pub open spec fn by_treasury(ledger: LedgerView, caller: Seq<char>) -> bool {
    caller == ledger.treasury
}

/// The price that a mint owes: the mint price, or nothing for the treasury.
pub open spec fn mint_price_due(ledger: LedgerView, caller: Seq<char>) -> nat {
    if by_treasury(ledger, caller) {
        0
    } else {
        ledger.mint_price as nat
    }
}

/// The least payment that a mint must carry whatever the rent: the mint
/// price, or one unit for the treasury.
pub open spec fn least_mint_payment(ledger: LedgerView, caller: Seq<char>) -> nat {
    if by_treasury(ledger, caller) {
        1
    } else {
        ledger.mint_price as nat
    }
}

/// The error, if any, with which a mint is refused. The supply is looked at
/// first, then the mint window, then the payment.
pub open spec fn mint_error(
    ledger: LedgerView,
    caller: Seq<char>,
    attached: u128,
    now: u64,
    usage_before: u64,
    usage_after: u64,
) -> Option<LedgerError> {
    if ledger.tokens.len() >= ledger.max_supply {
        Some(LedgerError::SupplyExhausted)
    } else if !by_treasury(ledger, caller) && !(ledger.mint_start <= now < ledger.mint_end) {
        Some(LedgerError::MintWindowClosed)
    } else if attached < least_mint_payment(ledger, caller) || attached < mint_price_due(
        ledger,
        caller,
    ) + rent_due(usage_before, usage_after) {
        Some(LedgerError::InsufficientPayment)
    } else {
        None
    }
}

/// The ledger after a mint: one more token, owned by the receiver, without
/// approvals, under the ledger's royalty table, with its descriptive record.
pub open spec fn minted(ledger: LedgerView, receiver: Seq<char>) -> LedgerView {
    LedgerView {
        tokens: ledger.tokens.push(
            TokenView {
                owner: receiver,
                approvals: Map::empty(),
                next_approval_id: 0,
                royalty: ledger.royalties,
            },
        ),
        token_metadata: ledger.token_metadata.push(minted_description(ledger.tokens.len() as u64)),
        ..ledger
    }
}

/// The mint price on its way to the treasury; nothing when the treasury mints.
pub open spec fn mint_treasury_payment(ledger: LedgerView, caller: Seq<char>) -> Option<Payment> {
    if by_treasury(ledger, caller) {
        None
    } else {
        Some(Payment { receiver: ledger.treasury, amount: ledger.mint_price as nat })
    }
}

/// What goes back to the caller of a mint: whatever was attached beyond
/// price and rent, if anything was.
pub open spec fn mint_refund(
    ledger: LedgerView,
    caller: Seq<char>,
    attached: u128,
    usage_before: u64,
    usage_after: u64,
) -> Option<Payment> {
    let excess = attached - mint_price_due(ledger, caller) - rent_due(usage_before, usage_after);
    if excess > 0 {
        Some(Payment { receiver: caller, amount: excess as nat })
    } else {
        None
    }
}

/// The ledger with one token record replaced.
pub open spec fn with_token(ledger: LedgerView, token_id: u64, token: TokenView) -> LedgerView {
    LedgerView { tokens: ledger.tokens.update(token_id as int, token), ..ledger }
}

/// Whether the caller owns the token. Nobody owns a token that does not exist.
pub open spec fn is_owner(ledger: LedgerView, caller: Seq<char>, token_id: u64) -> bool {
    token_id < ledger.tokens.len() && ledger.tokens[token_id as int].owner == caller
}

/// The error, if any, with which an approval is refused.
pub open spec fn approve_error(ledger: LedgerView, caller: Seq<char>, token_id: u64) -> Option<
    LedgerError,
> {
    if !is_owner(ledger, caller, token_id) {
        Some(LedgerError::NotOwner)
    } else if ledger.tokens[token_id as int].next_approval_id == u64::MAX {
        Some(LedgerError::ApprovalIdsExhausted)
    } else {
        None
    }
}

/// The error, if any, with which a plain transfer is refused.
pub open spec fn transfer_error(
    ledger: LedgerView,
    caller: Seq<char>,
    token_id: u64,
    receiver: Seq<char>,
    approval_id: Option<u64>,
) -> Option<LedgerError> {
    if token_id >= ledger.tokens.len() {
        Some(LedgerError::TokenNotFound)
    } else if !may_transfer(ledger.tokens[token_id as int], caller, approval_id) {
        Some(LedgerError::NotOwnerOrApproved)
    } else if ledger.tokens[token_id as int].owner == receiver {
        Some(LedgerError::SenderIsReceiver)
    } else {
        None
    }
}

/// The error, if any, with which a transfer with payout is refused. A caller
/// that is not the owner needs an approval, and that approval must carry the
/// expected identifier.
pub open spec fn payout_error(
    ledger: LedgerView,
    caller: Seq<char>,
    token_id: u64,
    receiver: Seq<char>,
    approval_id: u64,
) -> Option<LedgerError> {
    if token_id >= ledger.tokens.len() {
        Some(LedgerError::TokenNotFound)
    } else {
        let token = ledger.tokens[token_id as int];
        if caller != token.owner && !token.approvals.contains_key(caller) {
            Some(LedgerError::NotOwnerOrApproved)
        } else if caller != token.owner && token.approvals[caller] != approval_id {
            Some(LedgerError::StaleApproval)
        } else if token.owner == receiver {
            Some(LedgerError::SenderIsReceiver)
        } else {
            None
        }
    }
}

/// The account that acted under an approval: the caller, unless it is the
/// owner itself.
pub open spec fn acting_under_approval(token: TokenView, caller: Seq<char>) -> Option<Seq<char>> {
    if caller == token.owner {
        None
    } else {
        Some(caller)
    }
}

/// The error, if any, with which a change of the ledger's settings is
/// refused.
pub open spec fn set_meta_error(ledger: LedgerView, caller: Seq<char>, base_uri_bytes: nat) -> Option<
    LedgerError,
> {
    if caller != ledger.owner {
        Some(LedgerError::NotContractOwner)
    } else if base_uri_bytes > MAX_BASE_URI_BYTES {
        Some(LedgerError::BaseUriTooLong)
    } else {
        None
    }
}

impl Contract {
    /// The account that owns the ledger.
    pub fn owner_id(&self) -> (owner: &AccountId)
        ensures
            owner@ == self@.owner,
    {
        &self.owner_id
    }

    /// The account that receives the mint price.
    pub fn treasury_id(&self) -> (treasury: &AccountId)
        ensures
            treasury@ == self@.treasury,
    {
        &self.treasury_id
    }

    /// The price of a mint.
    pub fn mint_price(&self) -> (price: u128)
        ensures
            price == self@.mint_price,
    {
        self.mint_price
    }

    /// The most tokens that may exist.
    pub fn max_supply(&self) -> (cap: u128)
        ensures
            cap == self@.max_supply,
    {
        self.max_supply
    }

    /// The time from which anyone may mint.
    pub fn mint_start(&self) -> (start: u64)
        ensures
            start == self@.mint_start,
    {
        self.mint_start
    }

    /// The time from which only the treasury may mint.
    pub fn mint_end(&self) -> (end: u64)
        ensures
            end == self@.mint_end,
    {
        self.mint_end
    }

    /// The royalty table that new tokens carry.
    pub fn perpetual_royalties(&self) -> (table: &RoyaltyTable)
        ensures
            table@ == self@.royalties,
    {
        &self.perpetual_royalties
    }

    /// Rebuilds a ledger from its settings and its token records, taken in
    /// the order of their numbers, unless the records and the descriptive
    /// records differ in number. The owner index is made anew from the
    /// records.
    pub fn restore(
        owner_id: AccountId,
        metadata: NFTContractMetadata,
        treasury_id: AccountId,
        max_supply: u128,
        mint_price: u128,
        mint_start: u64,
        mint_end: u64,
        perpetual_royalties: RoyaltyTable,
        tokens: Vec<Token>,
        token_metadata: Vec<TokenMetadata>,
    ) -> (result: Option<Contract>)
        requires
            perpetual_royalties.wf(),
            forall|i: int| 0 <= i < tokens@.len() ==> (#[trigger] tokens@[i]).wf(),
        ensures
            match result {
                Some(this) => {
                    &&& tokens@.len() == token_metadata@.len()
                    &&& this.wf()
                    &&& this@ == (LedgerView {
                        tokens: Seq::new(tokens@.len(), |i: int| tokens@[i]@),
                        token_metadata: Seq::new(token_metadata@.len(), |i: int| token_metadata@[i]@),
                        ..opened(
                            owner_id@,
                            metadata@,
                            treasury_id@,
                            max_supply,
                            mint_price,
                            mint_start,
                            mint_end,
                            perpetual_royalties@,
                        )
                    })
                },
                None => tokens@.len() != token_metadata@.len(),
            },
    {
        let n: usize = tokens.len();
        if n != token_metadata.len() {
            return None;
        }
        let mut index = OwnerIndex::new();
        let mut i: usize = 0;
        while i < n
            invariant
                n == tokens@.len(),
                i <= n,
                index.wf(),
                forall|a: Seq<char>, t: u64|
                    index.holds(a, t) <==> (t < i && tokens@[t as int]@.owner == a),
            decreases n - i,
        {
            index.add(tokens[i].owner_id(), i as u64);
            i += 1;
        }
        Some(
            Contract {
                owner_id,
                tokens_per_owner: index,
                tokens_by_id: tokens,
                token_metadata_by_id: token_metadata,
                metadata,
                treasury_id,
                mint_price,
                max_supply,
                mint_start,
                mint_end,
                perpetual_royalties,
            },
        )
    }

    /// How many tokens exist.
    pub fn nft_total_supply(&self) -> (supply: u128)
        ensures
            supply == self@.tokens.len(),
    {
        self.tokens_by_id.len() as u128
    }

    /// The ledger's own descriptive record.
    pub fn nft_metadata(&self) -> (meta: &NFTContractMetadata)
        ensures
            meta@ == self@.metadata,
    {
        &self.metadata
    }

    /// The record of a token, if the token exists.
    pub fn nft_token(&self, token_id: u64) -> (token: Option<&Token>)
        requires
            self.wf(),
        ensures
            match token {
                Some(t) => token_id < self@.tokens.len() && t@ == self@.tokens[token_id as int]
                    && t.wf(),
                None => token_id >= self@.tokens.len(),
            },
    {
        if token_id < self.tokens_by_id.len() as u64 {
            Some(&self.tokens_by_id[token_id as usize])
        } else {
            None
        }
    }

    /// The descriptive record of a token, if the token exists.
    pub fn nft_token_metadata(&self, token_id: u64) -> (meta: Option<&TokenMetadata>)
        requires
            self.wf(),
        ensures
            match meta {
                Some(m) => token_id < self@.token_metadata.len() && m@
                    == self@.token_metadata[token_id as int],
                None => token_id >= self@.token_metadata.len(),
            },
    {
        if token_id < self.token_metadata_by_id.len() as u64 {
            Some(&self.token_metadata_by_id[token_id as usize])
        } else {
            None
        }
    }

    /// The tokens that an account owns.
    pub fn nft_tokens_for_owner(&self, account_id: &AccountId) -> (tokens: Vec<u64>)
        requires
            self.wf(),
        ensures
            tokens@.no_duplicates(),
            forall|t: u64| tokens@.contains(t) <==> is_owner(self@, account_id@, t),
    {
        self.tokens_per_owner.tokens_of(account_id)
    }

    /// Whether an account holds an approval for a token and, where an
    /// identifier is given, holds it under exactly that identifier.
    pub fn nft_is_approved(
        &self,
        token_id: u64,
        approved_account_id: &AccountId,
        approval_id: Option<u64>,
    ) -> (r: bool)
        requires
            self.wf(),
        ensures
            r == (token_id < self@.tokens.len() && approved(
                self@.tokens[token_id as int],
                approved_account_id@,
                approval_id,
            )),
    {
        if token_id < self.tokens_by_id.len() as u64 {
            self.tokens_by_id[token_id as usize].is_approved(approved_account_id, approval_id)
        } else {
            false
        }
    }

    /// Changes the collection's name, base address, icon and supply cap. Only
    /// the ledger's owner may do so, and the base address takes at most a
    /// hundred bytes.
    pub fn set_meta(
        &mut self,
        ctx: &CallContext,
        name: String,
        base_uri: String,
        icon: Option<String>,
        max_supply: u128,
    ) -> (result: Result<(), LedgerError>)
        requires
            old(self).wf(),
        ensures
            final(self).wf(),
            match result {
                Ok(_) => {
                    &&& set_meta_error(
                        old(self)@,
                        ctx.predecessor_id@,
                        encode_utf8(base_uri@).len(),
                    ) is None
                    &&& final(self)@ == (LedgerView {
                        max_supply,
                        metadata: described(name@, optional_text(icon), base_uri@),
                        ..old(self)@
                    })
                },
                Err(e) => {
                    &&& set_meta_error(
                        old(self)@,
                        ctx.predecessor_id@,
                        encode_utf8(base_uri@).len(),
                    ) == Some(e)
                    &&& *final(self) == *old(self)
                },
            },
    {
        if !ctx.predecessor_id.same(&self.owner_id) {
            return Err(LedgerError::NotContractOwner);
        }
        if base_uri.as_str().as_bytes().len() > MAX_BASE_URI_BYTES {
            return Err(LedgerError::BaseUriTooLong);
        }
        self.max_supply = max_supply;
        self.metadata = NFTContractMetadata::describe(name, icon, base_uri);
        Ok(())
    }

    /// Mints the next token for a receiver.
    ///
    /// The two usage figures are the host's storage usage measured just
    /// before and just after the writes of this mint. A refused mint leaves
    /// the ledger as it was.
    pub fn nft_mint(
        &mut self,
        ctx: &CallContext,
        receiver_id: AccountId,
        usage_before: u64,
        usage_after: u64,
    ) -> (result: Result<MintReceipt, LedgerError>)
        requires
            old(self).wf(),
        ensures
            final(self).wf(),
            match result {
                Ok(receipt) => {
                    &&& mint_error(
                        old(self)@,
                        ctx.predecessor_id@,
                        ctx.attached_deposit,
                        ctx.block_timestamp,
                        usage_before,
                        usage_after,
                    ) is None
                    &&& final(self)@ == minted(old(self)@, receiver_id@)
                    &&& final(self)@.tokens.len() == old(self)@.tokens.len() + 1
                    &&& final(self)@.tokens.len() <= old(self)@.max_supply
                    &&& receipt.token_id == old(self)@.tokens.len()
                    &&& receipt.rent == rent_due(usage_before, usage_after)
                    &&& optional_payment(receipt.treasury_payment) == mint_treasury_payment(
                        old(self)@,
                        ctx.predecessor_id@,
                    )
                    &&& optional_payment(receipt.refund) == mint_refund(
                        old(self)@,
                        ctx.predecessor_id@,
                        ctx.attached_deposit,
                        usage_before,
                        usage_after,
                    )
                    &&& receipt.event@ == ledger_event(
                        Operation::Mint,
                        receipt.token_id,
                        receiver_id@,
                        None,
                        None,
                        None,
                    )
                },
                Err(e) => {
                    &&& mint_error(
                        old(self)@,
                        ctx.predecessor_id@,
                        ctx.attached_deposit,
                        ctx.block_timestamp,
                        usage_before,
                        usage_after,
                    ) == Some(e)
                    &&& *final(self) == *old(self)
                },
            },
    {
        let supply: u128 = self.nft_total_supply();
        if supply >= self.max_supply {
            return Err(LedgerError::SupplyExhausted);
        }
        let is_treasury: bool = ctx.predecessor_id.same(&self.treasury_id);
        if !is_treasury && !(self.mint_start <= ctx.block_timestamp && ctx.block_timestamp
            < self.mint_end) {
            return Err(LedgerError::MintWindowClosed);
        }
        let need_to_attach: u128 = if is_treasury {
            1
        } else {
            self.mint_price
        };
        let price_due: u128 = if is_treasury {
            0
        } else {
            self.mint_price
        };
        if ctx.attached_deposit < need_to_attach {
            return Err(LedgerError::InsufficientPayment);
        }
        let charge = match settle_storage(usage_before, usage_after, price_due, ctx.attached_deposit) {
            Ok(charge) => charge,
            Err(_) => {
                return Err(LedgerError::InsufficientPayment);
            },
        };
        let ghost before = *self;
        let token_id: u64 = self.tokens_by_id.len() as u64;
        let token = Token::new(receiver_id.clone(), self.perpetual_royalties.clone());
        self.tokens_by_id.push(token);
        self.token_metadata_by_id.push(TokenMetadata::minted(token_id));
        self.tokens_per_owner.add(&receiver_id, token_id);
        proof {
            assert(self@.tokens =~= minted(before@, receiver_id@).tokens);
            assert(self@.token_metadata =~= minted(before@, receiver_id@).token_metadata);
            assert forall|i: int| 0 <= i < self.tokens_by_id@.len() implies (
            #[trigger] self.tokens_by_id@[i]).wf() by {
                if i < before.tokens_by_id@.len() {
                    assert(self.tokens_by_id@[i] == before.tokens_by_id@[i]);
                }
            }
            assert forall|a: Seq<char>, t: u64|
                self.tokens_per_owner.holds(a, t) <==> (t < self.tokens_by_id@.len()
                    && self.tokens_by_id@[t as int]@.owner == a) by {
                if t < before.tokens_by_id@.len() {
                    assert(self.tokens_by_id@[t as int] == before.tokens_by_id@[t as int]);
                }
            }
        }
        let treasury_payment = if is_treasury {
            None
        } else {
            Some(Transfer { receiver_id: self.treasury_id.clone(), amount: self.mint_price })
        };
        let refund = if charge.refund > 0 {
            Some(Transfer { receiver_id: ctx.predecessor_id.clone(), amount: charge.refund })
        } else {
            None
        };
        Ok(
            MintReceipt {
                token_id,
                rent: charge.rent,
                treasury_payment,
                refund,
                event: EventLog::ledger(Operation::Mint, token_id, receiver_id, None, None, None),
            },
        )
    }

    /// Approves an account for a token on behalf of the token's owner.
    ///
    /// The account gets the token's next approval identifier, in place of
    /// any it held. Sale terms that come along are handed back as a notice
    /// for the approved account; the approval stands whatever becomes of
    /// that notice.
    pub fn nft_approve(
        &mut self,
        ctx: &CallContext,
        token_id: u64,
        account_id: AccountId,
        msg: Option<String>,
    ) -> (result: Result<ApprovalReceipt, LedgerError>)
        requires
            old(self).wf(),
        ensures
            final(self).wf(),
            match result {
                Ok(receipt) => {
                    &&& approve_error(old(self)@, ctx.predecessor_id@, token_id) is None
                    &&& final(self)@ == with_token(
                        old(self)@,
                        token_id,
                        approve_step(old(self)@.tokens[token_id as int], account_id@),
                    )
                    &&& receipt.approval_id == old(self)@.tokens[token_id as int].next_approval_id
                    &&& optional_notice(receipt.notice) == match msg {
                        Some(m) => Some(
                            Notice {
                                token_id,
                                owner: ctx.predecessor_id@,
                                approval_id: receipt.approval_id,
                                grantee: account_id@,
                                msg: m@,
                            },
                        ),
                        None => None,
                    }
                    &&& receipt.event@ == ledger_event(
                        Operation::Approve,
                        token_id,
                        ctx.predecessor_id@,
                        Some(account_id@),
                        None,
                        Some(receipt.approval_id as u128),
                    )
                },
                Err(e) => {
                    &&& approve_error(old(self)@, ctx.predecessor_id@, token_id) == Some(e)
                    &&& *final(self) == *old(self)
                },
            },
    {
        if token_id >= self.tokens_by_id.len() as u64 {
            return Err(LedgerError::NotOwner);
        }
        let at: usize = token_id as usize;
        if !ctx.predecessor_id.same(self.tokens_by_id[at].owner_id()) {
            return Err(LedgerError::NotOwner);
        }
        if self.tokens_by_id[at].next_approval_id() == u64::MAX {
            return Err(LedgerError::ApprovalIdsExhausted);
        }
        let ghost before = *self;
        let approval_id: u64 = self.tokens_by_id[at].approve(account_id.clone());
        proof {
            self.lemma_token_replaced(before, token_id);
        }
        let notice = match msg {
            Some(m) => Some(
                SaleNotice {
                    token_id,
                    owner_id: ctx.predecessor_id.clone(),
                    approval_id,
                    grantee_id: account_id.clone(),
                    msg: m,
                },
            ),
            None => None,
        };
        Ok(
            ApprovalReceipt {
                approval_id,
                notice,
                event: EventLog::ledger(
                    Operation::Approve,
                    token_id,
                    ctx.predecessor_id.clone(),
                    Some(account_id),
                    None,
                    Some(approval_id as u128),
                ),
            },
        )
    }

    /// Revokes an account's approval for a token on behalf of the token's
    /// owner. Nothing changes if the account holds none.
    pub fn nft_revoke(&mut self, ctx: &CallContext, token_id: u64, account_id: &AccountId) -> (result:
        Result<EventLog, LedgerError>)
        requires
            old(self).wf(),
        ensures
            final(self).wf(),
            match result {
                Ok(event) => {
                    &&& is_owner(old(self)@, ctx.predecessor_id@, token_id)
                    &&& final(self)@ == with_token(
                        old(self)@,
                        token_id,
                        revoke_step(old(self)@.tokens[token_id as int], account_id@),
                    )
                    &&& event@ == ledger_event(
                        Operation::Revoke,
                        token_id,
                        ctx.predecessor_id@,
                        Some(account_id@),
                        None,
                        None,
                    )
                },
                Err(e) => {
                    &&& !is_owner(old(self)@, ctx.predecessor_id@, token_id)
                    &&& e == LedgerError::NotOwner
                    &&& *final(self) == *old(self)
                },
            },
    {
        if token_id >= self.tokens_by_id.len() as u64 {
            return Err(LedgerError::NotOwner);
        }
        let at: usize = token_id as usize;
        if !ctx.predecessor_id.same(self.tokens_by_id[at].owner_id()) {
            return Err(LedgerError::NotOwner);
        }
        let ghost before = *self;
        let _ = self.tokens_by_id[at].revoke(account_id);
        proof {
            self.lemma_token_replaced(before, token_id);
        }
        Ok(
            EventLog::ledger(
                Operation::Revoke,
                token_id,
                ctx.predecessor_id.clone(),
                Some(account_id.clone()),
                None,
                None,
            ),
        )
    }

    /// Revokes every approval for a token on behalf of the token's owner.
    pub fn nft_revoke_all(&mut self, ctx: &CallContext, token_id: u64) -> (result: Result<
        EventLog,
        LedgerError,
    >)
        requires
            old(self).wf(),
        ensures
            final(self).wf(),
            match result {
                Ok(event) => {
                    &&& is_owner(old(self)@, ctx.predecessor_id@, token_id)
                    &&& final(self)@ == with_token(
                        old(self)@,
                        token_id,
                        revoke_all_step(old(self)@.tokens[token_id as int]),
                    )
                    &&& event@ == ledger_event(
                        Operation::RevokeAll,
                        token_id,
                        ctx.predecessor_id@,
                        None,
                        None,
                        None,
                    )
                },
                Err(e) => {
                    &&& !is_owner(old(self)@, ctx.predecessor_id@, token_id)
                    &&& e == LedgerError::NotOwner
                    &&& *final(self) == *old(self)
                },
            },
    {
        if token_id >= self.tokens_by_id.len() as u64 {
            return Err(LedgerError::NotOwner);
        }
        let at: usize = token_id as usize;
        if !ctx.predecessor_id.same(self.tokens_by_id[at].owner_id()) {
            return Err(LedgerError::NotOwner);
        }
        let ghost before = *self;
        self.tokens_by_id[at].revoke_all();
        proof {
            self.lemma_token_replaced(before, token_id);
        }
        Ok(
            EventLog::ledger(
                Operation::RevokeAll,
                token_id,
                ctx.predecessor_id.clone(),
                None,
                None,
                None,
            ),
        )
    }

    /// Hands a token to a new owner: the record changes owner and loses its
    /// approvals, and the owner index follows.
    fn internal_transfer(&mut self, token_id: u64, receiver_id: &AccountId) -> (previous: AccountId)
        requires
            old(self).wf(),
            token_id < old(self)@.tokens.len(),
        ensures
            final(self).wf(),
            final(self)@ == with_token(
                old(self)@,
                token_id,
                transfer_step(old(self)@.tokens[token_id as int], receiver_id@),
            ),
            previous@ == old(self)@.tokens[token_id as int].owner,
    {
        let ghost before = *self;
        let supply: usize = self.tokens_by_id.len();
        assert(self@.tokens.len() == supply);
        let at: usize = token_id as usize;
        let previous = self.tokens_by_id[at].transfer_to(receiver_id.clone());
        self.tokens_per_owner.remove(&previous, token_id);
        self.tokens_per_owner.add(receiver_id, token_id);
        proof {
            assert(self@.tokens =~= before@.tokens.update(
                token_id as int,
                self.tokens_by_id@[token_id as int]@,
            ));
            assert forall|i: int| 0 <= i < self.tokens_by_id@.len() implies (
            #[trigger] self.tokens_by_id@[i]).wf() by {
                if i != token_id {
                    assert(self.tokens_by_id@[i] == before.tokens_by_id@[i]);
                }
            }
            assert forall|a: Seq<char>, t: u64|
                self.tokens_per_owner.holds(a, t) <==> (t < self.tokens_by_id@.len()
                    && self.tokens_by_id@[t as int]@.owner == a) by {
                assert(before.tokens_per_owner.holds(a, t) <==> (t < before.tokens_by_id@.len()
                    && before.tokens_by_id@[t as int]@.owner == a));
                if t < before.tokens_by_id@.len() && t != token_id {
                    assert(self.tokens_by_id@[t as int] == before.tokens_by_id@[t as int]);
                }
            }
        }
        previous
    }

    /// Hands a token to a new owner on behalf of its owner or of an account
    /// that the owner approved. Every approval for the token ends with the
    /// transfer.
    pub fn nft_transfer(
        &mut self,
        ctx: &CallContext,
        token_id: u64,
        receiver_id: AccountId,
        approval_id: Option<u64>,
    ) -> (result: Result<TransferReceipt, LedgerError>)
        requires
            old(self).wf(),
        ensures
            final(self).wf(),
            match result {
                Ok(receipt) => {
                    &&& transfer_error(
                        old(self)@,
                        ctx.predecessor_id@,
                        token_id,
                        receiver_id@,
                        approval_id,
                    ) is None
                    &&& final(self)@ == with_token(
                        old(self)@,
                        token_id,
                        transfer_step(old(self)@.tokens[token_id as int], receiver_id@),
                    )
                    &&& receipt.previous_owner_id@ == old(self)@.tokens[token_id as int].owner
                    &&& receipt.event@ == ledger_event(
                        Operation::Transfer,
                        token_id,
                        old(self)@.tokens[token_id as int].owner,
                        Some(receiver_id@),
                        acting_under_approval(
                            old(self)@.tokens[token_id as int],
                            ctx.predecessor_id@,
                        ),
                        None,
                    )
                },
                Err(e) => {
                    &&& transfer_error(
                        old(self)@,
                        ctx.predecessor_id@,
                        token_id,
                        receiver_id@,
                        approval_id,
                    ) == Some(e)
                    &&& *final(self) == *old(self)
                },
            },
    {
        if token_id >= self.tokens_by_id.len() as u64 {
            return Err(LedgerError::TokenNotFound);
        }
        let at: usize = token_id as usize;
        if !self.tokens_by_id[at].may_transfer(&ctx.predecessor_id, approval_id) {
            return Err(LedgerError::NotOwnerOrApproved);
        }
        if receiver_id.same(self.tokens_by_id[at].owner_id()) {
            return Err(LedgerError::SenderIsReceiver);
        }
        let authorized_id = if ctx.predecessor_id.same(self.tokens_by_id[at].owner_id()) {
            None
        } else {
            Some(ctx.predecessor_id.clone())
        };
        let previous = self.internal_transfer(token_id, &receiver_id);
        let event = EventLog::ledger(
            Operation::Transfer,
            token_id,
            previous.clone(),
            Some(receiver_id),
            authorized_id,
            None,
        );
        Ok(TransferReceipt { previous_owner_id: previous, event })
    }

    /// Hands a sold token to its buyer and says how the sale price is to be
    /// split: each beneficiary of the token's royalty table receives its
    /// rounded-down share, and the previous owner whatever is left.
    ///
    /// A caller that is not the owner must hold an approval under exactly
    /// the expected identifier.
    pub fn nft_transfer_payout(
        &mut self,
        ctx: &CallContext,
        token_id: u64,
        receiver_id: AccountId,
        approval_id: u64,
        balance: u128,
    ) -> (result: Result<PayoutReceipt, LedgerError>)
        requires
            old(self).wf(),
        ensures
            final(self).wf(),
            match result {
                Ok(receipt) => {
                    &&& payout_error(
                        old(self)@,
                        ctx.predecessor_id@,
                        token_id,
                        receiver_id@,
                        approval_id,
                    ) is None
                    &&& final(self)@ == with_token(
                        old(self)@,
                        token_id,
                        transfer_step(old(self)@.tokens[token_id as int], receiver_id@),
                    )
                    &&& receipt.previous_owner_id@ == old(self)@.tokens[token_id as int].owner
                    &&& receipt.payout.dues() == dues_of(
                        balance as nat,
                        old(self)@.tokens[token_id as int].royalty,
                    )
                    &&& receipt.payout.remainder == seller_remainder(
                        balance as nat,
                        old(self)@.tokens[token_id as int].royalty,
                    )
                    &&& crate::royalty::total_due(receipt.payout.dues()) + receipt.payout.remainder
                        == balance
                    &&& receipt.event@ == ledger_event(
                        Operation::Transfer,
                        token_id,
                        old(self)@.tokens[token_id as int].owner,
                        Some(receiver_id@),
                        acting_under_approval(
                            old(self)@.tokens[token_id as int],
                            ctx.predecessor_id@,
                        ),
                        Some(balance),
                    )
                },
                Err(e) => {
                    &&& payout_error(
                        old(self)@,
                        ctx.predecessor_id@,
                        token_id,
                        receiver_id@,
                        approval_id,
                    ) == Some(e)
                    &&& *final(self) == *old(self)
                },
            },
    {
        if token_id >= self.tokens_by_id.len() as u64 {
            return Err(LedgerError::TokenNotFound);
        }
        let at: usize = token_id as usize;
        let by_owner: bool = ctx.predecessor_id.same(self.tokens_by_id[at].owner_id());
        if !by_owner {
            match self.tokens_by_id[at].approval_id_of(&ctx.predecessor_id) {
                None => {
                    return Err(LedgerError::NotOwnerOrApproved);
                },
                Some(held) => {
                    if held != approval_id {
                        return Err(LedgerError::StaleApproval);
                    }
                },
            }
        }
        if receiver_id.same(self.tokens_by_id[at].owner_id()) {
            return Err(LedgerError::SenderIsReceiver);
        }
        let authorized_id = if by_owner {
            None
        } else {
            Some(ctx.predecessor_id.clone())
        };
        let payout = self.tokens_by_id[at].royalty().payout(balance);
        let previous = self.internal_transfer(token_id, &receiver_id);
        let event = EventLog::ledger(
            Operation::Transfer,
            token_id,
            previous.clone(),
            Some(receiver_id),
            authorized_id,
            Some(balance),
        );
        Ok(PayoutReceipt { previous_owner_id: previous, payout, event })
    }

    /// After one token record was changed in place without a change of its
    /// owner, the ledger is well formed and differs in that record alone.
    proof fn lemma_token_replaced(&self, before: Contract, token_id: u64)
        requires
            before.wf(),
            token_id < before.tokens_by_id@.len(),
            self.tokens_by_id@ == before.tokens_by_id@.update(
                token_id as int,
                self.tokens_by_id@[token_id as int],
            ),
            self.tokens_by_id@[token_id as int].wf(),
            self.tokens_by_id@[token_id as int]@.owner == before.tokens_by_id@[token_id as int]@.owner,
            self.owner_id == before.owner_id,
            self.tokens_per_owner == before.tokens_per_owner,
            self.token_metadata_by_id == before.token_metadata_by_id,
            self.metadata == before.metadata,
            self.treasury_id == before.treasury_id,
            self.mint_price == before.mint_price,
            self.max_supply == before.max_supply,
            self.mint_start == before.mint_start,
            self.mint_end == before.mint_end,
            self.perpetual_royalties == before.perpetual_royalties,
        ensures
            self.wf(),
            self@ == with_token(before@, token_id, self.tokens_by_id@[token_id as int]@),
    {
        assert(self@.tokens =~= before@.tokens.update(
            token_id as int,
            self.tokens_by_id@[token_id as int]@,
        ));
        assert forall|i: int| 0 <= i < self.tokens_by_id@.len() implies (
        #[trigger] self.tokens_by_id@[i]).wf() by {
            if i != token_id {
                assert(self.tokens_by_id@[i] == before.tokens_by_id@[i]);
            }
        }
        assert forall|a: Seq<char>, t: u64|
            self.tokens_per_owner.holds(a, t) <==> (t < self.tokens_by_id@.len()
                && self.tokens_by_id@[t as int]@.owner == a) by {
            if t < before.tokens_by_id@.len() && t != token_id {
                assert(self.tokens_by_id@[t as int] == before.tokens_by_id@[t as int]);
            }
        }
    }
}

} // verus!
