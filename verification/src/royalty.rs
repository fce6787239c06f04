//! Royalty tables and the split of a sale price among beneficiaries and seller.

use crate::account::AccountId;
use vstd::arithmetic::div_mod::{lemma_fundamental_div_mod, lemma_hoist_over_denominator, lemma_remainder_lower};
use vstd::arithmetic::mul::{lemma_mul_inequality, lemma_mul_is_distributive_add};
use vstd::prelude::*;

verus! {

/// Basis points that make up the whole of a price.
pub const FULL_SHARE: u32 = 10_000;

/// The most beneficiaries one royalty table may name.
pub const MAX_BENEFICIARIES: usize = 6;

/// One line of a royalty table, as a mathematical value.
pub struct Share {
    pub account: Seq<char>,
    pub basis_points: nat,
}

/// One line of a payout table, as a mathematical value.
pub struct Due {
    pub account: Seq<char>,
    pub amount: nat,
}

/// Sum of the basis points of a table.
pub open spec fn total_basis_points(shares: Seq<Share>) -> nat
    decreases shares.len(),
{
    if shares.len() == 0 {
        0
    } else {
        total_basis_points(shares.drop_last()) + shares.last().basis_points
    }
}

/// No account is named twice.
pub open spec fn distinct_beneficiaries(shares: Seq<Share>) -> bool {
    forall|i: int, j: int|
        0 <= i < j < shares.len() ==> (#[trigger] shares[i]).account != (#[trigger] shares[j]).account
}

/// A table is valid when it names at most six distinct beneficiaries whose
/// shares add up to no more than the whole.
pub open spec fn valid_table(shares: Seq<Share>) -> bool {
    &&& shares.len() <= MAX_BENEFICIARIES
    &&& distinct_beneficiaries(shares)
    &&& total_basis_points(shares) <= FULL_SHARE
}

/// What a beneficiary with the given share receives of a price: the share of
/// the price, rounded down to a whole unit.
pub open spec fn share_of(price: nat, basis_points: nat) -> nat {
    (price * basis_points) / (FULL_SHARE as nat)
}

/// The payout table of a price: each beneficiary of the royalty table, in
/// the table's order, with the rounded-down share of the price.
pub open spec fn dues_of(price: nat, shares: Seq<Share>) -> Seq<Due> {
    Seq::new(
        shares.len(),
        |i: int| Due { account: shares[i].account, amount: share_of(price, shares[i].basis_points) },
    )
}

/// Sum of the amounts of a payout table.
pub open spec fn total_due(dues: Seq<Due>) -> nat
    decreases dues.len(),
{
    if dues.len() == 0 {
        0
    } else {
        total_due(dues.drop_last()) + dues.last().amount
    }
}

/// What is left of the price for the seller once every beneficiary is paid.
pub open spec fn seller_remainder(price: nat, shares: Seq<Share>) -> int {
    price - total_due(dues_of(price, shares))
}

/// A beneficiary and the share of each sale that goes to it.
#[derive(Debug, PartialEq, Eq)]
pub struct RoyaltyShare {
    pub account: AccountId,
    pub basis_points: u32,
}

impl View for RoyaltyShare {
    type V = Share;

    open spec fn view(&self) -> Share {
        Share { account: self.account@, basis_points: self.basis_points as nat }
    }
}

impl Clone for RoyaltyShare {
    fn clone(&self) -> (share: RoyaltyShare)
        ensures
            share@ == self@,
    {
        RoyaltyShare { account: self.account.clone(), basis_points: self.basis_points }
    }
}

/// The views of a sequence of table lines.
pub open spec fn shares_view(shares: Seq<RoyaltyShare>) -> Seq<Share> {
    Seq::new(shares.len(), |i: int| shares[i]@)
}

/// Why a list of shares is not a royalty table.
#[derive(Clone, Copy, Debug, PartialEq, Eq)]
pub enum RoyaltyError {
    /// More than six beneficiaries.
    TooManyBeneficiaries,
    /// An account is named twice.
    DuplicateBeneficiary,
    /// The shares add up to more than the whole.
    SharesExceedWhole,
}

/// The error, if any, with which a list of shares is refused. The count is
/// looked at first, then repeated accounts, then the sum.
pub open spec fn table_error(shares: Seq<Share>) -> Option<RoyaltyError> {
    if shares.len() > MAX_BENEFICIARIES {
        Some(RoyaltyError::TooManyBeneficiaries)
    } else if !distinct_beneficiaries(shares) {
        Some(RoyaltyError::DuplicateBeneficiary)
    } else if total_basis_points(shares) > FULL_SHARE {
        Some(RoyaltyError::SharesExceedWhole)
    } else {
        None
    }
}

/// A royalty table: beneficiaries and their shares in basis points.
#[derive(Debug, PartialEq, Eq)]
pub struct RoyaltyTable {
    shares: Vec<RoyaltyShare>,
}

impl View for RoyaltyTable {
    type V = Seq<Share>;

    closed spec fn view(&self) -> Seq<Share> {
        shares_view(self.shares@)
    }
}

/// One line of a payout table: an account and the amount it is owed.
#[derive(Debug, PartialEq, Eq)]
pub struct PayoutEntry {
    pub account: AccountId,
    pub amount: u128,
}

impl View for PayoutEntry {
    type V = Due;

    open spec fn view(&self) -> Due {
        Due { account: self.account@, amount: self.amount as nat }
    }
}

impl Clone for PayoutEntry {
    fn clone(&self) -> (entry: PayoutEntry)
        ensures
            entry@ == self@,
    {
        PayoutEntry { account: self.account.clone(), amount: self.amount }
    }
}

/// The views of a sequence of payout lines.
pub open spec fn dues_view(entries: Seq<PayoutEntry>) -> Seq<Due> {
    Seq::new(entries.len(), |i: int| entries[i]@)
}

/// The split of one sale price: what each beneficiary receives, and what is
/// left for the seller.
#[derive(Debug, PartialEq, Eq)]
pub struct Payout {
    pub entries: Vec<PayoutEntry>,
    pub remainder: u128,
}

impl Payout {
    /// The beneficiaries' lines as mathematical values.
    pub open spec fn dues(&self) -> Seq<Due> {
        dues_view(self.entries@)
    }

    /// The sum that the beneficiaries are owed, if the table can be honoured
    /// out of the price.
    pub fn total_within(&self, price: u128) -> (total: Option<u128>)
        ensures
            match total {
                Some(t) => acceptable_dues(self.dues(), price as nat) && t == total_due(self.dues()),
                None => !acceptable_dues(self.dues(), price as nat),
            },
    {
        let ghost dues = self.dues();
        let n: usize = self.entries.len();
        if n > MAX_BENEFICIARIES {
            return None;
        }
        let mut total: u128 = 0;
        let mut i: usize = 0;
        while i < n
            invariant
                n == self.entries.len(),
                i <= n,
                dues == self.dues(),
                total == total_due(dues.take(i as int)),
                total <= price,
            decreases n - i,
        {
            proof {
                assert(dues.take(i + 1).drop_last() =~= dues.take(i as int));
                assert(dues.take(i + 1).last() == dues[i as int]);
                lemma_total_due_prefix(dues, i + 1);
            }
            let amount: u128 = self.entries[i].amount;
            if amount > price - total {
                return None;
            }
            total = total + amount;
            i += 1;
        }
        proof {
            assert(dues.take(n as int) =~= dues);
        }
        Some(total)
    }
}

/// Ten thousand times the rounded-down share never exceeds price times
/// basis points.
pub proof fn lemma_share_rounds_down(price: nat, basis_points: nat)
    ensures
        FULL_SHARE * share_of(price, basis_points) <= price * basis_points,
{
    let x: int = (price * basis_points) as int;
    assert(0 <= x) by (nonlinear_arith)
        requires
            x == price * basis_points,
    ;
    lemma_remainder_lower(x, 10_000);
    assert(x / 10_000 * 10_000 == 10_000 * (x / 10_000));
}

/// The first lines of a table carry no more basis points than the whole table.
pub proof fn lemma_total_basis_points_prefix(shares: Seq<Share>, n: int)
    requires
        0 <= n <= shares.len(),
    ensures
        total_basis_points(shares.take(n)) <= total_basis_points(shares),
    decreases shares.len() - n,
{
    if n == shares.len() {
        assert(shares.take(n) =~= shares);
    } else {
        lemma_total_basis_points_prefix(shares, n + 1);
        assert(shares.take(n + 1).drop_last() =~= shares.take(n));
    }
}

/// Every line of a table carries no more basis points than the whole table.
pub proof fn lemma_share_within_total(shares: Seq<Share>, i: int)
    requires
        0 <= i < shares.len(),
    ensures
        shares[i].basis_points <= total_basis_points(shares),
{
    lemma_total_basis_points_prefix(shares, i + 1);
    assert(shares.take(i + 1).last() == shares[i]);
}

/// The beneficiaries together are owed no more than their combined share of
/// the price.
pub proof fn lemma_dues_within_shares(price: nat, shares: Seq<Share>)
    ensures
        FULL_SHARE * total_due(dues_of(price, shares)) <= price * total_basis_points(shares),
    decreases shares.len(),
{
    if shares.len() == 0 {
        assert(price * 0 == 0) by (nonlinear_arith);
    } else {
        let init = shares.drop_last();
        let bp = shares.last().basis_points;
        lemma_dues_within_shares(price, init);
        assert(dues_of(price, shares).drop_last() =~= dues_of(price, init));
        assert(dues_of(price, shares).last().amount == share_of(price, bp));
        lemma_share_rounds_down(price, bp);
        lemma_mul_is_distributive_add(price as int, total_basis_points(init) as int, bp as int);
        lemma_mul_is_distributive_add(
            10_000,
            total_due(dues_of(price, init)) as int,
            share_of(price, bp) as int,
        );
    }
}

/// For every price and every table whose shares add up to no more than the
/// whole, the beneficiaries' payouts plus the seller's remainder are the
/// price exactly, and the remainder is never negative.
pub proof fn lemma_payout_conserves_price(price: nat, shares: Seq<Share>)
    requires
        total_basis_points(shares) <= FULL_SHARE,
    ensures
        total_due(dues_of(price, shares)) <= price,
        seller_remainder(price, shares) >= 0,
        total_due(dues_of(price, shares)) + seller_remainder(price, shares) == price,
{
    lemma_dues_within_shares(price, shares);
    lemma_mul_inequality(total_basis_points(shares) as int, 10_000, price as int);
    assert(total_basis_points(shares) * price == price * total_basis_points(shares))
        by (nonlinear_arith);
    assert(10_000 * price == price * 10_000) by (nonlinear_arith);
}

/// The first lines of a payout table ask for no more than the whole table.
pub proof fn lemma_total_due_prefix(dues: Seq<Due>, n: int)
    requires
        0 <= n <= dues.len(),
    ensures
        total_due(dues.take(n)) <= total_due(dues),
    decreases dues.len() - n,
{
    if n == dues.len() {
        assert(dues.take(n) =~= dues);
    } else {
        lemma_total_due_prefix(dues, n + 1);
        assert(dues.take(n + 1).drop_last() =~= dues.take(n));
    }
}

/// A payout table can be honoured out of a price when it names at most six
/// accounts and asks for no more than the price.
pub open spec fn acceptable_dues(dues: Seq<Due>, price: nat) -> bool {
    dues.len() <= MAX_BENEFICIARIES && total_due(dues) <= price
}

/// The rounded-down share of a price for a number of basis points.
pub fn royalty_share(price: u128, basis_points: u32) -> (amount: u128)
    requires
        basis_points <= FULL_SHARE,
    ensures
        amount == share_of(price as nat, basis_points as nat),
        amount <= price,
{
    let whole: u128 = price / 10_000;
    let rest: u128 = price % 10_000;
    let bp: u128 = basis_points as u128;
    proof {
        let p: int = price as int;
        let w: int = whole as int;
        let r: int = rest as int;
        let b: int = bp as int;
        lemma_fundamental_div_mod(p, 10_000);
        assert(p == 10_000 * w + r);
        assert(p * b == r * b + (w * b) * 10_000) by (nonlinear_arith)
            requires
                p == 10_000 * w + r,
        ;
        lemma_hoist_over_denominator(r * b, w * b, 10_000);
        assert((r * b) / 10_000 + w * b == (p * b) / 10_000);
        assert(0 <= r * b <= 9_999 * 10_000) by (nonlinear_arith)
            requires
                0 <= r <= 9_999,
                0 <= b <= 10_000,
        ;
        assert(0 <= w * b <= w * 10_000) by (nonlinear_arith)
            requires
                0 <= w,
                0 <= b <= 10_000,
        ;
        assert((r * b) / 10_000 <= r) by (nonlinear_arith)
            requires
                0 <= r,
                0 <= b <= 10_000,
        ;
    }
    whole * bp + (rest * bp) / 10_000
}

impl RoyaltyTable {
    /// A table is well formed when it is valid.
    pub open spec fn wf(&self) -> bool {
        valid_table(self@)
    }

    /// The table that names nobody.
    pub fn empty() -> (table: RoyaltyTable)
        ensures
            table.wf(),
            table@ == Seq::<Share>::empty(),
    {
        let table = RoyaltyTable { shares: Vec::new() };
        assert(table@ =~= Seq::<Share>::empty());
        table
    }

    /// Makes a table of the given lines, or says why they are none.
    pub fn from_shares(shares: Vec<RoyaltyShare>) -> (result: Result<RoyaltyTable, RoyaltyError>)
        ensures
            match result {
                Ok(table) => {
                    &&& table_error(shares_view(shares@)) is None
                    &&& table.wf()
                    &&& table@ == shares_view(shares@)
                },
                Err(e) => table_error(shares_view(shares@)) == Some(e),
            },
    {
        let ghost lines = shares_view(shares@);
        let n: usize = shares.len();
        if n > MAX_BENEFICIARIES {
            return Err(RoyaltyError::TooManyBeneficiaries);
        }
        let mut j: usize = 0;
        while j < n
            invariant
                n == shares.len(),
                n <= MAX_BENEFICIARIES,
                j <= n,
                lines == shares_view(shares@),
                forall|a: int, b: int|
                    0 <= a < b < j ==> (#[trigger] lines[a]).account != (#[trigger] lines[b]).account,
            decreases n - j,
        {
            let mut i: usize = 0;
            while i < j
                invariant
                    n == shares.len(),
                    n <= MAX_BENEFICIARIES,
                    i <= j < n,
                    lines == shares_view(shares@),
                    forall|a: int| 0 <= a < i ==> (#[trigger] lines[a]).account != lines[j as int].account,
                decreases j - i,
            {
                if shares[i].account.same(&shares[j].account) {
                    assert(lines[i as int].account == lines[j as int].account);
                    return Err(RoyaltyError::DuplicateBeneficiary);
                }
                i += 1;
            }
            j += 1;
        }
        assert(distinct_beneficiaries(lines));
        let mut total: u64 = 0;
        let mut k: usize = 0;
        while k < n
            invariant
                n == shares.len(),
                n <= MAX_BENEFICIARIES,
                k <= n,
                lines == shares_view(shares@),
                total == total_basis_points(lines.take(k as int)),
                total <= k * u32::MAX,
            decreases n - k,
        {
            assert(lines.take(k + 1).drop_last() =~= lines.take(k as int));
            assert(lines.take(k + 1).last() == lines[k as int]);
            total = total + shares[k].basis_points as u64;
            k += 1;
        }
        assert(lines.take(n as int) =~= lines);
        if total > FULL_SHARE as u64 {
            return Err(RoyaltyError::SharesExceedWhole);
        }
        Ok(RoyaltyTable { shares })
    }

    /// How many beneficiaries the table names.
    pub fn len(&self) -> (n: usize)
        ensures
            n == self@.len(),
    {
        self.shares.len()
    }

    /// The line at a position of the table.
    pub fn share(&self, i: usize) -> (line: &RoyaltyShare)
        requires
            i < self@.len(),
        ensures
            line@ == self@[i as int],
    {
        &self.shares[i]
    }

    /// Splits a sale price: each beneficiary receives the rounded-down share
    /// of the price, and the seller whatever is left, so that nothing of the
    /// price is lost or made.
    pub fn payout(&self, price: u128) -> (payout: Payout)
        requires
            self.wf(),
        ensures
            payout.dues() == dues_of(price as nat, self@),
            payout.remainder == seller_remainder(price as nat, self@),
            total_due(payout.dues()) + payout.remainder == price,
    {
        let ghost lines = self@;
        let n: usize = self.shares.len();
        let mut entries: Vec<PayoutEntry> = Vec::new();
        let mut paid: u128 = 0;
        let mut i: usize = 0;
        while i < n
            invariant
                n == self.shares.len(),
                i <= n,
                lines == self@,
                total_basis_points(lines) <= FULL_SHARE,
                entries.len() == i,
                dues_view(entries@) == dues_of(price as nat, lines.take(i as int)),
                paid == total_due(dues_view(entries@)),
                paid <= price,
            decreases n - i,
        {
            proof {
                lemma_share_within_total(lines, i as int);
                lemma_total_basis_points_prefix(lines, i + 1);
                lemma_payout_conserves_price(price as nat, lines.take(i + 1));
                assert(dues_of(price as nat, lines.take(i + 1)).drop_last() =~= dues_of(
                    price as nat,
                    lines.take(i as int),
                ));
            }
            let line = &self.shares[i];
            let amount: u128 = royalty_share(price, line.basis_points);
            let ghost before = dues_view(entries@);
            entries.push(PayoutEntry { account: line.account.clone(), amount });
            proof {
                let target = dues_of(price as nat, lines.take(i + 1));
                assert(before == dues_of(price as nat, lines.take(i as int)));
                assert forall|k: int| 0 <= k < entries@.len() implies dues_view(entries@)[k]
                    == target[k] by {
                    if k < i {
                        assert(dues_view(entries@)[k] == before[k]);
                        assert(lines.take(i as int)[k] == lines.take(i + 1)[k]);
                    } else {
                        assert(line@ == lines[i as int]);
                    }
                }
                assert(dues_view(entries@) =~= target);
                assert(dues_view(entries@).drop_last() =~= before);
            }
            paid = paid + amount;
            i += 1;
        }
        proof {
            assert(lines.take(n as int) =~= lines);
        }
        Payout { entries, remainder: price - paid }
    }
}

impl Clone for RoyaltyTable {
    fn clone(&self) -> (table: RoyaltyTable)
        ensures
            table@ == self@,
    {
        let n: usize = self.shares.len();
        let mut shares: Vec<RoyaltyShare> = Vec::new();
        let mut i: usize = 0;
        while i < n
            invariant
                n == self.shares.len(),
                i <= n,
                shares.len() == i,
                forall|k: int| 0 <= k < i ==> (#[trigger] shares[k])@ == self.shares[k]@,
            decreases n - i,
        {
            shares.push(self.shares[i].clone());
            i += 1;
        }
        let table = RoyaltyTable { shares };
        assert(table@ =~= self@);
        table
    }
}

} // verus!
