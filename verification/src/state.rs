//! Ledger state of the money market.
//!
//! Markets are keyed by an asset reference (the denom bytes of a native
//! asset, or the token contract address of a wrapped one), positions by a
//! user address, and debts and uncollateralized-loan limits by the pair.
//! Each store is a vector of records with a first-match lookup; the spec
//! functions here give every store map semantics that the contracts of the
//! operations are stated over.

use crate::interest_rate_models::InterestRateStrategy;
use crate::math::Decimal;
use vstd::prelude::*;

verus! {

/// Whether a market's asset is a native coin or a token contract.
#[derive(Clone, Copy, Debug, PartialEq, Eq, Structural)]
pub enum AssetType {
    Native,
    Cw20,
}

/// Global configuration, set at instantiation and owner-mutable.
#[derive(Clone, Debug, PartialEq, Eq)]
pub struct Config {
    /// Contract owner, the only caller of privileged operations.
    pub owner: Vec<u8>,
    /// Address of the registry resolving protocol roles to addresses.
    pub address_provider_address: Vec<u8>,
    /// Code id used when deploying a market's ownership-token contract.
    pub ma_token_code_id: u64,
    /// Largest fraction of a debt one liquidation call may repay.
    pub close_factor: Decimal,
}

/// Global money-market state: the number of markets created so far.
#[derive(Clone, Copy, Debug, PartialEq, Eq, Structural)]
pub struct MoneyMarket {
    pub market_count: u32,
}

/// Per-asset market state.
#[derive(Clone, Debug, PartialEq, Eq)]
pub struct Market {
    /// Ordinal assigned at creation; the bit position in user bitmasks.
    pub index: u32,
    /// Ownership-token contract address; set once by its deploy callback.
    pub ma_token_address: Vec<u8>,
    /// Accumulator turning scaled debt into underlying debt.
    pub borrow_index: Decimal,
    /// Accumulator turning scaled deposits into underlying amounts.
    pub liquidity_index: Decimal,
    /// Current per-annum rate charged to borrowers.
    pub borrow_rate: Decimal,
    /// Current per-annum rate earned by depositors.
    pub liquidity_rate: Decimal,
    /// Largest fraction of collateral value a borrow may use.
    pub max_loan_to_value: Decimal,
    /// Fraction of accrued borrow interest kept by the protocol.
    pub reserve_factor: Decimal,
    /// Time of the last index accrual, in seconds.
    pub indexes_last_updated: u64,
    /// Sum of all users' scaled debt in this market.
    pub debt_total_scaled: u128,
    /// Whether the asset is native or a token contract.
    pub asset_type: AssetType,
    /// Collateral weight above which a position becomes liquidatable.
    pub maintenance_margin: Decimal,
    /// Premium a liquidator receives on seized collateral.
    pub liquidation_bonus: Decimal,
    /// The rate model driving borrow and liquidity rates.
    pub interest_rate_strategy: InterestRateStrategy,
    /// Master gate: when false every operation is blocked.
    pub active: bool,
    /// Gate for deposits.
    pub deposit_enabled: bool,
    /// Gate for borrows.
    pub borrow_enabled: bool,
}

impl Market {
    /// Deposits are allowed when the market is active and enabled for them.
    pub open spec fn spec_allow_deposit(&self) -> bool {
        self.active && self.deposit_enabled
    }

    /// Borrows are allowed when the market is active and enabled for them.
    pub open spec fn spec_allow_borrow(&self) -> bool {
        self.active && self.borrow_enabled
    }

    /// Withdrawals are gated by the master flag alone.
    pub open spec fn spec_allow_withdraw(&self) -> bool {
        self.active
    }

    /// Repayments are gated by the master flag alone.
    pub open spec fn spec_allow_repay(&self) -> bool {
        self.active
    }

    /// Liquidation is gated by the master flag alone.
    pub open spec fn spec_allow_liquidate(&self) -> bool {
        self.active
    }

    pub fn allow_deposit(&self) -> (r: bool)
        ensures
            r == self.spec_allow_deposit(),
    {
        self.active && self.deposit_enabled
    }

    pub fn allow_borrow(&self) -> (r: bool)
        ensures
            r == self.spec_allow_borrow(),
    {
        self.active && self.borrow_enabled
    }

    pub fn allow_withdraw(&self) -> (r: bool)
        ensures
            r == self.spec_allow_withdraw(),
    {
        self.active
    }

    pub fn allow_repay(&self) -> (r: bool)
        ensures
            r == self.spec_allow_repay(),
    {
        self.active
    }

    pub fn allow_liquidate(&self) -> (r: bool)
        ensures
            r == self.spec_allow_liquidate(),
    {
        self.active
    }
}

/// A user's participation bitmasks: bit `i` is set when the user has a
/// position in the market with ordinal `i`.
#[derive(Clone, Copy, Debug, PartialEq, Eq, Structural)]
pub struct User {
    /// Markets borrowed from.
    pub borrowed_assets: u128,
    /// Markets whose deposits count as collateral.
    pub collateral_assets: u128,
}

impl User {
    /// The empty position.
    pub fn new_default() -> (r: User)
        ensures
            r == (User { borrowed_assets: 0, collateral_assets: 0 }),
    {
        User { borrowed_assets: 0, collateral_assets: 0 }
    }
}

/// A user's debt in one market.
#[derive(Clone, Copy, Debug, PartialEq, Eq, Structural)]
pub struct Debt {
    /// Scaled debt amount.
    pub amount_scaled: u128,
    /// Whether the debt is exempt from collateral checks.
    pub uncollateralized: bool,
}

/// A market record: the asset reference it is keyed by, and the market.
#[derive(Clone, Debug, PartialEq, Eq)]
pub struct MarketRecord {
    pub reference: Vec<u8>,
    pub market: Market,
}

/// An entry of the ordinal-to-reference table.
#[derive(Clone, Debug, PartialEq, Eq)]
pub struct ReserveReferences {
    /// Asset reference of the market with this entry's position as ordinal.
    pub reference: Vec<u8>,
}

/// A user record: the address it is keyed by, and the position bitmasks.
#[derive(Clone, Debug, PartialEq, Eq)]
pub struct UserRecord {
    pub address: Vec<u8>,
    pub user: User,
}

/// A debt record, keyed by asset reference and user address.
#[derive(Clone, Debug, PartialEq, Eq)]
pub struct DebtRecord {
    pub reference: Vec<u8>,
    pub address: Vec<u8>,
    pub debt: Debt,
}

/// An uncollateralized-loan limit, keyed by asset reference and user.
#[derive(Clone, Debug, PartialEq, Eq)]
pub struct LimitRecord {
    pub reference: Vec<u8>,
    pub address: Vec<u8>,
    pub limit: u128,
}

/// The whole persisted state of the money market.
#[derive(Clone, Debug, PartialEq, Eq)]
pub struct Ledger {
    pub config: Config,
    pub money_market: MoneyMarket,
    pub markets: Vec<MarketRecord>,
    /// Entry `i` names the asset reference of the market with ordinal `i`.
    pub market_references_by_index: Vec<ReserveReferences>,
    pub users: Vec<UserRecord>,
    pub debts: Vec<DebtRecord>,
    pub uncollateralized_loan_limits: Vec<LimitRecord>,
}

/// Byte-string equality.
pub fn bytes_eq(a: &Vec<u8>, b: &Vec<u8>) -> (r: bool)
    ensures
        r == (a@ == b@),
{
    if a.len() != b.len() {
        return false;
    }
    let n = a.len();
    let mut i: usize = 0;
    while i < n
        invariant
            n == a@.len(),
            a@.len() == b@.len(),
            i <= n,
            forall|j: int| 0 <= j < i ==> a@[j] == b@[j],
        decreases n - i,
    {
        if a[i] != b[i] {
            return false;
        }
        i = i + 1;
    }
    proof {
        assert(a@ =~= b@);
    }
    true
}

/// Position of the first market record with the reference, if any.
pub open spec fn find_market_rec(s: Seq<MarketRecord>, r: Seq<u8>) -> Option<int>
    decreases s.len(),
{
    if s.len() == 0 {
        None
    } else if s.first().reference@ == r {
        Some(0int)
    } else {
        match find_market_rec(s.drop_first(), r) {
            Some(i) => Some(i + 1),
            None => None,
        }
    }
}

/// The market stored under the reference, if any.
pub open spec fn market_of(s: Seq<MarketRecord>, r: Seq<u8>) -> Option<Market> {
    match find_market_rec(s, r) {
        Some(i) => Some(s[i].market),
        None => None,
    }
}

/// The first match is a match, and nothing before it matches.
pub proof fn lemma_find_market_char(s: Seq<MarketRecord>, r: Seq<u8>)
    ensures
        match find_market_rec(s, r) {
            Some(i) => 0 <= i < s.len() && s[i].reference@ == r && forall|j: int|
                0 <= j < i ==> s[j].reference@ != r,
            None => forall|j: int| 0 <= j < s.len() ==> s[j].reference@ != r,
        },
    decreases s.len(),
{
    if s.len() > 0 {
        lemma_find_market_char(s.drop_first(), r);
        assert forall|j: int| 1 <= j < s.len() implies s[j] == s.drop_first()[j - 1] by {}
    }
}

/// A match preceded by no other match is the first match.
pub proof fn lemma_find_market_first(s: Seq<MarketRecord>, r: Seq<u8>, i: int)
    requires
        0 <= i < s.len(),
        s[i].reference@ == r,
        forall|j: int| 0 <= j < i ==> s[j].reference@ != r,
    ensures
        find_market_rec(s, r) == Some(i),
    decreases s.len(),
{
    if i > 0 {
        lemma_find_market_first(s.drop_first(), r, i - 1);
    }
}

/// Index of the first market record keyed by `r`, by linear search.
pub fn market_position(markets: &Vec<MarketRecord>, r: &Vec<u8>) -> (o: Option<usize>)
    ensures
        o matches Some(i) ==> find_market_rec(markets@, r@) == Some(i as int) && i < markets@.len()
            && markets@[i as int].reference@ == r@,
        o is None ==> find_market_rec(markets@, r@) is None,
{
    let n = markets.len();
    let mut i: usize = 0;
    while i < n
        invariant
            n == markets@.len(),
            i <= n,
            forall|j: int| 0 <= j < i ==> markets@[j].reference@ != r@,
        decreases n - i,
    {
        if bytes_eq(&markets[i].reference, r) {
            proof {
                lemma_find_market_first(markets@, r@, i as int);
            }
            return Some(i);
        }
        i = i + 1;
    }
    proof {
        lemma_find_market_char(markets@, r@);
    }
    None
}

/// Stores a market record: replaces the record under the same reference,
/// or appends a new one.
pub fn markets_save(markets: &mut Vec<MarketRecord>, rec: MarketRecord)
    ensures
        match find_market_rec(old(markets)@, rec.reference@) {
            Some(i) => final(markets)@ == old(markets)@.update(i, rec),
            None => final(markets)@ == old(markets)@.push(rec),
        },
        markets_saved(old(markets)@, final(markets)@, rec.reference@, rec.market),
{
    let ghost r = rec.reference@;
    let ghost olds = markets@;
    match market_position(markets, &rec.reference) {
        Some(i) => {
            markets[i] = rec;
        },
        None => {
            markets.push(rec);
            proof {
                assert(markets@.subrange(0, olds.len() as int) =~= olds);
            }
        },
    }
}

/// Position of the first user record with the address, if any.
pub open spec fn find_user_rec(s: Seq<UserRecord>, a: Seq<u8>) -> Option<int>
    decreases s.len(),
{
    if s.len() == 0 {
        None
    } else if s.first().address@ == a {
        Some(0int)
    } else {
        match find_user_rec(s.drop_first(), a) {
            Some(i) => Some(i + 1),
            None => None,
        }
    }
}

/// The position bitmasks stored under the address, if any.
pub open spec fn user_of(s: Seq<UserRecord>, a: Seq<u8>) -> Option<User> {
    match find_user_rec(s, a) {
        Some(i) => Some(s[i].user),
        None => None,
    }
}

/// The first match is a match, and nothing before it matches.
pub proof fn lemma_find_user_char(s: Seq<UserRecord>, a: Seq<u8>)
    ensures
        match find_user_rec(s, a) {
            Some(i) => 0 <= i < s.len() && s[i].address@ == a && forall|j: int|
                0 <= j < i ==> s[j].address@ != a,
            None => forall|j: int| 0 <= j < s.len() ==> s[j].address@ != a,
        },
    decreases s.len(),
{
    if s.len() > 0 {
        lemma_find_user_char(s.drop_first(), a);
        assert forall|j: int| 1 <= j < s.len() implies s[j] == s.drop_first()[j - 1] by {}
    }
}

/// A match preceded by no other match is the first match.
pub proof fn lemma_find_user_first(s: Seq<UserRecord>, a: Seq<u8>, i: int)
    requires
        0 <= i < s.len(),
        s[i].address@ == a,
        forall|j: int| 0 <= j < i ==> s[j].address@ != a,
    ensures
        find_user_rec(s, a) == Some(i),
    decreases s.len(),
{
    if i > 0 {
        lemma_find_user_first(s.drop_first(), a, i - 1);
    }
}

/// Index of the first user record keyed by `a`, by linear search.
pub fn user_position(users: &Vec<UserRecord>, a: &Vec<u8>) -> (o: Option<usize>)
    ensures
        o matches Some(i) ==> find_user_rec(users@, a@) == Some(i as int) && i < users@.len()
            && users@[i as int].address@ == a@,
        o is None ==> find_user_rec(users@, a@) is None,
{
    let n = users.len();
    let mut i: usize = 0;
    while i < n
        invariant
            n == users@.len(),
            i <= n,
            forall|j: int| 0 <= j < i ==> users@[j].address@ != a@,
        decreases n - i,
    {
        if bytes_eq(&users[i].address, a) {
            proof {
                lemma_find_user_first(users@, a@, i as int);
            }
            return Some(i);
        }
        i = i + 1;
    }
    proof {
        lemma_find_user_char(users@, a@);
    }
    None
}

/// Stores a user record: replaces the record under the same address, or
/// appends a new one.
pub fn users_save(users: &mut Vec<UserRecord>, rec: UserRecord)
    ensures
        match find_user_rec(old(users)@, rec.address@) {
            Some(i) => final(users)@ == old(users)@.update(i, rec),
            None => final(users)@ == old(users)@.push(rec),
        },
        users_saved(old(users)@, final(users)@, rec.address@, rec.user),
{
    let ghost olds = users@;
    match user_position(users, &rec.address) {
        Some(i) => {
            users[i] = rec;
        },
        None => {
            users.push(rec);
            proof {
                assert(users@.subrange(0, olds.len() as int) =~= olds);
            }
        },
    }
}

/// Position of the first debt record with the key pair, if any.
pub open spec fn find_debt_rec(s: Seq<DebtRecord>, r: Seq<u8>, a: Seq<u8>) -> Option<int>
    decreases s.len(),
{
    if s.len() == 0 {
        None
    } else if s.first().reference@ == r && s.first().address@ == a {
        Some(0int)
    } else {
        match find_debt_rec(s.drop_first(), r, a) {
            Some(i) => Some(i + 1),
            None => None,
        }
    }
}

/// The debt stored under the asset reference and address, if any.
pub open spec fn debt_of(s: Seq<DebtRecord>, r: Seq<u8>, a: Seq<u8>) -> Option<Debt> {
    match find_debt_rec(s, r, a) {
        Some(i) => Some(s[i].debt),
        None => None,
    }
}

/// The first match is a match, and nothing before it matches.
pub proof fn lemma_find_debt_char(s: Seq<DebtRecord>, r: Seq<u8>, a: Seq<u8>)
    ensures
        match find_debt_rec(s, r, a) {
            Some(i) => 0 <= i < s.len() && s[i].reference@ == r && s[i].address@ == a && forall|
                j: int,
            | 0 <= j < i ==> !(s[j].reference@ == r && s[j].address@ == a),
            None => forall|j: int| 0 <= j < s.len() ==> !(s[j].reference@ == r && s[j].address@
                == a),
        },
    decreases s.len(),
{
    if s.len() > 0 {
        lemma_find_debt_char(s.drop_first(), r, a);
        assert forall|j: int| 1 <= j < s.len() implies s[j] == s.drop_first()[j - 1] by {}
    }
}

/// A match preceded by no other match is the first match.
pub proof fn lemma_find_debt_first(s: Seq<DebtRecord>, r: Seq<u8>, a: Seq<u8>, i: int)
    requires
        0 <= i < s.len(),
        s[i].reference@ == r,
        s[i].address@ == a,
        forall|j: int| 0 <= j < i ==> !(s[j].reference@ == r && s[j].address@ == a),
    ensures
        find_debt_rec(s, r, a) == Some(i),
    decreases s.len(),
{
    if i > 0 {
        lemma_find_debt_first(s.drop_first(), r, a, i - 1);
    }
}

/// Index of the first debt record keyed by the pair, by linear search.
pub fn debt_position(debts: &Vec<DebtRecord>, r: &Vec<u8>, a: &Vec<u8>) -> (o: Option<usize>)
    ensures
        o matches Some(i) ==> find_debt_rec(debts@, r@, a@) == Some(i as int) && i < debts@.len()
            && debts@[i as int].reference@ == r@ && debts@[i as int].address@ == a@,
        o is None ==> find_debt_rec(debts@, r@, a@) is None,
{
    let n = debts.len();
    let mut i: usize = 0;
    while i < n
        invariant
            n == debts@.len(),
            i <= n,
            forall|j: int| 0 <= j < i ==> !(debts@[j].reference@ == r@ && debts@[j].address@
                == a@),
        decreases n - i,
    {
        if bytes_eq(&debts[i].reference, r) && bytes_eq(&debts[i].address, a) {
            proof {
                lemma_find_debt_first(debts@, r@, a@, i as int);
            }
            return Some(i);
        }
        i = i + 1;
    }
    proof {
        lemma_find_debt_char(debts@, r@, a@);
    }
    None
}

/// Stores a debt record: replaces the record under the same key pair, or
/// appends a new one.
pub fn debts_save(debts: &mut Vec<DebtRecord>, rec: DebtRecord)
    ensures
        match find_debt_rec(old(debts)@, rec.reference@, rec.address@) {
            Some(i) => final(debts)@ == old(debts)@.update(i, rec),
            None => final(debts)@ == old(debts)@.push(rec),
        },
        debts_saved(old(debts)@, final(debts)@, rec.reference@, rec.address@, rec.debt),
{
    let ghost olds = debts@;
    match debt_position(debts, &rec.reference, &rec.address) {
        Some(i) => {
            debts[i] = rec;
        },
        None => {
            debts.push(rec);
            proof {
                assert(debts@.subrange(0, olds.len() as int) =~= olds);
            }
        },
    }
}

/// Position of the first limit record with the key pair, if any.
pub open spec fn find_limit_rec(s: Seq<LimitRecord>, r: Seq<u8>, a: Seq<u8>) -> Option<int>
    decreases s.len(),
{
    if s.len() == 0 {
        None
    } else if s.first().reference@ == r && s.first().address@ == a {
        Some(0int)
    } else {
        match find_limit_rec(s.drop_first(), r, a) {
            Some(i) => Some(i + 1),
            None => None,
        }
    }
}

/// The uncollateralized-loan limit stored under the key pair, if any.
pub open spec fn limit_of(s: Seq<LimitRecord>, r: Seq<u8>, a: Seq<u8>) -> Option<u128> {
    match find_limit_rec(s, r, a) {
        Some(i) => Some(s[i].limit),
        None => None,
    }
}

/// The first match is a match, and nothing before it matches.
pub proof fn lemma_find_limit_char(s: Seq<LimitRecord>, r: Seq<u8>, a: Seq<u8>)
    ensures
        match find_limit_rec(s, r, a) {
            Some(i) => 0 <= i < s.len() && s[i].reference@ == r && s[i].address@ == a && forall|
                j: int,
            | 0 <= j < i ==> !(s[j].reference@ == r && s[j].address@ == a),
            None => forall|j: int| 0 <= j < s.len() ==> !(s[j].reference@ == r && s[j].address@
                == a),
        },
    decreases s.len(),
{
    if s.len() > 0 {
        lemma_find_limit_char(s.drop_first(), r, a);
        assert forall|j: int| 1 <= j < s.len() implies s[j] == s.drop_first()[j - 1] by {}
    }
}

/// A match preceded by no other match is the first match.
pub proof fn lemma_find_limit_first(s: Seq<LimitRecord>, r: Seq<u8>, a: Seq<u8>, i: int)
    requires
        0 <= i < s.len(),
        s[i].reference@ == r,
        s[i].address@ == a,
        forall|j: int| 0 <= j < i ==> !(s[j].reference@ == r && s[j].address@ == a),
    ensures
        find_limit_rec(s, r, a) == Some(i),
    decreases s.len(),
{
    if i > 0 {
        lemma_find_limit_first(s.drop_first(), r, a, i - 1);
    }
}

/// Index of the first limit record keyed by the pair, by linear search.
pub fn limit_position(limits: &Vec<LimitRecord>, r: &Vec<u8>, a: &Vec<u8>) -> (o: Option<usize>)
    ensures
        o matches Some(i) ==> find_limit_rec(limits@, r@, a@) == Some(i as int) && i
            < limits@.len() && limits@[i as int].reference@ == r@ && limits@[i as int].address@
            == a@,
        o is None ==> find_limit_rec(limits@, r@, a@) is None,
{
    let n = limits.len();
    let mut i: usize = 0;
    while i < n
        invariant
            n == limits@.len(),
            i <= n,
            forall|j: int| 0 <= j < i ==> !(limits@[j].reference@ == r@ && limits@[j].address@
                == a@),
        decreases n - i,
    {
        if bytes_eq(&limits[i].reference, r) && bytes_eq(&limits[i].address, a) {
            proof {
                lemma_find_limit_first(limits@, r@, a@, i as int);
            }
            return Some(i);
        }
        i = i + 1;
    }
    proof {
        lemma_find_limit_char(limits@, r@, a@);
    }
    None
}

/// Stores a limit record: replaces the record under the same key pair, or
/// appends a new one.
pub fn limits_save(limits: &mut Vec<LimitRecord>, rec: LimitRecord)
    ensures
        match find_limit_rec(old(limits)@, rec.reference@, rec.address@) {
            Some(i) => final(limits)@ == old(limits)@.update(i, rec),
            None => final(limits)@ == old(limits)@.push(rec),
        },
        limits_saved(old(limits)@, final(limits)@, rec.reference@, rec.address@, rec.limit),
{
    let ghost olds = limits@;
    match limit_position(limits, &rec.reference, &rec.address) {
        Some(i) => {
            limits[i] = rec;
        },
        None => {
            limits.push(rec);
            proof {
                assert(limits@.subrange(0, olds.len() as int) =~= olds);
            }
        },
    }
}

/// The new market sequence equals the old with position `i` replaced,
/// keeping the reference there.
pub open spec fn markets_updated_at(
    old_s: Seq<MarketRecord>,
    new_s: Seq<MarketRecord>,
    i: int,
) -> bool {
    &&& new_s.len() == old_s.len()
    &&& (forall|j: int| 0 <= j < old_s.len() && j != i ==> new_s[j] == old_s[j])
    &&& new_s[i].reference@ == old_s[i].reference@
}

/// The new market sequence stores exactly `m` under `r` and keeps all else.
pub open spec fn markets_saved(
    old_s: Seq<MarketRecord>,
    new_s: Seq<MarketRecord>,
    r: Seq<u8>,
    m: Market,
) -> bool {
    match find_market_rec(old_s, r) {
        Some(i) => {
            &&& new_s.len() == old_s.len()
            &&& (forall|j: int| 0 <= j < old_s.len() && j != i ==> new_s[j] == old_s[j])
            &&& new_s[i].reference@ == r
            &&& new_s[i].market == m
        },
        None => {
            &&& new_s.len() == old_s.len() + 1
            &&& new_s.subrange(0, old_s.len() as int) == old_s
            &&& new_s.last().reference@ == r
            &&& new_s.last().market == m
        },
    }
}

/// The new user sequence stores exactly `u` under `a` and keeps all else.
pub open spec fn users_saved(
    old_s: Seq<UserRecord>,
    new_s: Seq<UserRecord>,
    a: Seq<u8>,
    u: User,
) -> bool {
    match find_user_rec(old_s, a) {
        Some(i) => {
            &&& new_s.len() == old_s.len()
            &&& (forall|j: int| 0 <= j < old_s.len() && j != i ==> new_s[j] == old_s[j])
            &&& new_s[i].address@ == a
            &&& new_s[i].user == u
        },
        None => {
            &&& new_s.len() == old_s.len() + 1
            &&& new_s.subrange(0, old_s.len() as int) == old_s
            &&& new_s.last().address@ == a
            &&& new_s.last().user == u
        },
    }
}

/// The new debt sequence stores exactly `d` under the key pair and keeps
/// all else.
pub open spec fn debts_saved(
    old_s: Seq<DebtRecord>,
    new_s: Seq<DebtRecord>,
    r: Seq<u8>,
    a: Seq<u8>,
    d: Debt,
) -> bool {
    match find_debt_rec(old_s, r, a) {
        Some(i) => {
            &&& new_s.len() == old_s.len()
            &&& (forall|j: int| 0 <= j < old_s.len() && j != i ==> new_s[j] == old_s[j])
            &&& new_s[i].reference@ == r
            &&& new_s[i].address@ == a
            &&& new_s[i].debt == d
        },
        None => {
            &&& new_s.len() == old_s.len() + 1
            &&& new_s.subrange(0, old_s.len() as int) == old_s
            &&& new_s.last().reference@ == r
            &&& new_s.last().address@ == a
            &&& new_s.last().debt == d
        },
    }
}

/// The new limit sequence stores exactly `v` under the key pair and keeps
/// all else.
pub open spec fn limits_saved(
    old_s: Seq<LimitRecord>,
    new_s: Seq<LimitRecord>,
    r: Seq<u8>,
    a: Seq<u8>,
    v: u128,
) -> bool {
    match find_limit_rec(old_s, r, a) {
        Some(i) => {
            &&& new_s.len() == old_s.len()
            &&& (forall|j: int| 0 <= j < old_s.len() && j != i ==> new_s[j] == old_s[j])
            &&& new_s[i].reference@ == r
            &&& new_s[i].address@ == a
            &&& new_s[i].limit == v
        },
        None => {
            &&& new_s.len() == old_s.len() + 1
            &&& new_s.subrange(0, old_s.len() as int) == old_s
            &&& new_s.last().reference@ == r
            &&& new_s.last().address@ == a
            &&& new_s.last().limit == v
        },
    }
}

/// An owned copy of a byte string.
pub fn clone_bytes(v: &Vec<u8>) -> (r: Vec<u8>)
    ensures
        r@ == v@,
{
    let mut out: Vec<u8> = Vec::new();
    let n = v.len();
    let mut i: usize = 0;
    while i < n
        invariant
            n == v@.len(),
            i <= n,
            out@ == v@.subrange(0, i as int),
        decreases n - i,
    {
        out.push(v[i]);
        i = i + 1;
    }
    proof {
        assert(out@ =~= v@);
    }
    out
}


/// What one debt record contributes to a market's scaled-debt sum.
pub open spec fn debt_contribution(rec: DebtRecord, r: Seq<u8>) -> int {
    if rec.reference@ == r {
        rec.debt.amount_scaled as int
    } else {
        0
    }
}

/// Sum of all users' scaled debt recorded for the asset reference.
pub open spec fn spec_total_debt_scaled(s: Seq<DebtRecord>, r: Seq<u8>) -> int
    decreases s.len(),
{
    if s.len() == 0 {
        0
    } else {
        debt_contribution(s.first(), r) + spec_total_debt_scaled(s.drop_first(), r)
    }
}

/// The ledger invariant behind reserve conservation: a market's recorded
/// total of scaled debt equals the sum over all its users' debt records,
/// exactly, so the two descale to the same underlying debt up to the
/// rounding of at most one unit per record.
pub open spec fn debt_reconciled(l: Ledger, r: Seq<u8>) -> bool {
    match market_of(l.markets@, r) {
        Some(m) => spec_total_debt_scaled(l.debts@, r) == m.debt_total_scaled,
        None => true,
    }
}

/// Changing one record changes the sum by that record's contribution.
proof fn lemma_total_debt_pointwise(
    old_s: Seq<DebtRecord>,
    new_s: Seq<DebtRecord>,
    r: Seq<u8>,
    i: int,
)
    requires
        old_s.len() == new_s.len(),
        0 <= i < old_s.len(),
        forall|j: int| 0 <= j < old_s.len() && j != i ==> new_s[j] == old_s[j],
    ensures
        spec_total_debt_scaled(new_s, r) == spec_total_debt_scaled(old_s, r) - debt_contribution(
            old_s[i],
            r,
        ) + debt_contribution(new_s[i], r),
    decreases old_s.len(),
{
    if i == 0 {
        assert(new_s.drop_first() =~= old_s.drop_first()) by {
            assert(forall|j: int|
                0 <= j < old_s.drop_first().len() ==> #[trigger] new_s.drop_first()[j] == old_s[j
                    + 1]);
        }
    } else {
        assert(forall|j: int|
            0 <= j < old_s.drop_first().len() && j != i - 1 ==> #[trigger] new_s.drop_first()[j]
                == old_s.drop_first()[j]);
        lemma_total_debt_pointwise(old_s.drop_first(), new_s.drop_first(), r, i - 1);
    }
}

/// Appending a record adds its contribution to the sum.
proof fn lemma_total_debt_push(s: Seq<DebtRecord>, rec: DebtRecord, r: Seq<u8>)
    ensures
        spec_total_debt_scaled(s.push(rec), r) == spec_total_debt_scaled(s, r)
            + debt_contribution(rec, r),
    decreases s.len(),
{
    if s.len() == 0 {
        assert(s.push(rec).first() == rec);
        assert(s.push(rec).drop_first() =~= Seq::<DebtRecord>::empty());
        assert(spec_total_debt_scaled(s.push(rec).drop_first(), r) == 0);
    } else {
        assert(s.push(rec).first() == s.first());
        assert(s.push(rec).drop_first() =~= s.drop_first().push(rec));
        lemma_total_debt_push(s.drop_first(), rec, r);
    }
}

/// Law (reserve conservation, the per-operation step): every operation
/// that moves a user's scaled debt by some difference and the market's
/// recorded total by the same difference keeps the total equal to the sum
/// of the records. Deposits and withdrawals touch neither side; borrows
/// add the same scaled amount to both; repayments and liquidations remove
/// the same scaled amount from both — so the reconciliation holds after
/// any sequence of these operations, and descaling both sides at the
/// current borrow index agrees up to one unit of rounding per record.
pub proof fn lemma_debt_reconciliation_step(
    old_debts: Seq<DebtRecord>,
    new_debts: Seq<DebtRecord>,
    r: Seq<u8>,
    a: Seq<u8>,
    old_amount: u128,
    new_debt: Debt,
)
    requires
        debts_saved(old_debts, new_debts, r, a, new_debt),
        match find_debt_rec(old_debts, r, a) {
            Some(i) => old_amount == old_debts[i].debt.amount_scaled,
            None => old_amount == 0,
        },
    ensures
        spec_total_debt_scaled(new_debts, r) == spec_total_debt_scaled(old_debts, r) - old_amount
            + new_debt.amount_scaled,
{
    lemma_find_debt_char(old_debts, r, a);
    match find_debt_rec(old_debts, r, a) {
        Some(i) => {
            lemma_total_debt_pointwise(old_debts, new_debts, r, i);
        },
        None => {
            assert(new_debts =~= old_debts.push(new_debts.last()));
            lemma_total_debt_push(old_debts, new_debts.last(), r);
        },
    }
}

/// Law (reserve conservation, the frame): storing a debt under one asset
/// reference leaves every other market's scaled-debt sum unchanged.
pub proof fn lemma_debt_total_other_markets(
    old_debts: Seq<DebtRecord>,
    new_debts: Seq<DebtRecord>,
    r: Seq<u8>,
    a: Seq<u8>,
    new_debt: Debt,
    other: Seq<u8>,
)
    requires
        debts_saved(old_debts, new_debts, r, a, new_debt),
        other != r,
    ensures
        spec_total_debt_scaled(new_debts, other) == spec_total_debt_scaled(old_debts, other),
{
    match find_debt_rec(old_debts, r, a) {
        Some(i) => {
            lemma_find_debt_char(old_debts, r, a);
            lemma_total_debt_pointwise(old_debts, new_debts, r, i);
            lemma_total_debt_pointwise(old_debts, new_debts, other, i);
        },
        None => {
            assert(new_debts =~= old_debts.push(new_debts.last()));
            lemma_total_debt_push(old_debts, new_debts.last(), other);
        },
    }
}


/// Changing one record without changing its key leaves every lookup's
/// position unchanged.
proof fn lemma_find_user_pointwise(
    old_s: Seq<UserRecord>,
    new_s: Seq<UserRecord>,
    x: Seq<u8>,
    i: int,
)
    requires
        old_s.len() == new_s.len(),
        0 <= i < old_s.len(),
        forall|j: int| 0 <= j < old_s.len() && j != i ==> new_s[j] == old_s[j],
        new_s[i].address@ == old_s[i].address@,
    ensures
        find_user_rec(new_s, x) == find_user_rec(old_s, x),
    decreases old_s.len(),
{
    if i == 0 {
        assert(new_s.drop_first() =~= old_s.drop_first()) by {
            assert(forall|j: int|
                0 <= j < old_s.drop_first().len() ==> #[trigger] new_s.drop_first()[j] == old_s[j
                    + 1]);
        }
    } else {
        assert(forall|j: int|
            0 <= j < old_s.drop_first().len() && j != i - 1 ==> #[trigger] new_s.drop_first()[j]
                == old_s.drop_first()[j]);
        lemma_find_user_pointwise(old_s.drop_first(), new_s.drop_first(), x, i - 1);
    }
}

/// Appending a record changes a lookup only when nothing matched before
/// and the new record's key matches.
proof fn lemma_find_user_push(s: Seq<UserRecord>, rec: UserRecord, x: Seq<u8>)
    ensures
        find_user_rec(s.push(rec), x) == (match find_user_rec(s, x) {
            Some(i) => Some(i),
            None => if rec.address@ == x {
                Some(s.len() as int)
            } else {
                None
            },
        }),
    decreases s.len(),
{
    if s.len() == 0 {
        assert(s.push(rec).len() == 1);
        assert(s.push(rec).first() == rec);
        assert(s.push(rec).drop_first() =~= Seq::<UserRecord>::empty());
        assert(find_user_rec(s.push(rec).drop_first(), x) is None);
    } else {
        assert(s.push(rec).first() == s.first());
        assert(s.push(rec).drop_first() =~= s.drop_first().push(rec));
        lemma_find_user_push(s.drop_first(), rec, x);
        assert(find_user_rec(s.push(rec).drop_first(), x) == find_user_rec(
            s.drop_first().push(rec),
            x,
        ));
        assert(s.drop_first().len() == s.len() - 1);
    }
}

/// Saving a user record stores exactly the given bitmasks under the key
/// and leaves every other key's lookup unchanged.
pub proof fn lemma_users_saved_effect(
    old_s: Seq<UserRecord>,
    new_s: Seq<UserRecord>,
    a: Seq<u8>,
    u: User,
)
    requires
        users_saved(old_s, new_s, a, u),
    ensures
        user_of(new_s, a) == Some(u),
        forall|x: Seq<u8>| x != a ==> #[trigger] user_of(new_s, x) == user_of(old_s, x),
{
    lemma_find_user_char(old_s, a);
    match find_user_rec(old_s, a) {
        Some(i) => {
            lemma_find_user_pointwise(old_s, new_s, a, i);
            assert(user_of(new_s, a) == Some(u));
            assert forall|x: Seq<u8>| x != a implies #[trigger] user_of(new_s, x) == user_of(
                old_s,
                x,
            ) by {
                lemma_find_user_pointwise(old_s, new_s, x, i);
                lemma_find_user_char(new_s, x);
                match find_user_rec(new_s, x) {
                    Some(j) => {
                        assert(new_s[j].address@ == x);
                        assert(j != i);
                        assert(new_s[j] == old_s[j]);
                    },
                    None => {},
                }
            }
        },
        None => {
            assert(new_s =~= old_s.push(new_s.last()));
            lemma_find_user_push(old_s, new_s.last(), a);
            assert(user_of(new_s, a) == Some(u));
            assert forall|x: Seq<u8>| x != a implies #[trigger] user_of(new_s, x) == user_of(
                old_s,
                x,
            ) by {
                lemma_find_user_push(old_s, new_s.last(), x);
                lemma_find_user_char(old_s, x);
                match find_user_rec(old_s, x) {
                    Some(j) => {
                        assert(new_s[j] == old_s[j]);
                    },
                    None => {},
                }
            }
        },
    }
}

} // verus!
