//! Aggregate position of one user across all markets.
//!
//! For every market the user participates in, the collateral balance
//! (scaled shares of the ownership token) and the stored scaled debt are
//! brought to underlying form at indices projected to the query time, and
//! valued at the oracle price. The health factor is the risk-weighted
//! collateral value over the collateralized debt value; below one the
//! position is liquidatable. The oracle prices and token balances are
//! external reads: the host passes them in, one entry per market ordinal.

use crate::contract::{get_bit, spec_get_bit};
use crate::error::ContractError;
use crate::interest_rates::{
    spec_descale_ceil, spec_descale_fits, spec_descale_truncate, spec_updated_borrow_index,
    spec_updated_borrow_index_fits, spec_updated_liquidity_index,
    spec_updated_liquidity_index_fits,
};
use crate::math::{
    multiply_uint128_by_decimal, spec_from_ratio, spec_mul_dec_floor, Decimal,
};
use crate::state::{clone_bytes, debt_position, market_position, Ledger, User};
use vstd::prelude::*;

verus! {

broadcast use vstd::arithmetic::div_mod::lemma_div_pos_is_pos, vstd::arithmetic::mul::lemma_mul_nonnegative;

/// External observations about one user and one market: the oracle price
/// of the asset and the user's scaled balance of the ownership token.
#[derive(Clone, Copy, Debug, PartialEq, Eq, Structural)]
pub struct UserMarketData {
    /// Oracle price of the asset, in the common currency.
    pub price: Decimal,
    /// The user's scaled balance of the market's ownership token.
    pub collateral_balance_scaled: u128,
}

/// Whether a position owes anything, and if so how healthy it is.
#[derive(Clone, Copy, Debug, PartialEq, Eq, Structural)]
pub enum UserHealthStatus {
    /// No collateralized debt.
    NotBorrowing,
    /// The health factor: risk-weighted collateral value over
    /// collateralized debt value; below one the position is liquidatable.
    Borrowing(Decimal),
}

/// A price seen while assembling a position, kept for the handler that
/// asked.
#[derive(Clone, Debug, PartialEq, Eq)]
pub struct AssetPrice {
    pub reference: Vec<u8>,
    pub price: Decimal,
}

/// A user's aggregate position, all values in the common currency.
#[derive(Clone, Debug, PartialEq, Eq)]
pub struct UserPosition {
    /// Value of all enabled collateral.
    pub total_collateral_in_uusd: u128,
    /// Value of all debt, uncollateralized included.
    pub total_debt_in_uusd: u128,
    /// Value of the debt that counts toward the health factor.
    pub total_collateralized_debt_in_uusd: u128,
    /// Borrowing capacity: collateral value weighted by loan-to-value.
    pub max_debt_in_uusd: u128,
    /// Collateral value weighted by each market's maintenance margin.
    pub weighted_maintenance_margin_in_uusd: u128,
    /// Health of the position.
    pub health_status: UserHealthStatus,
    /// The prices of the markets visited, by asset reference.
    pub asset_prices: Vec<AssetPrice>,
}

/// Running totals of a position computation, as mathematical integers.
pub struct PositionTotals {
    pub total_collateral: int,
    pub total_debt: int,
    pub total_collateralized_debt: int,
    pub max_debt: int,
    pub weighted_maintenance_margin: int,
    pub prices: Seq<(Seq<u8>, int)>,
}

/// The empty totals.
pub open spec fn spec_position_empty() -> PositionTotals {
    PositionTotals {
        total_collateral: 0,
        total_debt: 0,
        total_collateralized_debt: 0,
        max_debt: 0,
        weighted_maintenance_margin: 0,
        prices: Seq::empty(),
    }
}

/// Totals after processing the markets with ordinals below `n`, in
/// ascending order; `None` when any step fails (a missing record, an
/// ordinal beyond the bitmask, a time before a market's last accrual, or a
/// value that does not fit in `u128`).
pub open spec fn spec_position_prefix(
    l: Ledger,
    address: Seq<u8>,
    user: User,
    data: Seq<UserMarketData>,
    block_time: int,
    n: nat,
) -> Option<PositionTotals>
    decreases n,
{
    if n == 0 {
        Some(spec_position_empty())
    } else {
        match spec_position_prefix(l, address, user, data, block_time, (n - 1) as nat) {
            None => None,
            Some(t) => spec_position_step(l, address, user, data, block_time, (n - 1) as nat, t),
        }
    }
}

/// One market's contribution to the totals.
pub open spec fn spec_position_step(
    l: Ledger,
    address: Seq<u8>,
    user: User,
    data: Seq<UserMarketData>,
    block_time: int,
    i: nat,
    t: PositionTotals,
) -> Option<PositionTotals> {
    if i >= 128 {
        None
    } else {
        let collateral_bit = spec_get_bit(user.collateral_assets, i as u32);
        let borrowed_bit = spec_get_bit(user.borrowed_assets, i as u32);
        if !collateral_bit && !borrowed_bit {
            Some(t)
        } else if i >= l.market_references_by_index@.len() {
            None
        } else {
            let reference = l.market_references_by_index@[i as int].reference@;
            match crate::state::market_of(l.markets@, reference) {
                None => None,
                Some(m) => {
                    let price = data[i as int].price.0 as int;
                    let t1 = PositionTotals { prices: t.prices.push((reference, price)), ..t };
                    let after_collateral = if collateral_bit {
                        spec_collateral_step(
                            m,
                            data[i as int].collateral_balance_scaled as int,
                            price,
                            block_time,
                            t1,
                        )
                    } else {
                        Some(t1)
                    };
                    match after_collateral {
                        None => None,
                        Some(t2) => {
                            if borrowed_bit {
                                match crate::state::debt_of(l.debts@, reference, address) {
                                    None => None,
                                    Some(d) => spec_debt_step(
                                        m,
                                        d.amount_scaled as int,
                                        d.uncollateralized,
                                        price,
                                        block_time,
                                        t2,
                                    ),
                                }
                            } else {
                                Some(t2)
                            }
                        },
                    }
                },
            }
        }
    }
}

/// The collateral side of one market's contribution: the scaled ownership
/// balance, descaled (truncated) at the projected liquidity index and
/// priced, enters the plain, loan-to-value-weighted and
/// maintenance-margin-weighted totals.
pub open spec fn spec_collateral_step(
    m: crate::state::Market,
    balance_scaled: int,
    price: int,
    block_time: int,
    t: PositionTotals,
) -> Option<PositionTotals> {
    if block_time < m.indexes_last_updated {
        None
    } else if !spec_updated_liquidity_index_fits(m, block_time) {
        None
    } else {
        let li = spec_updated_liquidity_index(m, block_time);
        if !spec_descale_fits(balance_scaled, li) {
            None
        } else {
            let amount = spec_descale_truncate(balance_scaled, li);
            let cv = spec_mul_dec_floor(amount, price);
            let md = spec_mul_dec_floor(cv, m.max_loan_to_value.0 as int);
            let wm = spec_mul_dec_floor(cv, m.maintenance_margin.0 as int);
            if cv > u128::MAX || md > u128::MAX || wm > u128::MAX {
                None
            } else if t.total_collateral + cv > u128::MAX || t.max_debt + md > u128::MAX
                || t.weighted_maintenance_margin + wm > u128::MAX {
                None
            } else {
                Some(
                    PositionTotals {
                        total_collateral: t.total_collateral + cv,
                        max_debt: t.max_debt + md,
                        weighted_maintenance_margin: t.weighted_maintenance_margin + wm,
                        ..t
                    },
                )
            }
        }
    }
}

/// The debt side of one market's contribution: the stored scaled debt,
/// descaled (rounded up) at the projected borrow index and priced, enters
/// the total debt, and the collateralized total unless the debt is exempt.
pub open spec fn spec_debt_step(
    m: crate::state::Market,
    amount_scaled: int,
    uncollateralized: bool,
    price: int,
    block_time: int,
    t: PositionTotals,
) -> Option<PositionTotals> {
    if !spec_updated_borrow_index_fits(m, block_time) {
        None
    } else {
        let bi = spec_updated_borrow_index(m, block_time);
        if !spec_descale_fits(amount_scaled, bi) {
            None
        } else {
            let amount = spec_descale_ceil(amount_scaled, bi);
            let dv = spec_mul_dec_floor(amount, price);
            if dv > u128::MAX || t.total_debt + dv > u128::MAX || (!uncollateralized
                && t.total_collateralized_debt + dv > u128::MAX) {
                None
            } else {
                Some(
                    PositionTotals {
                        total_debt: t.total_debt + dv,
                        total_collateralized_debt: if uncollateralized {
                            t.total_collateralized_debt
                        } else {
                            t.total_collateralized_debt + dv
                        },
                        ..t
                    },
                )
            }
        }
    }
}

/// The finished position: the totals over all markets, and the health
/// factor when there is collateralized debt.
pub open spec fn spec_user_position(
    l: Ledger,
    address: Seq<u8>,
    user: User,
    data: Seq<UserMarketData>,
    block_time: int,
) -> Option<(PositionTotals, Option<int>)> {
    match spec_position_prefix(
        l,
        address,
        user,
        data,
        block_time,
        l.money_market.market_count as nat,
    ) {
        None => None,
        Some(t) => {
            if t.total_collateralized_debt == 0 {
                Some((t, None))
            } else {
                let hf = spec_from_ratio(
                    t.weighted_maintenance_margin,
                    t.total_collateralized_debt,
                );
                if hf > u128::MAX {
                    None
                } else {
                    Some((t, Some(hf)))
                }
            }
        },
    }
}

/// The index the first-match lookup lands on.
pub open spec fn find_mi(s: Seq<crate::state::MarketRecord>, r: Seq<u8>) -> int {
    crate::state::find_market_rec(s, r)->0
}

/// A failed prefix never recovers at a later ordinal.
pub proof fn lemma_position_prefix_none(
    l: Ledger,
    address: Seq<u8>,
    user: User,
    data: Seq<UserMarketData>,
    block_time: int,
    n: nat,
    m: nat,
)
    requires
        n <= m,
        spec_position_prefix(l, address, user, data, block_time, n) is None,
    ensures
        spec_position_prefix(l, address, user, data, block_time, m) is None,
    decreases m,
{
    if m > n {
        lemma_position_prefix_none(l, address, user, data, block_time, n, (m - 1) as nat);
    }
}

/// The user's aggregate position at the query time. `market_data` holds
/// one entry per market ordinal: the oracle price and the user's scaled
/// ownership-token balance, both external reads performed by the host.
pub fn get_user_position(
    ledger: &Ledger,
    block_time: u64,
    user_address: &Vec<u8>,
    user: &User,
    market_data: &Vec<UserMarketData>,
) -> (r: Result<UserPosition, ContractError>)
    requires
        market_data@.len() >= ledger.money_market.market_count,
    ensures
        r is Ok <==> spec_user_position(
            *ledger,
            user_address@,
            *user,
            market_data@,
            block_time as int,
        ) is Some,
        r matches Ok(p) ==> (spec_user_position(
            *ledger,
            user_address@,
            *user,
            market_data@,
            block_time as int,
        ) matches Some(sp) && {
            &&& p.total_collateral_in_uusd == sp.0.total_collateral
            &&& p.total_debt_in_uusd == sp.0.total_debt
            &&& p.total_collateralized_debt_in_uusd == sp.0.total_collateralized_debt
            &&& p.max_debt_in_uusd == sp.0.max_debt
            &&& p.weighted_maintenance_margin_in_uusd == sp.0.weighted_maintenance_margin
            &&& p.health_status == (match sp.1 {
                Some(hf) => UserHealthStatus::Borrowing(Decimal(hf as u128)),
                None => UserHealthStatus::NotBorrowing,
            })
            &&& p.asset_prices@.len() == sp.0.prices.len()
            &&& (forall|k: int|
                0 <= k < sp.0.prices.len() ==> #[trigger] p.asset_prices@[k].reference@
                    == sp.0.prices[k].0 && p.asset_prices@[k].price.0 == sp.0.prices[k].1)
        }),
{
    let market_count = ledger.money_market.market_count;
    let mut total_collateral_in_uusd: u128 = 0;
    let mut total_debt_in_uusd: u128 = 0;
    let mut total_collateralized_debt_in_uusd: u128 = 0;
    let mut max_debt_in_uusd: u128 = 0;
    let mut weighted_maintenance_margin_in_uusd: u128 = 0;
    let mut asset_prices: Vec<AssetPrice> = Vec::new();
    let ghost gl = *ledger;
    let ghost ga = user_address@;
    let ghost gu = *user;
    let ghost gd = market_data@;
    let ghost gt = block_time as int;
    let mut i: u32 = 0;
    while i < market_count
        invariant
            i <= market_count,
            market_count == ledger.money_market.market_count,
            market_data@.len() >= market_count,
            gl == *ledger,
            ga == user_address@,
            gu == *user,
            gd == market_data@,
            gt == block_time as int,
            spec_position_prefix(gl, ga, gu, gd, gt, i as nat) matches Some(t) && {
                &&& total_collateral_in_uusd == t.total_collateral
                &&& total_debt_in_uusd == t.total_debt
                &&& total_collateralized_debt_in_uusd == t.total_collateralized_debt
                &&& max_debt_in_uusd == t.max_debt
                &&& weighted_maintenance_margin_in_uusd == t.weighted_maintenance_margin
                &&& asset_prices@.len() == t.prices.len()
                &&& (forall|k: int|
                    0 <= k < t.prices.len() ==> #[trigger] asset_prices@[k].reference@
                        == t.prices[k].0 && asset_prices@[k].price.0 == t.prices[k].1)
            },
        decreases market_count - i,
    {
        let ghost t_in = spec_position_prefix(gl, ga, gu, gd, gt, i as nat)->0;
        let collateral_bit = match get_bit(user.collateral_assets, i) {
            Ok(b) => b,
            Err(e) => {
                proof {
                    lemma_prefix_fails(gl, ga, gu, gd, gt, i as nat, market_count as nat);
                    assert(spec_user_position(gl, ga, gu, gd, gt) is None);
                    assert(spec_user_position(
                        *ledger,
                        user_address@,
                        *user,
                        market_data@,
                        block_time as int,
                    ) is None);
                }
                return Err(e);
            },
        };
        let borrowed_bit = match get_bit(user.borrowed_assets, i) {
            Ok(b) => b,
            Err(e) => {
                proof {
                    lemma_prefix_fails(gl, ga, gu, gd, gt, i as nat, market_count as nat);
                    assert(spec_user_position(gl, ga, gu, gd, gt) is None);
                    assert(spec_user_position(
                        *ledger,
                        user_address@,
                        *user,
                        market_data@,
                        block_time as int,
                    ) is None);
                }
                return Err(e);
            },
        };
        if collateral_bit || borrowed_bit {
            if (i as usize) >= ledger.market_references_by_index.len() {
                proof {
                    lemma_prefix_fails(gl, ga, gu, gd, gt, i as nat, market_count as nat);
                    assert(spec_user_position(gl, ga, gu, gd, gt) is None);
                    assert(spec_user_position(
                        *ledger,
                        user_address@,
                        *user,
                        market_data@,
                        block_time as int,
                    ) is None);
                }
                return Err(ContractError::MarketIndexNotFound { index: i });
            }
            let reference = &ledger.market_references_by_index[i as usize].reference;
            let mi = match market_position(&ledger.markets, reference) {
                Some(mi) => mi,
                None => {
                    proof {
                        lemma_prefix_fails(gl, ga, gu, gd, gt, i as nat, market_count as nat);
                    }
                    return Err(ContractError::MarketNotFound { reference: clone_bytes(reference) });
                },
            };
            let market = &ledger.markets[mi].market;
            let price = market_data[i as usize].price;
            asset_prices.push(AssetPrice { reference: clone_bytes(reference), price });
            let ghost t1 = PositionTotals {
                prices: t_in.prices.push((reference@, price.0 as int)),
                ..t_in
            };
            if collateral_bit {
                let balance_scaled = market_data[i as usize].collateral_balance_scaled;
                let amount = match crate::interest_rates::get_underlying_liquidity_amount(
                    balance_scaled,
                    market,
                    block_time,
                ) {
                    Ok(v) => v,
                    Err(e) => {
                        proof {
                            lemma_prefix_fails(gl, ga, gu, gd, gt, i as nat, market_count as nat);
                        }
                        return Err(e);
                    },
                };
                let cv = match multiply_uint128_by_decimal(amount, price) {
                    Ok(v) => v,
                    Err(e) => {
                        proof {
                            lemma_prefix_fails(gl, ga, gu, gd, gt, i as nat, market_count as nat);
                        }
                        return Err(ContractError::Math(e));
                    },
                };
                let md = match multiply_uint128_by_decimal(cv, market.max_loan_to_value) {
                    Ok(v) => v,
                    Err(e) => {
                        proof {
                            lemma_prefix_fails(gl, ga, gu, gd, gt, i as nat, market_count as nat);
                        }
                        return Err(ContractError::Math(e));
                    },
                };
                let wm = match multiply_uint128_by_decimal(cv, market.maintenance_margin) {
                    Ok(v) => v,
                    Err(e) => {
                        proof {
                            lemma_prefix_fails(gl, ga, gu, gd, gt, i as nat, market_count as nat);
                        }
                        return Err(ContractError::Math(e));
                    },
                };
                let sum_c = total_collateral_in_uusd.checked_add(cv);
                let sum_m = max_debt_in_uusd.checked_add(md);
                let sum_w = weighted_maintenance_margin_in_uusd.checked_add(wm);
                match (sum_c, sum_m, sum_w) {
                    (Some(a), Some(b), Some(c)) => {
                        total_collateral_in_uusd = a;
                        max_debt_in_uusd = b;
                        weighted_maintenance_margin_in_uusd = c;
                    },
                    _ => {
                        proof {
                            lemma_prefix_fails(gl, ga, gu, gd, gt, i as nat, market_count as nat);
                        }
                        return Err(ContractError::Math(crate::math::MathError::Overflow));
                    },
                }
            }
            if borrowed_bit {
                let di = match debt_position(&ledger.debts, reference, user_address) {
                    Some(di) => di,
                    None => {
                        proof {
                            lemma_prefix_fails(gl, ga, gu, gd, gt, i as nat, market_count as nat);
                        }
                        return Err(ContractError::DebtNotFound);
                    },
                };
                let debt = ledger.debts[di].debt;
                let amount = match crate::interest_rates::get_underlying_debt_amount(
                    debt.amount_scaled,
                    market,
                    block_time,
                ) {
                    Ok(v) => v,
                    Err(e) => {
                        proof {
                            lemma_prefix_fails(gl, ga, gu, gd, gt, i as nat, market_count as nat);
                        }
                        return Err(ContractError::Math(e));
                    },
                };
                let dv = match multiply_uint128_by_decimal(amount, price) {
                    Ok(v) => v,
                    Err(e) => {
                        proof {
                            lemma_prefix_fails(gl, ga, gu, gd, gt, i as nat, market_count as nat);
                        }
                        return Err(ContractError::Math(e));
                    },
                };
                let sum_d = total_debt_in_uusd.checked_add(dv);
                let sum_cd = if !debt.uncollateralized {
                    total_collateralized_debt_in_uusd.checked_add(dv)
                } else {
                    Some(total_collateralized_debt_in_uusd)
                };
                match (sum_d, sum_cd) {
                    (Some(a), Some(b)) => {
                        total_debt_in_uusd = a;
                        total_collateralized_debt_in_uusd = b;
                    },
                    _ => {
                        proof {
                            lemma_prefix_fails(gl, ga, gu, gd, gt, i as nat, market_count as nat);
                        }
                        return Err(ContractError::Math(crate::math::MathError::Overflow));
                    },
                }
            }
        }
        proof {
            if collateral_bit || borrowed_bit {
                let reference_s = gl.market_references_by_index@[i as int].reference@;
                let price_s = gd[i as int].price.0 as int;
                let t1 = PositionTotals { prices: t_in.prices.push((reference_s, price_s)), ..t_in };
                assert(crate::state::market_of(gl.markets@, reference_s) matches Some(m) && m
                    == gl.markets@[find_mi(gl.markets@, reference_s)].market);
                let m = gl.markets@[find_mi(gl.markets@, reference_s)].market;
                let t2 = if collateral_bit {
                    spec_collateral_step(
                        m,
                        gd[i as int].collateral_balance_scaled as int,
                        price_s,
                        gt,
                        t1,
                    )->0
                } else {
                    t1
                };
                assert(spec_position_step(gl, ga, gu, gd, gt, i as nat, t_in) matches Some(t_out)
                    && {
                    &&& total_collateral_in_uusd == t_out.total_collateral
                    &&& total_debt_in_uusd == t_out.total_debt
                    &&& total_collateralized_debt_in_uusd == t_out.total_collateralized_debt
                    &&& max_debt_in_uusd == t_out.max_debt
                    &&& weighted_maintenance_margin_in_uusd == t_out.weighted_maintenance_margin
                    &&& t_out.prices == t1.prices
                });
            } else {
                assert(spec_position_step(gl, ga, gu, gd, gt, i as nat, t_in) == Some(t_in));
            }
        }
        i = i + 1;
        proof {
            assert(spec_position_prefix(gl, ga, gu, gd, gt, i as nat) == spec_position_step(
                gl,
                ga,
                gu,
                gd,
                gt,
                (i - 1) as nat,
                t_in,
            ));
        }
    }
    let health_status = if total_collateralized_debt_in_uusd == 0 {
        UserHealthStatus::NotBorrowing
    } else {
        match Decimal::from_ratio(
            weighted_maintenance_margin_in_uusd,
            total_collateralized_debt_in_uusd,
        ) {
            Ok(hf) => UserHealthStatus::Borrowing(hf),
            Err(e) => {
                return Err(ContractError::Math(e));
            },
        }
    };
    Ok(
        UserPosition {
            total_collateral_in_uusd,
            total_debt_in_uusd,
            total_collateralized_debt_in_uusd,
            max_debt_in_uusd,
            weighted_maintenance_margin_in_uusd,
            health_status,
            asset_prices,
        },
    )
}

/// When step `i` of a prefix that held at `i` fails, the whole range to
/// `m` fails.
proof fn lemma_prefix_fails(
    l: Ledger,
    address: Seq<u8>,
    user: User,
    data: Seq<UserMarketData>,
    block_time: int,
    i: nat,
    m: nat,
)
    requires
        i < m,
        spec_position_prefix(l, address, user, data, block_time, i) matches Some(t)
            && spec_position_step(l, address, user, data, block_time, i, t) is None,
    ensures
        spec_position_prefix(l, address, user, data, block_time, m) is None,
{
    assert(spec_position_prefix(l, address, user, data, block_time, (i + 1) as nat) is None);
    lemma_position_prefix_none(l, address, user, data, block_time, (i + 1) as nat, m);
}

/// The price this position saw for the asset; an asset outside the
/// position reports no price.
pub fn position_asset_price(position: &UserPosition, reference: &Vec<u8>) -> (r: Result<
    Decimal,
    ContractError,
>)
    ensures
        r matches Ok(p) ==> exists|k: int|
            0 <= k < position.asset_prices@.len() && #[trigger] position.asset_prices@[k].reference@
                == reference@ && position.asset_prices@[k].price == p,
        r is Err ==> forall|k: int|
            0 <= k < position.asset_prices@.len() ==> #[trigger] position.asset_prices@[k].reference@
                != reference@,
{
    let n = position.asset_prices.len();
    let mut k: usize = 0;
    while k < n
        invariant
            n == position.asset_prices@.len(),
            k <= n,
            forall|j: int| 0 <= j < k ==> #[trigger] position.asset_prices@[j].reference@
                != reference@,
        decreases n - k,
    {
        if crate::state::bytes_eq(&position.asset_prices[k].reference, reference) {
            return Ok(position.asset_prices[k].price);
        }
        k = k + 1;
    }
    Err(ContractError::PriceNotFound { reference: clone_bytes(reference) })
}


/// The price recorded for the reference in a position's price list: the
/// first match.
pub open spec fn spec_price_of(prices: Seq<(Seq<u8>, int)>, r: Seq<u8>) -> Option<int>
    decreases prices.len(),
{
    if prices.len() == 0 {
        None
    } else if prices.first().0 == r {
        Some(prices.first().1)
    } else {
        spec_price_of(prices.drop_first(), r)
    }
}

/// The first match is a match, and nothing before it matches.
pub proof fn lemma_price_of_char(prices: Seq<(Seq<u8>, int)>, r: Seq<u8>)
    ensures
        match spec_price_of(prices, r) {
            Some(p) => exists|k: int|
                0 <= k < prices.len() && #[trigger] prices[k].0 == r && prices[k].1 == p && (
                forall|j: int| 0 <= j < k ==> prices[j].0 != r),
            None => forall|j: int| 0 <= j < prices.len() ==> #[trigger] prices[j].0 != r,
        },
    decreases prices.len(),
{
    if prices.len() > 0 {
        lemma_price_of_char(prices.drop_first(), r);
        if prices.first().0 != r {
            match spec_price_of(prices.drop_first(), r) {
                Some(p) => {
                    let k0 = choose|k0: int|
                        0 <= k0 < prices.drop_first().len() && #[trigger] prices.drop_first()[k0].0
                            == r && prices.drop_first()[k0].1 == p && (forall|j: int|
                            0 <= j < k0 ==> prices.drop_first()[j].0 != r);
                    assert(prices[k0 + 1].0 == r && prices[k0 + 1].1 == p);
                    assert forall|j: int| 0 <= j < k0 + 1 implies #[trigger] prices[j].0 != r by {
                        if j > 0 {
                            assert(prices[j] == prices.drop_first()[j - 1]);
                        }
                    }
                },
                None => {
                    assert forall|j: int|
                        0 <= j < prices.len() implies #[trigger] prices[j].0 != r by {
                        if j > 0 {
                            assert(prices[j] == prices.drop_first()[j - 1]);
                        }
                    }
                },
            }
        }
    }
}

/// A matching entry with no earlier match pins the first match.
pub proof fn lemma_price_of_first(prices: Seq<(Seq<u8>, int)>, r: Seq<u8>, k: int)
    requires
        0 <= k < prices.len(),
        prices[k].0 == r,
        forall|j: int| 0 <= j < k ==> prices[j].0 != r,
    ensures
        spec_price_of(prices, r) == Some(prices[k].1),
    decreases prices.len(),
{
    if k > 0 {
        lemma_price_of_first(prices.drop_first(), r, k - 1);
    }
}

/// The price a position recorded for the asset, resolved against the
/// ghost price list the position was computed with.
#[verifier::loop_isolation(false)]
pub fn price_from_position(
    position: &UserPosition,
    Ghost(prices): Ghost<Seq<(Seq<u8>, int)>>,
    reference: &Vec<u8>,
) -> (r: Result<Decimal, ContractError>)
    requires
        position.asset_prices@.len() == prices.len(),
        forall|k: int|
            0 <= k < prices.len() ==> #[trigger] position.asset_prices@[k].reference@ == prices[k].0
                && position.asset_prices@[k].price.0 == prices[k].1,
    ensures
        spec_price_of(prices, reference@) matches Some(p) ==> (r matches Ok(d) && d.0 == p),
        spec_price_of(prices, reference@) is None ==> r is Err,
{
    let n = position.asset_prices.len();
    let mut k: usize = 0;
    while k < n
        invariant
            k <= n,
            forall|j: int| 0 <= j < k ==> #[trigger] prices[j].0 != reference@,
        decreases n - k,
    {
        if crate::state::bytes_eq(&position.asset_prices[k].reference, reference) {
            proof {
                lemma_price_of_first(prices, reference@, k as int);
            }
            return Ok(position.asset_prices[k].price);
        }
        k = k + 1;
    }
    proof {
        lemma_price_of_char(prices, reference@);
    }
    Err(ContractError::PriceNotFound { reference: clone_bytes(reference) })
}

} // verus!
