//! Scaled-balance codec and the interest-accrual engine.
//!
//! Underlying amounts are converted to scaled form by dividing by an index
//! (after multiplying by a fixed precision factor) and back by multiplying.
//! Rounding always favors the protocol: liquidity is truncated in both
//! directions, debt is rounded up in both directions. Indices advance by
//! simple linear interest over the elapsed time, compounding only from one
//! accrual call to the next.

use crate::error::ContractError;
use crate::math::{
    div_ceil, divide_uint128_by_decimal, divide_uint128_by_decimal_and_ceil,
    multiply_uint128_by_decimal, spec_dec_mul, spec_div_dec_ceil, spec_div_dec_floor,
    spec_from_ratio, spec_mul_dec_floor, uint128_checked_div_with_ceil, Decimal, MathError,
    DECIMAL_FRACTIONAL,
};
use crate::state::Market;
use vstd::prelude::*;

verus! {

broadcast use vstd::arithmetic::div_mod::lemma_div_pos_is_pos, vstd::arithmetic::mul::lemma_mul_nonnegative;

/// Precision factor applied before dividing an amount by an index.
pub const SCALING_FACTOR: u128 = 1_000_000;

/// Length of the rate period: rates are per annum.
pub const SECONDS_PER_YEAR: u64 = 31_536_000;

/// Rounding policy of a scaled-balance conversion.
#[derive(Clone, Copy, Debug, PartialEq, Eq, Structural)]
pub enum ScalingOperation {
    /// Round down; used for liquidity, which the protocol owes.
    Truncate,
    /// Round up; used for debt, which the protocol is owed.
    Ceil,
}

/// Scaled form of an underlying amount, truncated.
pub open spec fn spec_scale_truncate(amount: int, index: int) -> int {
    spec_div_dec_floor(amount * SCALING_FACTOR, index)
}

/// Scaled form of an underlying amount, rounded up.
pub open spec fn spec_scale_ceil(amount: int, index: int) -> int {
    spec_div_dec_ceil(amount * SCALING_FACTOR, index)
}

/// Whether scaling fits in `u128`, per rounding policy.
pub open spec fn spec_scale_fits(amount: int, index: int, op: ScalingOperation) -> bool {
    &&& amount * SCALING_FACTOR <= u128::MAX
    &&& index != 0
    &&& match op {
        ScalingOperation::Truncate => spec_scale_truncate(amount, index) <= u128::MAX,
        ScalingOperation::Ceil => spec_scale_ceil(amount, index) <= u128::MAX,
    }
}

/// Underlying amount of a scaled one, truncated.
pub open spec fn spec_descale_truncate(scaled: int, index: int) -> int {
    spec_mul_dec_floor(scaled, index) / (SCALING_FACTOR as int)
}

/// Underlying amount of a scaled one, rounded up. The product with the
/// index is floored first, exactly as the conversion computes it.
pub open spec fn spec_descale_ceil(scaled: int, index: int) -> int {
    div_ceil(spec_mul_dec_floor(scaled, index), SCALING_FACTOR as int)
}

/// Whether descaling fits in `u128` (the final division cannot overflow).
pub open spec fn spec_descale_fits(scaled: int, index: int) -> bool {
    spec_mul_dec_floor(scaled, index) <= u128::MAX
}

/// Scales an underlying amount by the index, with the rounding policy.
pub fn compute_scaled_amount(amount: u128, index: Decimal, scaling_operation: ScalingOperation)
    -> (r: Result<u128, MathError>)
    ensures
        r is Ok <==> spec_scale_fits(amount as int, index.0 as int, scaling_operation),
        r matches Ok(v) ==> v == match scaling_operation {
            ScalingOperation::Truncate => spec_scale_truncate(amount as int, index.0 as int),
            ScalingOperation::Ceil => spec_scale_ceil(amount as int, index.0 as int),
        },
{
    let scaled_amount = match amount.checked_mul(SCALING_FACTOR) {
        Some(v) => v,
        None => {
            return Err(MathError::Overflow);
        },
    };
    match scaling_operation {
        ScalingOperation::Truncate => divide_uint128_by_decimal(scaled_amount, index),
        ScalingOperation::Ceil => divide_uint128_by_decimal_and_ceil(scaled_amount, index),
    }
}

/// Returns a scaled amount to underlying form, with the rounding policy.
pub fn compute_underlying_amount(
    scaled_amount: u128,
    index: Decimal,
    scaling_operation: ScalingOperation,
) -> (r: Result<u128, MathError>)
    ensures
        r is Ok <==> spec_descale_fits(scaled_amount as int, index.0 as int),
        r matches Ok(v) ==> v == match scaling_operation {
            ScalingOperation::Truncate => spec_descale_truncate(scaled_amount as int, index.0 as int),
            ScalingOperation::Ceil => spec_descale_ceil(scaled_amount as int, index.0 as int),
        },
{
    let before_scaling_factor = match multiply_uint128_by_decimal(scaled_amount, index) {
        Ok(v) => v,
        Err(e) => {
            return Err(e);
        },
    };
    match scaling_operation {
        ScalingOperation::Truncate => Ok(before_scaling_factor / SCALING_FACTOR),
        ScalingOperation::Ceil => {
            match uint128_checked_div_with_ceil(before_scaling_factor, SCALING_FACTOR) {
                Ok(v) => Ok(v),
                Err(e) => {
                    proof {
                        assert(false);
                    }
                    Err(e)
                },
            }
        },
    }
}

/// Index advanced by simple linear interest over the elapsed seconds.
pub open spec fn spec_applied_index(index: int, rate: int, time_elapsed: int) -> int {
    let ratio = spec_from_ratio(time_elapsed, SECONDS_PER_YEAR as int);
    let rate_factor = spec_dec_mul(rate, ratio);
    spec_dec_mul(index, DECIMAL_FRACTIONAL + rate_factor)
}

/// Whether the advanced index fits in `u128`.
pub open spec fn spec_applied_index_fits(index: int, rate: int, time_elapsed: int) -> bool {
    let ratio = spec_from_ratio(time_elapsed, SECONDS_PER_YEAR as int);
    let rate_factor = spec_dec_mul(rate, ratio);
    &&& rate_factor <= u128::MAX
    &&& DECIMAL_FRACTIONAL + rate_factor <= u128::MAX
    &&& spec_dec_mul(index, DECIMAL_FRACTIONAL + rate_factor) <= u128::MAX
}

/// `index * (1 + rate * time_elapsed / seconds_per_year)`, checked.
pub fn calculate_applied_linear_interest_rate(
    index: Decimal,
    rate: Decimal,
    time_elapsed: u64,
) -> (r: Result<Decimal, MathError>)
    ensures
        r is Ok <==> spec_applied_index_fits(index.0 as int, rate.0 as int, time_elapsed as int),
        r matches Ok(v) ==> v.0 == spec_applied_index(
            index.0 as int,
            rate.0 as int,
            time_elapsed as int,
        ),
{
    proof {
        // The elapsed time converts to a decimal without overflow.
        assert(time_elapsed * DECIMAL_FRACTIONAL <= u64::MAX * DECIMAL_FRACTIONAL)
            by (nonlinear_arith)
            requires
                time_elapsed <= u64::MAX,
        ;
        vstd::arithmetic::div_mod::lemma_div_is_ordered(
            time_elapsed * DECIMAL_FRACTIONAL,
            u64::MAX * DECIMAL_FRACTIONAL,
            SECONDS_PER_YEAR as int,
        );
        vstd::arithmetic::div_mod::lemma_div_pos_is_pos(
            time_elapsed * DECIMAL_FRACTIONAL,
            SECONDS_PER_YEAR as int,
        );
        vstd::arithmetic::div_mod::lemma_div_nonincreasing(
            u64::MAX * DECIMAL_FRACTIONAL,
            SECONDS_PER_YEAR as int,
        );
        assert(u64::MAX * DECIMAL_FRACTIONAL <= u128::MAX);
    }
    let ratio = match Decimal::from_ratio(time_elapsed as u128, SECONDS_PER_YEAR as u128) {
        Ok(v) => v,
        Err(e) => {
            proof {
                assert(false);
            }
            return Err(e);
        },
    };
    let rate_factor = match rate.checked_mul(ratio) {
        Ok(v) => v,
        Err(e) => {
            return Err(e);
        },
    };
    let one_plus = match Decimal::one().checked_add(rate_factor) {
        Ok(v) => v,
        Err(e) => {
            return Err(e);
        },
    };
    index.checked_mul(one_plus)
}

/// The borrow index the market would carry at the timestamp.
pub open spec fn spec_updated_borrow_index(m: Market, timestamp: int) -> int {
    if m.indexes_last_updated < timestamp && m.borrow_rate.0 > 0 {
        spec_applied_index(
            m.borrow_index.0 as int,
            m.borrow_rate.0 as int,
            timestamp - m.indexes_last_updated,
        )
    } else {
        m.borrow_index.0 as int
    }
}

/// Whether the updated borrow index fits in `u128`.
pub open spec fn spec_updated_borrow_index_fits(m: Market, timestamp: int) -> bool {
    m.indexes_last_updated < timestamp && m.borrow_rate.0 > 0 ==> spec_applied_index_fits(
        m.borrow_index.0 as int,
        m.borrow_rate.0 as int,
        timestamp - m.indexes_last_updated,
    )
}

/// The liquidity index the market would carry at the timestamp.
pub open spec fn spec_updated_liquidity_index(m: Market, timestamp: int) -> int {
    if m.indexes_last_updated < timestamp && m.liquidity_rate.0 > 0 {
        spec_applied_index(
            m.liquidity_index.0 as int,
            m.liquidity_rate.0 as int,
            timestamp - m.indexes_last_updated,
        )
    } else {
        m.liquidity_index.0 as int
    }
}

/// Whether the updated liquidity index fits in `u128`.
pub open spec fn spec_updated_liquidity_index_fits(m: Market, timestamp: int) -> bool {
    m.indexes_last_updated < timestamp && m.liquidity_rate.0 > 0 ==> spec_applied_index_fits(
        m.liquidity_index.0 as int,
        m.liquidity_rate.0 as int,
        timestamp - m.indexes_last_updated,
    )
}

/// Borrow index projected to the timestamp without persisting it.
pub fn get_updated_borrow_index(market: &Market, timestamp: u64) -> (r: Result<Decimal, MathError>)
    ensures
        r is Ok <==> spec_updated_borrow_index_fits(*market, timestamp as int),
        r matches Ok(v) ==> v.0 == spec_updated_borrow_index(*market, timestamp as int),
{
    if market.indexes_last_updated < timestamp && market.borrow_rate.0 > 0 {
        let time_elapsed = timestamp - market.indexes_last_updated;
        calculate_applied_linear_interest_rate(
            market.borrow_index,
            market.borrow_rate,
            time_elapsed,
        )
    } else {
        Ok(market.borrow_index)
    }
}

/// Liquidity index projected to the timestamp; a timestamp before the last
/// accrual is rejected.
pub fn get_updated_liquidity_index(market: &Market, timestamp: u64) -> (r: Result<
    Decimal,
    ContractError,
>)
    ensures
        timestamp < market.indexes_last_updated ==> r == Result::<Decimal, ContractError>::Err(
            ContractError::InvalidTimestamp {
                timestamp: timestamp,
                last_updated: market.indexes_last_updated,
            },
        ),
        timestamp >= market.indexes_last_updated ==> {
            &&& r is Ok <==> spec_updated_liquidity_index_fits(*market, timestamp as int)
            &&& (r matches Ok(v) ==> v.0 == spec_updated_liquidity_index(*market, timestamp as int))
        },
{
    if market.indexes_last_updated > timestamp {
        return Err(
            ContractError::InvalidTimestamp {
                timestamp: timestamp,
                last_updated: market.indexes_last_updated,
            },
        );
    }
    if market.indexes_last_updated < timestamp && market.liquidity_rate.0 > 0 {
        let time_elapsed = timestamp - market.indexes_last_updated;
        crate::error::lift_math(
            calculate_applied_linear_interest_rate(
                market.liquidity_index,
                market.liquidity_rate,
                time_elapsed,
            ),
        )
    } else {
        Ok(market.liquidity_index)
    }
}

/// Scaled liquidity amount at the market's projected liquidity index;
/// truncated, in the protocol's favor.
pub fn get_scaled_liquidity_amount(amount: u128, market: &Market, timestamp: u64) -> (r: Result<
    u128,
    ContractError,
>)
    ensures
        r is Ok <==> timestamp >= market.indexes_last_updated && spec_updated_liquidity_index_fits(
            *market,
            timestamp as int,
        ) && spec_scale_fits(
            amount as int,
            spec_updated_liquidity_index(*market, timestamp as int),
            ScalingOperation::Truncate,
        ),
        r matches Ok(v) ==> v == spec_scale_truncate(
            amount as int,
            spec_updated_liquidity_index(*market, timestamp as int),
        ),
{
    let index = match get_updated_liquidity_index(market, timestamp) {
        Ok(v) => v,
        Err(e) => {
            return Err(e);
        },
    };
    crate::error::lift_math(compute_scaled_amount(amount, index, ScalingOperation::Truncate))
}

/// Underlying liquidity amount of a scaled one at the projected liquidity
/// index; truncated, in the protocol's favor.
pub fn get_underlying_liquidity_amount(
    amount_scaled: u128,
    market: &Market,
    timestamp: u64,
) -> (r: Result<u128, ContractError>)
    ensures
        r is Ok <==> timestamp >= market.indexes_last_updated && spec_updated_liquidity_index_fits(
            *market,
            timestamp as int,
        ) && spec_descale_fits(
            amount_scaled as int,
            spec_updated_liquidity_index(*market, timestamp as int),
        ),
        r matches Ok(v) ==> v == spec_descale_truncate(
            amount_scaled as int,
            spec_updated_liquidity_index(*market, timestamp as int),
        ),
{
    let index = match get_updated_liquidity_index(market, timestamp) {
        Ok(v) => v,
        Err(e) => {
            return Err(e);
        },
    };
    crate::error::lift_math(
        compute_underlying_amount(amount_scaled, index, ScalingOperation::Truncate),
    )
}

/// Scaled debt amount at the market's projected borrow index; rounded up,
/// in the protocol's favor.
pub fn get_scaled_debt_amount(amount: u128, market: &Market, timestamp: u64) -> (r: Result<
    u128,
    MathError,
>)
    ensures
        r is Ok <==> spec_updated_borrow_index_fits(*market, timestamp as int) && spec_scale_fits(
            amount as int,
            spec_updated_borrow_index(*market, timestamp as int),
            ScalingOperation::Ceil,
        ),
        r matches Ok(v) ==> v == spec_scale_ceil(
            amount as int,
            spec_updated_borrow_index(*market, timestamp as int),
        ),
{
    let index = match get_updated_borrow_index(market, timestamp) {
        Ok(v) => v,
        Err(e) => {
            return Err(e);
        },
    };
    compute_scaled_amount(amount, index, ScalingOperation::Ceil)
}

/// Underlying debt amount of a scaled one at the projected borrow index;
/// rounded up, in the protocol's favor.
pub fn get_underlying_debt_amount(amount_scaled: u128, market: &Market, timestamp: u64) -> (r:
    Result<u128, MathError>)
    ensures
        r is Ok <==> spec_updated_borrow_index_fits(*market, timestamp as int)
            && spec_descale_fits(
            amount_scaled as int,
            spec_updated_borrow_index(*market, timestamp as int),
        ),
        r matches Ok(v) ==> v == spec_descale_ceil(
            amount_scaled as int,
            spec_updated_borrow_index(*market, timestamp as int),
        ),
{
    let index = match get_updated_borrow_index(market, timestamp) {
        Ok(v) => v,
        Err(e) => {
            return Err(e);
        },
    };
    compute_underlying_amount(amount_scaled, index, ScalingOperation::Ceil)
}

/// The market with both indices advanced to the timestamp.
pub open spec fn spec_accrued_market(m: Market, timestamp: int) -> Market {
    Market {
        borrow_index: Decimal(spec_updated_borrow_index(m, timestamp) as u128),
        liquidity_index: Decimal(spec_updated_liquidity_index(m, timestamp) as u128),
        indexes_last_updated: if m.indexes_last_updated < timestamp {
            timestamp as u64
        } else {
            m.indexes_last_updated
        },
        ..m
    }
}

/// Underlying interest the debt accrued between the stored borrow index
/// and the one projected to the timestamp.
pub open spec fn spec_accrual_interest(m: Market, timestamp: int) -> int {
    let previous_debt = spec_descale_ceil(m.debt_total_scaled as int, m.borrow_index.0 as int);
    let new_debt = spec_descale_ceil(
        m.debt_total_scaled as int,
        spec_updated_borrow_index(m, timestamp),
    );
    if new_debt > previous_debt {
        new_debt - previous_debt
    } else {
        0
    }
}

/// The protocol's cut of the accrued interest, in underlying form.
pub open spec fn spec_accrual_rewards(m: Market, timestamp: int) -> int {
    spec_mul_dec_floor(spec_accrual_interest(m, timestamp), m.reserve_factor.0 as int)
}

/// Scaled amount minted to the rewards collector by an accrual, if any.
pub open spec fn spec_accrual_mint(m: Market, timestamp: int) -> Option<u128> {
    if spec_accrual_rewards(m, timestamp) > 0 {
        Some(
            spec_scale_truncate(
                spec_accrual_rewards(m, timestamp),
                spec_updated_liquidity_index(m, timestamp),
            ) as u128,
        )
    } else {
        None
    }
}

/// Whether the whole accrual fits in `u128`.
pub open spec fn spec_accrue_fits(m: Market, timestamp: int) -> bool {
    &&& spec_updated_borrow_index_fits(m, timestamp)
    &&& spec_updated_liquidity_index_fits(m, timestamp)
    &&& spec_descale_fits(m.debt_total_scaled as int, m.borrow_index.0 as int)
    &&& spec_descale_fits(m.debt_total_scaled as int, spec_updated_borrow_index(m, timestamp))
    &&& spec_mul_dec_floor(spec_accrual_interest(m, timestamp), m.reserve_factor.0 as int)
        <= u128::MAX
    &&& (spec_accrual_rewards(m, timestamp) > 0 ==> spec_scale_fits(
        spec_accrual_rewards(m, timestamp),
        spec_updated_liquidity_index(m, timestamp),
        ScalingOperation::Truncate,
    ))
}

/// Advances the market's indices to the timestamp and computes the
/// protocol's reward mint: the debt growth over the period, times the
/// reserve factor, scaled at the new liquidity index (truncated). Returns
/// the scaled amount to mint to the rewards collector, if any. On error
/// the market is unchanged.
pub fn apply_accumulated_interests(market: &mut Market, current_timestamp: u64) -> (r: Result<
    Option<u128>,
    MathError,
>)
    ensures
        r is Ok <==> spec_accrue_fits(*old(market), current_timestamp as int),
        r matches Ok(mint) ==> *final(market) == spec_accrued_market(
            *old(market),
            current_timestamp as int,
        ) && mint == spec_accrual_mint(*old(market), current_timestamp as int),
        r is Err ==> *final(market) == *old(market),
{
    let (new_borrow_index, new_liquidity_index, mint) = match compute_accrued_interests(
        market,
        current_timestamp,
    ) {
        Ok(v) => v,
        Err(e) => {
            return Err(e);
        },
    };
    market.borrow_index = new_borrow_index;
    market.liquidity_index = new_liquidity_index;
    if market.indexes_last_updated < current_timestamp {
        market.indexes_last_updated = current_timestamp;
    }
    Ok(mint)
}

/// The accrual computation without the mutation: the advanced borrow and
/// liquidity indices and the protocol's scaled reward mint, if any.
pub fn compute_accrued_interests(market: &Market, current_timestamp: u64) -> (r: Result<
    (Decimal, Decimal, Option<u128>),
    MathError,
>)
    ensures
        r is Ok <==> spec_accrue_fits(*market, current_timestamp as int),
        r matches Ok(v) ==> v.0.0 == spec_updated_borrow_index(*market, current_timestamp as int)
            && v.1.0 == spec_updated_liquidity_index(*market, current_timestamp as int) && v.2
            == spec_accrual_mint(*market, current_timestamp as int),
{
    let previous_borrow_index = market.borrow_index;
    let new_borrow_index = match get_updated_borrow_index(market, current_timestamp) {
        Ok(v) => v,
        Err(e) => {
            return Err(e);
        },
    };
    let new_liquidity_index = if market.indexes_last_updated < current_timestamp
        && market.liquidity_rate.0 > 0 {
        let time_elapsed = current_timestamp - market.indexes_last_updated;
        match calculate_applied_linear_interest_rate(
            market.liquidity_index,
            market.liquidity_rate,
            time_elapsed,
        ) {
            Ok(v) => v,
            Err(e) => {
                return Err(e);
            },
        }
    } else {
        market.liquidity_index
    };
    let previous_debt_total = match compute_underlying_amount(
        market.debt_total_scaled,
        previous_borrow_index,
        ScalingOperation::Ceil,
    ) {
        Ok(v) => v,
        Err(e) => {
            return Err(e);
        },
    };
    let new_debt_total = match compute_underlying_amount(
        market.debt_total_scaled,
        new_borrow_index,
        ScalingOperation::Ceil,
    ) {
        Ok(v) => v,
        Err(e) => {
            return Err(e);
        },
    };
    let borrow_interest_accrued = if new_debt_total > previous_debt_total {
        new_debt_total - previous_debt_total
    } else {
        0
    };
    let accrued_protocol_rewards = match multiply_uint128_by_decimal(
        borrow_interest_accrued,
        market.reserve_factor,
    ) {
        Ok(v) => v,
        Err(e) => {
            return Err(e);
        },
    };
    let mint = if accrued_protocol_rewards > 0 {
        match compute_scaled_amount(
            accrued_protocol_rewards,
            new_liquidity_index,
            ScalingOperation::Truncate,
        ) {
            Ok(v) => Some(v),
            Err(e) => {
                return Err(e);
            },
        }
    } else {
        None
    };
    Ok((new_borrow_index, new_liquidity_index, mint))
}

/// Utilization: the debt's share of debt plus available liquidity; zero
/// when there is no debt.
pub open spec fn spec_utilization(total_debt: int, available_liquidity: int) -> int {
    if total_debt > 0 {
        spec_from_ratio(total_debt, available_liquidity + total_debt)
    } else {
        0
    }
}

/// The underlying debt the rate update reads at the timestamp.
pub open spec fn spec_rate_update_debt(m: Market, timestamp: int) -> int {
    spec_descale_ceil(m.debt_total_scaled as int, spec_updated_borrow_index(m, timestamp))
}

/// Whether the whole rate update fits in `u128`.
pub open spec fn spec_update_rates_fits(
    m: Market,
    contract_current_balance: int,
    liquidity_taken: int,
    timestamp: int,
) -> bool {
    let debt = spec_rate_update_debt(m, timestamp);
    let available = contract_current_balance - liquidity_taken;
    &&& spec_updated_borrow_index_fits(m, timestamp)
    &&& spec_descale_fits(m.debt_total_scaled as int, spec_updated_borrow_index(m, timestamp))
    &&& (debt > 0 ==> available + debt <= u128::MAX && spec_from_ratio(debt, available + debt)
        <= u128::MAX)
    &&& crate::interest_rate_models::spec_rates_fit(
        m.interest_rate_strategy,
        spec_utilization(debt, available),
        m.borrow_rate.0 as int,
        m.reserve_factor.0 as int,
    )
}

/// The rates the strategy yields at the timestamp, as numerators.
pub open spec fn spec_updated_rates(
    m: Market,
    contract_current_balance: int,
    liquidity_taken: int,
    timestamp: int,
) -> (int, int) {
    let debt = spec_rate_update_debt(m, timestamp);
    let available = contract_current_balance - liquidity_taken;
    let u = spec_utilization(debt, available);
    let borrow = crate::interest_rate_models::spec_strategy_borrow_rate(
        m.interest_rate_strategy,
        u,
        m.borrow_rate.0 as int,
    );
    (
        borrow,
        crate::interest_rate_models::spec_liquidity_rate(borrow, u, m.reserve_factor.0 as int),
    )
}

/// New borrow and liquidity rates for the market's utilization, where the
/// utilization counts the on-hand balance net of the amount about to
/// leave. Rejects an outflow larger than the on-hand balance.
pub fn update_interest_rates(
    market: &Market,
    contract_current_balance: u128,
    liquidity_taken: u128,
    timestamp: u64,
) -> (r: Result<(Decimal, Decimal), ContractError>)
    ensures
        contract_current_balance < liquidity_taken ==> r == Result::<
            (Decimal, Decimal),
            ContractError,
        >::Err(ContractError::OperationExceedsAvailableLiquidity),
        contract_current_balance >= liquidity_taken ==> (r is Ok <==> spec_update_rates_fits(
            *market,
            contract_current_balance as int,
            liquidity_taken as int,
            timestamp as int,
        )),
        r matches Ok(v) ==> contract_current_balance >= liquidity_taken && {
            let rates = spec_updated_rates(
                *market,
                contract_current_balance as int,
                liquidity_taken as int,
                timestamp as int,
            );
            v.0.0 == rates.0 && v.1.0 == rates.1
        },
{
    if contract_current_balance < liquidity_taken {
        return Err(ContractError::OperationExceedsAvailableLiquidity);
    }
    let available_liquidity = contract_current_balance - liquidity_taken;
    let total_debt = match get_underlying_debt_amount(
        market.debt_total_scaled,
        market,
        timestamp,
    ) {
        Ok(v) => v,
        Err(e) => {
            return Err(ContractError::Math(e));
        },
    };
    let current_utilization_rate = if total_debt > 0 {
        let liquidity_and_debt = match available_liquidity.checked_add(total_debt) {
            Some(v) => v,
            None => {
                return Err(ContractError::Math(MathError::Overflow));
            },
        };
        match Decimal::from_ratio(total_debt, liquidity_and_debt) {
            Ok(v) => v,
            Err(e) => {
                return Err(ContractError::Math(e));
            },
        }
    } else {
        Decimal::zero()
    };
    match market.interest_rate_strategy.get_updated_interest_rates(
        current_utilization_rate,
        market.borrow_rate,
        market.reserve_factor,
    ) {
        Ok(v) => Ok(v),
        Err(e) => Err(ContractError::Math(e)),
    }
}


/// Law: scaling an amount and descaling it again, both truncated as
/// liquidity conversions are, never returns more than the original amount
/// — rounding drift can only favor the protocol. Holds for any index of
/// at least one.
pub proof fn lemma_scale_descale_truncate(amount: int, index: int)
    requires
        0 <= amount,
        DECIMAL_FRACTIONAL <= index,
    ensures
        spec_descale_truncate(spec_scale_truncate(amount, index), index) <= amount,
{
    broadcast use vstd::arithmetic::div_mod::lemma_div_pos_is_pos, vstd::arithmetic::mul::lemma_mul_nonnegative;

    let f = DECIMAL_FRACTIONAL as int;
    let sf = SCALING_FACTOR as int;
    let n = amount * sf * f;
    let s = spec_scale_truncate(amount, index);
    assert(amount * sf * f == (amount * sf) * f) by (nonlinear_arith);
    assert(s == n / index) by {
        assert(spec_div_dec_floor(amount * sf, index) == (amount * sf) * f / index);
    }
    assert(s * index <= n) by {
        vstd::arithmetic::div_mod::lemma_fundamental_div_mod(n, index);
        vstd::arithmetic::div_mod::lemma_mod_division_less_than_divisor(n, index);
        assert(n == index * (n / index) + n % index);
        assert(s * index == index * s) by (nonlinear_arith);
    }
    assert(s * index / f <= n / f) by {
        vstd::arithmetic::div_mod::lemma_div_is_ordered(s * index, n, f);
    }
    assert(n / f == amount * sf) by {
        vstd::arithmetic::div_mod::lemma_div_by_multiple(amount * sf, f);
    }
    assert(spec_descale_truncate(s, index) == s * index / f / sf);
    vstd::arithmetic::div_mod::lemma_div_is_ordered(s * index / f, amount * sf, sf);
    assert(amount * sf / sf == amount) by {
        vstd::arithmetic::div_mod::lemma_div_by_multiple(amount, sf);
        assert(amount * sf == sf * amount) by (nonlinear_arith);
    }
}

/// Law: scaling an amount and descaling it again, both rounded up as debt
/// conversions are, never returns less than the original amount —
/// rounding drift can only favor the protocol. Holds for any index of at
/// least one.
pub proof fn lemma_scale_descale_ceil(amount: int, index: int)
    requires
        0 <= amount,
        DECIMAL_FRACTIONAL <= index,
    ensures
        spec_descale_ceil(spec_scale_ceil(amount, index), index) >= amount,
{
    broadcast use vstd::arithmetic::div_mod::lemma_div_pos_is_pos, vstd::arithmetic::mul::lemma_mul_nonnegative;

    let f = DECIMAL_FRACTIONAL as int;
    let sf = SCALING_FACTOR as int;
    let n = amount * sf * f;
    let s = spec_scale_ceil(amount, index);
    assert(amount * sf * f == (amount * sf) * f) by (nonlinear_arith);
    assert(s == div_ceil(n, index));
    assert(s * index >= n) by {
        lemma_div_ceil_ge(n, index);
    }
    assert(s * index / f >= n / f) by {
        vstd::arithmetic::div_mod::lemma_div_is_ordered(n, s * index, f);
    }
    assert(n / f == amount * sf) by {
        vstd::arithmetic::div_mod::lemma_div_by_multiple(amount * sf, f);
    }
    let m = s * index / f;
    assert(spec_descale_ceil(s, index) == div_ceil(m, sf));
    assert(div_ceil(m, sf) >= div_ceil(amount * sf, sf)) by {
        lemma_div_ceil_is_monotonic(amount * sf, m, sf);
    }
    assert(div_ceil(amount * sf, sf) == amount) by {
        vstd::arithmetic::div_mod::lemma_div_by_multiple(amount, sf);
        assert(amount * sf == sf * amount) by (nonlinear_arith);
        vstd::arithmetic::div_mod::lemma_mod_multiples_basic(amount, sf);
    }
}

/// The ceiling quotient, multiplied back, reaches the dividend.
proof fn lemma_div_ceil_ge(n: int, d: int)
    requires
        n >= 0,
        d > 0,
    ensures
        div_ceil(n, d) * d >= n,
{
    vstd::arithmetic::div_mod::lemma_fundamental_div_mod(n, d);
    vstd::arithmetic::div_mod::lemma_mod_division_less_than_divisor(n, d);
    vstd::arithmetic::div_mod::lemma_div_pos_is_pos(n, d);
    assert(div_ceil(n, d) * d >= n) by (nonlinear_arith)
        requires
            n == d * (n / d) + n % d,
            0 <= n % d < d,
            div_ceil(n, d) == if n % d == 0 {
                n / d
            } else {
                n / d + 1
            },
    ;
}

/// The ceiling quotient is monotone in the dividend.
proof fn lemma_div_ceil_is_monotonic(x: int, y: int, d: int)
    requires
        0 <= x <= y,
        d > 0,
    ensures
        div_ceil(x, d) <= div_ceil(y, d),
{
    vstd::arithmetic::div_mod::lemma_div_is_ordered(x, y, d);
    if x % d != 0 && div_ceil(x, d) > div_ceil(y, d) {
        assert(x / d == y / d && y % d == 0);
        vstd::arithmetic::div_mod::lemma_fundamental_div_mod(x, d);
        vstd::arithmetic::div_mod::lemma_fundamental_div_mod(y, d);
        vstd::arithmetic::div_mod::lemma_mod_division_less_than_divisor(x, d);
        assert(false) by (nonlinear_arith)
            requires
                x == d * (x / d) + x % d,
                y == d * (y / d) + y % d,
                x / d == y / d,
                y % d == 0,
                0 < x % d,
                x <= y,
        ;
    }
}

/// Law: one accrual never lowers an index. The advanced index multiplies
/// the old one by at least one, since rates and elapsed time are never
/// negative.
pub proof fn lemma_applied_index_monotonic(index: int, rate: int, time_elapsed: int)
    requires
        0 <= index,
        0 <= rate,
        0 <= time_elapsed,
    ensures
        spec_applied_index(index, rate, time_elapsed) >= index,
{
    broadcast use vstd::arithmetic::div_mod::lemma_div_pos_is_pos, vstd::arithmetic::mul::lemma_mul_nonnegative;

    let f = DECIMAL_FRACTIONAL as int;
    let ratio = spec_from_ratio(time_elapsed, SECONDS_PER_YEAR as int);
    let rate_factor = spec_dec_mul(rate, ratio);
    assert(ratio >= 0);
    assert(rate_factor >= 0);
    assert(index * (f + rate_factor) >= index * f) by (nonlinear_arith)
        requires
            index >= 0,
            rate_factor >= 0,
            f > 0,
    ;
    vstd::arithmetic::div_mod::lemma_div_is_ordered(index * f, index * (f + rate_factor), f);
    assert(index * f / f == index) by {
        vstd::arithmetic::div_mod::lemma_div_by_multiple(index, f);
    }
}

/// Law: an accrual never lowers a market's indices or turns its clock
/// back, whatever the timestamp.
pub proof fn lemma_accrued_market_monotonic(m: Market, timestamp: int)
    requires
        0 <= timestamp <= u64::MAX,
        spec_accrue_fits(m, timestamp),
    ensures
        spec_accrued_market(m, timestamp).borrow_index.0 >= m.borrow_index.0,
        spec_accrued_market(m, timestamp).liquidity_index.0 >= m.liquidity_index.0,
        spec_accrued_market(m, timestamp).indexes_last_updated >= m.indexes_last_updated,
    decreases 0int,
{
    if m.indexes_last_updated < timestamp && m.borrow_rate.0 > 0 {
        lemma_applied_index_monotonic(
            m.borrow_index.0 as int,
            m.borrow_rate.0 as int,
            timestamp - m.indexes_last_updated,
        );
    }
    if m.indexes_last_updated < timestamp && m.liquidity_rate.0 > 0 {
        lemma_applied_index_monotonic(
            m.liquidity_index.0 as int,
            m.liquidity_rate.0 as int,
            timestamp - m.indexes_last_updated,
        );
    }
}

/// The market after a whole sequence of accruals, applied left to right.
pub open spec fn spec_accrued_seq(m: Market, timestamps: Seq<u64>) -> Market
    decreases timestamps.len(),
{
    if timestamps.len() == 0 {
        m
    } else {
        spec_accrued_seq(
            spec_accrued_market(m, timestamps.first() as int),
            timestamps.drop_first(),
        )
    }
}

/// Whether every accrual of the sequence fits in `u128`.
pub open spec fn spec_accrue_seq_fits(m: Market, timestamps: Seq<u64>) -> bool
    decreases timestamps.len(),
{
    if timestamps.len() == 0 {
        true
    } else {
        spec_accrue_fits(m, timestamps.first() as int) && spec_accrue_seq_fits(
            spec_accrued_market(m, timestamps.first() as int),
            timestamps.drop_first(),
        )
    }
}

/// Law: over any sequence of accrual calls with non-decreasing timestamps
/// (and non-negative rates, which unsigned rates always are), the borrow
/// and liquidity indices never decrease.
pub proof fn lemma_indices_monotonic_over_sequence(m: Market, timestamps: Seq<u64>)
    requires
        spec_accrue_seq_fits(m, timestamps),
        forall|i: int, j: int|
            0 <= i < j < timestamps.len() ==> timestamps[i] <= timestamps[j],
    ensures
        spec_accrued_seq(m, timestamps).borrow_index.0 >= m.borrow_index.0,
        spec_accrued_seq(m, timestamps).liquidity_index.0 >= m.liquidity_index.0,
    decreases timestamps.len(),
{
    if timestamps.len() > 0 {
        let m1 = spec_accrued_market(m, timestamps.first() as int);
        lemma_accrued_market_monotonic(m, timestamps.first() as int);
        assert(forall|i: int, j: int|
            0 <= i < j < timestamps.drop_first().len() ==> timestamps.drop_first()[i]
                <= timestamps.drop_first()[j]);
        lemma_indices_monotonic_over_sequence(m1, timestamps.drop_first());
    }
}

/// Law: accruing is idempotent. A second accrual at the same timestamp
/// changes nothing and mints no further reward, because the indices do
/// not advance and the debt difference over the empty period is zero.
pub proof fn lemma_accrual_idempotent(m: Market, timestamp: int)
    requires
        0 <= timestamp <= u64::MAX,
        spec_accrue_fits(m, timestamp),
    ensures
        spec_accrued_market(spec_accrued_market(m, timestamp), timestamp) == spec_accrued_market(
            m,
            timestamp,
        ),
        spec_accrual_mint(spec_accrued_market(m, timestamp), timestamp) is None,
{
    broadcast use vstd::arithmetic::div_mod::lemma_div_pos_is_pos, vstd::arithmetic::mul::lemma_mul_nonnegative;

    let acc = spec_accrued_market(m, timestamp);
    assert(acc.indexes_last_updated >= timestamp || acc.indexes_last_updated
        == m.indexes_last_updated);
    assert(spec_updated_borrow_index(acc, timestamp) == acc.borrow_index.0 as int);
    assert(spec_updated_liquidity_index(acc, timestamp) == acc.liquidity_index.0 as int);
    assert(spec_accrued_market(acc, timestamp) == acc);
    assert(spec_accrual_interest(acc, timestamp) == 0);
    let f = DECIMAL_FRACTIONAL as int;
    assert(spec_accrual_rewards(acc, timestamp) == 0 * (acc.reserve_factor.0 as int) / f);
    assert(0 * (acc.reserve_factor.0 as int) == 0) by (nonlinear_arith);
    assert(0int / f == 0) by {
        vstd::arithmetic::div_mod::lemma_div_of0(f);
    }
}

} // verus!
