//! Tests of the fixed-point codec and the accrual arithmetic.

use red_bank::interest_rates::{
    apply_accumulated_interests, calculate_applied_linear_interest_rate, compute_scaled_amount,
    compute_underlying_amount, get_scaled_debt_amount, get_scaled_liquidity_amount,
    get_underlying_debt_amount, get_underlying_liquidity_amount, ScalingOperation,
};
use red_bank::math::{Decimal, DECIMAL_FRACTIONAL};
use red_bank::state::{AssetType, Market};
use red_bank::interest_rate_models::{DynamicInterestRate, InterestRateStrategy};

fn dec(numerator: u128, denominator: u128) -> Decimal {
    Decimal::from_ratio(numerator, denominator).unwrap()
}

fn test_market() -> Market {
    let dynamic_ir = DynamicInterestRate {
        min_borrow_rate: Decimal::zero(),
        max_borrow_rate: Decimal::one(),
        kp_1: Decimal::zero(),
        optimal_utilization_rate: Decimal::zero(),
        kp_augmentation_threshold: Decimal::zero(),
        kp_2: Decimal::zero(),
    };
    Market {
        index: 0,
        ma_token_address: Vec::new(),
        liquidity_index: Decimal::one(),
        borrow_index: Decimal::one(),
        borrow_rate: Decimal::zero(),
        liquidity_rate: Decimal::zero(),
        max_loan_to_value: Decimal::zero(),
        reserve_factor: Decimal::zero(),
        indexes_last_updated: 0,
        debt_total_scaled: 0,
        asset_type: AssetType::Native,
        maintenance_margin: Decimal::one(),
        liquidation_bonus: Decimal::zero(),
        interest_rate_strategy: InterestRateStrategy::Dynamic(dynamic_ir),
        active: true,
        deposit_enabled: true,
        borrow_enabled: true,
    }
}

#[test]
fn test_accumulated_index_calculation() {
    let index = dec(1, 10);
    let rate = dec(2, 10);
    let time_elapsed = 15768000; // half a year
    let accumulated = calculate_applied_linear_interest_rate(index, rate, time_elapsed).unwrap();
    assert_eq!(accumulated, dec(11, 100));
}

#[test]
fn test_liquidity_and_debt_rounding() {
    let start: u128 = 100_000_000_000;
    let mut market = test_market();
    market.liquidity_index = dec(3, 1);
    market.borrow_index = dec(3, 1);
    market.indexes_last_updated = 1;

    let scaled_amount_liquidity = get_scaled_liquidity_amount(start, &market, 1).unwrap();
    let scaled_amount_debt = get_scaled_debt_amount(start, &market, 1).unwrap();
    assert_eq!(33_333_333_333_333_333_u128, scaled_amount_liquidity);
    assert_eq!(33_333_333_333_333_334_u128, scaled_amount_debt);

    let back_to_underlying_liquidity =
        get_underlying_liquidity_amount(scaled_amount_liquidity, &market, 1).unwrap();
    let back_to_underlying_debt =
        get_underlying_debt_amount(scaled_amount_debt, &market, 1).unwrap();
    assert_eq!(99_999_999_999_u128, back_to_underlying_liquidity);
    assert_eq!(100_000_000_001_u128, back_to_underlying_debt);
}

#[test]
fn test_accrual_determinism_half_year_exact() {
    // index 1.0 at 20% per annum over half a year lands on exactly 1.1.
    let accumulated =
        calculate_applied_linear_interest_rate(Decimal::one(), dec(2, 10), 15_768_000).unwrap();
    assert_eq!(accumulated, dec(11, 10));
    assert_eq!(accumulated.0, 1_100_000_000_000_000_000);
}

#[test]
fn test_accrual_idempotent_at_same_timestamp() {
    let mut market = test_market();
    market.borrow_rate = dec(2, 10);
    market.liquidity_rate = dec(1, 10);
    market.reserve_factor = dec(1, 10);
    market.debt_total_scaled = 1_000_000 * 1_000_000;
    market.indexes_last_updated = 0;

    let first_mint = apply_accumulated_interests(&mut market, 15_768_000).unwrap();
    assert!(first_mint.is_some());
    let after_first = market.clone();

    // A second accrual at the same timestamp is a no-op with no mint.
    let second_mint = apply_accumulated_interests(&mut market, 15_768_000).unwrap();
    assert_eq!(market, after_first);
    assert_eq!(second_mint, None);
}

#[test]
fn test_scale_descale_rounding_directions() {
    // Truncated (liquidity) round trips never gain; ceiled (debt) round
    // trips never lose.
    let index = dec(11, 10);
    for amount in [1_u128, 7, 999_983, 123_456_789] {
        let s = compute_scaled_amount(amount, index, ScalingOperation::Truncate).unwrap();
        let back = compute_underlying_amount(s, index, ScalingOperation::Truncate).unwrap();
        assert!(back <= amount);

        let s = compute_scaled_amount(amount, index, ScalingOperation::Ceil).unwrap();
        let back = compute_underlying_amount(s, index, ScalingOperation::Ceil).unwrap();
        assert!(back >= amount);
    }
}

#[test]
fn test_index_monotone_over_accruals() {
    let mut market = test_market();
    market.borrow_rate = dec(35, 100);
    market.liquidity_rate = dec(22, 100);
    let mut prev_borrow = market.borrow_index.0;
    let mut prev_liquidity = market.liquidity_index.0;
    for ts in [10_u64, 10, 400, 100_000, 100_000, 5_000_000] {
        apply_accumulated_interests(&mut market, ts).unwrap();
        assert!(market.borrow_index.0 >= prev_borrow);
        assert!(market.liquidity_index.0 >= prev_liquidity);
        prev_borrow = market.borrow_index.0;
        prev_liquidity = market.liquidity_index.0;
    }
}

#[test]
fn test_decimal_checked_operations() {
    assert_eq!(dec(1, 2).checked_add(dec(1, 4)).unwrap(), dec(3, 4));
    assert_eq!(dec(1, 2).checked_mul(dec(1, 2)).unwrap(), dec(1, 4));
    assert_eq!(dec(3, 4).checked_sub(dec(1, 4)).unwrap(), dec(1, 2));
    assert_eq!(dec(1, 2).checked_div(dec(1, 4)).unwrap(), dec(2, 1));
    assert_eq!(DECIMAL_FRACTIONAL, 1_000_000_000_000_000_000);
    assert!(Decimal(u128::MAX).checked_add(Decimal(1)).is_err());
    assert!(Decimal::from_ratio(1, 0).is_err());
}
