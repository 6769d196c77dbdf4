//! Tests of the operation handlers over an explicit ledger.

use red_bank::accounts::UserMarketData;
use red_bank::contract::{
    execute_borrow, execute_deposit, execute_finalize_liquidity_token_transfer,
    execute_init_asset, execute_init_asset_token_callback, execute_liquidate, execute_repay,
    execute_update_asset, execute_update_config, execute_update_uncollateralized_loan_limit,
    execute_update_user_collateral_asset_status, execute_withdraw, instantiate,
    liquidation_compute_amounts, query_collateral, query_config, query_market,
    CreateOrUpdateConfig, InitOrUpdateAssetParams,
};
use red_bank::error::ContractError;
use red_bank::interest_rate_models::{DynamicInterestRate, InterestRateStrategy};
use red_bank::math::Decimal;
use red_bank::state::{AssetType, Ledger};

fn dec(numerator: u128, denominator: u128) -> Decimal {
    Decimal::from_ratio(numerator, denominator).unwrap()
}

fn dynamic_ir() -> DynamicInterestRate {
    DynamicInterestRate {
        min_borrow_rate: dec(5, 100),
        max_borrow_rate: dec(50, 100),
        kp_1: dec(3, 1),
        optimal_utilization_rate: dec(80, 100),
        kp_augmentation_threshold: dec(2000, 1),
        kp_2: dec(2, 1),
    }
}

fn default_asset_params() -> InitOrUpdateAssetParams {
    InitOrUpdateAssetParams {
        initial_borrow_rate: Some(dec(20, 100)),
        max_loan_to_value: Some(dec(8, 10)),
        reserve_factor: Some(dec(1, 100)),
        maintenance_margin: Some(Decimal::one()),
        liquidation_bonus: Some(Decimal::zero()),
        interest_rate_strategy: Some(InterestRateStrategy::Dynamic(dynamic_ir())),
        active: Some(true),
        deposit_enabled: Some(true),
        borrow_enabled: Some(true),
    }
}

fn setup() -> Ledger {
    let config = CreateOrUpdateConfig {
        owner: Some(b"owner".to_vec()),
        address_provider_address: Some(b"address_provider".to_vec()),
        ma_token_code_id: Some(1),
        close_factor: Some(dec(1, 2)),
    };
    instantiate(config).unwrap()
}

fn init_market(ledger: &mut Ledger, reference: &[u8], params: InitOrUpdateAssetParams) -> u32 {
    let idx = execute_init_asset(
        ledger,
        0,
        &b"owner".to_vec(),
        reference.to_vec(),
        AssetType::Native,
        params,
    )
    .unwrap();
    let mut token = b"ma_".to_vec();
    token.extend_from_slice(reference);
    execute_init_asset_token_callback(ledger, &token, &reference.to_vec()).unwrap();
    idx
}

#[test]
fn contract_test_proper_initialization() {
    // Missing parameters are rejected.
    let incomplete = CreateOrUpdateConfig {
        owner: Some(b"owner".to_vec()),
        address_provider_address: None,
        ma_token_code_id: Some(1),
        close_factor: Some(dec(1, 2)),
    };
    assert_eq!(
        instantiate(incomplete).unwrap_err(),
        ContractError::InstantiateParamsUnavailable
    );

    // A close factor above one is rejected.
    let invalid = CreateOrUpdateConfig {
        owner: Some(b"owner".to_vec()),
        address_provider_address: Some(b"address_provider".to_vec()),
        ma_token_code_id: Some(1),
        close_factor: Some(dec(13, 10)),
    };
    assert!(matches!(
        instantiate(invalid).unwrap_err(),
        ContractError::ParamsNotLessOrEqualOne { .. }
    ));

    let ledger = setup();
    let config = query_config(&ledger);
    assert_eq!(config.owner, b"owner".to_vec());
    assert_eq!(config.ma_token_code_id, 1);
    assert_eq!(config.market_count, 0);
    assert_eq!(config.close_factor, dec(1, 2));
}

#[test]
fn contract_test_update_config() {
    let mut ledger = setup();

    // Only the owner may update.
    let update = CreateOrUpdateConfig {
        owner: None,
        address_provider_address: None,
        ma_token_code_id: Some(2),
        close_factor: None,
    };
    assert_eq!(
        execute_update_config(&mut ledger, &b"somebody".to_vec(), update.clone()).unwrap_err(),
        ContractError::Unauthorized
    );

    // Absent fields keep their value.
    execute_update_config(&mut ledger, &b"owner".to_vec(), update).unwrap();
    let config = query_config(&ledger);
    assert_eq!(config.ma_token_code_id, 2);
    assert_eq!(config.owner, b"owner".to_vec());
    assert_eq!(config.close_factor, dec(1, 2));
}

#[test]
fn test_init_asset() {
    let mut ledger = setup();
    let params = default_asset_params();

    // Non-owner is not authorized.
    let err = execute_init_asset(
        &mut ledger,
        0,
        &b"somebody".to_vec(),
        b"someasset".to_vec(),
        AssetType::Native,
        params.clone(),
    )
    .unwrap_err();
    assert_eq!(err, ContractError::Unauthorized);

    // Missing parameters are rejected.
    let empty = InitOrUpdateAssetParams {
        max_loan_to_value: None,
        maintenance_margin: None,
        liquidation_bonus: None,
        ..params.clone()
    };
    let err = execute_init_asset(
        &mut ledger,
        0,
        &b"owner".to_vec(),
        b"someasset".to_vec(),
        AssetType::Native,
        empty,
    )
    .unwrap_err();
    assert_eq!(err, ContractError::InstantiateParamsUnavailable);

    // Parameters above one are rejected, and named.
    let invalid = InitOrUpdateAssetParams {
        max_loan_to_value: Some(dec(110, 10)),
        reserve_factor: Some(dec(120, 100)),
        ..params.clone()
    };
    let err = execute_init_asset(
        &mut ledger,
        0,
        &b"owner".to_vec(),
        b"someasset".to_vec(),
        AssetType::Native,
        invalid,
    )
    .unwrap_err();
    assert_eq!(
        err,
        ContractError::ParamsNotLessOrEqualOne {
            invalid_params: vec![
                red_bank::error::ParamName::MaxLoanToValue,
                red_bank::error::ParamName::ReserveFactor
            ]
        }
    );

    // A maintenance margin at or below the loan-to-value is rejected.
    let invalid = InitOrUpdateAssetParams {
        max_loan_to_value: Some(dec(5, 10)),
        maintenance_margin: Some(dec(5, 10)),
        ..params.clone()
    };
    let err = execute_init_asset(
        &mut ledger,
        0,
        &b"owner".to_vec(),
        b"someasset".to_vec(),
        AssetType::Native,
        invalid,
    )
    .unwrap_err();
    assert_eq!(
        err,
        ContractError::InvalidMaintenanceMargin {
            maintenance_margin: dec(1, 2),
            max_loan_to_value: dec(1, 2)
        }
    );

    // A dynamic strategy whose clamp is not a proper interval is rejected.
    let invalid_ir = DynamicInterestRate {
        min_borrow_rate: dec(5, 10),
        max_borrow_rate: dec(4, 10),
        ..dynamic_ir()
    };
    let invalid = InitOrUpdateAssetParams {
        interest_rate_strategy: Some(InterestRateStrategy::Dynamic(invalid_ir)),
        ..params.clone()
    };
    let err = execute_init_asset(
        &mut ledger,
        0,
        &b"owner".to_vec(),
        b"someasset".to_vec(),
        AssetType::Native,
        invalid,
    )
    .unwrap_err();
    assert_eq!(
        err,
        ContractError::InvalidMinMaxBorrowRate {
            min_borrow_rate: dec(5, 10),
            max_borrow_rate: dec(4, 10)
        }
    );

    // An optimal utilization above one is rejected.
    let invalid_ir = DynamicInterestRate {
        optimal_utilization_rate: dec(11, 10),
        ..dynamic_ir()
    };
    let invalid = InitOrUpdateAssetParams {
        interest_rate_strategy: Some(InterestRateStrategy::Dynamic(invalid_ir)),
        ..params.clone()
    };
    let err = execute_init_asset(
        &mut ledger,
        0,
        &b"owner".to_vec(),
        b"someasset".to_vec(),
        AssetType::Native,
        invalid,
    )
    .unwrap_err();
    assert_eq!(err, ContractError::InvalidOptimalUtilizationRate);

    // The owner creates the market: ordinal zero, unit indices, no token.
    let idx = execute_init_asset(
        &mut ledger,
        0,
        &b"owner".to_vec(),
        b"someasset".to_vec(),
        AssetType::Native,
        params.clone(),
    )
    .unwrap();
    assert_eq!(idx, 0);
    let market = query_market(&ledger, &b"someasset".to_vec()).unwrap();
    assert!(market.ma_token_address.is_empty());
    assert_eq!(market.liquidity_index, Decimal::one());
    assert_eq!(market.borrow_index, Decimal::one());
    assert_eq!(ledger.money_market.market_count, 1);
    assert_eq!(
        ledger.market_references_by_index[0].reference,
        b"someasset".to_vec()
    );

    // A second initialization of the same asset is rejected.
    let err = execute_init_asset(
        &mut ledger,
        0,
        &b"owner".to_vec(),
        b"someasset".to_vec(),
        AssetType::Native,
        params.clone(),
    )
    .unwrap_err();
    assert_eq!(err, ContractError::AssetAlreadyInitialized);

    // The token deploy callback records the token address exactly once.
    execute_init_asset_token_callback(
        &mut ledger,
        &b"mtokencontract".to_vec(),
        &b"someasset".to_vec(),
    )
    .unwrap();
    let market = query_market(&ledger, &b"someasset".to_vec()).unwrap();
    assert_eq!(market.ma_token_address, b"mtokencontract".to_vec());

    // A replay of the callback is unauthorized.
    let err = execute_init_asset_token_callback(
        &mut ledger,
        &b"mtokencontract".to_vec(),
        &b"someasset".to_vec(),
    )
    .unwrap_err();
    assert_eq!(err, ContractError::Unauthorized);

    // A second asset takes the next ordinal.
    let idx = execute_init_asset(
        &mut ledger,
        0,
        &b"owner".to_vec(),
        b"otherasset".to_vec(),
        AssetType::Cw20,
        params,
    )
    .unwrap();
    assert_eq!(idx, 1);
    assert_eq!(ledger.money_market.market_count, 2);
}

#[test]
fn test_init_asset_callback_cannot_be_called_on_its_own() {
    let mut ledger = setup();
    let err = execute_init_asset_token_callback(
        &mut ledger,
        &b"mtokencontract".to_vec(),
        &b"someasset".to_vec(),
    )
    .unwrap_err();
    assert_eq!(
        err,
        ContractError::MarketNotFound {
            reference: b"someasset".to_vec()
        }
    );
}

#[test]
fn test_cannot_deposit_if_no_market() {
    let mut ledger = setup();
    let err = execute_deposit(
        &mut ledger,
        0,
        &b"depositor".to_vec(),
        &b"somecoin".to_vec(),
        110000,
        110000,
    )
    .unwrap_err();
    assert_eq!(
        err,
        ContractError::MarketNotFound {
            reference: b"somecoin".to_vec()
        }
    );
}

#[test]
fn test_cannot_deposit_if_market_disabled() {
    let mut ledger = setup();
    let params = InitOrUpdateAssetParams {
        active: Some(false),
        deposit_enabled: Some(false),
        borrow_enabled: Some(false),
        ..default_asset_params()
    };
    init_market(&mut ledger, b"somecoin", params);

    let err = execute_deposit(
        &mut ledger,
        0,
        &b"depositor".to_vec(),
        &b"somecoin".to_vec(),
        110000,
        110000,
    )
    .unwrap_err();
    assert_eq!(
        err,
        ContractError::DepositNotAllowed {
            asset: b"somecoin".to_vec()
        }
    );

    // The deposit gate needs both flags: active alone is not enough.
    {
        let market = &mut ledger.markets[0].market;
        market.active = true;
        assert!(!market.allow_deposit());
        market.deposit_enabled = true;
        assert!(market.allow_deposit());
    }
}

#[test]
fn test_deposit_native_asset() {
    let initial_liquidity: u128 = 10_000_000;
    let mut ledger = setup();
    init_market(&mut ledger, b"somecoin", default_asset_params());
    {
        let market = &mut ledger.markets[0].market;
        market.liquidity_index = dec(11, 10);
        market.borrow_index = dec(1, 1);
        market.borrow_rate = dec(10, 100);
        market.liquidity_rate = dec(10, 100);
        market.reserve_factor = dec(1, 10);
        market.debt_total_scaled = 10_000_000 * red_bank::interest_rates::SCALING_FACTOR;
        market.indexes_last_updated = 10_000_000;
    }
    let market_before = ledger.markets[0].market.clone();

    let deposit_amount: u128 = 110_000;
    let block_time: u64 = 10_000_100;
    let res = execute_deposit(
        &mut ledger,
        block_time,
        &b"depositor".to_vec(),
        &b"somecoin".to_vec(),
        deposit_amount,
        initial_liquidity,
    )
    .unwrap();

    // Expected index: accrued from the stored rate over the elapsed time.
    let expected_liquidity_index = red_bank::interest_rates::calculate_applied_linear_interest_rate(
        market_before.liquidity_index,
        market_before.liquidity_rate,
        block_time - market_before.indexes_last_updated,
    )
    .unwrap();
    let expected_mint = red_bank::interest_rates::compute_scaled_amount(
        deposit_amount,
        expected_liquidity_index,
        red_bank::interest_rates::ScalingOperation::Truncate,
    )
    .unwrap();
    assert_eq!(res.mint_amount, expected_mint);
    assert!(res.collateral_bit_set);
    let market = &ledger.markets[0].market;
    assert_eq!(market.liquidity_index, expected_liquidity_index);
    assert_eq!(market.indexes_last_updated, block_time);

    // An empty deposit fails.
    let err = execute_deposit(
        &mut ledger,
        block_time,
        &b"depositor".to_vec(),
        &b"somecoin".to_vec(),
        0,
        initial_liquidity,
    )
    .unwrap_err();
    assert_eq!(
        err,
        ContractError::InvalidDepositAmount {
            asset: b"somecoin".to_vec()
        }
    );
}

#[test]
fn test_cannot_withdraw_if_market_inactive() {
    let mut ledger = setup();
    let params = InitOrUpdateAssetParams {
        active: Some(false),
        deposit_enabled: Some(true),
        borrow_enabled: Some(true),
        ..default_asset_params()
    };
    init_market(&mut ledger, b"token", params);
    let data = vec![UserMarketData {
        price: Decimal::one(),
        collateral_balance_scaled: 2_000_000,
    }];
    let err = execute_withdraw(
        &mut ledger,
        0,
        &b"withdrawer".to_vec(),
        &b"token".to_vec(),
        Some(2000),
        &b"rewards".to_vec(),
        &data,
        10_000,
    )
    .unwrap_err();
    assert_eq!(
        err,
        ContractError::WithdrawNotAllowed {
            asset: b"token".to_vec()
        }
    );
}

#[test]
fn test_withdraw_cannot_exceed_balance() {
    let mut ledger = setup();
    init_market(&mut ledger, b"somecoin", default_asset_params());
    {
        let market = &mut ledger.markets[0].market;
        market.liquidity_index = dec(15, 10);
        market.borrow_index = dec(1, 1);
    }
    // The withdrawer holds a scaled balance of 2_000 * SCALING_FACTOR.
    ledger.users.push(red_bank::state::UserRecord {
        address: b"withdrawer".to_vec(),
        user: red_bank::state::User {
            collateral_assets: 0b01,
            borrowed_assets: 0,
        },
    });
    let data = vec![UserMarketData {
        price: Decimal::one(),
        collateral_balance_scaled: 2_000 * red_bank::interest_rates::SCALING_FACTOR,
    }];
    // Asking for more underlying than the balance descales to is invalid.
    let err = execute_withdraw(
        &mut ledger,
        0,
        &b"withdrawer".to_vec(),
        &b"somecoin".to_vec(),
        Some(5_000),
        &b"rewards".to_vec(),
        &data,
        10_000,
    )
    .unwrap_err();
    assert_eq!(
        err,
        ContractError::InvalidWithdrawAmount {
            asset: b"somecoin".to_vec()
        }
    );
}

#[test]
fn test_withdraw_if_health_factor_not_met() {
    // One collateral market (maintenance margin 0.6) and one debt market,
    // both priced at one. Collateral 1,000,000 against collateralized
    // debt 540,000: the margin is 600,000, so withdrawing up to the
    // break-even amount succeeds and one unit more is rejected.
    let sf = red_bank::interest_rates::SCALING_FACTOR;
    let mut ledger = setup();
    let collateral_params = InitOrUpdateAssetParams {
        max_loan_to_value: Some(dec(5, 10)),
        maintenance_margin: Some(dec(6, 10)),
        ..default_asset_params()
    };
    init_market(&mut ledger, b"collateral", collateral_params);
    init_market(&mut ledger, b"debt", default_asset_params());

    // The withdrawer holds collateral in market 0 and debt in market 1.
    let withdrawer = b"withdrawer".to_vec();
    ledger.users.push(red_bank::state::UserRecord {
        address: withdrawer.clone(),
        user: red_bank::state::User {
            collateral_assets: 0b01,
            borrowed_assets: 0b10,
        },
    });
    ledger.debts.push(red_bank::state::DebtRecord {
        reference: b"debt".to_vec(),
        address: withdrawer.clone(),
        debt: red_bank::state::Debt {
            amount_scaled: 540_000 * sf,
            uncollateralized: false,
        },
    });
    ledger.markets[1].market.debt_total_scaled = 540_000 * sf;

    let data = vec![
        UserMarketData {
            price: Decimal::one(),
            collateral_balance_scaled: 1_000_000 * sf,
        },
        UserMarketData {
            price: Decimal::one(),
            collateral_balance_scaled: 0,
        },
    ];

    // One unit beyond the break-even amount is rejected.
    let err = execute_withdraw(
        &mut ledger,
        0,
        &withdrawer,
        &b"collateral".to_vec(),
        Some(100_002),
        &b"rewards".to_vec(),
        &data,
        10_000_000,
    )
    .unwrap_err();
    assert_eq!(err, ContractError::InvalidHealthFactorAfterWithdraw);

    // At the break-even amount the withdrawal goes through.
    let res = execute_withdraw(
        &mut ledger,
        0,
        &withdrawer,
        &b"collateral".to_vec(),
        Some(100_001),
        &b"rewards".to_vec(),
        &data,
        10_000_000,
    )
    .unwrap();
    assert_eq!(res.withdraw_amount, 100_001);
}

#[test]
fn test_cannot_repay_if_market_inactive() {
    let mut ledger = setup();
    let params = InitOrUpdateAssetParams {
        active: Some(false),
        deposit_enabled: Some(true),
        borrow_enabled: Some(true),
        ..default_asset_params()
    };
    init_market(&mut ledger, b"somecoin", params);
    let err = execute_repay(
        &mut ledger,
        0,
        &b"repayer".to_vec(),
        &b"somecoin".to_vec(),
        110_000,
        110_000,
    )
    .unwrap_err();
    assert_eq!(
        err,
        ContractError::RepayNotAllowed {
            asset: b"somecoin".to_vec()
        }
    );
}

#[test]
fn test_cannot_borrow_if_market_disabled() {
    let mut ledger = setup();
    let params = InitOrUpdateAssetParams {
        active: Some(true),
        deposit_enabled: Some(true),
        borrow_enabled: Some(false),
        ..default_asset_params()
    };
    init_market(&mut ledger, b"somecoin", params);
    let data: Vec<UserMarketData> = vec![UserMarketData {
        price: Decimal::one(),
        collateral_balance_scaled: 0,
    }];
    let err = execute_borrow(
        &mut ledger,
        0,
        &b"borrower".to_vec(),
        &b"somecoin".to_vec(),
        10_000,
        &data,
        100_000,
    )
    .unwrap_err();
    assert_eq!(
        err,
        ContractError::BorrowNotAllowed {
            asset: b"somecoin".to_vec()
        }
    );
}

#[test]
fn test_borrow_and_repay() {
    // Deposit collateral, borrow against it, and repay in full: the debt
    // record and the market total move in step and the borrowed bit
    // clears when the debt reaches zero.
    let sf = red_bank::interest_rates::SCALING_FACTOR;
    let mut ledger = setup();
    init_market(&mut ledger, b"somecoin", default_asset_params());
    let borrower = b"borrower".to_vec();

    // Deposit 1,000,000 at unit index: the scaled mint is 1:1.
    let res = execute_deposit(
        &mut ledger,
        0,
        &borrower,
        &b"somecoin".to_vec(),
        1_000_000,
        1_000_000,
    )
    .unwrap();
    assert_eq!(res.mint_amount, 1_000_000 * sf);

    // Borrow 400,000 against it.
    let data = vec![UserMarketData {
        price: Decimal::one(),
        collateral_balance_scaled: 1_000_000 * sf,
    }];
    let res = execute_borrow(
        &mut ledger,
        0,
        &borrower,
        &b"somecoin".to_vec(),
        400_000,
        &data,
        1_000_000,
    )
    .unwrap();
    assert!(res.debt_bit_set);
    assert_eq!(res.borrow_amount_scaled, 400_000 * sf);
    assert_eq!(ledger.markets[0].market.debt_total_scaled, 400_000 * sf);
    assert_eq!(ledger.debts[0].debt.amount_scaled, 400_000 * sf);

    // A borrow beyond the capacity (LTV 0.8 of 1,000,000) is rejected.
    let err = execute_borrow(
        &mut ledger,
        0,
        &borrower,
        &b"somecoin".to_vec(),
        500_000,
        &data,
        600_000,
    )
    .unwrap_err();
    assert_eq!(err, ContractError::BorrowAmountExceedsGivenCollateral);

    // Repaying more than owed refunds the excess and clears the bit.
    let res = execute_repay(
        &mut ledger,
        0,
        &borrower,
        &b"somecoin".to_vec(),
        450_000,
        1_050_000,
    )
    .unwrap();
    assert_eq!(res.repay_amount_scaled, 400_000 * sf);
    assert_eq!(res.refund_amount, 50_000);
    assert!(res.debt_bit_unset);
    assert_eq!(ledger.markets[0].market.debt_total_scaled, 0);
    assert_eq!(ledger.debts[0].debt.amount_scaled, 0);

    // With no debt left, repaying again is rejected.
    let err = execute_repay(
        &mut ledger,
        0,
        &borrower,
        &b"somecoin".to_vec(),
        100,
        1_050_100,
    )
    .unwrap_err();
    assert_eq!(err, ContractError::CannotRepayZeroDebt);
}

#[test]
fn test_uncollateralized_loan_limits() {
    let sf = red_bank::interest_rates::SCALING_FACTOR;
    let mut ledger = setup();
    init_market(&mut ledger, b"somecoin", default_asset_params());
    let borrower = b"borrower".to_vec();

    // Only the owner may grant a limit.
    let err = execute_update_uncollateralized_loan_limit(
        &mut ledger,
        &b"somebody".to_vec(),
        &borrower,
        &b"somecoin".to_vec(),
        1_000_000,
    )
    .unwrap_err();
    assert_eq!(err, ContractError::Unauthorized);

    execute_update_uncollateralized_loan_limit(
        &mut ledger,
        &b"owner".to_vec(),
        &borrower,
        &b"somecoin".to_vec(),
        1_000_000,
    )
    .unwrap();
    assert_eq!(ledger.debts[0].debt.uncollateralized, true);

    // Within the limit the borrow needs no collateral.
    let data = vec![UserMarketData {
        price: Decimal::one(),
        collateral_balance_scaled: 0,
    }];
    let res = execute_borrow(
        &mut ledger,
        0,
        &borrower,
        &b"somecoin".to_vec(),
        400_000,
        &data,
        1_000_000,
    )
    .unwrap();
    assert_eq!(res.borrow_amount_scaled, 400_000 * sf);

    // Beyond the remaining limit the borrow is rejected.
    let err = execute_borrow(
        &mut ledger,
        0,
        &borrower,
        &b"somecoin".to_vec(),
        700_000,
        &data,
        600_000,
    )
    .unwrap_err();
    assert_eq!(
        err,
        ContractError::BorrowAmountExceedsUncollateralizedLoanLimit
    );

    // A target with a positive limit cannot be liquidated.
    let err = execute_liquidate(
        &mut ledger,
        0,
        &b"liquidator".to_vec(),
        &borrower,
        &b"somecoin".to_vec(),
        &b"somecoin".to_vec(),
        100,
        true,
        &data,
        1_000_000,
        1_000_000,
    )
    .unwrap_err();
    assert_eq!(
        err,
        ContractError::CannotLiquidateWhenPositiveUncollateralizedLoanLimit
    );
}

#[test]
fn test_liquidation_clamp() {
    // The clamp scenario: collateral 100 at price 2, debt priced 1 with a
    // 10% bonus, close factor 0.5 of a 1000 debt, 1000 sent. The naive
    // seize of 275 exceeds the balance, so the whole balance is seized
    // and the repayment shrinks to 181.
    let (debt_to_repay, collateral_to_liquidate, refund) = liquidation_compute_amounts(
        dec(2, 1),
        dec(1, 1),
        dec(1, 2),
        100,
        dec(1, 10),
        1_000,
        1_000,
    )
    .unwrap();
    assert_eq!(collateral_to_liquidate, 100);
    assert_eq!(debt_to_repay, 181);
    assert_eq!(refund, 1_000 - 181);

    // Without the clamp the close factor caps the repayment.
    let (debt_to_repay, collateral_to_liquidate, refund) = liquidation_compute_amounts(
        dec(2, 1),
        dec(1, 1),
        dec(1, 2),
        10_000,
        dec(1, 10),
        1_000,
        1_000,
    )
    .unwrap();
    assert_eq!(debt_to_repay, 500);
    assert_eq!(collateral_to_liquidate, 275);
    assert_eq!(refund, 500);
}

#[test]
fn test_execute_liquidate() {
    // An unhealthy position gets liquidated: the target's debt shrinks by
    // the scaled repayment and the seized ownership tokens move to the
    // liquidator.
    let sf = red_bank::interest_rates::SCALING_FACTOR;
    let mut ledger = setup();
    let collateral_params = InitOrUpdateAssetParams {
        max_loan_to_value: Some(dec(5, 10)),
        maintenance_margin: Some(dec(6, 10)),
        liquidation_bonus: Some(dec(1, 10)),
        ..default_asset_params()
    };
    init_market(&mut ledger, b"collateral", collateral_params);
    init_market(&mut ledger, b"debt", default_asset_params());

    let target = b"target".to_vec();
    ledger.users.push(red_bank::state::UserRecord {
        address: target.clone(),
        user: red_bank::state::User {
            collateral_assets: 0b01,
            borrowed_assets: 0b10,
        },
    });
    // Debt value 900,000 against a margin of 600,000: unhealthy.
    ledger.debts.push(red_bank::state::DebtRecord {
        reference: b"debt".to_vec(),
        address: target.clone(),
        debt: red_bank::state::Debt {
            amount_scaled: 900_000 * sf,
            uncollateralized: false,
        },
    });
    ledger.markets[1].market.debt_total_scaled = 900_000 * sf;

    let data = vec![
        UserMarketData {
            price: Decimal::one(),
            collateral_balance_scaled: 1_000_000 * sf,
        },
        UserMarketData {
            price: Decimal::one(),
            collateral_balance_scaled: 0,
        },
    ];

    let res = execute_liquidate(
        &mut ledger,
        0,
        &b"liquidator".to_vec(),
        &target,
        &b"collateral".to_vec(),
        &b"debt".to_vec(),
        300_000,
        true,
        &data,
        2_000_000,
        2_000_000,
    )
    .unwrap();
    // The close factor (0.5) allows up to 450,000; the sent 300,000 is
    // repaid in full, seizing 330,000 collateral (10% bonus).
    assert_eq!(res.debt_amount_to_repay, 300_000);
    assert_eq!(res.collateral_amount_to_liquidate, 330_000);
    assert_eq!(res.refund_amount, 0);
    assert_eq!(res.debt_amount_to_repay_scaled, 300_000 * sf);
    assert!(res.liquidator_collateral_bit_set);
    assert!(!res.target_collateral_bit_unset);
    assert_eq!(ledger.markets[1].market.debt_total_scaled, 600_000 * sf);
    assert_eq!(ledger.debts[0].debt.amount_scaled, 600_000 * sf);

    // A healthy position cannot be liquidated.
    ledger.debts[0].debt.amount_scaled = 100_000 * sf;
    ledger.markets[1].market.debt_total_scaled = 100_000 * sf;
    let err = execute_liquidate(
        &mut ledger,
        0,
        &b"liquidator".to_vec(),
        &target,
        &b"collateral".to_vec(),
        &b"debt".to_vec(),
        50_000,
        true,
        &data,
        2_000_000,
        2_000_000,
    )
    .unwrap_err();
    assert_eq!(err, ContractError::CannotLiquidateHealthyPosition);
}

#[test]
fn test_finalize_liquidity_token_transfer() {
    let sf = red_bank::interest_rates::SCALING_FACTOR;
    let mut ledger = setup();
    init_market(&mut ledger, b"somecoin", default_asset_params());
    let from = b"fromaddr".to_vec();
    let to = b"toaddr".to_vec();
    ledger.users.push(red_bank::state::UserRecord {
        address: from.clone(),
        user: red_bank::state::User {
            collateral_assets: 0b01,
            borrowed_assets: 0,
        },
    });
    let data = vec![UserMarketData {
        price: Decimal::one(),
        collateral_balance_scaled: 1_000_000 * sf,
    }];

    // Only a known ownership token may call back.
    let err = execute_finalize_liquidity_token_transfer(
        &mut ledger,
        0,
        &b"unknown_token".to_vec(),
        &from,
        &to,
        1_000_000 * sf,
        0,
        500_000 * sf,
        &data,
    )
    .unwrap_err();
    assert_eq!(
        err,
        ContractError::MaTokenNotFound {
            ma_token_address: b"unknown_token".to_vec()
        }
    );

    // A partial transfer sets the recipient's bit and keeps the sender's.
    let res = execute_finalize_liquidity_token_transfer(
        &mut ledger,
        0,
        &b"ma_somecoin".to_vec(),
        &from,
        &to,
        1_000_000 * sf,
        0,
        500_000 * sf,
        &data,
    )
    .unwrap();
    assert!(!res.from_bit_unset);
    assert!(res.to_bit_set);

    // Draining the sender clears the sender's bit.
    let res = execute_finalize_liquidity_token_transfer(
        &mut ledger,
        0,
        &b"ma_somecoin".to_vec(),
        &from,
        &to,
        500_000 * sf,
        500_000 * sf,
        500_000 * sf,
        &data,
    )
    .unwrap();
    assert!(res.from_bit_unset);
    assert!(!res.to_bit_set);

    // A sender with unhealthy collateralized debt cannot transfer.
    ledger.users[0].user = red_bank::state::User {
        collateral_assets: 0b01,
        borrowed_assets: 0b01,
    };
    ledger.debts.push(red_bank::state::DebtRecord {
        reference: b"somecoin".to_vec(),
        address: from.clone(),
        debt: red_bank::state::Debt {
            amount_scaled: 5_000_000 * sf,
            uncollateralized: false,
        },
    });
    let err = execute_finalize_liquidity_token_transfer(
        &mut ledger,
        0,
        &b"ma_somecoin".to_vec(),
        &from,
        &to,
        1_000_000 * sf,
        0,
        500_000 * sf,
        &data,
    )
    .unwrap_err();
    assert_eq!(err, ContractError::CannotTransferTokenWhenInvalidHealthFactor);
}

#[test]
fn test_update_asset_collateral() {
    let sf = red_bank::interest_rates::SCALING_FACTOR;
    let mut ledger = setup();
    init_market(&mut ledger, b"somecoin", default_asset_params());
    let user = b"useraddr".to_vec();

    // Enabling with no balance is rejected.
    let no_balance = vec![UserMarketData {
        price: Decimal::one(),
        collateral_balance_scaled: 0,
    }];
    let err = execute_update_user_collateral_asset_status(
        &mut ledger,
        0,
        &user,
        &b"somecoin".to_vec(),
        true,
        &no_balance,
    )
    .unwrap_err();
    assert_eq!(
        err,
        ContractError::UserNoCollateralBalance {
            user_address: user.clone(),
            asset: b"somecoin".to_vec()
        }
    );

    // Enabling with a positive balance sets the bit.
    let data = vec![UserMarketData {
        price: Decimal::one(),
        collateral_balance_scaled: 1_000_000 * sf,
    }];
    let res = execute_update_user_collateral_asset_status(
        &mut ledger,
        0,
        &user,
        &b"somecoin".to_vec(),
        true,
        &data,
    )
    .unwrap();
    assert_eq!(res, Some(true));

    // Disabling while the collateral backs debt is rejected.
    ledger.users[0].user.borrowed_assets = 0b01;
    ledger.debts.push(red_bank::state::DebtRecord {
        reference: b"somecoin".to_vec(),
        address: user.clone(),
        debt: red_bank::state::Debt {
            amount_scaled: 700_000 * sf,
            uncollateralized: false,
        },
    });
    let err = execute_update_user_collateral_asset_status(
        &mut ledger,
        0,
        &user,
        &b"somecoin".to_vec(),
        false,
        &data,
    )
    .unwrap_err();
    assert_eq!(
        err,
        ContractError::InvalidHealthFactorAfterDisablingCollateral
    );
}

#[test]
fn test_query_collateral() {
    let sf = red_bank::interest_rates::SCALING_FACTOR;
    let mut ledger = setup();
    init_market(&mut ledger, b"somecoin", default_asset_params());
    init_market(&mut ledger, b"othercoin", default_asset_params());
    let user = b"useraddr".to_vec();

    // With no deposits, nothing is enabled.
    let collateral = query_collateral(&ledger, &user).unwrap();
    assert_eq!(collateral.len(), 2);
    assert!(collateral.iter().all(|c| !c.enabled));

    // After a deposit, that asset is enabled.
    execute_deposit(&mut ledger, 0, &user, &b"othercoin".to_vec(), 100 * sf, 100 * sf).unwrap();
    let collateral = query_collateral(&ledger, &user).unwrap();
    assert_eq!(collateral[0].reference, b"somecoin".to_vec());
    assert!(!collateral[0].enabled);
    assert_eq!(collateral[1].reference, b"othercoin".to_vec());
    assert!(collateral[1].enabled);
}

#[test]
fn test_update_asset() {
    let mut ledger = setup();
    let params = default_asset_params();

    // Non-owner is not authorized.
    let err = execute_update_asset(
        &mut ledger,
        0,
        &b"somebody".to_vec(),
        &b"someasset".to_vec(),
        params.clone(),
        0,
    )
    .unwrap_err();
    assert_eq!(err, ContractError::Unauthorized);

    // An unknown asset cannot be updated.
    let err = execute_update_asset(
        &mut ledger,
        0,
        &b"owner".to_vec(),
        &b"someasset".to_vec(),
        params.clone(),
        0,
    )
    .unwrap_err();
    assert_eq!(err, ContractError::AssetNotInitialized);

    init_market(&mut ledger, b"someasset", params.clone());

    // New parameters replace the present ones.
    let update = InitOrUpdateAssetParams {
        initial_borrow_rate: None,
        max_loan_to_value: Some(dec(6, 10)),
        reserve_factor: None,
        maintenance_margin: Some(dec(9, 10)),
        liquidation_bonus: Some(dec(12, 100)),
        interest_rate_strategy: None,
        active: None,
        deposit_enabled: None,
        borrow_enabled: None,
    };
    let res = execute_update_asset(
        &mut ledger,
        0,
        &b"owner".to_vec(),
        &b"someasset".to_vec(),
        update,
        0,
    )
    .unwrap();
    assert!(!res.rates_updated);
    let market = query_market(&ledger, &b"someasset".to_vec()).unwrap();
    assert_eq!(market.max_loan_to_value, dec(6, 10));
    assert_eq!(market.maintenance_margin, dec(9, 10));
    assert_eq!(market.liquidation_bonus, dec(12, 100));
    // Untouched parameters keep their values.
    assert_eq!(market.reserve_factor, dec(1, 100));

    // Empty parameters change nothing.
    let empty = InitOrUpdateAssetParams {
        initial_borrow_rate: None,
        max_loan_to_value: None,
        reserve_factor: None,
        maintenance_margin: None,
        liquidation_bonus: None,
        interest_rate_strategy: None,
        active: None,
        deposit_enabled: None,
        borrow_enabled: None,
    };
    let before = query_market(&ledger, &b"someasset".to_vec()).unwrap();
    execute_update_asset(
        &mut ledger,
        0,
        &b"owner".to_vec(),
        &b"someasset".to_vec(),
        empty,
        0,
    )
    .unwrap();
    let after = query_market(&ledger, &b"someasset".to_vec()).unwrap();
    assert_eq!(before, after);
}

#[test]
fn test_withdraw_total_balance() {
    // Withdrawing without naming an amount takes the whole balance,
    // descaled (truncated) at the current liquidity index, and clears the
    // collateral bit.
    let sf = red_bank::interest_rates::SCALING_FACTOR;
    let mut ledger = setup();
    init_market(&mut ledger, b"somecoin", default_asset_params());
    {
        let market = &mut ledger.markets[0].market;
        market.liquidity_index = dec(15, 10);
    }
    let withdrawer = b"withdrawer".to_vec();
    ledger.users.push(red_bank::state::UserRecord {
        address: withdrawer.clone(),
        user: red_bank::state::User {
            collateral_assets: 0b01,
            borrowed_assets: 0,
        },
    });
    let balance_scaled = 123_456 * sf;
    let data = vec![UserMarketData {
        price: Decimal::one(),
        collateral_balance_scaled: balance_scaled,
    }];
    let res = execute_withdraw(
        &mut ledger,
        0,
        &withdrawer,
        &b"somecoin".to_vec(),
        None,
        &b"rewards".to_vec(),
        &data,
        10_000_000_000,
    )
    .unwrap();
    assert_eq!(res.burn_amount_scaled, balance_scaled);
    // 123_456 scaled units at index 1.5 descale to 185_184 underlying.
    assert_eq!(res.withdraw_amount, 185_184);
    assert!(res.collateral_bit_unset);
    assert_eq!(ledger.users[0].user.collateral_assets, 0);
}

#[test]
fn test_withdraw_without_existing_position() {
    // Only the rewards collector, which receives mints without ever
    // depositing, may withdraw without a stored position.
    let sf = red_bank::interest_rates::SCALING_FACTOR;
    let mut ledger = setup();
    init_market(&mut ledger, b"somecoin", default_asset_params());
    let data = vec![UserMarketData {
        price: Decimal::one(),
        collateral_balance_scaled: 100 * sf,
    }];

    let err = execute_withdraw(
        &mut ledger,
        0,
        &b"anyone".to_vec(),
        &b"somecoin".to_vec(),
        Some(50),
        &b"protocol_rewards_collector".to_vec(),
        &data,
        1_000_000,
    )
    .unwrap_err();
    assert_eq!(err, ContractError::ExistingUserPositionRequired);

    let res = execute_withdraw(
        &mut ledger,
        0,
        &b"protocol_rewards_collector".to_vec(),
        &b"somecoin".to_vec(),
        Some(50),
        &b"protocol_rewards_collector".to_vec(),
        &data,
        1_000_000,
    )
    .unwrap();
    assert_eq!(res.withdraw_amount, 50);
}

#[test]
fn test_market_flag_gating() {
    // Each gate rejects independently of the master flag, and an inactive
    // market rejects everything even with the specific flags on.
    let mut ledger = setup();
    let params = InitOrUpdateAssetParams {
        active: Some(true),
        deposit_enabled: Some(false),
        borrow_enabled: Some(false),
        ..default_asset_params()
    };
    init_market(&mut ledger, b"coin", params);
    let user = b"useraddr".to_vec();
    let data = vec![UserMarketData {
        price: Decimal::one(),
        collateral_balance_scaled: 1_000_000,
    }];

    // Active but not enabled: deposit and borrow are rejected.
    assert!(matches!(
        execute_deposit(&mut ledger, 0, &user, &b"coin".to_vec(), 100, 100).unwrap_err(),
        ContractError::DepositNotAllowed { .. }
    ));
    assert!(matches!(
        execute_borrow(&mut ledger, 0, &user, &b"coin".to_vec(), 100, &data, 100).unwrap_err(),
        ContractError::BorrowNotAllowed { .. }
    ));

    // Inactive: everything is rejected, whatever the specific flags say.
    {
        let market = &mut ledger.markets[0].market;
        market.active = false;
        market.deposit_enabled = true;
        market.borrow_enabled = true;
    }
    assert!(matches!(
        execute_deposit(&mut ledger, 0, &user, &b"coin".to_vec(), 100, 100).unwrap_err(),
        ContractError::DepositNotAllowed { .. }
    ));
    assert!(matches!(
        execute_borrow(&mut ledger, 0, &user, &b"coin".to_vec(), 100, &data, 100).unwrap_err(),
        ContractError::BorrowNotAllowed { .. }
    ));
    assert!(matches!(
        execute_withdraw(
            &mut ledger,
            0,
            &user,
            &b"coin".to_vec(),
            Some(10),
            &b"rewards".to_vec(),
            &data,
            100
        )
        .unwrap_err(),
        ContractError::WithdrawNotAllowed { .. }
    ));
    assert!(matches!(
        execute_repay(&mut ledger, 0, &user, &b"coin".to_vec(), 100, 100).unwrap_err(),
        ContractError::RepayNotAllowed { .. }
    ));
}

#[test]
fn test_user_position_prices() {
    // The computed position keeps the prices it saw, retrievable by asset.
    let sf = red_bank::interest_rates::SCALING_FACTOR;
    let mut ledger = setup();
    init_market(&mut ledger, b"coin_a", default_asset_params());
    init_market(&mut ledger, b"coin_b", default_asset_params());
    let user = b"useraddr".to_vec();
    ledger.users.push(red_bank::state::UserRecord {
        address: user.clone(),
        user: red_bank::state::User {
            collateral_assets: 0b11,
            borrowed_assets: 0,
        },
    });
    let data = vec![
        UserMarketData {
            price: dec(3, 1),
            collateral_balance_scaled: 100 * sf,
        },
        UserMarketData {
            price: dec(7, 2),
            collateral_balance_scaled: 200 * sf,
        },
    ];
    let position = red_bank::contract::query_user_position(&ledger, 0, &user, &data).unwrap();
    assert_eq!(position.total_collateral_in_uusd, 300 + 700);
    assert_eq!(
        red_bank::accounts::position_asset_price(&position, &b"coin_b".to_vec()).unwrap(),
        dec(7, 2)
    );
    assert!(matches!(
        red_bank::accounts::position_asset_price(&position, &b"coin_c".to_vec()).unwrap_err(),
        ContractError::PriceNotFound { .. }
    ));
}

#[test]
fn test_update_asset_new_reserve_factor_accrues_interest_rate() {
    // Changing the reserve factor settles the accrued interest first, at
    // the old factor, and recomputes the rates.
    let sf = red_bank::interest_rates::SCALING_FACTOR;
    let mut ledger = setup();
    init_market(&mut ledger, b"somecoin", default_asset_params());
    {
        let market = &mut ledger.markets[0].market;
        market.reserve_factor = dec(1, 10);
        market.borrow_rate = dec(12, 100);
        market.liquidity_rate = dec(12, 100);
        market.debt_total_scaled = 2_000_000 * sf;
        market.indexes_last_updated = 1_000_000;
    }
    let market_before = ledger.markets[0].market.clone();

    let update = InitOrUpdateAssetParams {
        initial_borrow_rate: None,
        max_loan_to_value: None,
        reserve_factor: Some(dec(2, 10)),
        maintenance_margin: None,
        liquidation_bonus: None,
        interest_rate_strategy: None,
        active: None,
        deposit_enabled: None,
        borrow_enabled: None,
    };
    let res = execute_update_asset(
        &mut ledger,
        1_500_000,
        &b"owner".to_vec(),
        &b"somecoin".to_vec(),
        update,
        10_000_000,
    )
    .unwrap();
    assert!(res.rates_updated);
    assert!(res.protocol_rewards_mint.is_some());

    let market = &ledger.markets[0].market;
    let expected_borrow_index = red_bank::interest_rates::calculate_applied_linear_interest_rate(
        market_before.borrow_index,
        market_before.borrow_rate,
        500_000,
    )
    .unwrap();
    assert_eq!(market.borrow_index, expected_borrow_index);
    assert_eq!(market.indexes_last_updated, 1_500_000);
    assert_eq!(market.reserve_factor, dec(2, 10));
}

#[test]
fn test_reserve_conservation_across_operations() {
    // Over a mix of deposits, borrows and repayments by two users, the
    // market's recorded total of scaled debt always equals the sum of the
    // individual debt records.
    let mut ledger = setup();
    init_market(&mut ledger, b"somecoin", default_asset_params());
    {
        let market = &mut ledger.markets[0].market;
        market.borrow_rate = dec(20, 100);
        market.liquidity_rate = dec(10, 100);
    }
    let sf = red_bank::interest_rates::SCALING_FACTOR;
    let alice = b"alice_addr".to_vec();
    let bob = b"bob_addr".to_vec();
    let coin = b"somecoin".to_vec();

    let sum_of_debts = |ledger: &red_bank::state::Ledger| -> u128 {
        ledger
            .debts
            .iter()
            .filter(|d| d.reference == b"somecoin".to_vec())
            .map(|d| d.debt.amount_scaled)
            .sum()
    };

    execute_deposit(&mut ledger, 100, &alice, &coin, 1_000_000, 1_000_000).unwrap();
    execute_deposit(&mut ledger, 200, &bob, &coin, 2_000_000, 3_000_000).unwrap();
    let data_alice = vec![UserMarketData {
        price: Decimal::one(),
        collateral_balance_scaled: 1_000_000 * sf,
    }];
    let data_bob = vec![UserMarketData {
        price: Decimal::one(),
        collateral_balance_scaled: 2_000_000 * sf,
    }];
    execute_borrow(&mut ledger, 300, &alice, &coin, 400_000, &data_alice, 3_000_000).unwrap();
    assert_eq!(sum_of_debts(&ledger), ledger.markets[0].market.debt_total_scaled);
    execute_borrow(&mut ledger, 400, &bob, &coin, 700_000, &data_bob, 2_600_000).unwrap();
    assert_eq!(sum_of_debts(&ledger), ledger.markets[0].market.debt_total_scaled);
    execute_repay(&mut ledger, 500, &alice, &coin, 150_000, 1_650_000).unwrap();
    assert_eq!(sum_of_debts(&ledger), ledger.markets[0].market.debt_total_scaled);
    execute_repay(&mut ledger, 900, &bob, &coin, 900_000, 2_400_000).unwrap();
    assert_eq!(sum_of_debts(&ledger), ledger.markets[0].market.debt_total_scaled);
}
