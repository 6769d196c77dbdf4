//! Errors surfaced by the money-market operations.
//!
//! Every error is terminal for the operation that raised it: the caller
//! observes a structured failure and no ledger mutation.

use crate::math::MathError;
use vstd::prelude::*;

verus! {

/// A market parameter that must lie in `[0, 1]`.
#[derive(Clone, Copy, Debug, PartialEq, Eq, Structural)]
pub enum ParamName {
    MaxLoanToValue,
    ReserveFactor,
    MaintenanceMargin,
    LiquidationBonus,
    CloseFactor,
}

/// Failure of a money-market operation.
#[derive(Clone, Debug, PartialEq, Eq)]
pub enum ContractError {
    /// Checked arithmetic failed; the operation aborts rather than wrap.
    Math(MathError),
    /// Caller is not the owner, or not the expected token contract.
    Unauthorized,
    /// Initialization requires every parameter to be present.
    InstantiateParamsUnavailable,
    /// The named parameters exceed one.
    ParamsNotLessOrEqualOne { invalid_params: Vec<ParamName> },
    /// The maintenance margin must exceed the loan-to-value limit.
    InvalidMaintenanceMargin { maintenance_margin: crate::math::Decimal, max_loan_to_value: crate::math::Decimal },
    /// The minimum borrow rate must be below the maximum.
    InvalidMinMaxBorrowRate { min_borrow_rate: crate::math::Decimal, max_borrow_rate: crate::math::Decimal },
    /// The optimal utilization rate cannot exceed one.
    InvalidOptimalUtilizationRate,
    /// No market exists for the asset reference.
    MarketNotFound { reference: Vec<u8> },
    /// No market is recorded under the ordinal.
    MarketIndexNotFound { index: u32 },
    /// No position record exists for the user.
    UserNotFound,
    /// No debt record exists for the user and asset.
    DebtNotFound,
    /// No price was collected for the asset while computing the position.
    PriceNotFound { reference: Vec<u8> },
    /// The withdrawer holds no scaled balance in the asset.
    UserNoBalance { asset: Vec<u8> },
    /// The user holds no balance in the collateral asset to enable.
    UserNoCollateralBalance { user_address: Vec<u8>, asset: Vec<u8> },
    /// Withdraw amount must be positive and within the user's balance.
    InvalidWithdrawAmount { asset: Vec<u8> },
    /// Only the rewards collector may withdraw without a stored position.
    ExistingUserPositionRequired,
    /// The withdrawal would push the health factor below one.
    InvalidHealthFactorAfterWithdraw,
    /// A market already exists for the asset.
    AssetAlreadyInitialized,
    /// No market exists for the asset being updated.
    AssetNotInitialized,
    /// Deposit amount must be positive.
    InvalidDepositAmount { asset: Vec<u8> },
    /// The liquidity index must be positive before minting shares.
    InvalidLiquidityIndex,
    /// Borrow amount must be positive.
    InvalidBorrowAmount { asset: Vec<u8> },
    /// No market exists for the asset being borrowed.
    BorrowMarketNotExists { asset: Vec<u8> },
    /// The borrower holds no collateral and no uncollateralized limit.
    UserNoCollateral,
    /// The borrow would exceed what the collateral allows.
    BorrowAmountExceedsGivenCollateral,
    /// The borrow would exceed the uncollateralized loan limit.
    BorrowAmountExceedsUncollateralizedLoanLimit,
    /// Repay amount must be positive.
    InvalidRepayAmount { asset: Vec<u8> },
    /// There is no debt to repay.
    CannotRepayZeroDebt,
    /// The repayment exceeds the market's recorded total debt.
    CannotRepayMoreThanDebt,
    /// A positive uncollateralized limit shields the user from liquidation.
    CannotLiquidateWhenPositiveUncollateralizedLoanLimit,
    /// The liquidator must send a positive amount of the debt asset.
    InvalidLiquidateAmount { asset: Vec<u8> },
    /// The target holds no collateral balance in the asset.
    CannotLiquidateWhenNoCollateralBalance,
    /// The target has no outstanding debt in the asset.
    CannotLiquidateWhenNoDebtBalance,
    /// The target's health factor is not below one.
    CannotLiquidateHealthyPosition,
    /// The contract lacks the collateral to pay out the underlying asset.
    CannotLiquidateWhenNotEnoughCollateral,
    /// The transfer would push the sender's health factor below one.
    CannotTransferTokenWhenInvalidHealthFactor,
    /// The requested outflow exceeds the on-hand balance.
    OperationExceedsAvailableLiquidity,
    /// The market does not allow withdrawals.
    WithdrawNotAllowed { asset: Vec<u8> },
    /// The market does not allow deposits.
    DepositNotAllowed { asset: Vec<u8> },
    /// The market does not allow borrowing.
    BorrowNotAllowed { asset: Vec<u8> },
    /// The market does not allow repayments.
    RepayNotAllowed { asset: Vec<u8> },
    /// The collateral market does not allow liquidation.
    LiquidationNotAllowedWhenCollateralMarketInactive { asset: Vec<u8> },
    /// The debt market does not allow liquidation.
    LiquidationNotAllowedWhenDebtMarketInactive { asset: Vec<u8> },
    /// Disabling the collateral would push the health factor below one.
    InvalidHealthFactorAfterDisablingCollateral,
    /// A read was asked for a time before the market's last accrual.
    InvalidTimestamp { timestamp: u64, last_updated: u64 },
    /// A market ordinal beyond the bitmask width cannot be addressed.
    BitIndexOutOfRange { index: u32 },
    /// No market is keyed to the calling ownership-token contract.
    MaTokenNotFound { ma_token_address: Vec<u8> },
}

/// Lifts a checked-arithmetic result into a contract result.
pub fn lift_math<T>(r: Result<T, MathError>) -> (out: Result<T, ContractError>)
    ensures
        out == match r {
            Ok(v) => Result::<T, ContractError>::Ok(v),
            Err(e) => Result::<T, ContractError>::Err(ContractError::Math(e)),
        },
{
    match r {
        Ok(v) => Ok(v),
        Err(e) => Err(ContractError::Math(e)),
    }
}

} // verus!
