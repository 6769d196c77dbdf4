//! Accounting core of a collateralized money market: scaled-balance
//! bookkeeping, linear interest accrual, utilization-driven rate models,
//! and the collateral/debt solvency checks that gate every operation.
//!
//! All amounts are plain `u128` values of the underlying asset or of the
//! scaled (index-denominated) form; fractions are fixed-point [`Decimal`]
//! values with eighteen fractional digits. Ledger state is held explicitly
//! in a [`state::Ledger`] value; the host environment performs the external
//! queries (oracle prices, token balances) and hands their results in as
//! plain values.

pub mod accounts;
pub mod address_provider;
pub mod contract;
pub mod error;
pub mod interest_rates;
pub mod interest_rate_models;
pub mod math;
pub mod state;
