//! Interest-rate strategies: pure maps from utilization to rates.
//!
//! A market carries one of two strategies. The linear one derives the
//! borrow rate from a base plus two slopes around an optimal utilization;
//! the dynamic one nudges the previous borrow rate toward the optimal
//! utilization with a proportional term whose gain grows once the error
//! passes a threshold. Both pay depositors the borrow rate prorated by
//! utilization, net of the protocol's reserve factor.

use crate::error::ContractError;
use crate::math::{
    spec_dec_mul, spec_from_ratio, Decimal, MathError, DECIMAL_FRACTIONAL,
};
use vstd::prelude::*;

verus! {

/// Borrow rate grows linearly with utilization: gently below the optimal
/// point, steeply above it.
#[derive(Clone, Copy, Debug, PartialEq, Eq, Structural)]
pub struct LinearInterestRate {
    /// Utilization the market is steered toward; in `[0, 1]`.
    pub optimal_utilization_rate: Decimal,
    /// Borrow rate at zero utilization.
    pub base: Decimal,
    /// Rate increase over the span up to the optimal utilization.
    pub slope_1: Decimal,
    /// Rate increase over the span above the optimal utilization.
    pub slope_2: Decimal,
}

/// Borrow rate follows the previous one, corrected proportionally to the
/// distance from the optimal utilization.
#[derive(Clone, Copy, Debug, PartialEq, Eq, Structural)]
pub struct DynamicInterestRate {
    /// Lower clamp of the borrow rate.
    pub min_borrow_rate: Decimal,
    /// Upper clamp of the borrow rate.
    pub max_borrow_rate: Decimal,
    /// Proportional gain for small utilization errors.
    pub kp_1: Decimal,
    /// Utilization the market is steered toward; in `[0, 1]`.
    pub optimal_utilization_rate: Decimal,
    /// Error magnitude beyond which the amplified gain applies.
    pub kp_augmentation_threshold: Decimal,
    /// Proportional gain for large utilization errors.
    pub kp_2: Decimal,
}

/// The rate model of a market.
#[derive(Clone, Copy, Debug, PartialEq, Eq, Structural)]
pub enum InterestRateStrategy {
    Linear(LinearInterestRate),
    Dynamic(DynamicInterestRate),
}

/// `x` clamped into `[lo, hi]` (with `lo` winning when `lo > hi`).
pub open spec fn spec_clamp(x: int, lo: int, hi: int) -> int {
    if x < lo {
        lo
    } else if x > hi {
        hi
    } else {
        x
    }
}

/// Numerator of the borrow rate the dynamic strategy computes from the
/// utilization `u` and previous borrow rate `prev`.
pub open spec fn spec_dynamic_borrow_rate(d: DynamicInterestRate, u: int, prev: int) -> int {
    let opt = d.optimal_utilization_rate.0 as int;
    let err = if opt > u {
        opt - u
    } else {
        u - opt
    };
    let kp = if err >= d.kp_augmentation_threshold.0 as int {
        d.kp_2.0 as int
    } else {
        d.kp_1.0 as int
    };
    let p = spec_dec_mul(kp, err);
    let raw = if opt > u {
        if prev > p {
            prev - p
        } else {
            0
        }
    } else {
        prev + p
    };
    spec_clamp(raw, d.min_borrow_rate.0 as int, d.max_borrow_rate.0 as int)
}

/// Numerator of the borrow rate the linear strategy computes from the
/// utilization `u`.
pub open spec fn spec_linear_borrow_rate(l: LinearInterestRate, u: int) -> int {
    let opt = l.optimal_utilization_rate.0 as int;
    if u <= opt {
        l.base.0 + spec_from_ratio(spec_dec_mul(l.slope_1.0 as int, u), opt)
    } else {
        l.base.0 + l.slope_1.0 + spec_from_ratio(
            spec_dec_mul(l.slope_2.0 as int, u - opt),
            DECIMAL_FRACTIONAL - opt,
        )
    }
}

/// Whether every step of the linear strategy fits in `u128`.
pub open spec fn spec_linear_fits(l: LinearInterestRate, u: int) -> bool {
    let opt = l.optimal_utilization_rate.0 as int;
    if u <= opt {
        &&& opt != 0
        &&& spec_dec_mul(l.slope_1.0 as int, u) <= u128::MAX
        &&& spec_from_ratio(spec_dec_mul(l.slope_1.0 as int, u), opt) <= u128::MAX
        &&& l.base.0 + spec_from_ratio(spec_dec_mul(l.slope_1.0 as int, u), opt) <= u128::MAX
    } else {
        &&& opt <= DECIMAL_FRACTIONAL
        &&& opt != DECIMAL_FRACTIONAL
        &&& spec_dec_mul(l.slope_2.0 as int, u - opt) <= u128::MAX
        &&& spec_from_ratio(spec_dec_mul(l.slope_2.0 as int, u - opt), DECIMAL_FRACTIONAL - opt)
            <= u128::MAX
        &&& l.base.0 + l.slope_1.0 <= u128::MAX
        &&& l.base.0 + l.slope_1.0 + spec_from_ratio(
            spec_dec_mul(l.slope_2.0 as int, u - opt),
            DECIMAL_FRACTIONAL - opt,
        ) <= u128::MAX
    }
}

/// Numerator of the liquidity rate: the borrow rate prorated by the
/// utilization, net of the reserve factor.
pub open spec fn spec_liquidity_rate(borrow: int, u: int, rf: int) -> int {
    spec_dec_mul(spec_dec_mul(borrow, u), DECIMAL_FRACTIONAL - rf)
}

/// Whether the liquidity-rate computation fits in `u128`.
pub open spec fn spec_liquidity_rate_fits(borrow: int, u: int, rf: int) -> bool {
    &&& rf <= DECIMAL_FRACTIONAL
    &&& spec_dec_mul(borrow, u) <= u128::MAX
    &&& spec_dec_mul(spec_dec_mul(borrow, u), DECIMAL_FRACTIONAL - rf) <= u128::MAX
}

/// Numerator of the borrow rate of either strategy.
pub open spec fn spec_strategy_borrow_rate(s: InterestRateStrategy, u: int, prev: int) -> int {
    match s {
        InterestRateStrategy::Linear(l) => spec_linear_borrow_rate(l, u),
        InterestRateStrategy::Dynamic(d) => spec_dynamic_borrow_rate(d, u, prev),
    }
}

/// Whether the whole rate update fits in `u128`.
pub open spec fn spec_rates_fit(s: InterestRateStrategy, u: int, prev: int, rf: int) -> bool {
    &&& match s {
        InterestRateStrategy::Linear(l) => spec_linear_fits(l, u),
        InterestRateStrategy::Dynamic(_) => true,
    }
    &&& spec_liquidity_rate_fits(spec_strategy_borrow_rate(s, u, prev), u, rf)
}

impl InterestRateStrategy {
    /// Checks the strategy parameters: the dynamic clamp must be a proper
    /// interval and the optimal utilization cannot exceed one.
    pub fn validate(&self) -> (r: Result<(), ContractError>)
        ensures
            r == self.spec_validate(),
    {
        match self {
            InterestRateStrategy::Linear(l) => {
                if l.optimal_utilization_rate.0 > DECIMAL_FRACTIONAL {
                    return Err(ContractError::InvalidOptimalUtilizationRate);
                }
                Ok(())
            },
            InterestRateStrategy::Dynamic(d) => {
                if d.min_borrow_rate.0 >= d.max_borrow_rate.0 {
                    return Err(ContractError::InvalidMinMaxBorrowRate {
                        min_borrow_rate: d.min_borrow_rate,
                        max_borrow_rate: d.max_borrow_rate,
                    });
                }
                if d.optimal_utilization_rate.0 > DECIMAL_FRACTIONAL {
                    return Err(ContractError::InvalidOptimalUtilizationRate);
                }
                Ok(())
            },
        }
    }

    /// The validation outcome, as a value.
    pub open spec fn spec_validate(&self) -> Result<(), ContractError> {
        match self {
            InterestRateStrategy::Linear(l) => if l.optimal_utilization_rate.0
                > DECIMAL_FRACTIONAL {
                Err(ContractError::InvalidOptimalUtilizationRate)
            } else {
                Ok(())
            },
            InterestRateStrategy::Dynamic(d) => if d.min_borrow_rate.0 >= d.max_borrow_rate.0 {
                Err(
                    ContractError::InvalidMinMaxBorrowRate {
                        min_borrow_rate: d.min_borrow_rate,
                        max_borrow_rate: d.max_borrow_rate,
                    },
                )
            } else if d.optimal_utilization_rate.0 > DECIMAL_FRACTIONAL {
                Err(ContractError::InvalidOptimalUtilizationRate)
            } else {
                Ok(())
            },
        }
    }

    /// New borrow and liquidity rates for the utilization `u`, given the
    /// previous borrow rate and the market's reserve factor.
    pub fn get_updated_interest_rates(
        &self,
        current_utilization_rate: Decimal,
        previous_borrow_rate: Decimal,
        reserve_factor: Decimal,
    ) -> (r: Result<(Decimal, Decimal), MathError>)
        ensures
            r is Ok <==> spec_rates_fit(
                *self,
                current_utilization_rate.0 as int,
                previous_borrow_rate.0 as int,
                reserve_factor.0 as int,
            ),
            r matches Ok(v) ==> v.0.0 == spec_strategy_borrow_rate(
                *self,
                current_utilization_rate.0 as int,
                previous_borrow_rate.0 as int,
            ) && v.1.0 == spec_liquidity_rate(
                spec_strategy_borrow_rate(
                    *self,
                    current_utilization_rate.0 as int,
                    previous_borrow_rate.0 as int,
                ),
                current_utilization_rate.0 as int,
                reserve_factor.0 as int,
            ),
    {
        let u = current_utilization_rate;
        let new_borrow_rate = match self {
            InterestRateStrategy::Linear(l) => {
                match linear_borrow_rate(l, u) {
                    Ok(v) => v,
                    Err(e) => {
                        return Err(e);
                    },
                }
            },
            InterestRateStrategy::Dynamic(d) => dynamic_borrow_rate(d, u, previous_borrow_rate),
        };
        let one = Decimal::one();
        let net_share = match one.checked_sub(reserve_factor) {
            Ok(v) => v,
            Err(e) => {
                return Err(e);
            },
        };
        let prorated = match new_borrow_rate.checked_mul(u) {
            Ok(v) => v,
            Err(e) => {
                return Err(e);
            },
        };
        let new_liquidity_rate = match prorated.checked_mul(net_share) {
            Ok(v) => v,
            Err(e) => {
                return Err(e);
            },
        };
        Ok((new_borrow_rate, new_liquidity_rate))
    }
}

/// Borrow rate of the dynamic strategy; total, since the clamp absorbs
/// any overflow of the proportional term.
fn dynamic_borrow_rate(d: &DynamicInterestRate, u: Decimal, prev: Decimal) -> (r: Decimal)
    ensures
        r.0 == spec_dynamic_borrow_rate(*d, u.0 as int, prev.0 as int),
{
    let opt = d.optimal_utilization_rate;
    let below = opt.0 > u.0;
    let err = if below {
        Decimal(opt.0 - u.0)
    } else {
        Decimal(u.0 - opt.0)
    };
    let kp = if err.0 >= d.kp_augmentation_threshold.0 {
        d.kp_2
    } else {
        d.kp_1
    };
    let raw = match kp.checked_mul(err) {
        Ok(p) => {
            if below {
                if prev.0 > p.0 {
                    Decimal(prev.0 - p.0)
                } else {
                    Decimal(0)
                }
            } else {
                match prev.checked_add(p) {
                    Ok(v) => v,
                    Err(_) => {
                        // The sum exceeds u128, hence certainly the clamp.
                        return d.max_borrow_rate;
                    },
                }
            }
        },
        Err(_) => {
            // The proportional term alone exceeds u128.
            if below {
                Decimal(0)
            } else {
                return d.max_borrow_rate;
            }
        },
    };
    if raw.0 < d.min_borrow_rate.0 {
        d.min_borrow_rate
    } else if raw.0 > d.max_borrow_rate.0 {
        d.max_borrow_rate
    } else {
        raw
    }
}

/// Borrow rate of the linear strategy.
fn linear_borrow_rate(l: &LinearInterestRate, u: Decimal) -> (r: Result<Decimal, MathError>)
    ensures
        r is Ok <==> spec_linear_fits(*l, u.0 as int),
        r matches Ok(v) ==> v.0 == spec_linear_borrow_rate(*l, u.0 as int),
{
    let opt = l.optimal_utilization_rate;
    if u.0 <= opt.0 {
        let scaled = match l.slope_1.checked_mul(u) {
            Ok(v) => v,
            Err(e) => {
                return Err(e);
            },
        };
        let share = match scaled.checked_div(opt) {
            Ok(v) => v,
            Err(e) => {
                return Err(e);
            },
        };
        match l.base.checked_add(share) {
            Ok(v) => Ok(v),
            Err(e) => Err(e),
        }
    } else {
        let span = match Decimal::one().checked_sub(opt) {
            Ok(v) => v,
            Err(e) => {
                return Err(e);
            },
        };
        let excess = Decimal(u.0 - opt.0);
        let scaled = match l.slope_2.checked_mul(excess) {
            Ok(v) => v,
            Err(e) => {
                return Err(e);
            },
        };
        let share = match scaled.checked_div(span) {
            Ok(v) => v,
            Err(e) => {
                return Err(e);
            },
        };
        let low_part = match l.base.checked_add(l.slope_1) {
            Ok(v) => v,
            Err(e) => {
                return Err(e);
            },
        };
        match low_part.checked_add(share) {
            Ok(v) => Ok(v),
            Err(e) => Err(e),
        }
    }
}

} // verus!
