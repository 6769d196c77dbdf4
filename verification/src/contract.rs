//! Operation handlers of the money market.
//!
//! Every handler is a transition on an explicit [`Ledger`]: it validates
//! first and mutates only after every check and every computation has
//! succeeded, so a failed operation leaves the ledger exactly as it was.
//! External reads the host must perform (oracle prices, token balances)
//! come in as plain arguments; external writes the host must perform
//! (token mints, burns, transfers) go out as fields of each handler's
//! result.

use crate::error::{ContractError, ParamName};
use crate::interest_rate_models::InterestRateStrategy;
use crate::math::{Decimal, DECIMAL_FRACTIONAL};
use crate::state::{
    clone_bytes, find_market_rec, market_position, markets_save, AssetType, Config, Ledger,
    Market, MarketRecord, MoneyMarket, ReserveReferences,
};
use vstd::prelude::*;

verus! {

broadcast use vstd::arithmetic::div_mod::lemma_div_pos_is_pos, vstd::arithmetic::mul::lemma_mul_nonnegative;

/// Whether bit `index` of the bitmask is set.
pub open spec fn spec_get_bit(bitmap: u128, index: u32) -> bool {
    (bitmap >> index) & 1 == 1
}

/// Reads bit `index`; ordinals beyond the mask's width are rejected.
pub fn get_bit(bitmap: u128, index: u32) -> (r: Result<bool, ContractError>)
    ensures
        index >= 128 ==> r == Result::<bool, ContractError>::Err(
            ContractError::BitIndexOutOfRange { index: index },
        ),
        index < 128 ==> r == Result::<bool, ContractError>::Ok(spec_get_bit(bitmap, index)),
{
    if index >= 128 {
        return Err(ContractError::BitIndexOutOfRange { index });
    }
    Ok(((bitmap >> index) & 1) == 1)
}

/// The bitmask with bit `index` set.
pub open spec fn spec_set_bit(bitmap: u128, index: u32) -> u128 {
    bitmap | (1u128 << index)
}

/// Sets bit `index` to one; ordinals beyond the mask's width are rejected.
pub fn set_bit(bitmap: &mut u128, index: u32) -> (r: Result<(), ContractError>)
    ensures
        index >= 128 ==> r == Result::<(), ContractError>::Err(
            ContractError::BitIndexOutOfRange { index: index },
        ) && *final(bitmap) == *old(bitmap),
        index < 128 ==> r == Result::<(), ContractError>::Ok(()) && *final(bitmap) == spec_set_bit(
            *old(bitmap),
            index,
        ),
{
    if index >= 128 {
        return Err(ContractError::BitIndexOutOfRange { index });
    }
    *bitmap = *bitmap | (1u128 << index);
    Ok(())
}

/// The bitmask with bit `index` cleared.
pub open spec fn spec_unset_bit(bitmap: u128, index: u32) -> u128 {
    bitmap & !(1u128 << index)
}

/// Sets bit `index` to zero; ordinals beyond the mask's width are rejected.
pub fn unset_bit(bitmap: &mut u128, index: u32) -> (r: Result<(), ContractError>)
    ensures
        index >= 128 ==> r == Result::<(), ContractError>::Err(
            ContractError::BitIndexOutOfRange { index: index },
        ) && *final(bitmap) == *old(bitmap),
        index < 128 ==> r == Result::<(), ContractError>::Ok(()) && *final(bitmap)
            == spec_unset_bit(*old(bitmap), index),
{
    if index >= 128 {
        return Err(ContractError::BitIndexOutOfRange { index });
    }
    *bitmap = *bitmap & !(1u128 << index);
    Ok(())
}

/// Setting one bit leaves every other bit as it was.
pub proof fn lemma_set_bit_effect(b: u128, i: u32, j: u32)
    requires
        i < 128,
        j < 128,
    ensures
        spec_get_bit(spec_set_bit(b, i), j) == (j == i || spec_get_bit(b, j)),
{
    assert(((b | (1u128 << i)) >> j) & 1 == if j == i {
        1u128
    } else {
        (b >> j) & 1
    }) by (bit_vector)
        requires
            i < 128u32,
            j < 128u32,
    ;
    assert((b >> j) & 1 == 0 || (b >> j) & 1 == 1) by (bit_vector);
}

/// Clearing one bit leaves every other bit as it was.
pub proof fn lemma_unset_bit_effect(b: u128, i: u32, j: u32)
    requires
        i < 128,
        j < 128,
    ensures
        spec_get_bit(spec_unset_bit(b, i), j) == (j != i && spec_get_bit(b, j)),
{
    assert(((b & !(1u128 << i)) >> j) & 1 == if j == i {
        0u128
    } else {
        (b >> j) & 1
    }) by (bit_vector)
        requires
            i < 128u32,
            j < 128u32,
    ;
    assert((b >> j) & 1 == 0 || (b >> j) & 1 == 1) by (bit_vector);
}

/// Configuration parameters of [`instantiate`] and
/// [`execute_update_config`]; at instantiation all must be present.
#[derive(Clone, Debug, PartialEq, Eq)]
pub struct CreateOrUpdateConfig {
    pub owner: Option<Vec<u8>>,
    pub address_provider_address: Option<Vec<u8>>,
    pub ma_token_code_id: Option<u64>,
    pub close_factor: Option<Decimal>,
}

/// Market parameters of [`execute_init_asset`] and
/// [`execute_update_asset`]; at initialization all must be present.
#[derive(Clone, Copy, Debug, PartialEq, Eq, Structural)]
pub struct InitOrUpdateAssetParams {
    pub initial_borrow_rate: Option<Decimal>,
    pub max_loan_to_value: Option<Decimal>,
    pub reserve_factor: Option<Decimal>,
    pub maintenance_margin: Option<Decimal>,
    pub liquidation_bonus: Option<Decimal>,
    pub interest_rate_strategy: Option<InterestRateStrategy>,
    pub active: Option<bool>,
    pub deposit_enabled: Option<bool>,
    pub borrow_enabled: Option<bool>,
}

/// The market parameters, in reporting order, that exceed one.
pub open spec fn spec_invalid_market_params(
    max_loan_to_value: Decimal,
    reserve_factor: Decimal,
    maintenance_margin: Decimal,
    liquidation_bonus: Decimal,
) -> Seq<ParamName> {
    let s = Seq::<ParamName>::empty();
    let s = if max_loan_to_value.0 > DECIMAL_FRACTIONAL {
        s.push(ParamName::MaxLoanToValue)
    } else {
        s
    };
    let s = if reserve_factor.0 > DECIMAL_FRACTIONAL {
        s.push(ParamName::ReserveFactor)
    } else {
        s
    };
    let s = if maintenance_margin.0 > DECIMAL_FRACTIONAL {
        s.push(ParamName::MaintenanceMargin)
    } else {
        s
    };
    let s = if liquidation_bonus.0 > DECIMAL_FRACTIONAL {
        s.push(ParamName::LiquidationBonus)
    } else {
        s
    };
    s
}

/// Checks the percentage-like market parameters, the margin ordering, and
/// the strategy. Shared by market creation and update.
fn validate_market_params(
    max_loan_to_value: Decimal,
    reserve_factor: Decimal,
    maintenance_margin: Decimal,
    liquidation_bonus: Decimal,
    interest_rate_strategy: &InterestRateStrategy,
) -> (r: Result<(), ContractError>)
    ensures
        spec_invalid_market_params(
            max_loan_to_value,
            reserve_factor,
            maintenance_margin,
            liquidation_bonus,
        ).len() > 0 ==> (r matches Err(ContractError::ParamsNotLessOrEqualOne { invalid_params })
            && invalid_params@ == spec_invalid_market_params(
            max_loan_to_value,
            reserve_factor,
            maintenance_margin,
            liquidation_bonus,
        )),
        spec_invalid_market_params(
            max_loan_to_value,
            reserve_factor,
            maintenance_margin,
            liquidation_bonus,
        ).len() == 0 ==> r == spec_validate_ordering_and_strategy(
            max_loan_to_value,
            maintenance_margin,
            *interest_rate_strategy,
        ),
{
    let mut invalid: Vec<ParamName> = Vec::new();
    if max_loan_to_value.0 > DECIMAL_FRACTIONAL {
        invalid.push(ParamName::MaxLoanToValue);
    }
    if reserve_factor.0 > DECIMAL_FRACTIONAL {
        invalid.push(ParamName::ReserveFactor);
    }
    if maintenance_margin.0 > DECIMAL_FRACTIONAL {
        invalid.push(ParamName::MaintenanceMargin);
    }
    if liquidation_bonus.0 > DECIMAL_FRACTIONAL {
        invalid.push(ParamName::LiquidationBonus);
    }
    proof {
        assert(invalid@ =~= spec_invalid_market_params(
            max_loan_to_value,
            reserve_factor,
            maintenance_margin,
            liquidation_bonus,
        ));
    }
    if invalid.len() > 0 {
        return Err(ContractError::ParamsNotLessOrEqualOne { invalid_params: invalid });
    }
    if maintenance_margin.0 <= max_loan_to_value.0 {
        return Err(
            ContractError::InvalidMaintenanceMargin {
                maintenance_margin: maintenance_margin,
                max_loan_to_value: max_loan_to_value,
            },
        );
    }
    interest_rate_strategy.validate()
}

/// The outcome of the ordering and strategy checks, after the range checks
/// have passed.
pub open spec fn spec_validate_ordering_and_strategy(
    max_loan_to_value: Decimal,
    maintenance_margin: Decimal,
    strategy: InterestRateStrategy,
) -> Result<(), ContractError> {
    if maintenance_margin.0 <= max_loan_to_value.0 {
        Err(
            ContractError::InvalidMaintenanceMargin {
                maintenance_margin: maintenance_margin,
                max_loan_to_value: max_loan_to_value,
            },
        )
    } else {
        strategy.spec_validate()
    }
}

/// Whether the market parameters pass every validation check.
pub open spec fn spec_market_params_valid(
    max_loan_to_value: Decimal,
    reserve_factor: Decimal,
    maintenance_margin: Decimal,
    liquidation_bonus: Decimal,
    strategy: InterestRateStrategy,
) -> bool {
    &&& spec_invalid_market_params(
        max_loan_to_value,
        reserve_factor,
        maintenance_margin,
        liquidation_bonus,
    ).len() == 0
    &&& spec_validate_ordering_and_strategy(max_loan_to_value, maintenance_margin, strategy)
        is Ok
}


/// Whether every market parameter is present, as initialization requires.
pub open spec fn spec_params_available(p: InitOrUpdateAssetParams) -> bool {
    &&& p.initial_borrow_rate is Some
    &&& p.max_loan_to_value is Some
    &&& p.reserve_factor is Some
    &&& p.maintenance_margin is Some
    &&& p.liquidation_bonus is Some
    &&& p.interest_rate_strategy is Some
    &&& p.active is Some
    &&& p.deposit_enabled is Some
    &&& p.borrow_enabled is Some
}

/// Whether `m` is the market a creation with these inputs yields: unit
/// indices, no token address yet, no debt, and the given parameters.
pub open spec fn spec_created_market(
    m: Market,
    block_time: u64,
    index: u32,
    asset_type: AssetType,
    p: InitOrUpdateAssetParams,
) -> bool {
    &&& m.index == index
    &&& m.ma_token_address@ == Seq::<u8>::empty()
    &&& m.borrow_index.0 == DECIMAL_FRACTIONAL
    &&& m.liquidity_index.0 == DECIMAL_FRACTIONAL
    &&& m.borrow_rate == p.initial_borrow_rate->0
    &&& m.liquidity_rate.0 == 0
    &&& m.max_loan_to_value == p.max_loan_to_value->0
    &&& m.reserve_factor == p.reserve_factor->0
    &&& m.indexes_last_updated == block_time
    &&& m.debt_total_scaled == 0
    &&& m.asset_type == asset_type
    &&& m.maintenance_margin == p.maintenance_margin->0
    &&& m.liquidation_bonus == p.liquidation_bonus->0
    &&& m.interest_rate_strategy == p.interest_rate_strategy->0
    &&& m.active == p.active->0
    &&& m.deposit_enabled == p.deposit_enabled->0
    &&& m.borrow_enabled == p.borrow_enabled->0
}

impl Market {
    /// A new market from creation parameters: all of them must be present
    /// and valid. Indices start at one, debt and liquidity rate at zero,
    /// and the ownership-token address is left unset for the deploy
    /// callback to fill in.
    pub fn create(
        block_time: u64,
        index: u32,
        asset_type: AssetType,
        params: InitOrUpdateAssetParams,
    ) -> (r: Result<Market, ContractError>)
        ensures
            !spec_params_available(params) ==> r == Result::<Market, ContractError>::Err(
                ContractError::InstantiateParamsUnavailable,
            ),
            spec_params_available(params) ==> {
                let invalid = spec_invalid_market_params(
                    params.max_loan_to_value->0,
                    params.reserve_factor->0,
                    params.maintenance_margin->0,
                    params.liquidation_bonus->0,
                );
                &&& (invalid.len() > 0 ==> (r matches Err(
                    ContractError::ParamsNotLessOrEqualOne { invalid_params },
                ) && invalid_params@ == invalid))
                &&& (invalid.len() == 0 && spec_validate_ordering_and_strategy(
                    params.max_loan_to_value->0,
                    params.maintenance_margin->0,
                    params.interest_rate_strategy->0,
                ) is Err ==> r == Result::<Market, ContractError>::Err(
                    spec_validate_ordering_and_strategy(
                        params.max_loan_to_value->0,
                        params.maintenance_margin->0,
                        params.interest_rate_strategy->0,
                    )->Err_0,
                ))
                &&& (invalid.len() == 0 && spec_validate_ordering_and_strategy(
                    params.max_loan_to_value->0,
                    params.maintenance_margin->0,
                    params.interest_rate_strategy->0,
                ) is Ok ==> (r matches Ok(m) && spec_created_market(
                    m,
                    block_time,
                    index,
                    asset_type,
                    params,
                )))
            },
    {
        let (borrow_rate, max_loan_to_value, reserve_factor, maintenance_margin,
            liquidation_bonus, interest_rate_strategy, active, deposit_enabled, borrow_enabled) =
            match (params.initial_borrow_rate, params.max_loan_to_value, params.reserve_factor,
                params.maintenance_margin, params.liquidation_bonus,
                params.interest_rate_strategy, params.active, params.deposit_enabled,
                params.borrow_enabled,
            ) {
            (
                Some(br),
                Some(ltv),
                Some(rf),
                Some(mm),
                Some(lb),
                Some(irs),
                Some(a),
                Some(de),
                Some(be),
            ) => (br, ltv, rf, mm, lb, irs, a, de, be),
            _ => {
                return Err(ContractError::InstantiateParamsUnavailable);
            },
        };
        match validate_market_params(
            max_loan_to_value,
            reserve_factor,
            maintenance_margin,
            liquidation_bonus,
            &interest_rate_strategy,
        ) {
            Ok(()) => {},
            Err(e) => {
                return Err(e);
            },
        }
        Ok(
            Market {
                index,
                ma_token_address: Vec::new(),
                borrow_index: Decimal::one(),
                liquidity_index: Decimal::one(),
                borrow_rate,
                liquidity_rate: Decimal::zero(),
                max_loan_to_value,
                reserve_factor,
                indexes_last_updated: block_time,
                debt_total_scaled: 0,
                asset_type,
                maintenance_margin,
                liquidation_bonus,
                interest_rate_strategy,
                active,
                deposit_enabled,
                borrow_enabled,
            },
        )
    }
}

/// Creates the initial ledger. Every configuration field must be present
/// and the close factor must not exceed one.
pub fn instantiate(config: CreateOrUpdateConfig) -> (r: Result<Ledger, ContractError>)
    ensures
        !(config.owner is Some && config.address_provider_address is Some
            && config.ma_token_code_id is Some && config.close_factor is Some) ==> r == Result::<
            Ledger,
            ContractError,
        >::Err(ContractError::InstantiateParamsUnavailable),
        config.owner is Some && config.address_provider_address is Some
            && config.ma_token_code_id is Some && config.close_factor is Some
            && (config.close_factor->0).0 > DECIMAL_FRACTIONAL ==> (r matches Err(
            ContractError::ParamsNotLessOrEqualOne { invalid_params },
        ) && invalid_params@ == seq![ParamName::CloseFactor]),
        config.owner is Some && config.address_provider_address is Some
            && config.ma_token_code_id is Some && config.close_factor is Some
            && (config.close_factor->0).0 <= DECIMAL_FRACTIONAL ==> (r matches Ok(l) && {
            &&& l.config.owner@ == (config.owner->0)@
            &&& l.config.address_provider_address@ == (config.address_provider_address->0)@
            &&& l.config.ma_token_code_id == config.ma_token_code_id->0
            &&& l.config.close_factor == config.close_factor->0
            &&& l.money_market.market_count == 0
            &&& l.markets@.len() == 0
            &&& l.market_references_by_index@.len() == 0
            &&& l.users@.len() == 0
            &&& l.debts@.len() == 0
            &&& l.uncollateralized_loan_limits@.len() == 0
        }),
{
    let (owner, address_provider_address, ma_token_code_id, close_factor) = match (
        config.owner,
        config.address_provider_address,
        config.ma_token_code_id,
        config.close_factor,
    ) {
        (Some(o), Some(apa), Some(cid), Some(cf)) => (o, apa, cid, cf),
        _ => {
            return Err(ContractError::InstantiateParamsUnavailable);
        },
    };
    if close_factor.0 > DECIMAL_FRACTIONAL {
        let mut invalid: Vec<ParamName> = Vec::new();
        invalid.push(ParamName::CloseFactor);
        proof {
            assert(invalid@ =~= seq![ParamName::CloseFactor]);
        }
        return Err(ContractError::ParamsNotLessOrEqualOne { invalid_params: invalid });
    }
    Ok(
        Ledger {
            config: Config { owner, address_provider_address, ma_token_code_id, close_factor },
            money_market: MoneyMarket { market_count: 0 },
            markets: Vec::new(),
            market_references_by_index: Vec::new(),
            users: Vec::new(),
            debts: Vec::new(),
            uncollateralized_loan_limits: Vec::new(),
        },
    )
}

/// Updates the configuration: owner only; absent fields keep their
/// current value; the merged close factor must not exceed one.
pub fn execute_update_config(
    ledger: &mut Ledger,
    sender: &Vec<u8>,
    new_config: CreateOrUpdateConfig,
) -> (r: Result<(), ContractError>)
    ensures
        r is Err ==> *final(ledger) == *old(ledger),
        sender@ != old(ledger).config.owner@ ==> r == Result::<(), ContractError>::Err(
            ContractError::Unauthorized,
        ),
        sender@ == old(ledger).config.owner@ ==> {
            let merged_cf = if new_config.close_factor is Some {
                new_config.close_factor->0
            } else {
                old(ledger).config.close_factor
            };
            &&& (merged_cf.0 > DECIMAL_FRACTIONAL ==> (r matches Err(
                ContractError::ParamsNotLessOrEqualOne { invalid_params },
            ) && invalid_params@ == seq![ParamName::CloseFactor]))
            &&& (merged_cf.0 <= DECIMAL_FRACTIONAL ==> r is Ok && {
                &&& final(ledger).config.owner@ == (if new_config.owner is Some {
                    (new_config.owner->0)@
                } else {
                    old(ledger).config.owner@
                })
                &&& final(ledger).config.address_provider_address@ == (
                if new_config.address_provider_address is Some {
                    (new_config.address_provider_address->0)@
                } else {
                    old(ledger).config.address_provider_address@
                })
                &&& final(ledger).config.ma_token_code_id == (
                if new_config.ma_token_code_id is Some {
                    new_config.ma_token_code_id->0
                } else {
                    old(ledger).config.ma_token_code_id
                })
                &&& final(ledger).config.close_factor == merged_cf
                &&& final(ledger).money_market == old(ledger).money_market
                &&& final(ledger).markets@ == old(ledger).markets@
                &&& final(ledger).market_references_by_index@ == old(
                    ledger,
                ).market_references_by_index@
                &&& final(ledger).users@ == old(ledger).users@
                &&& final(ledger).debts@ == old(ledger).debts@
                &&& final(ledger).uncollateralized_loan_limits@ == old(
                    ledger,
                ).uncollateralized_loan_limits@
            })
        },
{
    if !crate::state::bytes_eq(sender, &ledger.config.owner) {
        return Err(ContractError::Unauthorized);
    }
    let merged_cf = match new_config.close_factor {
        Some(cf) => cf,
        None => ledger.config.close_factor,
    };
    if merged_cf.0 > DECIMAL_FRACTIONAL {
        let mut invalid: Vec<ParamName> = Vec::new();
        invalid.push(ParamName::CloseFactor);
        proof {
            assert(invalid@ =~= seq![ParamName::CloseFactor]);
        }
        return Err(ContractError::ParamsNotLessOrEqualOne { invalid_params: invalid });
    }
    match new_config.owner {
        Some(o) => {
            ledger.config.owner = o;
        },
        None => {},
    }
    match new_config.address_provider_address {
        Some(apa) => {
            ledger.config.address_provider_address = apa;
        },
        None => {},
    }
    match new_config.ma_token_code_id {
        Some(cid) => {
            ledger.config.ma_token_code_id = cid;
        },
        None => {},
    }
    ledger.config.close_factor = merged_cf;
    Ok(())
}


/// Creates a market for a new asset: owner only, all parameters present
/// and valid, and the asset not yet initialized. The new market takes the
/// next ordinal; the host must deploy its ownership-token contract, whose
/// address arrives later through [`execute_init_asset_token_callback`].
/// Returns the new market's ordinal.
pub fn execute_init_asset(
    ledger: &mut Ledger,
    block_time: u64,
    sender: &Vec<u8>,
    reference: Vec<u8>,
    asset_type: AssetType,
    asset_params: InitOrUpdateAssetParams,
) -> (r: Result<u32, ContractError>)
    ensures
        r is Err ==> *final(ledger) == *old(ledger),
        sender@ != old(ledger).config.owner@ ==> r == Result::<u32, ContractError>::Err(
            ContractError::Unauthorized,
        ),
        sender@ == old(ledger).config.owner@ && find_market_rec(old(ledger).markets@, reference@)
            is Some ==> r == Result::<u32, ContractError>::Err(
            ContractError::AssetAlreadyInitialized,
        ),
        r is Ok ==> {
            &&& sender@ == old(ledger).config.owner@
            &&& find_market_rec(old(ledger).markets@, reference@) is None
            &&& r == Result::<u32, ContractError>::Ok(old(ledger).money_market.market_count)
            &&& final(ledger).markets@.len() == old(ledger).markets@.len() + 1
            &&& final(ledger).markets@.subrange(0, old(ledger).markets@.len() as int) == old(
                ledger,
            ).markets@
            &&& final(ledger).markets@.last().reference@ == reference@
            &&& spec_created_market(
                final(ledger).markets@.last().market,
                block_time,
                old(ledger).money_market.market_count,
                asset_type,
                asset_params,
            )
            &&& final(ledger).market_references_by_index@.len() == old(
                ledger,
            ).market_references_by_index@.len() + 1
            &&& final(ledger).market_references_by_index@.subrange(
                0,
                old(ledger).market_references_by_index@.len() as int,
            ) == old(ledger).market_references_by_index@
            &&& final(ledger).market_references_by_index@.last().reference@ == reference@
            &&& final(ledger).money_market.market_count == old(
                ledger,
            ).money_market.market_count + 1
            &&& final(ledger).config == old(ledger).config
            &&& final(ledger).users@ == old(ledger).users@
            &&& final(ledger).debts@ == old(ledger).debts@
            &&& final(ledger).uncollateralized_loan_limits@ == old(
                ledger,
            ).uncollateralized_loan_limits@
        },
        sender@ == old(ledger).config.owner@ && find_market_rec(old(ledger).markets@, reference@)
            is None && old(ledger).money_market.market_count < u32::MAX
            && spec_params_available(asset_params) && spec_market_params_valid(
            asset_params.max_loan_to_value->0,
            asset_params.reserve_factor->0,
            asset_params.maintenance_margin->0,
            asset_params.liquidation_bonus->0,
            asset_params.interest_rate_strategy->0,
        ) ==> r is Ok,
{
    if !crate::state::bytes_eq(sender, &ledger.config.owner) {
        return Err(ContractError::Unauthorized);
    }
    match market_position(&ledger.markets, &reference) {
        Some(_) => {
            return Err(ContractError::AssetAlreadyInitialized);
        },
        None => {},
    }
    let market_idx = ledger.money_market.market_count;
    let new_market = match Market::create(block_time, market_idx, asset_type, asset_params) {
        Ok(m) => m,
        Err(e) => {
            return Err(e);
        },
    };
    let new_count = match market_idx.checked_add(1) {
        Some(c) => c,
        None => {
            return Err(ContractError::Math(crate::math::MathError::Overflow));
        },
    };
    let reference_copy = clone_bytes(&reference);
    markets_save(&mut ledger.markets, MarketRecord { reference: reference_copy, market: new_market });
    ledger.market_references_by_index.push(ReserveReferences { reference });
    ledger.money_market.market_count = new_count;
    Ok(market_idx)
}

/// Records the address of a market's freshly deployed ownership-token
/// contract: the caller is the token itself, and the address may be set
/// only once — a second callback is rejected as unauthorized.
pub fn execute_init_asset_token_callback(
    ledger: &mut Ledger,
    sender: &Vec<u8>,
    reference: &Vec<u8>,
) -> (r: Result<(), ContractError>)
    ensures
        r is Err ==> *final(ledger) == *old(ledger),
        find_market_rec(old(ledger).markets@, reference@) is None ==> (r matches Err(
            ContractError::MarketNotFound { reference: e_ref },
        ) && e_ref@ == reference@),
        find_market_rec(old(ledger).markets@, reference@) matches Some(i) ==> {
            &&& old(ledger).markets@[i].market.ma_token_address@.len() > 0 ==> r == Result::<
                (),
                ContractError,
            >::Err(ContractError::Unauthorized)
            &&& old(ledger).markets@[i].market.ma_token_address@.len() == 0 ==> {
                &&& r is Ok
                &&& crate::state::markets_updated_at(old(ledger).markets@, final(ledger).markets@, i)
                &&& final(ledger).markets@[i].market == (Market {
                    ma_token_address: final(ledger).markets@[i].market.ma_token_address,
                    ..old(ledger).markets@[i].market
                })
                &&& final(ledger).markets@[i].market.ma_token_address@ == sender@
                &&& final(ledger).config == old(ledger).config
                &&& final(ledger).money_market == old(ledger).money_market
                &&& final(ledger).market_references_by_index@ == old(
                    ledger,
                ).market_references_by_index@
                &&& final(ledger).users@ == old(ledger).users@
                &&& final(ledger).debts@ == old(ledger).debts@
                &&& final(ledger).uncollateralized_loan_limits@ == old(
                    ledger,
                ).uncollateralized_loan_limits@
            }
        },
{
    let mi = match market_position(&ledger.markets, reference) {
        Some(i) => i,
        None => {
            return Err(ContractError::MarketNotFound { reference: clone_bytes(reference) });
        },
    };
    if ledger.markets[mi].market.ma_token_address.len() > 0 {
        return Err(ContractError::Unauthorized);
    }
    let ghost old_markets = ledger.markets@;
    let mut rec = ledger.markets.remove(mi);
    rec.market.ma_token_address = clone_bytes(sender);
    ledger.markets.insert(mi, rec);
    proof {
        assert(final(ledger).markets@ =~= old_markets.update(
            mi as int,
            final(ledger).markets@[mi as int],
        ));
    }
    Ok(())
}

/// Grants or revokes an uncollateralized borrowing allowance: owner only.
/// The user's debt record (created zeroed if absent) is flagged
/// uncollateralized exactly when the new limit is positive.
pub fn execute_update_uncollateralized_loan_limit(
    ledger: &mut Ledger,
    sender: &Vec<u8>,
    user_address: &Vec<u8>,
    reference: &Vec<u8>,
    new_limit: u128,
) -> (r: Result<(), ContractError>)
    ensures
        r is Err ==> *final(ledger) == *old(ledger),
        sender@ != old(ledger).config.owner@ ==> r == Result::<(), ContractError>::Err(
            ContractError::Unauthorized,
        ),
        sender@ == old(ledger).config.owner@ ==> r is Ok && {
            &&& crate::state::limits_saved(
                old(ledger).uncollateralized_loan_limits@,
                final(ledger).uncollateralized_loan_limits@,
                reference@,
                user_address@,
                new_limit,
            )
            &&& crate::state::debts_saved(
                old(ledger).debts@,
                final(ledger).debts@,
                reference@,
                user_address@,
                (crate::state::Debt {
                    amount_scaled: match crate::state::find_debt_rec(
                        old(ledger).debts@,
                        reference@,
                        user_address@,
                    ) {
                        Some(i) => old(ledger).debts@[i].debt.amount_scaled,
                        None => 0,
                    },
                    uncollateralized: new_limit != 0,
                }),
            )
            &&& final(ledger).config == old(ledger).config
            &&& final(ledger).money_market == old(ledger).money_market
            &&& final(ledger).markets@ == old(ledger).markets@
            &&& final(ledger).market_references_by_index@ == old(
                ledger,
            ).market_references_by_index@
            &&& final(ledger).users@ == old(ledger).users@
        },
{
    if !crate::state::bytes_eq(sender, &ledger.config.owner) {
        return Err(ContractError::Unauthorized);
    }
    crate::state::limits_save(
        &mut ledger.uncollateralized_loan_limits,
        crate::state::LimitRecord {
            reference: clone_bytes(reference),
            address: clone_bytes(user_address),
            limit: new_limit,
        },
    );
    let amount_scaled = match crate::state::debt_position(&ledger.debts, reference, user_address) {
        Some(i) => ledger.debts[i].debt.amount_scaled,
        None => 0,
    };
    crate::state::debts_save(
        &mut ledger.debts,
        crate::state::DebtRecord {
            reference: clone_bytes(reference),
            address: clone_bytes(user_address),
            debt: crate::state::Debt { amount_scaled, uncollateralized: new_limit != 0 },
        },
    );
    Ok(())
}


/// What an asset update reports back: the reward mint of the accrual that
/// a reserve-factor change triggers, and whether rates were recomputed.
#[derive(Clone, Copy, Debug, PartialEq, Eq, Structural)]
pub struct UpdateAssetResult {
    /// Scaled amount to mint to the rewards collector, if the accrual
    /// produced one.
    pub protocol_rewards_mint: Option<u128>,
    /// Whether indices and rates were brought up to date.
    pub rates_updated: bool,
}

/// The market an update with these inputs yields: absent parameters keep
/// their value; a changed reserve factor first accrues interest at the old
/// factor and then recomputes the rates with the merged parameters.
pub open spec fn spec_updated_asset_market(
    m: Market,
    p: InitOrUpdateAssetParams,
    block_time: u64,
    contract_current_balance: u128,
) -> Market {
    let merged = (Market {
        max_loan_to_value: if p.max_loan_to_value is Some {
            p.max_loan_to_value->0
        } else {
            m.max_loan_to_value
        },
        reserve_factor: if p.reserve_factor is Some {
            p.reserve_factor->0
        } else {
            m.reserve_factor
        },
        maintenance_margin: if p.maintenance_margin is Some {
            p.maintenance_margin->0
        } else {
            m.maintenance_margin
        },
        liquidation_bonus: if p.liquidation_bonus is Some {
            p.liquidation_bonus->0
        } else {
            m.liquidation_bonus
        },
        interest_rate_strategy: if p.interest_rate_strategy is Some {
            p.interest_rate_strategy->0
        } else {
            m.interest_rate_strategy
        },
        active: if p.active is Some {
            p.active->0
        } else {
            m.active
        },
        deposit_enabled: if p.deposit_enabled is Some {
            p.deposit_enabled->0
        } else {
            m.deposit_enabled
        },
        borrow_enabled: if p.borrow_enabled is Some {
            p.borrow_enabled->0
        } else {
            m.borrow_enabled
        },
        ..m
    });
    if spec_reserve_factor_changes(m, p) {
        let accrued = crate::interest_rates::spec_accrued_market(m, block_time as int);
        let with_indices = (Market {
            borrow_index: accrued.borrow_index,
            liquidity_index: accrued.liquidity_index,
            indexes_last_updated: accrued.indexes_last_updated,
            ..merged
        });
        let rates = crate::interest_rates::spec_updated_rates(
            with_indices,
            contract_current_balance as int,
            0,
            block_time as int,
        );
        Market {
            borrow_rate: Decimal(rates.0 as u128),
            liquidity_rate: Decimal(rates.1 as u128),
            ..with_indices
        }
    } else {
        merged
    }
}

/// Whether the update carries a reserve factor different from the stored
/// one, which forces an accrual before the factor changes.
pub open spec fn spec_reserve_factor_changes(m: Market, p: InitOrUpdateAssetParams) -> bool {
    p.reserve_factor is Some && p.reserve_factor->0 != m.reserve_factor
}

/// Updates a market's parameters: owner only, merged parameters must be
/// valid. A changed reserve factor accrues interest first, at the old
/// factor, so the protocol's past cut is settled before the new one takes
/// effect, and then recomputes the rates.
#[verifier::rlimit(60)]
pub fn execute_update_asset(
    ledger: &mut Ledger,
    block_time: u64,
    sender: &Vec<u8>,
    reference: &Vec<u8>,
    asset_params: InitOrUpdateAssetParams,
    contract_current_balance: u128,
) -> (r: Result<UpdateAssetResult, ContractError>)
    ensures
        r is Err ==> *final(ledger) == *old(ledger),
        sender@ != old(ledger).config.owner@ ==> r == Result::<UpdateAssetResult, ContractError>::Err(
            ContractError::Unauthorized,
        ),
        sender@ == old(ledger).config.owner@ && find_market_rec(old(ledger).markets@, reference@)
            is None ==> r == Result::<UpdateAssetResult, ContractError>::Err(
            ContractError::AssetNotInitialized,
        ),
        find_market_rec(old(ledger).markets@, reference@) matches Some(mi) ==> sender@ == old(
            ledger,
        ).config.owner@ ==> {
            let old_m = old(ledger).markets@[mi].market;
            spec_market_params_valid(
                if asset_params.max_loan_to_value is Some {
                    asset_params.max_loan_to_value->0
                } else {
                    old_m.max_loan_to_value
                },
                if asset_params.reserve_factor is Some {
                    asset_params.reserve_factor->0
                } else {
                    old_m.reserve_factor
                },
                if asset_params.maintenance_margin is Some {
                    asset_params.maintenance_margin->0
                } else {
                    old_m.maintenance_margin
                },
                if asset_params.liquidation_bonus is Some {
                    asset_params.liquidation_bonus->0
                } else {
                    old_m.liquidation_bonus
                },
                if asset_params.interest_rate_strategy is Some {
                    asset_params.interest_rate_strategy->0
                } else {
                    old_m.interest_rate_strategy
                },
            ) && !spec_reserve_factor_changes(old_m, asset_params) ==> r is Ok
        },
        find_market_rec(old(ledger).markets@, reference@) matches Some(mi) ==> sender@ == old(
            ledger,
        ).config.owner@ ==> {
            let old_m = old(ledger).markets@[mi].market;
            let merged_ltv = if asset_params.max_loan_to_value is Some {
                asset_params.max_loan_to_value->0
            } else {
                old_m.max_loan_to_value
            };
            let merged_rf = if asset_params.reserve_factor is Some {
                asset_params.reserve_factor->0
            } else {
                old_m.reserve_factor
            };
            let merged_mm = if asset_params.maintenance_margin is Some {
                asset_params.maintenance_margin->0
            } else {
                old_m.maintenance_margin
            };
            let merged_lb = if asset_params.liquidation_bonus is Some {
                asset_params.liquidation_bonus->0
            } else {
                old_m.liquidation_bonus
            };
            let merged_irs = if asset_params.interest_rate_strategy is Some {
                asset_params.interest_rate_strategy->0
            } else {
                old_m.interest_rate_strategy
            };
            &&& (spec_invalid_market_params(merged_ltv, merged_rf, merged_mm, merged_lb).len() > 0
                ==> (r matches Err(ContractError::ParamsNotLessOrEqualOne { invalid_params })
                && invalid_params@ == spec_invalid_market_params(
                merged_ltv,
                merged_rf,
                merged_mm,
                merged_lb,
            )))
            &&& (spec_invalid_market_params(merged_ltv, merged_rf, merged_mm, merged_lb).len()
                == 0 && spec_validate_ordering_and_strategy(merged_ltv, merged_mm, merged_irs)
                is Err ==> r == Result::<UpdateAssetResult, ContractError>::Err(
                spec_validate_ordering_and_strategy(merged_ltv, merged_mm, merged_irs)->Err_0,
            ))
            &&& (r is Ok ==> spec_market_params_valid(
                merged_ltv,
                merged_rf,
                merged_mm,
                merged_lb,
                merged_irs,
            ))
        },
        r matches Ok(out) ==> find_market_rec(old(ledger).markets@, reference@) matches Some(mi)
            && {
            let old_m = old(ledger).markets@[mi].market;
            &&& crate::state::markets_updated_at(old(ledger).markets@, final(ledger).markets@, mi)
            &&& final(ledger).markets@[mi].market == spec_updated_asset_market(
                old_m,
                asset_params,
                block_time,
                contract_current_balance,
            )
            &&& out.protocol_rewards_mint == (if spec_reserve_factor_changes(old_m, asset_params) {
                crate::interest_rates::spec_accrual_mint(old_m, block_time as int)
            } else {
                Option::<u128>::None
            })
            &&& out.rates_updated == spec_reserve_factor_changes(old_m, asset_params)
            &&& final(ledger).config == old(ledger).config
            &&& final(ledger).money_market == old(ledger).money_market
            &&& final(ledger).market_references_by_index@ == old(
                ledger,
            ).market_references_by_index@
            &&& final(ledger).users@ == old(ledger).users@
            &&& final(ledger).debts@ == old(ledger).debts@
            &&& final(ledger).uncollateralized_loan_limits@ == old(
                ledger,
            ).uncollateralized_loan_limits@
        },
{
    if !crate::state::bytes_eq(sender, &ledger.config.owner) {
        return Err(ContractError::Unauthorized);
    }
    let mi = match market_position(&ledger.markets, reference) {
        Some(i) => i,
        None => {
            return Err(ContractError::AssetNotInitialized);
        },
    };
    // Merge the parameters over the stored market's scalar fields.
    let old_ltv = ledger.markets[mi].market.max_loan_to_value;
    let old_rf = ledger.markets[mi].market.reserve_factor;
    let old_mm = ledger.markets[mi].market.maintenance_margin;
    let old_lb = ledger.markets[mi].market.liquidation_bonus;
    let old_irs = ledger.markets[mi].market.interest_rate_strategy;
    let merged_ltv = match asset_params.max_loan_to_value {
        Some(v) => v,
        None => old_ltv,
    };
    let merged_rf = match asset_params.reserve_factor {
        Some(v) => v,
        None => old_rf,
    };
    let merged_mm = match asset_params.maintenance_margin {
        Some(v) => v,
        None => old_mm,
    };
    let merged_lb = match asset_params.liquidation_bonus {
        Some(v) => v,
        None => old_lb,
    };
    let merged_irs = match asset_params.interest_rate_strategy {
        Some(v) => v,
        None => old_irs,
    };
    match validate_market_params(merged_ltv, merged_rf, merged_mm, merged_lb, &merged_irs) {
        Ok(()) => {},
        Err(e) => {
            return Err(e);
        },
    }
    let rf_changes = match asset_params.reserve_factor {
        Some(v) => v.0 != old_rf.0,
        None => false,
    };
    // A changed reserve factor settles the accrued interest first, at the
    // old factor, and recomputes the rates with the merged parameters.
    let mut accrual: Option<(Decimal, Decimal, Option<u128>)> = None;
    let mut new_rates: Option<(Decimal, Decimal)> = None;
    if rf_changes {
        let (new_bi, new_li, mint) = match crate::interest_rates::compute_accrued_interests(
            &ledger.markets[mi].market,
            block_time,
        ) {
            Ok(v) => v,
            Err(e) => {
                return Err(ContractError::Math(e));
            },
        };
        let total_debt = match crate::interest_rates::compute_underlying_amount(
            ledger.markets[mi].market.debt_total_scaled,
            new_bi,
            crate::interest_rates::ScalingOperation::Ceil,
        ) {
            Ok(v) => v,
            Err(e) => {
                return Err(ContractError::Math(e));
            },
        };
        let current_utilization_rate = if total_debt > 0 {
            let liquidity_and_debt = match contract_current_balance.checked_add(total_debt) {
                Some(v) => v,
                None => {
                    return Err(ContractError::Math(crate::math::MathError::Overflow));
                },
            };
            match Decimal::from_ratio(total_debt, liquidity_and_debt) {
                Ok(v) => v,
                Err(e) => {
                    return Err(ContractError::Math(e));
                },
            }
        } else {
            Decimal::zero()
        };
        let rates = match merged_irs.get_updated_interest_rates(
            current_utilization_rate,
            ledger.markets[mi].market.borrow_rate,
            merged_rf,
        ) {
            Ok(v) => v,
            Err(e) => {
                return Err(ContractError::Math(e));
            },
        };
        accrual = Some((new_bi, new_li, mint));
        new_rates = Some(rates);
    }
    let mut rec = ledger.markets.remove(mi);
    let ghost old_markets = old(ledger).markets@;
    rec.market.max_loan_to_value = merged_ltv;
    rec.market.reserve_factor = merged_rf;
    rec.market.maintenance_margin = merged_mm;
    rec.market.liquidation_bonus = merged_lb;
    rec.market.interest_rate_strategy = merged_irs;
    match asset_params.active {
        Some(v) => {
            rec.market.active = v;
        },
        None => {},
    }
    match asset_params.deposit_enabled {
        Some(v) => {
            rec.market.deposit_enabled = v;
        },
        None => {},
    }
    match asset_params.borrow_enabled {
        Some(v) => {
            rec.market.borrow_enabled = v;
        },
        None => {},
    }
    let mint_out = match (accrual, new_rates) {
        (Some((new_bi, new_li, mint)), Some((br, lr))) => {
            rec.market.borrow_index = new_bi;
            rec.market.liquidity_index = new_li;
            if rec.market.indexes_last_updated < block_time {
                rec.market.indexes_last_updated = block_time;
            }
            rec.market.borrow_rate = br;
            rec.market.liquidity_rate = lr;
            mint
        },
        _ => None,
    };
    ledger.markets.insert(mi, rec);
    proof {
        assert(final(ledger).markets@ =~= old_markets.update(
            mi as int,
            final(ledger).markets@[mi as int],
        ));
    }
    Ok(UpdateAssetResult { protocol_rewards_mint: mint_out, rates_updated: rf_changes })
}


/// What a deposit asks the host to do: mint scaled ownership tokens to
/// the depositor and, if interest accrued, to the rewards collector.
#[derive(Clone, Copy, Debug, PartialEq, Eq, Structural)]
pub struct DepositResult {
    /// Scaled ownership tokens to mint to the depositor.
    pub mint_amount: u128,
    /// Scaled ownership tokens to mint to the rewards collector, if any.
    pub protocol_rewards_mint: Option<u128>,
    /// Whether this deposit switched the user's collateral bit on.
    pub collateral_bit_set: bool,
}

/// The market a deposit leaves behind: indices accrued to the block time
/// and rates recomputed at the unchanged on-hand balance.
pub open spec fn spec_deposit_market(m: Market, block_time: u64, contract_balance: u128) -> Market {
    let acc = crate::interest_rates::spec_accrued_market(m, block_time as int);
    let rates = crate::interest_rates::spec_updated_rates(
        acc,
        contract_balance as int,
        0,
        block_time as int,
    );
    Market { borrow_rate: Decimal(rates.0 as u128), liquidity_rate: Decimal(rates.1 as u128), ..acc }
}

/// Whether every computation of a deposit fits in `u128`.
pub open spec fn spec_deposit_fits(
    m: Market,
    block_time: u64,
    deposit_amount: u128,
    contract_balance: u128,
) -> bool {
    let acc = crate::interest_rates::spec_accrued_market(m, block_time as int);
    &&& m.index < 128
    &&& crate::interest_rates::spec_accrue_fits(m, block_time as int)
    &&& crate::interest_rates::spec_update_rates_fits(
        acc,
        contract_balance as int,
        0,
        block_time as int,
    )
    &&& acc.liquidity_index.0 != 0
    &&& block_time >= m.indexes_last_updated
    &&& crate::interest_rates::spec_scale_fits(
        deposit_amount as int,
        acc.liquidity_index.0 as int,
        crate::interest_rates::ScalingOperation::Truncate,
    )
}

/// Deposits `deposit_amount` of the asset: the depositor receives scaled
/// ownership tokens at the accrued liquidity index (truncated), the
/// market's indices and rates advance, and a first deposit turns the
/// user's collateral bit on. `contract_current_balance` is the host's
/// on-hand balance of the asset, already including the sent funds.
#[verifier::rlimit(60)]
pub fn execute_deposit(
    ledger: &mut Ledger,
    block_time: u64,
    depositor_address: &Vec<u8>,
    asset_reference: &Vec<u8>,
    deposit_amount: u128,
    contract_current_balance: u128,
) -> (r: Result<DepositResult, ContractError>)
    ensures
        r is Err ==> *final(ledger) == *old(ledger),
        find_market_rec(old(ledger).markets@, asset_reference@) is None ==> (r matches Err(
            ContractError::MarketNotFound { reference: e_ref },
        ) && e_ref@ == asset_reference@),
        find_market_rec(old(ledger).markets@, asset_reference@) matches Some(mi) ==> {
            let old_m = old(ledger).markets@[mi].market;
            &&& (!old_m.spec_allow_deposit() ==> (r matches Err(
                ContractError::DepositNotAllowed { asset },
            ) && asset@ == asset_reference@))
            &&& (old_m.spec_allow_deposit() && deposit_amount == 0 ==> (r matches Err(
                ContractError::InvalidDepositAmount { asset },
            ) && asset@ == asset_reference@))
            &&& (old_m.spec_allow_deposit() && deposit_amount > 0 && spec_deposit_fits(
                old_m,
                block_time,
                deposit_amount,
                contract_current_balance,
            ) ==> r is Ok)
            &&& ({
                let acc = crate::interest_rates::spec_accrued_market(old_m, block_time as int);
                old_m.spec_allow_deposit() && deposit_amount > 0 && old_m.index < 128
                    && crate::interest_rates::spec_accrue_fits(old_m, block_time as int)
                    && crate::interest_rates::spec_update_rates_fits(
                    acc,
                    contract_current_balance as int,
                    0,
                    block_time as int,
                ) && acc.liquidity_index.0 == 0 ==> r == Result::<
                    DepositResult,
                    ContractError,
                >::Err(ContractError::InvalidLiquidityIndex)
            })
            &&& (r matches Ok(out) ==> {
                let acc = crate::interest_rates::spec_accrued_market(old_m, block_time as int);
                let had_bit = spec_get_bit(
                    spec_user_or_default(old(ledger).users@, depositor_address@).collateral_assets,
                    old_m.index,
                );
                &&& old_m.spec_allow_deposit()
                &&& deposit_amount > 0
                &&& crate::state::markets_updated_at(
                    old(ledger).markets@,
                    final(ledger).markets@,
                    mi,
                )
                &&& final(ledger).markets@[mi].market == spec_deposit_market(
                    old_m,
                    block_time,
                    contract_current_balance,
                )
                &&& out.mint_amount == crate::interest_rates::spec_scale_truncate(
                    deposit_amount as int,
                    acc.liquidity_index.0 as int,
                )
                &&& out.protocol_rewards_mint == crate::interest_rates::spec_accrual_mint(
                    old_m,
                    block_time as int,
                )
                &&& out.collateral_bit_set == !had_bit
                &&& (!had_bit ==> crate::state::users_saved(
                    old(ledger).users@,
                    final(ledger).users@,
                    depositor_address@,
                    (crate::state::User {
                        collateral_assets: spec_set_bit(
                            spec_user_or_default(
                                old(ledger).users@,
                                depositor_address@,
                            ).collateral_assets,
                            old_m.index,
                        ),
                        ..spec_user_or_default(old(ledger).users@, depositor_address@)
                    }),
                ))
                &&& (had_bit ==> final(ledger).users@ == old(ledger).users@)
                &&& final(ledger).config == old(ledger).config
                &&& final(ledger).money_market == old(ledger).money_market
                &&& final(ledger).market_references_by_index@ == old(
                    ledger,
                ).market_references_by_index@
                &&& final(ledger).debts@ == old(ledger).debts@
                &&& final(ledger).uncollateralized_loan_limits@ == old(
                    ledger,
                ).uncollateralized_loan_limits@
            })
        },
{
    let mi = match market_position(&ledger.markets, asset_reference) {
        Some(i) => i,
        None => {
            return Err(ContractError::MarketNotFound { reference: clone_bytes(asset_reference) });
        },
    };
    if !ledger.markets[mi].market.allow_deposit() {
        return Err(ContractError::DepositNotAllowed { asset: clone_bytes(asset_reference) });
    }
    if deposit_amount == 0 {
        return Err(ContractError::InvalidDepositAmount { asset: clone_bytes(asset_reference) });
    }
    let market_index = ledger.markets[mi].market.index;
    let user = user_position_or_default(&ledger.users, depositor_address);
    let had_bit = match get_bit(user.collateral_assets, market_index) {
        Ok(b) => b,
        Err(e) => {
            return Err(e);
        },
    };
    let (new_bi, new_li, reward_mint) = match crate::interest_rates::compute_accrued_interests(
        &ledger.markets[mi].market,
        block_time,
    ) {
        Ok(v) => v,
        Err(e) => {
            return Err(ContractError::Math(e));
        },
    };
    let debt_total = ledger.markets[mi].market.debt_total_scaled;
    let (new_br, new_lr) = match accrued_market_rates(
        &ledger.markets[mi].market,
        new_bi,
        debt_total,
        contract_current_balance,
        0,
        block_time,
    ) {
        Ok(v) => v,
        Err(e) => {
            return Err(e);
        },
    };
    if new_li.0 == 0 {
        return Err(ContractError::InvalidLiquidityIndex);
    }
    if block_time < ledger.markets[mi].market.indexes_last_updated {
        return Err(
            ContractError::InvalidTimestamp {
                timestamp: block_time,
                last_updated: ledger.markets[mi].market.indexes_last_updated,
            },
        );
    }
    let mint_amount = match crate::interest_rates::compute_scaled_amount(
        deposit_amount,
        new_li,
        crate::interest_rates::ScalingOperation::Truncate,
    ) {
        Ok(v) => v,
        Err(e) => {
            return Err(ContractError::Math(e));
        },
    };
    // All checks passed: apply the mutations.
    if !had_bit {
        let mut collateral_assets = user.collateral_assets;
        match set_bit(&mut collateral_assets, market_index) {
            Ok(()) => {},
            Err(e) => {
                return Err(e);
            },
        }
        crate::state::users_save(
            &mut ledger.users,
            crate::state::UserRecord {
                address: clone_bytes(depositor_address),
                user: crate::state::User { collateral_assets, ..user },
            },
        );
    }
    let ghost markets_before = ledger.markets@;
    let mut rec = ledger.markets.remove(mi);
    rec.market.borrow_index = new_bi;
    rec.market.liquidity_index = new_li;
    if rec.market.indexes_last_updated < block_time {
        rec.market.indexes_last_updated = block_time;
    }
    rec.market.borrow_rate = new_br;
    rec.market.liquidity_rate = new_lr;
    ledger.markets.insert(mi, rec);
    proof {
        assert(ledger.markets@ =~= markets_before.update(mi as int, ledger.markets@[mi as int]));
    }
    Ok(
        DepositResult {
            mint_amount,
            protocol_rewards_mint: reward_mint,
            collateral_bit_set: !had_bit,
        },
    )
}

/// The stored position bitmasks of the user, or the empty position.
pub open spec fn spec_user_or_default(
    s: Seq<crate::state::UserRecord>,
    a: Seq<u8>,
) -> crate::state::User {
    match crate::state::user_of(s, a) {
        Some(u) => u,
        None => crate::state::User { borrowed_assets: 0, collateral_assets: 0 },
    }
}

/// The stored position of the user, or the empty position.
fn user_position_or_default(
    users: &Vec<crate::state::UserRecord>,
    a: &Vec<u8>,
) -> (u: crate::state::User)
    ensures
        u == spec_user_or_default(users@, a@),
{
    match crate::state::user_position(users, a) {
        Some(i) => users[i].user,
        None => crate::state::User { borrowed_assets: 0, collateral_assets: 0 },
    }
}

/// The rates of a market whose indices were just accrued: utilization is
/// the debt at the new borrow index over debt plus the on-hand balance net
/// of the outgoing amount, fed to the market's strategy with its stored
/// (pre-update) borrow rate.
fn accrued_market_rates(
    market: &Market,
    new_borrow_index: Decimal,
    debt_total_scaled: u128,
    contract_current_balance: u128,
    liquidity_taken: u128,
    block_time: u64,
) -> (r: Result<(Decimal, Decimal), ContractError>)
    requires
        new_borrow_index.0 == crate::interest_rates::spec_updated_borrow_index(
            *market,
            block_time as int,
        ),
        crate::interest_rates::spec_updated_borrow_index(*market, block_time as int) <= u128::MAX,
    ensures
        ({
            let acc = (Market {
                debt_total_scaled: debt_total_scaled,
                ..crate::interest_rates::spec_accrued_market(*market, block_time as int)
            });
            &&& (contract_current_balance < liquidity_taken ==> r == Result::<
                (Decimal, Decimal),
                ContractError,
            >::Err(ContractError::OperationExceedsAvailableLiquidity))
            &&& (contract_current_balance >= liquidity_taken ==> (r is Ok
                <==> crate::interest_rates::spec_update_rates_fits(
                acc,
                contract_current_balance as int,
                liquidity_taken as int,
                block_time as int,
            )))
            &&& (r matches Ok(v) ==> {
                let rates = crate::interest_rates::spec_updated_rates(
                    acc,
                    contract_current_balance as int,
                    liquidity_taken as int,
                    block_time as int,
                );
                v.0.0 == rates.0 && v.1.0 == rates.1
            })
        }),
{
    proof {
        let acc = (Market {
            debt_total_scaled: debt_total_scaled,
            ..crate::interest_rates::spec_accrued_market(*market, block_time as int)
        });
        assert(crate::interest_rates::spec_updated_borrow_index(acc, block_time as int)
            == new_borrow_index.0);
    }
    if contract_current_balance < liquidity_taken {
        return Err(ContractError::OperationExceedsAvailableLiquidity);
    }
    let available_liquidity = contract_current_balance - liquidity_taken;
    let total_debt = match crate::interest_rates::compute_underlying_amount(
        debt_total_scaled,
        new_borrow_index,
        crate::interest_rates::ScalingOperation::Ceil,
    ) {
        Ok(v) => v,
        Err(e) => {
            return Err(ContractError::Math(e));
        },
    };
    let current_utilization_rate = if total_debt > 0 {
        let liquidity_and_debt = match available_liquidity.checked_add(total_debt) {
            Some(v) => v,
            None => {
                return Err(ContractError::Math(crate::math::MathError::Overflow));
            },
        };
        match Decimal::from_ratio(total_debt, liquidity_and_debt) {
            Ok(v) => v,
            Err(e) => {
                return Err(ContractError::Math(e));
            },
        }
    } else {
        Decimal::zero()
    };
    match market.interest_rate_strategy.get_updated_interest_rates(
        current_utilization_rate,
        market.borrow_rate,
        market.reserve_factor,
    ) {
        Ok(v) => Ok(v),
        Err(e) => Err(ContractError::Math(e)),
    }
}


/// What a repayment reports: the scaled debt burned, the excess returned
/// to the repayer, and whether the debt reached zero.
#[derive(Clone, Copy, Debug, PartialEq, Eq, Structural)]
pub struct RepayResult {
    /// Scaled debt actually extinguished.
    pub repay_amount_scaled: u128,
    /// Underlying amount to send back to the repayer.
    pub refund_amount: u128,
    /// Scaled ownership tokens to mint to the rewards collector, if any.
    pub protocol_rewards_mint: Option<u128>,
    /// Whether the user's borrowed bit was switched off.
    pub debt_bit_unset: bool,
}

/// Scaled debt a repayment of `repay_amount` extinguishes, and the excess
/// refunded in underlying terms: the sent amount is scaled (rounded up) at
/// the accrued borrow index and capped at the outstanding scaled debt; the
/// cap's excess goes back descaled (truncated).
pub open spec fn spec_repay_amounts(
    acc_borrow_index: int,
    repay_amount: int,
    debt_amount_scaled: int,
) -> (int, int) {
    let raw_scaled = crate::interest_rates::spec_scale_ceil(repay_amount, acc_borrow_index);
    if raw_scaled > debt_amount_scaled {
        (
            debt_amount_scaled,
            crate::interest_rates::spec_descale_truncate(
                raw_scaled - debt_amount_scaled,
                acc_borrow_index,
            ),
        )
    } else {
        (raw_scaled, 0)
    }
}

/// Whether every computation of a repayment fits in `u128`, and the bit
/// bookkeeping of a debt reaching zero can proceed.
pub open spec fn spec_repay_fits(
    m: Market,
    block_time: u64,
    repay_amount: u128,
    d: crate::state::Debt,
    contract_balance: u128,
    users: Seq<crate::state::UserRecord>,
    repayer: Seq<u8>,
) -> bool {
    let acc = crate::interest_rates::spec_accrued_market(m, block_time as int);
    let raw_scaled = crate::interest_rates::spec_scale_ceil(
        repay_amount as int,
        acc.borrow_index.0 as int,
    );
    let amounts = spec_repay_amounts(
        acc.borrow_index.0 as int,
        repay_amount as int,
        d.amount_scaled as int,
    );
    &&& crate::interest_rates::spec_accrue_fits(m, block_time as int)
    &&& crate::interest_rates::spec_scale_fits(
        repay_amount as int,
        acc.borrow_index.0 as int,
        crate::interest_rates::ScalingOperation::Ceil,
    )
    &&& (raw_scaled > d.amount_scaled ==> crate::interest_rates::spec_descale_fits(
        raw_scaled - d.amount_scaled,
        acc.borrow_index.0 as int,
    ))
    &&& amounts.0 <= m.debt_total_scaled
    &&& contract_balance >= amounts.1
    &&& crate::interest_rates::spec_update_rates_fits(
        (Market {
            debt_total_scaled: (m.debt_total_scaled - amounts.0) as u128,
            ..acc
        }),
        contract_balance as int,
        amounts.1,
        block_time as int,
    )
    &&& (d.amount_scaled - amounts.0 == 0 ==> crate::state::find_user_rec(users, repayer) is Some
        && m.index < 128)
}

/// Repays debt: the sent amount extinguishes scaled debt at the accrued
/// borrow index (rounded up, in the protocol's favor); anything beyond the
/// outstanding debt is refunded; a debt reaching exactly zero clears the
/// user's borrowed bit. `contract_current_balance` already includes the
/// sent funds; the refund counts as liquidity about to leave.
#[verifier::rlimit(100)]
pub fn execute_repay(
    ledger: &mut Ledger,
    block_time: u64,
    repayer_address: &Vec<u8>,
    asset_reference: &Vec<u8>,
    repay_amount: u128,
    contract_current_balance: u128,
) -> (r: Result<RepayResult, ContractError>)
    ensures
        r is Err ==> *final(ledger) == *old(ledger),
        find_market_rec(old(ledger).markets@, asset_reference@) is None ==> (r matches Err(
            ContractError::MarketNotFound { reference: e_ref },
        ) && e_ref@ == asset_reference@),
        find_market_rec(old(ledger).markets@, asset_reference@) matches Some(mi) ==> {
            let old_m = old(ledger).markets@[mi].market;
            &&& (!old_m.spec_allow_repay() ==> (r matches Err(
                ContractError::RepayNotAllowed { asset },
            ) && asset@ == asset_reference@))
            &&& (old_m.spec_allow_repay() && repay_amount == 0 ==> (r matches Err(
                ContractError::InvalidRepayAmount { asset },
            ) && asset@ == asset_reference@))
            &&& (old_m.spec_allow_repay() && repay_amount > 0 && crate::state::find_debt_rec(
                old(ledger).debts@,
                asset_reference@,
                repayer_address@,
            ) is None ==> r == Result::<RepayResult, ContractError>::Err(
                ContractError::DebtNotFound,
            ))
            &&& (old_m.spec_allow_repay() && repay_amount > 0 ==> (crate::state::debt_of(
                old(ledger).debts@,
                asset_reference@,
                repayer_address@,
            ) matches Some(d) && d.amount_scaled == 0 ==> r == Result::<
                RepayResult,
                ContractError,
            >::Err(ContractError::CannotRepayZeroDebt)))
            &&& (old_m.spec_allow_repay() && repay_amount > 0 ==> (crate::state::debt_of(
                old(ledger).debts@,
                asset_reference@,
                repayer_address@,
            ) matches Some(d) && d.amount_scaled > 0 && ({
                let acc = crate::interest_rates::spec_accrued_market(old_m, block_time as int);
                let raw_scaled = crate::interest_rates::spec_scale_ceil(
                    repay_amount as int,
                    acc.borrow_index.0 as int,
                );
                let amounts = spec_repay_amounts(
                    acc.borrow_index.0 as int,
                    repay_amount as int,
                    d.amount_scaled as int,
                );
                &&& crate::interest_rates::spec_accrue_fits(old_m, block_time as int)
                &&& crate::interest_rates::spec_scale_fits(
                    repay_amount as int,
                    acc.borrow_index.0 as int,
                    crate::interest_rates::ScalingOperation::Ceil,
                )
                &&& (raw_scaled > d.amount_scaled
                    ==> crate::interest_rates::spec_descale_fits(
                    raw_scaled - d.amount_scaled,
                    acc.borrow_index.0 as int,
                ))
                &&& amounts.0 > old_m.debt_total_scaled
            }) ==> r == Result::<RepayResult, ContractError>::Err(
                ContractError::CannotRepayMoreThanDebt,
            )))
            &&& (old_m.spec_allow_repay() && repay_amount > 0 ==> (crate::state::debt_of(
                old(ledger).debts@,
                asset_reference@,
                repayer_address@,
            ) matches Some(d) && d.amount_scaled > 0 && spec_repay_fits(
                old_m,
                block_time,
                repay_amount,
                d,
                contract_current_balance,
                old(ledger).users@,
                repayer_address@,
            ) ==> r is Ok))
            &&& (r matches Ok(out) ==> crate::state::debt_of(
                old(ledger).debts@,
                asset_reference@,
                repayer_address@,
            ) matches Some(d) && {
                let acc = crate::interest_rates::spec_accrued_market(old_m, block_time as int);
                let amounts = spec_repay_amounts(
                    acc.borrow_index.0 as int,
                    repay_amount as int,
                    d.amount_scaled as int,
                );
                let new_debt_amount = d.amount_scaled - amounts.0;
                let new_total = old_m.debt_total_scaled - amounts.0;
                let rates = crate::interest_rates::spec_updated_rates(
                    (Market { debt_total_scaled: new_total as u128, ..acc }),
                    contract_current_balance as int,
                    amounts.1,
                    block_time as int,
                );
                &&& old_m.spec_allow_repay()
                &&& repay_amount > 0
                &&& d.amount_scaled > 0
                &&& amounts.0 <= old_m.debt_total_scaled
                &&& out.repay_amount_scaled == amounts.0
                &&& out.refund_amount == amounts.1
                &&& out.protocol_rewards_mint == crate::interest_rates::spec_accrual_mint(
                    old_m,
                    block_time as int,
                )
                &&& out.debt_bit_unset == (new_debt_amount == 0)
                &&& crate::state::markets_updated_at(
                    old(ledger).markets@,
                    final(ledger).markets@,
                    mi,
                )
                &&& final(ledger).markets@[mi].market == (Market {
                    debt_total_scaled: new_total as u128,
                    borrow_rate: Decimal(rates.0 as u128),
                    liquidity_rate: Decimal(rates.1 as u128),
                    ..acc
                })
                &&& crate::state::debts_saved(
                    old(ledger).debts@,
                    final(ledger).debts@,
                    asset_reference@,
                    repayer_address@,
                    (crate::state::Debt {
                        amount_scaled: new_debt_amount as u128,
                        uncollateralized: d.uncollateralized,
                    }),
                )
                &&& (new_debt_amount == 0 ==> crate::state::users_saved(
                    old(ledger).users@,
                    final(ledger).users@,
                    repayer_address@,
                    (crate::state::User {
                        borrowed_assets: spec_unset_bit(
                            spec_user_or_default(
                                old(ledger).users@,
                                repayer_address@,
                            ).borrowed_assets,
                            old_m.index,
                        ),
                        ..spec_user_or_default(old(ledger).users@, repayer_address@)
                    }),
                ))
                &&& (new_debt_amount != 0 ==> final(ledger).users@ == old(ledger).users@)
                &&& final(ledger).config == old(ledger).config
                &&& final(ledger).money_market == old(ledger).money_market
                &&& final(ledger).market_references_by_index@ == old(
                    ledger,
                ).market_references_by_index@
                &&& final(ledger).uncollateralized_loan_limits@ == old(
                    ledger,
                ).uncollateralized_loan_limits@
            })
        },
{
    let mi = match market_position(&ledger.markets, asset_reference) {
        Some(i) => i,
        None => {
            return Err(ContractError::MarketNotFound { reference: clone_bytes(asset_reference) });
        },
    };
    if !ledger.markets[mi].market.allow_repay() {
        return Err(ContractError::RepayNotAllowed { asset: clone_bytes(asset_reference) });
    }
    if repay_amount == 0 {
        return Err(ContractError::InvalidRepayAmount { asset: clone_bytes(asset_reference) });
    }
    let di = match crate::state::debt_position(&ledger.debts, asset_reference, repayer_address) {
        Some(i) => i,
        None => {
            return Err(ContractError::DebtNotFound);
        },
    };
    let debt = ledger.debts[di].debt;
    if debt.amount_scaled == 0 {
        return Err(ContractError::CannotRepayZeroDebt);
    }
    let (new_bi, new_li, reward_mint) = match crate::interest_rates::compute_accrued_interests(
        &ledger.markets[mi].market,
        block_time,
    ) {
        Ok(v) => v,
        Err(e) => {
            return Err(ContractError::Math(e));
        },
    };
    let raw_scaled = match crate::interest_rates::compute_scaled_amount(
        repay_amount,
        new_bi,
        crate::interest_rates::ScalingOperation::Ceil,
    ) {
        Ok(v) => v,
        Err(e) => {
            return Err(ContractError::Math(e));
        },
    };
    let mut refund_amount: u128 = 0;
    let mut repay_amount_scaled = raw_scaled;
    if raw_scaled > debt.amount_scaled {
        refund_amount = match crate::interest_rates::compute_underlying_amount(
            raw_scaled - debt.amount_scaled,
            new_bi,
            crate::interest_rates::ScalingOperation::Truncate,
        ) {
            Ok(v) => v,
            Err(e) => {
                return Err(ContractError::Math(e));
            },
        };
        repay_amount_scaled = debt.amount_scaled;
    }
    let new_debt_amount = debt.amount_scaled - repay_amount_scaled;
    if repay_amount_scaled > ledger.markets[mi].market.debt_total_scaled {
        return Err(ContractError::CannotRepayMoreThanDebt);
    }
    let new_total = ledger.markets[mi].market.debt_total_scaled - repay_amount_scaled;
    let (new_br, new_lr) = match accrued_market_rates(
        &ledger.markets[mi].market,
        new_bi,
        new_total,
        contract_current_balance,
        refund_amount,
        block_time,
    ) {
        Ok(v) => v,
        Err(e) => {
            return Err(e);
        },
    };
    let market_index = ledger.markets[mi].market.index;
    let mut cleared_user: Option<crate::state::User> = None;
    if new_debt_amount == 0 {
        let user = match crate::state::user_position(&ledger.users, repayer_address) {
            Some(ui) => ledger.users[ui].user,
            None => {
                return Err(ContractError::UserNotFound);
            },
        };
        let mut borrowed_assets = user.borrowed_assets;
        match unset_bit(&mut borrowed_assets, market_index) {
            Ok(()) => {},
            Err(e) => {
                return Err(e);
            },
        }
        cleared_user = Some(crate::state::User { borrowed_assets, ..user });
    }
    // All checks passed: apply the mutations.
    crate::state::debts_save(
        &mut ledger.debts,
        crate::state::DebtRecord {
            reference: clone_bytes(asset_reference),
            address: clone_bytes(repayer_address),
            debt: crate::state::Debt {
                amount_scaled: new_debt_amount,
                uncollateralized: debt.uncollateralized,
            },
        },
    );
    let ghost markets_before = ledger.markets@;
    let mut rec = ledger.markets.remove(mi);
    rec.market.borrow_index = new_bi;
    rec.market.liquidity_index = new_li;
    if rec.market.indexes_last_updated < block_time {
        rec.market.indexes_last_updated = block_time;
    }
    rec.market.borrow_rate = new_br;
    rec.market.liquidity_rate = new_lr;
    rec.market.debt_total_scaled = new_total;
    ledger.markets.insert(mi, rec);
    proof {
        assert(ledger.markets@ =~= markets_before.update(mi as int, ledger.markets@[mi as int]));
    }
    match cleared_user {
        Some(u) => {
            crate::state::users_save(
                &mut ledger.users,
                crate::state::UserRecord { address: clone_bytes(repayer_address), user: u },
            );
        },
        None => {},
    }
    Ok(
        RepayResult {
            repay_amount_scaled,
            refund_amount,
            protocol_rewards_mint: reward_mint,
            debt_bit_unset: new_debt_amount == 0,
        },
    )
}


/// What a withdrawal asks the host to do: burn the scaled amount from the
/// withdrawer and send the underlying asset.
#[derive(Clone, Copy, Debug, PartialEq, Eq, Structural)]
pub struct WithdrawResult {
    /// Scaled ownership tokens to burn from the withdrawer.
    pub burn_amount_scaled: u128,
    /// Underlying amount to send to the withdrawer.
    pub withdraw_amount: u128,
    /// Scaled ownership tokens to mint to the rewards collector, if any.
    pub protocol_rewards_mint: Option<u128>,
    /// Whether the withdrawal drained the balance and cleared the bit.
    pub collateral_bit_unset: bool,
}

/// The underlying and scaled amounts a withdrawal resolves to: a requested
/// amount is scaled (truncated) at the accrued liquidity index; no request
/// means the whole balance, descaled (truncated).
pub open spec fn spec_withdraw_amounts(
    acc_liquidity_index: int,
    amount: Option<u128>,
    balance_scaled: int,
) -> (int, int) {
    match amount {
        Some(a) => (
            a as int,
            crate::interest_rates::spec_scale_truncate(a as int, acc_liquidity_index),
        ),
        None => (
            crate::interest_rates::spec_descale_truncate(balance_scaled, acc_liquidity_index),
            balance_scaled,
        ),
    }
}

/// The maintenance-margin value a withdrawal removes: the withdrawn
/// amount, priced, weighted by the market's maintenance margin.
pub open spec fn spec_withdraw_margin_loss(
    withdraw_amount: int,
    price: int,
    maintenance_margin: int,
) -> int {
    crate::math::spec_mul_dec_floor(
        crate::math::spec_mul_dec_floor(withdraw_amount, price),
        maintenance_margin,
    )
}

/// Whether the accrual and the amount resolution of a withdrawal fit in
/// `u128`.
pub open spec fn spec_withdraw_resolution_fits(
    m: Market,
    block_time: u64,
    amount: Option<u128>,
    balance_scaled: u128,
) -> bool {
    let acc = crate::interest_rates::spec_accrued_market(m, block_time as int);
    &&& crate::interest_rates::spec_accrue_fits(m, block_time as int)
    &&& block_time >= m.indexes_last_updated
    &&& match amount {
        Some(a) => crate::interest_rates::spec_scale_fits(
            a as int,
            acc.liquidity_index.0 as int,
            crate::interest_rates::ScalingOperation::Truncate,
        ),
        None => crate::interest_rates::spec_descale_fits(
            balance_scaled as int,
            acc.liquidity_index.0 as int,
        ),
    }
}

/// Whether a requested withdrawal amount is valid: its scaled form must be
/// positive and within the withdrawer's balance. Taking the whole balance
/// is always valid.
pub open spec fn spec_withdraw_amount_ok(
    m: Market,
    block_time: u64,
    amount: Option<u128>,
    balance_scaled: u128,
) -> bool {
    let acc = crate::interest_rates::spec_accrued_market(m, block_time as int);
    match amount {
        Some(a) => {
            let scaled = crate::interest_rates::spec_scale_truncate(
                a as int,
                acc.liquidity_index.0 as int,
            );
            scaled != 0 && scaled <= balance_scaled
        },
        None => true,
    }
}

/// Whether a withdrawal keeps the health factor at or above one:
/// `Some(true)` when it does (or no collateralized check applies),
/// `Some(false)` when it drops below one, `None` when the check itself
/// cannot be computed (position, price, or arithmetic).
pub open spec fn spec_withdraw_health_ok(
    l: Ledger,
    address: Seq<u8>,
    user: crate::state::User,
    data: Seq<crate::accounts::UserMarketData>,
    block_time: u64,
    reference: Seq<u8>,
    m: Market,
    withdraw_amount: int,
) -> Option<bool> {
    let collateral_bit = spec_get_bit(user.collateral_assets, m.index);
    if !(collateral_bit && user.borrowed_assets != 0) {
        Some(true)
    } else {
        match crate::accounts::spec_user_position(l, address, user, data, block_time as int) {
            None => None,
            Some(sp) => match crate::accounts::spec_price_of(sp.0.prices, reference) {
                None => None,
                Some(price) => {
                    let in_uusd = crate::math::spec_mul_dec_floor(withdraw_amount, price);
                    let loss = spec_withdraw_margin_loss(
                        withdraw_amount,
                        price,
                        m.maintenance_margin.0 as int,
                    );
                    if in_uusd > u128::MAX || loss > u128::MAX {
                        None
                    } else if sp.0.weighted_maintenance_margin - loss < 0 {
                        None
                    } else if sp.0.total_collateralized_debt == 0 {
                        None
                    } else {
                        let ratio = crate::math::spec_from_ratio(
                            sp.0.weighted_maintenance_margin - loss,
                            sp.0.total_collateralized_debt,
                        );
                        if ratio > u128::MAX {
                            None
                        } else {
                            Some(ratio >= DECIMAL_FRACTIONAL)
                        }
                    }
                },
            },
        }
    }
}

/// Withdraws the requested underlying amount (or the whole balance when
/// none is named): the scaled amount is burned, the asset sent back, and
/// the market accrued and re-rated with the outflow already discounted.
/// When the asset backs collateralized debt, a withdrawal that would push
/// the health factor below one is rejected. Only the rewards collector may
/// withdraw without a stored position. `market_data` carries the oracle
/// price and the withdrawer's scaled balance per market ordinal.
#[verifier::rlimit(100)]
pub fn execute_withdraw(
    ledger: &mut Ledger,
    block_time: u64,
    withdrawer_address: &Vec<u8>,
    asset_reference: &Vec<u8>,
    amount: Option<u128>,
    rewards_collector_address: &Vec<u8>,
    market_data: &Vec<crate::accounts::UserMarketData>,
    contract_current_balance: u128,
) -> (r: Result<WithdrawResult, ContractError>)
    requires
        market_data@.len() >= old(ledger).money_market.market_count,
    ensures
        r is Err ==> *final(ledger) == *old(ledger),
        find_market_rec(old(ledger).markets@, asset_reference@) is None ==> (r matches Err(
            ContractError::MarketNotFound { reference: e_ref },
        ) && e_ref@ == asset_reference@),
        find_market_rec(old(ledger).markets@, asset_reference@) matches Some(mi) ==> {
            let old_m = old(ledger).markets@[mi].market;
            let user = spec_user_or_default(old(ledger).users@, withdrawer_address@);
            let balance_scaled = market_data@[old_m.index as int].collateral_balance_scaled;
            &&& (!old_m.spec_allow_withdraw() ==> (r matches Err(
                ContractError::WithdrawNotAllowed { asset },
            ) && asset@ == asset_reference@))
            &&& (old_m.spec_allow_withdraw() && old_m.index < market_data@.len()
                && balance_scaled == 0 ==> (r matches Err(ContractError::UserNoBalance { asset })
                && asset@ == asset_reference@))
            &&& (old_m.spec_allow_withdraw() && old_m.index < market_data@.len()
                && balance_scaled > 0 && crate::state::find_user_rec(
                old(ledger).users@,
                withdrawer_address@,
            ) is None && withdrawer_address@ != rewards_collector_address@ ==> r == Result::<
                WithdrawResult,
                ContractError,
            >::Err(ContractError::ExistingUserPositionRequired))
            &&& ({
                let gates = old_m.spec_allow_withdraw() && old_m.index < market_data@.len()
                    && balance_scaled > 0 && (crate::state::find_user_rec(
                    old(ledger).users@,
                    withdrawer_address@,
                ) is Some || withdrawer_address@ == rewards_collector_address@);
                let acc = crate::interest_rates::spec_accrued_market(old_m, block_time as int);
                let amounts = spec_withdraw_amounts(
                    acc.liquidity_index.0 as int,
                    amount,
                    balance_scaled as int,
                );
                let health = spec_withdraw_health_ok(
                    *old(ledger),
                    withdrawer_address@,
                    user,
                    market_data@,
                    block_time,
                    asset_reference@,
                    old_m,
                    amounts.0,
                );
                &&& (gates && spec_withdraw_resolution_fits(
                    old_m,
                    block_time,
                    amount,
                    balance_scaled,
                ) && amount is Some && !spec_withdraw_amount_ok(
                    old_m,
                    block_time,
                    amount,
                    balance_scaled,
                ) ==> (r matches Err(ContractError::InvalidWithdrawAmount { asset }) && asset@
                    == asset_reference@))
                &&& (gates && spec_withdraw_resolution_fits(
                    old_m,
                    block_time,
                    amount,
                    balance_scaled,
                ) && spec_withdraw_amount_ok(old_m, block_time, amount, balance_scaled)
                    && old_m.index < 128 && health == Some(false) ==> r == Result::<
                    WithdrawResult,
                    ContractError,
                >::Err(ContractError::InvalidHealthFactorAfterWithdraw))
                &&& (gates && spec_withdraw_resolution_fits(
                    old_m,
                    block_time,
                    amount,
                    balance_scaled,
                ) && spec_withdraw_amount_ok(old_m, block_time, amount, balance_scaled)
                    && old_m.index < 128 && health == Some(true) && contract_current_balance
                    >= amounts.0 && crate::interest_rates::spec_update_rates_fits(
                    acc,
                    contract_current_balance as int,
                    amounts.0,
                    block_time as int,
                ) ==> r is Ok)
            })
            &&& (r matches Ok(out) ==> {
                let acc = crate::interest_rates::spec_accrued_market(old_m, block_time as int);
                let amounts = spec_withdraw_amounts(
                    acc.liquidity_index.0 as int,
                    amount,
                    balance_scaled as int,
                );
                let rates = crate::interest_rates::spec_updated_rates(
                    acc,
                    contract_current_balance as int,
                    amounts.0,
                    block_time as int,
                );
                let collateral_bit = spec_get_bit(user.collateral_assets, old_m.index);
                let drained = collateral_bit && amounts.1 == balance_scaled;
                &&& old_m.spec_allow_withdraw()
                &&& old_m.index < 128
                &&& balance_scaled > 0
                &&& out.withdraw_amount == amounts.0
                &&& out.burn_amount_scaled == amounts.1
                &&& out.burn_amount_scaled > 0
                &&& out.burn_amount_scaled <= balance_scaled
                &&& out.protocol_rewards_mint == crate::interest_rates::spec_accrual_mint(
                    old_m,
                    block_time as int,
                )
                &&& out.collateral_bit_unset == drained
                &&& (collateral_bit && user.borrowed_assets != 0
                    ==> crate::accounts::spec_user_position(
                    *old(ledger),
                    withdrawer_address@,
                    user,
                    market_data@,
                    block_time as int,
                ) is Some)
                &&& (crate::accounts::spec_user_position(
                    *old(ledger),
                    withdrawer_address@,
                    user,
                    market_data@,
                    block_time as int,
                ) matches Some(sp) ==> collateral_bit && user.borrowed_assets != 0 ==> {
                    &&& crate::accounts::spec_price_of(sp.0.prices, asset_reference@) is Some
                    &&& (crate::accounts::spec_price_of(
                        sp.0.prices,
                        asset_reference@,
                    ) matches Some(price) ==> sp.0.weighted_maintenance_margin
                        - spec_withdraw_margin_loss(
                        amounts.0,
                        price,
                        old_m.maintenance_margin.0 as int,
                    ) >= 0 && crate::math::spec_from_ratio(
                        sp.0.weighted_maintenance_margin - spec_withdraw_margin_loss(
                            amounts.0,
                            price,
                            old_m.maintenance_margin.0 as int,
                        ),
                        sp.0.total_collateralized_debt,
                    ) >= DECIMAL_FRACTIONAL)
                })
                &&& crate::state::markets_updated_at(
                    old(ledger).markets@,
                    final(ledger).markets@,
                    mi,
                )
                &&& final(ledger).markets@[mi].market == (Market {
                    borrow_rate: Decimal(rates.0 as u128),
                    liquidity_rate: Decimal(rates.1 as u128),
                    ..acc
                })
                &&& (drained ==> crate::state::users_saved(
                    old(ledger).users@,
                    final(ledger).users@,
                    withdrawer_address@,
                    (crate::state::User {
                        collateral_assets: spec_unset_bit(user.collateral_assets, old_m.index),
                        ..user
                    }),
                ))
                &&& (!drained ==> final(ledger).users@ == old(ledger).users@)
                &&& final(ledger).config == old(ledger).config
                &&& final(ledger).money_market == old(ledger).money_market
                &&& final(ledger).market_references_by_index@ == old(
                    ledger,
                ).market_references_by_index@
                &&& final(ledger).debts@ == old(ledger).debts@
                &&& final(ledger).uncollateralized_loan_limits@ == old(
                    ledger,
                ).uncollateralized_loan_limits@
            })
        },
{
    let mi = match market_position(&ledger.markets, asset_reference) {
        Some(i) => i,
        None => {
            return Err(ContractError::MarketNotFound { reference: clone_bytes(asset_reference) });
        },
    };
    if !ledger.markets[mi].market.allow_withdraw() {
        return Err(ContractError::WithdrawNotAllowed { asset: clone_bytes(asset_reference) });
    }
    let market_index = ledger.markets[mi].market.index;
    if (market_index as usize) >= market_data.len() {
        return Err(ContractError::MarketIndexNotFound { index: market_index });
    }
    let withdrawer_balance_scaled = market_data[market_index as usize].collateral_balance_scaled;
    if withdrawer_balance_scaled == 0 {
        return Err(ContractError::UserNoBalance { asset: clone_bytes(asset_reference) });
    }
    // A withdrawer without a stored position must be the rewards collector.
    let user = match crate::state::user_position(&ledger.users, withdrawer_address) {
        Some(ui) => ledger.users[ui].user,
        None => {
            if !crate::state::bytes_eq(withdrawer_address, rewards_collector_address) {
                return Err(ContractError::ExistingUserPositionRequired);
            }
            crate::state::User { borrowed_assets: 0, collateral_assets: 0 }
        },
    };
    // Resolve the amounts at the accrued liquidity index.
    let (new_bi, new_li, reward_mint) = match crate::interest_rates::compute_accrued_interests(
        &ledger.markets[mi].market,
        block_time,
    ) {
        Ok(v) => v,
        Err(e) => {
            return Err(ContractError::Math(e));
        },
    };
    if block_time < ledger.markets[mi].market.indexes_last_updated {
        return Err(
            ContractError::InvalidTimestamp {
                timestamp: block_time,
                last_updated: ledger.markets[mi].market.indexes_last_updated,
            },
        );
    }
    let (withdraw_amount, withdraw_amount_scaled) = match amount {
        Some(a) => {
            let scaled = match crate::interest_rates::compute_scaled_amount(
                a,
                new_li,
                crate::interest_rates::ScalingOperation::Truncate,
            ) {
                Ok(v) => v,
                Err(e) => {
                    return Err(ContractError::Math(e));
                },
            };
            if scaled == 0 || scaled > withdrawer_balance_scaled {
                return Err(
                    ContractError::InvalidWithdrawAmount { asset: clone_bytes(asset_reference) },
                );
            }
            (a, scaled)
        },
        None => {
            let whole = match crate::interest_rates::compute_underlying_amount(
                withdrawer_balance_scaled,
                new_li,
                crate::interest_rates::ScalingOperation::Truncate,
            ) {
                Ok(v) => v,
                Err(e) => {
                    return Err(ContractError::Math(e));
                },
            };
            (whole, withdrawer_balance_scaled)
        },
    };
    let asset_as_collateral = match get_bit(user.collateral_assets, market_index) {
        Ok(b) => b,
        Err(e) => {
            return Err(e);
        },
    };
    let user_is_borrowing = user.borrowed_assets != 0;
    // When the asset backs collateralized debt, the health factor after
    // the withdrawal must stay at or above one.
    if asset_as_collateral && user_is_borrowing {
        let position = match crate::accounts::get_user_position(
            ledger,
            block_time,
            withdrawer_address,
            &user,
            market_data,
        ) {
            Ok(p) => p,
            Err(e) => {
                return Err(e);
            },
        };
        let ghost sp = crate::accounts::spec_user_position(
            *ledger,
            withdrawer_address@,
            user,
            market_data@,
            block_time as int,
        )->0;
        let withdraw_asset_price = match crate::accounts::price_from_position(
            &position,
            Ghost(sp.0.prices),
            asset_reference,
        ) {
            Ok(p) => p,
            Err(e) => {
                return Err(e);
            },
        };
        let withdraw_amount_in_uusd = match crate::math::multiply_uint128_by_decimal(
            withdraw_amount,
            withdraw_asset_price,
        ) {
            Ok(v) => v,
            Err(e) => {
                return Err(ContractError::Math(e));
            },
        };
        let margin_loss = match crate::math::multiply_uint128_by_decimal(
            withdraw_amount_in_uusd,
            ledger.markets[mi].market.maintenance_margin,
        ) {
            Ok(v) => v,
            Err(e) => {
                return Err(ContractError::Math(e));
            },
        };
        let margin_after = match position.weighted_maintenance_margin_in_uusd.checked_sub(
            margin_loss,
        ) {
            Some(v) => v,
            None => {
                return Err(ContractError::Math(crate::math::MathError::Overflow));
            },
        };
        let health_factor_after = match Decimal::from_ratio(
            margin_after,
            position.total_collateralized_debt_in_uusd,
        ) {
            Ok(v) => v,
            Err(e) => {
                return Err(ContractError::Math(e));
            },
        };
        if health_factor_after.0 < DECIMAL_FRACTIONAL {
            return Err(ContractError::InvalidHealthFactorAfterWithdraw);
        }
    }
    let debt_total = ledger.markets[mi].market.debt_total_scaled;
    let (new_br, new_lr) = match accrued_market_rates(
        &ledger.markets[mi].market,
        new_bi,
        debt_total,
        contract_current_balance,
        withdraw_amount,
        block_time,
    ) {
        Ok(v) => v,
        Err(e) => {
            return Err(e);
        },
    };
    // All checks passed: apply the mutations.
    let drained = asset_as_collateral && withdraw_amount_scaled == withdrawer_balance_scaled;
    if drained {
        let mut collateral_assets = user.collateral_assets;
        match unset_bit(&mut collateral_assets, market_index) {
            Ok(()) => {},
            Err(e) => {
                return Err(e);
            },
        }
        crate::state::users_save(
            &mut ledger.users,
            crate::state::UserRecord {
                address: clone_bytes(withdrawer_address),
                user: crate::state::User { collateral_assets, ..user },
            },
        );
    }
    let ghost markets_before = ledger.markets@;
    let mut rec = ledger.markets.remove(mi);
    rec.market.borrow_index = new_bi;
    rec.market.liquidity_index = new_li;
    if rec.market.indexes_last_updated < block_time {
        rec.market.indexes_last_updated = block_time;
    }
    rec.market.borrow_rate = new_br;
    rec.market.liquidity_rate = new_lr;
    ledger.markets.insert(mi, rec);
    proof {
        assert(ledger.markets@ =~= markets_before.update(mi as int, ledger.markets@[mi as int]));
    }
    Ok(
        WithdrawResult {
            burn_amount_scaled: withdraw_amount_scaled,
            withdraw_amount,
            protocol_rewards_mint: reward_mint,
            collateral_bit_unset: drained,
        },
    )
}


/// What a borrow asks the host to do: send the borrowed asset.
#[derive(Clone, Copy, Debug, PartialEq, Eq, Structural)]
pub struct BorrowResult {
    /// Scaled debt recorded, rounded up at the accrued borrow index.
    pub borrow_amount_scaled: u128,
    /// Scaled ownership tokens to mint to the rewards collector, if any.
    pub protocol_rewards_mint: Option<u128>,
    /// Whether this borrow switched the user's borrowed bit on.
    pub debt_bit_set: bool,
}

/// The stored debt of the pair, or a fresh record whose exemption flag
/// mirrors a positive uncollateralized limit.
pub open spec fn spec_debt_or_default(
    s: Seq<crate::state::DebtRecord>,
    r: Seq<u8>,
    a: Seq<u8>,
    limit: u128,
) -> crate::state::Debt {
    match crate::state::debt_of(s, r, a) {
        Some(d) => d,
        None => crate::state::Debt { amount_scaled: 0, uncollateralized: limit != 0 },
    }
}

/// The stored uncollateralized limit of the pair, or zero.
pub open spec fn spec_limit_or_zero(
    s: Seq<crate::state::LimitRecord>,
    r: Seq<u8>,
    a: Seq<u8>,
) -> u128 {
    match crate::state::limit_of(s, r, a) {
        Some(v) => v,
        None => 0,
    }
}

/// Whether the borrow passes its solvency check: `Some(true)` when it may
/// proceed, `Some(false)` when it exceeds what collateral or the limit
/// allows, `None` when the check itself cannot be computed. A zero limit
/// means a collateralized loan judged against the position's borrowing
/// capacity; a positive one is judged against the limit alone.
pub open spec fn spec_borrow_check(
    l: Ledger,
    address: Seq<u8>,
    user: crate::state::User,
    data: Seq<crate::accounts::UserMarketData>,
    block_time: int,
    reference: Seq<u8>,
    m: Market,
    borrow_amount: int,
    limit: u128,
    debt: crate::state::Debt,
    is_borrowing_asset: bool,
) -> Option<bool> {
    if limit == 0 {
        match crate::accounts::spec_user_position(l, address, user, data, block_time) {
            None => None,
            Some(sp) => {
                let price = if is_borrowing_asset {
                    crate::accounts::spec_price_of(sp.0.prices, reference)
                } else {
                    Some(data[m.index as int].price.0 as int)
                };
                match price {
                    None => None,
                    Some(p) => {
                        let borrow_uusd = crate::math::spec_mul_dec_floor(borrow_amount, p);
                        if borrow_uusd > u128::MAX || sp.0.total_debt + borrow_uusd > u128::MAX {
                            None
                        } else {
                            Some(sp.0.total_debt + borrow_uusd <= sp.0.max_debt)
                        }
                    },
                }
            },
        }
    } else {
        if !crate::interest_rates::spec_updated_borrow_index_fits(m, block_time) {
            None
        } else {
            let ubi = crate::interest_rates::spec_updated_borrow_index(m, block_time);
            if !crate::interest_rates::spec_descale_fits(debt.amount_scaled as int, ubi) {
                None
            } else {
                let debt_amount = crate::interest_rates::spec_descale_ceil(
                    debt.amount_scaled as int,
                    ubi,
                );
                if debt_amount + borrow_amount > u128::MAX {
                    None
                } else {
                    Some(debt_amount + borrow_amount <= limit)
                }
            }
        }
    }
}

/// Whether the post-check computations of a borrow fit in `u128`.
pub open spec fn spec_borrow_fits(
    m: Market,
    block_time: u64,
    borrow_amount: u128,
    debt: crate::state::Debt,
    contract_balance: u128,
) -> bool {
    let acc = crate::interest_rates::spec_accrued_market(m, block_time as int);
    let scaled = crate::interest_rates::spec_scale_ceil(
        borrow_amount as int,
        acc.borrow_index.0 as int,
    );
    &&& m.index < 128
    &&& contract_balance >= borrow_amount
    &&& crate::interest_rates::spec_accrue_fits(m, block_time as int)
    &&& crate::interest_rates::spec_scale_fits(
        borrow_amount as int,
        acc.borrow_index.0 as int,
        crate::interest_rates::ScalingOperation::Ceil,
    )
    &&& debt.amount_scaled + scaled <= u128::MAX
    &&& m.debt_total_scaled + scaled <= u128::MAX
    &&& crate::interest_rates::spec_update_rates_fits(
        (Market {
            debt_total_scaled: (m.debt_total_scaled + scaled) as u128,
            ..acc
        }),
        contract_balance as int,
        borrow_amount as int,
        block_time as int,
    )
}

/// Borrows the asset against collateral or an uncollateralized allowance:
/// scaled debt (rounded up at the accrued borrow index) is added to the
/// user's record and the market's total, and the asset is sent out. A
/// collateralized borrow must keep the total debt value within the
/// position's borrowing capacity; an uncollateralized one within the
/// granted limit. `market_data` carries the borrower's observations per
/// market ordinal.
#[verifier::rlimit(100)]
pub fn execute_borrow(
    ledger: &mut Ledger,
    block_time: u64,
    borrower_address: &Vec<u8>,
    asset_reference: &Vec<u8>,
    borrow_amount: u128,
    market_data: &Vec<crate::accounts::UserMarketData>,
    contract_current_balance: u128,
) -> (r: Result<BorrowResult, ContractError>)
    requires
        market_data@.len() >= old(ledger).money_market.market_count,
    ensures
        r is Err ==> *final(ledger) == *old(ledger),
        borrow_amount == 0 ==> (r matches Err(ContractError::InvalidBorrowAmount { asset })
            && asset@ == asset_reference@),
        borrow_amount > 0 && find_market_rec(old(ledger).markets@, asset_reference@) is None ==> (
        r matches Err(ContractError::BorrowMarketNotExists { asset }) && asset@
            == asset_reference@),
        find_market_rec(old(ledger).markets@, asset_reference@) matches Some(mi) ==> borrow_amount
            > 0 ==> {
            let old_m = old(ledger).markets@[mi].market;
            let limit = spec_limit_or_zero(
                old(ledger).uncollateralized_loan_limits@,
                asset_reference@,
                borrower_address@,
            );
            let user = spec_user_or_default(old(ledger).users@, borrower_address@);
            let debt = spec_debt_or_default(
                old(ledger).debts@,
                asset_reference@,
                borrower_address@,
                limit,
            );
            &&& (!old_m.spec_allow_borrow() ==> (r matches Err(
                ContractError::BorrowNotAllowed { asset },
            ) && asset@ == asset_reference@))
            &&& (old_m.spec_allow_borrow() && crate::state::find_user_rec(
                old(ledger).users@,
                borrower_address@,
            ) is None && limit == 0 ==> r == Result::<BorrowResult, ContractError>::Err(
                ContractError::UserNoCollateral,
            ))
            &&& (old_m.spec_allow_borrow() && (crate::state::find_user_rec(
                old(ledger).users@,
                borrower_address@,
            ) is Some || limit != 0) && old_m.index < 128 && old_m.index < market_data@.len()
                && spec_borrow_check(
                *old(ledger),
                borrower_address@,
                user,
                market_data@,
                block_time as int,
                asset_reference@,
                old_m,
                borrow_amount as int,
                limit,
                debt,
                spec_get_bit(user.borrowed_assets, old_m.index),
            ) == Some(false) ==> r == Result::<BorrowResult, ContractError>::Err(
                if limit == 0 {
                    ContractError::BorrowAmountExceedsGivenCollateral
                } else {
                    ContractError::BorrowAmountExceedsUncollateralizedLoanLimit
                },
            ))
            &&& (r matches Ok(out) ==> {
                let acc = crate::interest_rates::spec_accrued_market(old_m, block_time as int);
                let scaled = crate::interest_rates::spec_scale_ceil(
                    borrow_amount as int,
                    acc.borrow_index.0 as int,
                );
                let new_total = old_m.debt_total_scaled + scaled;
                let rates = crate::interest_rates::spec_updated_rates(
                    (Market { debt_total_scaled: new_total as u128, ..acc }),
                    contract_current_balance as int,
                    borrow_amount as int,
                    block_time as int,
                );
                let is_borrowing_asset = spec_get_bit(user.borrowed_assets, old_m.index);
                &&& old_m.spec_allow_borrow()
                &&& spec_borrow_check(
                    *old(ledger),
                    borrower_address@,
                    user,
                    market_data@,
                    block_time as int,
                    asset_reference@,
                    old_m,
                    borrow_amount as int,
                    limit,
                    debt,
                    is_borrowing_asset,
                ) == Some(true)
                &&& out.borrow_amount_scaled == scaled
                &&& debt.amount_scaled + scaled <= u128::MAX
                &&& old_m.debt_total_scaled + scaled <= u128::MAX
                &&& out.protocol_rewards_mint == crate::interest_rates::spec_accrual_mint(
                    old_m,
                    block_time as int,
                )
                &&& out.debt_bit_set == !is_borrowing_asset
                &&& crate::state::markets_updated_at(
                    old(ledger).markets@,
                    final(ledger).markets@,
                    mi,
                )
                &&& final(ledger).markets@[mi].market == (Market {
                    debt_total_scaled: new_total as u128,
                    borrow_rate: Decimal(rates.0 as u128),
                    liquidity_rate: Decimal(rates.1 as u128),
                    ..acc
                })
                &&& crate::state::debts_saved(
                    old(ledger).debts@,
                    final(ledger).debts@,
                    asset_reference@,
                    borrower_address@,
                    (crate::state::Debt {
                        amount_scaled: (debt.amount_scaled + scaled) as u128,
                        uncollateralized: debt.uncollateralized,
                    }),
                )
                &&& (!is_borrowing_asset ==> crate::state::users_saved(
                    old(ledger).users@,
                    final(ledger).users@,
                    borrower_address@,
                    (crate::state::User {
                        borrowed_assets: spec_set_bit(user.borrowed_assets, old_m.index),
                        ..user
                    }),
                ))
                &&& (is_borrowing_asset ==> final(ledger).users@ == old(ledger).users@)
                &&& final(ledger).config == old(ledger).config
                &&& final(ledger).money_market == old(ledger).money_market
                &&& final(ledger).market_references_by_index@ == old(
                    ledger,
                ).market_references_by_index@
                &&& final(ledger).uncollateralized_loan_limits@ == old(
                    ledger,
                ).uncollateralized_loan_limits@
            })
            &&& (old_m.spec_allow_borrow() && (crate::state::find_user_rec(
                old(ledger).users@,
                borrower_address@,
            ) is Some || limit != 0) && old_m.index < market_data@.len() && spec_borrow_check(
                *old(ledger),
                borrower_address@,
                user,
                market_data@,
                block_time as int,
                asset_reference@,
                old_m,
                borrow_amount as int,
                limit,
                debt,
                spec_get_bit(user.borrowed_assets, old_m.index),
            ) == Some(true) && spec_borrow_fits(
                old_m,
                block_time,
                borrow_amount,
                debt,
                contract_current_balance,
            ) ==> r is Ok)
        },
{
    if borrow_amount == 0 {
        return Err(ContractError::InvalidBorrowAmount { asset: clone_bytes(asset_reference) });
    }
    let mi = match market_position(&ledger.markets, asset_reference) {
        Some(i) => i,
        None => {
            return Err(
                ContractError::BorrowMarketNotExists { asset: clone_bytes(asset_reference) },
            );
        },
    };
    if !ledger.markets[mi].market.allow_borrow() {
        return Err(ContractError::BorrowNotAllowed { asset: clone_bytes(asset_reference) });
    }
    let market_index = ledger.markets[mi].market.index;
    let uncollateralized_loan_limit = match crate::state::limit_position(
        &ledger.uncollateralized_loan_limits,
        asset_reference,
        borrower_address,
    ) {
        Some(li) => ledger.uncollateralized_loan_limits[li].limit,
        None => 0,
    };
    let user = match crate::state::user_position(&ledger.users, borrower_address) {
        Some(ui) => ledger.users[ui].user,
        None => {
            if uncollateralized_loan_limit == 0 {
                return Err(ContractError::UserNoCollateral);
            }
            crate::state::User { borrowed_assets: 0, collateral_assets: 0 }
        },
    };
    let is_borrowing_asset = match get_bit(user.borrowed_assets, market_index) {
        Ok(b) => b,
        Err(e) => {
            return Err(e);
        },
    };
    let debt = match crate::state::debt_position(&ledger.debts, asset_reference, borrower_address) {
        Some(di) => ledger.debts[di].debt,
        None => crate::state::Debt {
            amount_scaled: 0,
            uncollateralized: uncollateralized_loan_limit != 0,
        },
    };
    if uncollateralized_loan_limit == 0 {
        // Collateralized loan: the total debt value with the new amount
        // must stay within the position's borrowing capacity.
        let position = match crate::accounts::get_user_position(
            ledger,
            block_time,
            borrower_address,
            &user,
            market_data,
        ) {
            Ok(p) => p,
            Err(e) => {
                return Err(e);
            },
        };
        let ghost sp = crate::accounts::spec_user_position(
            *ledger,
            borrower_address@,
            user,
            market_data@,
            block_time as int,
        )->0;
        let borrow_asset_price = if is_borrowing_asset {
            match crate::accounts::price_from_position(
                &position,
                Ghost(sp.0.prices),
                asset_reference,
            ) {
                Ok(p) => p,
                Err(e) => {
                    return Err(e);
                },
            }
        } else {
            if (market_index as usize) >= market_data.len() {
                return Err(ContractError::MarketIndexNotFound { index: market_index });
            }
            market_data[market_index as usize].price
        };
        let borrow_amount_in_uusd = match crate::math::multiply_uint128_by_decimal(
            borrow_amount,
            borrow_asset_price,
        ) {
            Ok(v) => v,
            Err(e) => {
                return Err(ContractError::Math(e));
            },
        };
        let total_debt_in_uusd_after_borrow = match position.total_debt_in_uusd.checked_add(
            borrow_amount_in_uusd,
        ) {
            Some(v) => v,
            None => {
                return Err(ContractError::Math(crate::math::MathError::Overflow));
            },
        };
        if total_debt_in_uusd_after_borrow > position.max_debt_in_uusd {
            return Err(ContractError::BorrowAmountExceedsGivenCollateral);
        }
    } else {
        // Uncollateralized loan: existing debt plus the new amount must
        // stay within the granted limit.
        let debt_amount = match crate::interest_rates::get_underlying_debt_amount(
            debt.amount_scaled,
            &ledger.markets[mi].market,
            block_time,
        ) {
            Ok(v) => v,
            Err(e) => {
                return Err(ContractError::Math(e));
            },
        };
        let debt_after_borrow = match debt_amount.checked_add(borrow_amount) {
            Some(v) => v,
            None => {
                return Err(ContractError::Math(crate::math::MathError::Overflow));
            },
        };
        if debt_after_borrow > uncollateralized_loan_limit {
            return Err(ContractError::BorrowAmountExceedsUncollateralizedLoanLimit);
        }
    }
    let (new_bi, new_li, reward_mint) = match crate::interest_rates::compute_accrued_interests(
        &ledger.markets[mi].market,
        block_time,
    ) {
        Ok(v) => v,
        Err(e) => {
            return Err(ContractError::Math(e));
        },
    };
    let borrow_amount_scaled = match crate::interest_rates::compute_scaled_amount(
        borrow_amount,
        new_bi,
        crate::interest_rates::ScalingOperation::Ceil,
    ) {
        Ok(v) => v,
        Err(e) => {
            return Err(ContractError::Math(e));
        },
    };
    let new_debt_amount = match debt.amount_scaled.checked_add(borrow_amount_scaled) {
        Some(v) => v,
        None => {
            return Err(ContractError::Math(crate::math::MathError::Overflow));
        },
    };
    let new_total = match ledger.markets[mi].market.debt_total_scaled.checked_add(
        borrow_amount_scaled,
    ) {
        Some(v) => v,
        None => {
            return Err(ContractError::Math(crate::math::MathError::Overflow));
        },
    };
    let (new_br, new_lr) = match accrued_market_rates(
        &ledger.markets[mi].market,
        new_bi,
        new_total,
        contract_current_balance,
        borrow_amount,
        block_time,
    ) {
        Ok(v) => v,
        Err(e) => {
            return Err(e);
        },
    };
    // All checks passed: apply the mutations.
    if !is_borrowing_asset {
        let mut borrowed_assets = user.borrowed_assets;
        match set_bit(&mut borrowed_assets, market_index) {
            Ok(()) => {},
            Err(e) => {
                return Err(e);
            },
        }
        crate::state::users_save(
            &mut ledger.users,
            crate::state::UserRecord {
                address: clone_bytes(borrower_address),
                user: crate::state::User { borrowed_assets, ..user },
            },
        );
    }
    crate::state::debts_save(
        &mut ledger.debts,
        crate::state::DebtRecord {
            reference: clone_bytes(asset_reference),
            address: clone_bytes(borrower_address),
            debt: crate::state::Debt {
                amount_scaled: new_debt_amount,
                uncollateralized: debt.uncollateralized,
            },
        },
    );
    let ghost markets_before = ledger.markets@;
    let mut rec = ledger.markets.remove(mi);
    rec.market.borrow_index = new_bi;
    rec.market.liquidity_index = new_li;
    if rec.market.indexes_last_updated < block_time {
        rec.market.indexes_last_updated = block_time;
    }
    rec.market.borrow_rate = new_br;
    rec.market.liquidity_rate = new_lr;
    rec.market.debt_total_scaled = new_total;
    ledger.markets.insert(mi, rec);
    proof {
        assert(ledger.markets@ =~= markets_before.update(mi as int, ledger.markets@[mi as int]));
    }
    Ok(
        BorrowResult {
            borrow_amount_scaled,
            protocol_rewards_mint: reward_mint,
            debt_bit_set: !is_borrowing_asset,
        },
    )
}


/// The three liquidation amounts, in order: debt repaid, collateral
/// seized, and the liquidator's refund. The sent amount is capped by the
/// close factor; the collateral to seize is the repaid value plus the
/// liquidation bonus at the collateral price; seizing more than the
/// target holds clamps the collateral to the full balance and shrinks the
/// debt repaid accordingly. The shrunk repayment is itself capped at the
/// pre-clamp one, so rounding in the division can never push the
/// repayment past the close factor or the sent amount.
pub open spec fn spec_liquidation_amounts(
    collateral_price: int,
    debt_price: int,
    close_factor: int,
    user_collateral_balance: int,
    liquidation_bonus: int,
    user_debt_asset_total_debt: int,
    sent_debt_asset_amount: int,
) -> (int, int, int) {
    let max_repayable = crate::math::spec_mul_dec_floor(user_debt_asset_total_debt, close_factor);
    let debt_to_repay = if sent_debt_asset_amount > max_repayable {
        max_repayable
    } else {
        sent_debt_asset_amount
    };
    let debt_uusd = crate::math::spec_mul_dec_floor(debt_to_repay, debt_price);
    let seize_uusd = crate::math::spec_mul_dec_floor(
        debt_uusd,
        DECIMAL_FRACTIONAL + liquidation_bonus,
    );
    let collateral_to_liquidate = crate::math::spec_div_dec_floor(seize_uusd, collateral_price);
    if collateral_to_liquidate > user_collateral_balance {
        let denom = crate::math::spec_dec_mul(debt_price, DECIMAL_FRACTIONAL + liquidation_bonus);
        let shrunk_repay = crate::math::spec_div_dec_floor(
            crate::math::spec_mul_dec_floor(user_collateral_balance, collateral_price),
            denom,
        );
        let clamped_repay = if shrunk_repay > debt_to_repay {
            debt_to_repay
        } else {
            shrunk_repay
        };
        (clamped_repay, user_collateral_balance, sent_debt_asset_amount - clamped_repay)
    } else {
        (debt_to_repay, collateral_to_liquidate, sent_debt_asset_amount - debt_to_repay)
    }
}

/// Whether the liquidation amounts fit in `u128` with a non-negative
/// refund.
pub open spec fn spec_liquidation_amounts_fit(
    collateral_price: int,
    debt_price: int,
    close_factor: int,
    user_collateral_balance: int,
    liquidation_bonus: int,
    user_debt_asset_total_debt: int,
    sent_debt_asset_amount: int,
) -> bool {
    let max_repayable = crate::math::spec_mul_dec_floor(user_debt_asset_total_debt, close_factor);
    let debt_to_repay = if sent_debt_asset_amount > max_repayable {
        max_repayable
    } else {
        sent_debt_asset_amount
    };
    let debt_uusd = crate::math::spec_mul_dec_floor(debt_to_repay, debt_price);
    let seize_uusd = crate::math::spec_mul_dec_floor(
        debt_uusd,
        DECIMAL_FRACTIONAL + liquidation_bonus,
    );
    let collateral_to_liquidate = crate::math::spec_div_dec_floor(seize_uusd, collateral_price);
    &&& max_repayable <= u128::MAX
    &&& DECIMAL_FRACTIONAL + liquidation_bonus <= u128::MAX
    &&& debt_uusd <= u128::MAX
    &&& seize_uusd <= u128::MAX
    &&& collateral_price != 0
    &&& collateral_to_liquidate <= u128::MAX
    &&& (collateral_to_liquidate > user_collateral_balance ==> {
        let denom = crate::math::spec_dec_mul(debt_price, DECIMAL_FRACTIONAL + liquidation_bonus);
        &&& denom <= u128::MAX
        &&& denom != 0
        &&& crate::math::spec_mul_dec_floor(user_collateral_balance, collateral_price)
            <= u128::MAX
        &&& crate::math::spec_div_dec_floor(
            crate::math::spec_mul_dec_floor(user_collateral_balance, collateral_price),
            denom,
        ) <= u128::MAX
    })
}

/// Computes the debt to repay, the collateral to seize, and the refund of
/// a liquidation. Pure arithmetic; no state is read or written. The
/// repayment never exceeds the sent amount nor the close factor's share
/// of the debt, the seizure never exceeds the target's balance, and the
/// refund is exactly the sent amount less the repayment.
pub fn liquidation_compute_amounts(
    collateral_price: Decimal,
    debt_price: Decimal,
    close_factor: Decimal,
    user_collateral_balance: u128,
    liquidation_bonus: Decimal,
    user_debt_asset_total_debt: u128,
    sent_debt_asset_amount: u128,
) -> (r: Result<(u128, u128, u128), crate::math::MathError>)
    ensures
        r is Ok <==> spec_liquidation_amounts_fit(
            collateral_price.0 as int,
            debt_price.0 as int,
            close_factor.0 as int,
            user_collateral_balance as int,
            liquidation_bonus.0 as int,
            user_debt_asset_total_debt as int,
            sent_debt_asset_amount as int,
        ),
        r matches Ok(v) ==> {
            let amounts = spec_liquidation_amounts(
                collateral_price.0 as int,
                debt_price.0 as int,
                close_factor.0 as int,
                user_collateral_balance as int,
                liquidation_bonus.0 as int,
                user_debt_asset_total_debt as int,
                sent_debt_asset_amount as int,
            );
            v.0 == amounts.0 && v.1 == amounts.1 && v.2 == amounts.2
        },
        r matches Ok(v) ==> v.0 <= sent_debt_asset_amount && v.0 <= crate::math::spec_mul_dec_floor(
            user_debt_asset_total_debt as int,
            close_factor.0 as int,
        ) && v.1 <= user_collateral_balance && v.2 == sent_debt_asset_amount - v.0,
{
    let max_repayable_debt = match crate::math::multiply_uint128_by_decimal(
        user_debt_asset_total_debt,
        close_factor,
    ) {
        Ok(v) => v,
        Err(e) => {
            return Err(e);
        },
    };
    let debt_to_repay = if sent_debt_asset_amount > max_repayable_debt {
        max_repayable_debt
    } else {
        sent_debt_asset_amount
    };
    let bonus_factor = match Decimal::one().checked_add(liquidation_bonus) {
        Ok(v) => v,
        Err(e) => {
            return Err(e);
        },
    };
    let debt_amount_to_repay_in_uusd = match crate::math::multiply_uint128_by_decimal(
        debt_to_repay,
        debt_price,
    ) {
        Ok(v) => v,
        Err(e) => {
            return Err(e);
        },
    };
    let collateral_amount_to_liquidate_in_uusd = match crate::math::multiply_uint128_by_decimal(
        debt_amount_to_repay_in_uusd,
        bonus_factor,
    ) {
        Ok(v) => v,
        Err(e) => {
            return Err(e);
        },
    };
    let collateral_amount_to_liquidate = match crate::math::divide_uint128_by_decimal(
        collateral_amount_to_liquidate_in_uusd,
        collateral_price,
    ) {
        Ok(v) => v,
        Err(e) => {
            return Err(e);
        },
    };
    if collateral_amount_to_liquidate > user_collateral_balance {
        let collateral_value = match crate::math::multiply_uint128_by_decimal(
            user_collateral_balance,
            collateral_price,
        ) {
            Ok(v) => v,
            Err(e) => {
                return Err(e);
            },
        };
        let denom = match debt_price.checked_mul(bonus_factor) {
            Ok(v) => v,
            Err(e) => {
                return Err(e);
            },
        };
        let shrunk_repay = match crate::math::divide_uint128_by_decimal(collateral_value, denom) {
            Ok(v) => v,
            Err(e) => {
                return Err(e);
            },
        };
        // The division rounds on its own; never let it climb past the
        // close-factor share already established.
        let clamped_repay = if shrunk_repay > debt_to_repay {
            debt_to_repay
        } else {
            shrunk_repay
        };
        let refund = sent_debt_asset_amount - clamped_repay;
        Ok((clamped_repay, user_collateral_balance, refund))
    } else {
        let refund = sent_debt_asset_amount - debt_to_repay;
        Ok((debt_to_repay, collateral_amount_to_liquidate, refund))
    }
}


/// What a liquidation asks the host to do.
#[derive(Clone, Copy, Debug, PartialEq, Eq, Structural)]
pub struct LiquidateResult {
    /// Debt-asset amount the liquidator actually repaid.
    pub debt_amount_to_repay: u128,
    /// Scaled debt extinguished on the target.
    pub debt_amount_to_repay_scaled: u128,
    /// Collateral-asset amount seized from the target.
    pub collateral_amount_to_liquidate: u128,
    /// Scaled ownership tokens moved: transferred to the liquidator when
    /// ownership tokens were elected, burned from the target otherwise.
    pub collateral_amount_to_liquidate_scaled: u128,
    /// Debt-asset amount returned to the liquidator.
    pub refund_amount: u128,
    /// Reward mint of the debt market's accrual, if any.
    pub debt_market_rewards_mint: Option<u128>,
    /// Reward mint of the collateral market's accrual, when the
    /// underlying asset was paid out, if any.
    pub collateral_market_rewards_mint: Option<u128>,
    /// Whether the seizure drained the target's balance and cleared the
    /// target's collateral bit.
    pub target_collateral_bit_unset: bool,
    /// Whether receiving ownership tokens switched the liquidator's
    /// collateral bit on.
    pub liquidator_collateral_bit_set: bool,
}

/// The liquidation amounts a call would compute, when every validation
/// and every computation up to them goes through: the target must carry
/// no uncollateralized allowance in the debt asset, hold collateral and
/// debt, and be unhealthy; both markets must allow liquidation. `None`
/// when any of that fails.
pub open spec fn spec_liquidate_amounts_ready(
    l: Ledger,
    block_time: u64,
    target: Seq<u8>,
    collateral_ref: Seq<u8>,
    debt_ref: Seq<u8>,
    sent: u128,
    data: Seq<crate::accounts::UserMarketData>,
) -> Option<(int, int, int)> {
    if spec_limit_or_zero(l.uncollateralized_loan_limits@, debt_ref, target) != 0 || sent == 0 {
        None
    } else {
        match find_market_rec(l.markets@, collateral_ref) {
            None => None,
            Some(ci) => {
                let c_m = l.markets@[ci].market;
                let c_li = crate::interest_rates::spec_updated_liquidity_index(
                    c_m,
                    block_time as int,
                );
                let balance_scaled = data[c_m.index as int].collateral_balance_scaled;
                if !c_m.spec_allow_liquidate() || c_m.index >= data.len() {
                    None
                } else if !(block_time >= c_m.indexes_last_updated
                    && crate::interest_rates::spec_updated_liquidity_index_fits(
                    c_m,
                    block_time as int,
                ) && crate::interest_rates::spec_descale_fits(balance_scaled as int, c_li)) {
                    None
                } else {
                    let user_collateral_balance = crate::interest_rates::spec_descale_truncate(
                        balance_scaled as int,
                        c_li,
                    );
                    if user_collateral_balance == 0 {
                        None
                    } else {
                        match crate::state::debt_of(l.debts@, debt_ref, target) {
                            None => None,
                            Some(debt) => {
                                if debt.amount_scaled == 0 || crate::state::find_user_rec(
                                    l.users@,
                                    target,
                                ) is None {
                                    None
                                } else {
                                    let user = spec_user_or_default(l.users@, target);
                                    match crate::accounts::spec_user_position(
                                        l,
                                        target,
                                        user,
                                        data,
                                        block_time as int,
                                    ) {
                                        None => None,
                                        Some(sp) => {
                                            if sp.0.total_collateralized_debt == 0
                                                || crate::math::spec_from_ratio(
                                                sp.0.weighted_maintenance_margin,
                                                sp.0.total_collateralized_debt,
                                            ) >= DECIMAL_FRACTIONAL {
                                                None
                                            } else {
                                                spec_liquidate_amounts_from_markets(
                                                    l,
                                                    block_time,
                                                    debt_ref,
                                                    sent,
                                                    sp.0.prices,
                                                    collateral_ref,
                                                    c_m,
                                                    user_collateral_balance,
                                                    debt.amount_scaled,
                                                )
                                            }
                                        },
                                    }
                                }
                            },
                        }
                    }
                }
            },
        }
    }
}

/// The tail of the amounts computation: debt market, prices, accrual and
/// the clamp arithmetic.
pub open spec fn spec_liquidate_amounts_from_markets(
    l: Ledger,
    block_time: u64,
    debt_ref: Seq<u8>,
    sent: u128,
    prices: Seq<(Seq<u8>, int)>,
    collateral_ref: Seq<u8>,
    c_m: Market,
    user_collateral_balance: int,
    debt_amount_scaled: u128,
) -> Option<(int, int, int)> {
    match find_market_rec(l.markets@, debt_ref) {
        None => None,
        Some(di) => {
            let d_m = l.markets@[di].market;
            if !d_m.spec_allow_liquidate() {
                None
            } else {
                match (
                    crate::accounts::spec_price_of(prices, collateral_ref),
                    crate::accounts::spec_price_of(prices, debt_ref),
                ) {
                    (Some(cp), Some(dp)) => {
                        let d_acc = crate::interest_rates::spec_accrued_market(
                            d_m,
                            block_time as int,
                        );
                        if !crate::interest_rates::spec_accrue_fits(d_m, block_time as int) {
                            None
                        } else if !crate::interest_rates::spec_descale_fits(
                            debt_amount_scaled as int,
                            d_acc.borrow_index.0 as int,
                        ) {
                            None
                        } else {
                            let total_debt = crate::interest_rates::spec_descale_ceil(
                                debt_amount_scaled as int,
                                d_acc.borrow_index.0 as int,
                            );
                            if !spec_liquidation_amounts_fit(
                                cp,
                                dp,
                                l.config.close_factor.0 as int,
                                user_collateral_balance,
                                c_m.liquidation_bonus.0 as int,
                                total_debt,
                                sent as int,
                            ) {
                                None
                            } else {
                                Some(
                                    spec_liquidation_amounts(
                                        cp,
                                        dp,
                                        l.config.close_factor.0 as int,
                                        user_collateral_balance,
                                        c_m.liquidation_bonus.0 as int,
                                        total_debt,
                                        sent as int,
                                    ),
                                )
                            }
                        }
                    },
                    _ => None,
                }
            }
        },
    }
}

/// Whether the whole liquidation succeeds: the amounts are computable and
/// everything after them — the collateral leg in the elected form, the
/// scaled repayment, the debt bookkeeping and the rate updates — fits.
pub open spec fn spec_liquidate_ok_conditions(
    l: Ledger,
    block_time: u64,
    target: Seq<u8>,
    collateral_ref: Seq<u8>,
    debt_ref: Seq<u8>,
    sent: u128,
    receive_ma_token: bool,
    data: Seq<crate::accounts::UserMarketData>,
    c_balance: u128,
    d_balance: u128,
) -> bool {
    match spec_liquidate_amounts_ready(l, block_time, target, collateral_ref, debt_ref, sent, data) {
        None => false,
        Some(am) => {
            let ci = find_market_rec(l.markets@, collateral_ref)->0;
            let c_m = l.markets@[ci].market;
            let c_li = crate::interest_rates::spec_updated_liquidity_index(c_m, block_time as int);
            let c_acc = crate::interest_rates::spec_accrued_market(c_m, block_time as int);
            let di = find_market_rec(l.markets@, debt_ref)->0;
            let d_m = l.markets@[di].market;
            let d_acc = crate::interest_rates::spec_accrued_market(d_m, block_time as int);
            let debt = crate::state::debt_of(l.debts@, debt_ref, target)->0;
            let repay_scaled = crate::interest_rates::spec_scale_ceil(
                am.0,
                d_acc.borrow_index.0 as int,
            );
            let balance_scaled = data[c_m.index as int].collateral_balance_scaled;
            let user_collateral_balance = crate::interest_rates::spec_descale_truncate(
                balance_scaled as int,
                c_li,
            );
            &&& (receive_ma_token ==> c_m.index < 128
                && crate::interest_rates::spec_scale_fits(
                am.1,
                c_li,
                crate::interest_rates::ScalingOperation::Truncate,
            ))
            &&& (!receive_ma_token ==> c_balance >= am.1
                && crate::interest_rates::spec_accrue_fits(c_m, block_time as int)
                && crate::interest_rates::spec_update_rates_fits(
                c_acc,
                c_balance as int,
                am.1,
                block_time as int,
            ) && crate::interest_rates::spec_scale_fits(
                am.1,
                c_acc.liquidity_index.0 as int,
                crate::interest_rates::ScalingOperation::Truncate,
            ))
            &&& crate::interest_rates::spec_scale_fits(
                am.0,
                d_acc.borrow_index.0 as int,
                crate::interest_rates::ScalingOperation::Ceil,
            )
            &&& debt.amount_scaled >= repay_scaled
            &&& d_m.debt_total_scaled >= repay_scaled
            &&& d_balance >= am.2
            &&& crate::interest_rates::spec_update_rates_fits(
                (Market {
                    debt_total_scaled: (d_m.debt_total_scaled - repay_scaled) as u128,
                    ..d_acc
                }),
                d_balance as int,
                am.2,
                block_time as int,
            )
            &&& (am.1 == user_collateral_balance ==> c_m.index < 128)
        },
    }
}

/// Liquidates an unhealthy position: the liquidator repays up to the
/// close factor of the target's debt in the debt asset and seizes
/// collateral worth the repayment plus the liquidation bonus, clamped at
/// the target's balance. The liquidator elects to receive ownership
/// tokens of the collateral market, or the underlying asset, which the
/// contract must hold on hand. Targets with a positive uncollateralized
/// limit, or with a health factor at or above one, cannot be liquidated.
/// `market_data` carries the target's observations per market ordinal.
#[verifier::rlimit(100)]
pub fn execute_liquidate(
    ledger: &mut Ledger,
    block_time: u64,
    liquidator_address: &Vec<u8>,
    user_address: &Vec<u8>,
    collateral_asset_reference: &Vec<u8>,
    debt_asset_reference: &Vec<u8>,
    sent_debt_asset_amount: u128,
    receive_ma_token: bool,
    market_data: &Vec<crate::accounts::UserMarketData>,
    contract_collateral_asset_balance: u128,
    contract_debt_asset_balance: u128,
) -> (r: Result<LiquidateResult, ContractError>)
    requires
        market_data@.len() >= old(ledger).money_market.market_count,
    ensures
        r is Err ==> *final(ledger) == *old(ledger),
        spec_limit_or_zero(
            old(ledger).uncollateralized_loan_limits@,
            debt_asset_reference@,
            user_address@,
        ) != 0 ==> r == Result::<LiquidateResult, ContractError>::Err(
            ContractError::CannotLiquidateWhenPositiveUncollateralizedLoanLimit,
        ),
        spec_limit_or_zero(
            old(ledger).uncollateralized_loan_limits@,
            debt_asset_reference@,
            user_address@,
        ) == 0 && sent_debt_asset_amount == 0 ==> (r matches Err(
            ContractError::InvalidLiquidateAmount { asset },
        ) && asset@ == debt_asset_reference@),
        spec_liquidate_amounts_ready(
            *old(ledger),
            block_time,
            user_address@,
            collateral_asset_reference@,
            debt_asset_reference@,
            sent_debt_asset_amount,
            market_data@,
        ) matches Some(am) && !receive_ma_token && contract_collateral_asset_balance < am.1 ==> r
            == Result::<LiquidateResult, ContractError>::Err(
            ContractError::CannotLiquidateWhenNotEnoughCollateral,
        ),
        spec_liquidate_ok_conditions(
            *old(ledger),
            block_time,
            user_address@,
            collateral_asset_reference@,
            debt_asset_reference@,
            sent_debt_asset_amount,
            receive_ma_token,
            market_data@,
            contract_collateral_asset_balance,
            contract_debt_asset_balance,
        ) ==> r is Ok,
        r matches Ok(out) ==> spec_liquidate_amounts_ready(
            *old(ledger),
            block_time,
            user_address@,
            collateral_asset_reference@,
            debt_asset_reference@,
            sent_debt_asset_amount,
            market_data@,
        ) matches Some(am) && {
            let ci = find_market_rec(old(ledger).markets@, collateral_asset_reference@)->0;
            let c_m = old(ledger).markets@[ci].market;
            let c_li = crate::interest_rates::spec_updated_liquidity_index(c_m, block_time as int);
            let c_acc = crate::interest_rates::spec_accrued_market(c_m, block_time as int);
            let c_rates = crate::interest_rates::spec_updated_rates(
                c_acc,
                contract_collateral_asset_balance as int,
                am.1,
                block_time as int,
            );
            let di = find_market_rec(old(ledger).markets@, debt_asset_reference@)->0;
            let d_m = old(ledger).markets@[di].market;
            let d_acc = crate::interest_rates::spec_accrued_market(d_m, block_time as int);
            let debt = crate::state::debt_of(
                old(ledger).debts@,
                debt_asset_reference@,
                user_address@,
            )->0;
            let repay_scaled = crate::interest_rates::spec_scale_ceil(
                am.0,
                d_acc.borrow_index.0 as int,
            );
            let d_rates = crate::interest_rates::spec_updated_rates(
                (Market {
                    debt_total_scaled: (d_m.debt_total_scaled - repay_scaled) as u128,
                    ..d_acc
                }),
                contract_debt_asset_balance as int,
                am.2,
                block_time as int,
            );
            let balance_scaled = market_data@[c_m.index as int].collateral_balance_scaled;
            let user_collateral_balance = crate::interest_rates::spec_descale_truncate(
                balance_scaled as int,
                c_li,
            );
            let target_user = spec_user_or_default(old(ledger).users@, user_address@);
            let liq_user = spec_user_or_default(old(ledger).users@, liquidator_address@);
            let liq_saves = receive_ma_token && !spec_get_bit(liq_user.collateral_assets, c_m.index);
            let drained = am.1 == user_collateral_balance;
            &&& out.debt_amount_to_repay == am.0
            &&& out.collateral_amount_to_liquidate == am.1
            &&& out.refund_amount == am.2
            &&& out.debt_amount_to_repay_scaled == repay_scaled
            &&& (receive_ma_token ==> out.collateral_amount_to_liquidate_scaled
                == crate::interest_rates::spec_scale_truncate(am.1, c_li))
            &&& (!receive_ma_token ==> out.collateral_amount_to_liquidate_scaled
                == crate::interest_rates::spec_scale_truncate(am.1, c_acc.liquidity_index.0 as int)
                && contract_collateral_asset_balance >= am.1)
            &&& out.debt_market_rewards_mint == crate::interest_rates::spec_accrual_mint(
                d_m,
                block_time as int,
            )
            &&& out.collateral_market_rewards_mint == (if receive_ma_token {
                Option::<u128>::None
            } else {
                crate::interest_rates::spec_accrual_mint(c_m, block_time as int)
            })
            &&& out.target_collateral_bit_unset == drained
            &&& out.liquidator_collateral_bit_set == liq_saves
            &&& crate::state::debts_saved(
                old(ledger).debts@,
                final(ledger).debts@,
                debt_asset_reference@,
                user_address@,
                (crate::state::Debt {
                    amount_scaled: (debt.amount_scaled - repay_scaled) as u128,
                    uncollateralized: debt.uncollateralized,
                }),
            )
            &&& (drained ==> crate::state::user_of(final(ledger).users@, user_address@) == Some(
                (crate::state::User {
                    collateral_assets: spec_unset_bit(target_user.collateral_assets, c_m.index),
                    ..target_user
                }),
            ))
            &&& (liq_saves && (liquidator_address@ != user_address@ || !drained)
                ==> crate::state::user_of(final(ledger).users@, liquidator_address@) == Some(
                (crate::state::User {
                    collateral_assets: spec_set_bit(liq_user.collateral_assets, c_m.index),
                    ..liq_user
                }),
            ))
            &&& (forall|x: Seq<u8>|
                (!liq_saves || x != liquidator_address@) && (!drained || x != user_address@)
                    ==> #[trigger] crate::state::user_of(final(ledger).users@, x)
                    == crate::state::user_of(old(ledger).users@, x))
            &&& final(ledger).markets@.len() == old(ledger).markets@.len()
            &&& (forall|j: int|
                0 <= j < old(ledger).markets@.len() && j != ci && j != di
                    ==> #[trigger] final(ledger).markets@[j] == old(ledger).markets@[j])
            &&& final(ledger).markets@[ci].reference@ == old(ledger).markets@[ci].reference@
            &&& final(ledger).markets@[di].reference@ == old(ledger).markets@[di].reference@
            &&& (collateral_asset_reference@ != debt_asset_reference@ ==> {
                &&& final(ledger).markets@[di].market == (Market {
                    debt_total_scaled: (d_m.debt_total_scaled - repay_scaled) as u128,
                    borrow_rate: Decimal(d_rates.0 as u128),
                    liquidity_rate: Decimal(d_rates.1 as u128),
                    ..d_acc
                })
                &&& (receive_ma_token ==> final(ledger).markets@[ci] == old(ledger).markets@[ci])
                &&& (!receive_ma_token ==> final(ledger).markets@[ci].market == (Market {
                    borrow_rate: Decimal(c_rates.0 as u128),
                    liquidity_rate: Decimal(c_rates.1 as u128),
                    ..c_acc
                }))
            })
            &&& final(ledger).config == old(ledger).config
            &&& final(ledger).money_market == old(ledger).money_market
            &&& final(ledger).market_references_by_index@ == old(
                ledger,
            ).market_references_by_index@
            &&& final(ledger).uncollateralized_loan_limits@ == old(
                ledger,
            ).uncollateralized_loan_limits@
        },
{
    // A positive uncollateralized limit shields the target.
    match crate::state::limit_position(
        &ledger.uncollateralized_loan_limits,
        debt_asset_reference,
        user_address,
    ) {
        Some(li) => {
            if ledger.uncollateralized_loan_limits[li].limit != 0 {
                return Err(ContractError::CannotLiquidateWhenPositiveUncollateralizedLoanLimit);
            }
        },
        None => {},
    }
    if sent_debt_asset_amount == 0 {
        return Err(
            ContractError::InvalidLiquidateAmount { asset: clone_bytes(debt_asset_reference) },
        );
    }
    let ci = match market_position(&ledger.markets, collateral_asset_reference) {
        Some(i) => i,
        None => {
            return Err(
                ContractError::MarketNotFound { reference: clone_bytes(collateral_asset_reference) },
            );
        },
    };
    if !ledger.markets[ci].market.allow_liquidate() {
        return Err(
            ContractError::LiquidationNotAllowedWhenCollateralMarketInactive {
                asset: clone_bytes(collateral_asset_reference),
            },
        );
    }
    let collateral_market_index = ledger.markets[ci].market.index;
    if (collateral_market_index as usize) >= market_data.len() {
        return Err(ContractError::MarketIndexNotFound { index: collateral_market_index });
    }
    let user_collateral_balance_scaled =
        market_data[collateral_market_index as usize].collateral_balance_scaled;
    let user_collateral_balance = match crate::interest_rates::get_underlying_liquidity_amount(
        user_collateral_balance_scaled,
        &ledger.markets[ci].market,
        block_time,
    ) {
        Ok(v) => v,
        Err(e) => {
            return Err(e);
        },
    };
    if user_collateral_balance == 0 {
        return Err(ContractError::CannotLiquidateWhenNoCollateralBalance);
    }
    let user_debt = match crate::state::debt_position(
        &ledger.debts,
        debt_asset_reference,
        user_address,
    ) {
        Some(di) => ledger.debts[di].debt,
        None => {
            return Err(ContractError::DebtNotFound);
        },
    };
    if user_debt.amount_scaled == 0 {
        return Err(ContractError::CannotLiquidateWhenNoDebtBalance);
    }
    // The target must be unhealthy.
    let user = match crate::state::user_position(&ledger.users, user_address) {
        Some(ui) => ledger.users[ui].user,
        None => {
            return Err(ContractError::UserNotFound);
        },
    };
    let position = match crate::accounts::get_user_position(
        ledger,
        block_time,
        user_address,
        &user,
        market_data,
    ) {
        Ok(p) => p,
        Err(e) => {
            return Err(e);
        },
    };
    let ghost sp = crate::accounts::spec_user_position(
        *ledger,
        user_address@,
        user,
        market_data@,
        block_time as int,
    )->0;
    let health_factor = match position.health_status {
        crate::accounts::UserHealthStatus::NotBorrowing => {
            return Err(ContractError::CannotLiquidateWhenNoDebtBalance);
        },
        crate::accounts::UserHealthStatus::Borrowing(hf) => hf,
    };
    if health_factor.0 >= DECIMAL_FRACTIONAL {
        return Err(ContractError::CannotLiquidateHealthyPosition);
    }
    let di = match market_position(&ledger.markets, debt_asset_reference) {
        Some(i) => i,
        None => {
            return Err(
                ContractError::MarketNotFound { reference: clone_bytes(debt_asset_reference) },
            );
        },
    };
    if !ledger.markets[di].market.allow_liquidate() {
        return Err(
            ContractError::LiquidationNotAllowedWhenDebtMarketInactive {
                asset: clone_bytes(debt_asset_reference),
            },
        );
    }
    let collateral_price = match crate::accounts::price_from_position(
        &position,
        Ghost(sp.0.prices),
        collateral_asset_reference,
    ) {
        Ok(p) => p,
        Err(e) => {
            return Err(e);
        },
    };
    let debt_price = match crate::accounts::price_from_position(
        &position,
        Ghost(sp.0.prices),
        debt_asset_reference,
    ) {
        Ok(p) => p,
        Err(e) => {
            return Err(e);
        },
    };
    // Accrue the debt market and compute the amounts.
    let (d_new_bi, d_new_li, d_reward_mint) = match crate::interest_rates::compute_accrued_interests(
        &ledger.markets[di].market,
        block_time,
    ) {
        Ok(v) => v,
        Err(e) => {
            return Err(ContractError::Math(e));
        },
    };
    let user_debt_asset_total_debt = match crate::interest_rates::compute_underlying_amount(
        user_debt.amount_scaled,
        d_new_bi,
        crate::interest_rates::ScalingOperation::Ceil,
    ) {
        Ok(v) => v,
        Err(e) => {
            return Err(ContractError::Math(e));
        },
    };
    let close_factor = ledger.config.close_factor;
    let (debt_amount_to_repay, collateral_amount_to_liquidate, refund_amount) =
        match liquidation_compute_amounts(
        collateral_price,
        debt_price,
        close_factor,
        user_collateral_balance,
        ledger.markets[ci].market.liquidation_bonus,
        user_debt_asset_total_debt,
        sent_debt_asset_amount,
    ) {
        Ok(v) => v,
        Err(e) => {
            return Err(ContractError::Math(e));
        },
    };
    // Collateral side: ownership tokens change hands, or the underlying
    // asset is paid out after accruing and re-rating the collateral market.
    let mut liquidator_bit_set = false;
    let mut liquidator_user_save: Option<crate::state::User> = None;
    let mut collateral_accrual: Option<(Decimal, Decimal, Option<u128>)> = None;
    let mut collateral_rates: Option<(Decimal, Decimal)> = None;
    let collateral_amount_to_liquidate_scaled: u128;
    if receive_ma_token {
        let liquidator = user_position_or_default(&ledger.users, liquidator_address);
        let liquidator_has_bit = match get_bit(
            liquidator.collateral_assets,
            collateral_market_index,
        ) {
            Ok(b) => b,
            Err(e) => {
                return Err(e);
            },
        };
        if !liquidator_has_bit {
            let mut collateral_assets = liquidator.collateral_assets;
            match set_bit(&mut collateral_assets, collateral_market_index) {
                Ok(()) => {},
                Err(e) => {
                    return Err(e);
                },
            }
            liquidator_bit_set = true;
            liquidator_user_save = Some(
                crate::state::User { collateral_assets, ..liquidator },
            );
        }
        let c_index = match crate::interest_rates::get_updated_liquidity_index(
            &ledger.markets[ci].market,
            block_time,
        ) {
            Ok(v) => v,
            Err(e) => {
                return Err(e);
            },
        };
        collateral_amount_to_liquidate_scaled = match crate::interest_rates::compute_scaled_amount(
            collateral_amount_to_liquidate,
            c_index,
            crate::interest_rates::ScalingOperation::Truncate,
        ) {
            Ok(v) => v,
            Err(e) => {
                return Err(ContractError::Math(e));
            },
        };
    } else {
        if contract_collateral_asset_balance < collateral_amount_to_liquidate {
            return Err(ContractError::CannotLiquidateWhenNotEnoughCollateral);
        }
        let (c_new_bi, c_new_li, c_reward_mint) =
            match crate::interest_rates::compute_accrued_interests(
            &ledger.markets[ci].market,
            block_time,
        ) {
            Ok(v) => v,
            Err(e) => {
                return Err(ContractError::Math(e));
            },
        };
        let c_debt_total = ledger.markets[ci].market.debt_total_scaled;
        let c_rates = match accrued_market_rates(
            &ledger.markets[ci].market,
            c_new_bi,
            c_debt_total,
            contract_collateral_asset_balance,
            collateral_amount_to_liquidate,
            block_time,
        ) {
            Ok(v) => v,
            Err(e) => {
                return Err(e);
            },
        };
        collateral_amount_to_liquidate_scaled = match crate::interest_rates::compute_scaled_amount(
            collateral_amount_to_liquidate,
            c_new_li,
            crate::interest_rates::ScalingOperation::Truncate,
        ) {
            Ok(v) => v,
            Err(e) => {
                return Err(ContractError::Math(e));
            },
        };
        collateral_accrual = Some((c_new_bi, c_new_li, c_reward_mint));
        collateral_rates = Some(c_rates);
    }
    // Debt side: scale the repayment and shrink the target's debt and the
    // market total.
    let debt_amount_to_repay_scaled = match crate::interest_rates::compute_scaled_amount(
        debt_amount_to_repay,
        d_new_bi,
        crate::interest_rates::ScalingOperation::Ceil,
    ) {
        Ok(v) => v,
        Err(e) => {
            return Err(ContractError::Math(e));
        },
    };
    let new_debt_amount = match user_debt.amount_scaled.checked_sub(debt_amount_to_repay_scaled) {
        Some(v) => v,
        None => {
            return Err(ContractError::Math(crate::math::MathError::Overflow));
        },
    };
    let new_debt_total = match ledger.markets[di].market.debt_total_scaled.checked_sub(
        debt_amount_to_repay_scaled,
    ) {
        Some(v) => v,
        None => {
            return Err(ContractError::Math(crate::math::MathError::Overflow));
        },
    };
    let (d_new_br, d_new_lr) = match accrued_market_rates(
        &ledger.markets[di].market,
        d_new_bi,
        new_debt_total,
        contract_debt_asset_balance,
        refund_amount,
        block_time,
    ) {
        Ok(v) => v,
        Err(e) => {
            return Err(e);
        },
    };
    let drained = collateral_amount_to_liquidate == user_collateral_balance;
    let mut target_after: Option<crate::state::User> = None;
    if drained {
        let mut collateral_assets = user.collateral_assets;
        match unset_bit(&mut collateral_assets, collateral_market_index) {
            Ok(()) => {},
            Err(e) => {
                return Err(e);
            },
        }
        target_after = Some(crate::state::User { collateral_assets, ..user });
    }
    // All checks passed: apply the mutations.
    let ghost users0 = ledger.users@;
    match liquidator_user_save {
        Some(u) => {
            crate::state::users_save(
                &mut ledger.users,
                crate::state::UserRecord { address: clone_bytes(liquidator_address), user: u },
            );
            proof {
                crate::state::lemma_users_saved_effect(
                    users0,
                    ledger.users@,
                    liquidator_address@,
                    u,
                );
            }
        },
        None => {},
    }
    match collateral_accrual {
        Some((c_new_bi, c_new_li, _)) => {
            let ghost markets_before_c = ledger.markets@;
            let mut crec = ledger.markets.remove(ci);
            crec.market.borrow_index = c_new_bi;
            crec.market.liquidity_index = c_new_li;
            if crec.market.indexes_last_updated < block_time {
                crec.market.indexes_last_updated = block_time;
            }
            match collateral_rates {
                Some((br, lr)) => {
                    crec.market.borrow_rate = br;
                    crec.market.liquidity_rate = lr;
                },
                None => {},
            }
            ledger.markets.insert(ci, crec);
            proof {
                assert(ledger.markets@ =~= markets_before_c.update(
                    ci as int,
                    ledger.markets@[ci as int],
                ));
            }
        },
        None => {},
    }
    let ghost users1 = ledger.users@;
    match target_after {
        Some(u) => {
            crate::state::users_save(
                &mut ledger.users,
                crate::state::UserRecord { address: clone_bytes(user_address), user: u },
            );
            proof {
                crate::state::lemma_users_saved_effect(users1, ledger.users@, user_address@, u);
            }
        },
        None => {},
    }
    crate::state::debts_save(
        &mut ledger.debts,
        crate::state::DebtRecord {
            reference: clone_bytes(debt_asset_reference),
            address: clone_bytes(user_address),
            debt: crate::state::Debt {
                amount_scaled: new_debt_amount,
                uncollateralized: user_debt.uncollateralized,
            },
        },
    );
    let ghost markets_before_d = ledger.markets@;
    let mut drec = ledger.markets.remove(di);
    drec.market.borrow_index = d_new_bi;
    drec.market.liquidity_index = d_new_li;
    if drec.market.indexes_last_updated < block_time {
        drec.market.indexes_last_updated = block_time;
    }
    drec.market.borrow_rate = d_new_br;
    drec.market.liquidity_rate = d_new_lr;
    drec.market.debt_total_scaled = new_debt_total;
    ledger.markets.insert(di, drec);
    proof {
        assert(ledger.markets@ =~= markets_before_d.update(di as int, ledger.markets@[di as int]));
    }
    let collateral_reward = match collateral_accrual {
        Some((_, _, m)) => m,
        None => None,
    };
    Ok(
        LiquidateResult {
            debt_amount_to_repay,
            debt_amount_to_repay_scaled,
            collateral_amount_to_liquidate,
            collateral_amount_to_liquidate_scaled,
            refund_amount,
            debt_market_rewards_mint: d_reward_mint,
            collateral_market_rewards_mint: collateral_reward,
            target_collateral_bit_unset: drained,
            liquidator_collateral_bit_set: liquidator_bit_set,
        },
    )
}


/// Position of the first market whose ownership token is `t`, if any.
pub open spec fn find_market_by_ma_token(s: Seq<MarketRecord>, t: Seq<u8>) -> Option<int>
    decreases s.len(),
{
    if s.len() == 0 {
        None
    } else if s.first().market.ma_token_address@ == t {
        Some(0int)
    } else {
        match find_market_by_ma_token(s.drop_first(), t) {
            Some(i) => Some(i + 1),
            None => None,
        }
    }
}

/// A match preceded by no other match is the first match.
proof fn lemma_find_by_ma_token_first(s: Seq<MarketRecord>, t: Seq<u8>, i: int)
    requires
        0 <= i < s.len(),
        s[i].market.ma_token_address@ == t,
        forall|j: int| 0 <= j < i ==> s[j].market.ma_token_address@ != t,
    ensures
        find_market_by_ma_token(s, t) == Some(i),
    decreases s.len(),
{
    if i > 0 {
        lemma_find_by_ma_token_first(s.drop_first(), t, i - 1);
    }
}

/// The first match is a match, and nothing before it matches.
proof fn lemma_find_by_ma_token_char(s: Seq<MarketRecord>, t: Seq<u8>)
    ensures
        match find_market_by_ma_token(s, t) {
            Some(i) => 0 <= i < s.len() && s[i].market.ma_token_address@ == t,
            None => forall|j: int| 0 <= j < s.len() ==> s[j].market.ma_token_address@ != t,
        },
    decreases s.len(),
{
    if s.len() > 0 {
        lemma_find_by_ma_token_char(s.drop_first(), t);
        assert forall|j: int| 1 <= j < s.len() implies s[j] == s.drop_first()[j - 1] by {}
    }
}

/// Index of the first market whose ownership token is `t`.
fn market_position_by_ma_token(markets: &Vec<MarketRecord>, t: &Vec<u8>) -> (o: Option<usize>)
    ensures
        o matches Some(i) ==> find_market_by_ma_token(markets@, t@) == Some(i as int) && i
            < markets@.len() && markets@[i as int].market.ma_token_address@ == t@,
        o is None ==> find_market_by_ma_token(markets@, t@) is None,
{
    let n = markets.len();
    let mut i: usize = 0;
    while i < n
        invariant
            n == markets@.len(),
            i <= n,
            forall|j: int| 0 <= j < i ==> markets@[j].market.ma_token_address@ != t@,
        decreases n - i,
    {
        if crate::state::bytes_eq(&markets[i].market.ma_token_address, t) {
            proof {
                lemma_find_by_ma_token_first(markets@, t@, i as int);
            }
            return Some(i);
        }
        i = i + 1;
    }
    proof {
        lemma_find_by_ma_token_char(markets@, t@);
    }
    None
}

/// What the transfer callback changed.
#[derive(Clone, Copy, Debug, PartialEq, Eq, Structural)]
pub struct FinalizeTransferResult {
    /// The sender's balance reached zero and its collateral bit cleared.
    pub from_bit_unset: bool,
    /// The recipient's balance left zero and its collateral bit set.
    pub to_bit_set: bool,
}

/// Callback the ownership-token contract makes after every transfer: the
/// whole transfer is rejected when it would leave the sender's health
/// factor below one; otherwise both parties' collateral bits track whether
/// their balance is now zero or newly positive. The caller is the token
/// contract itself, identified by its address. `market_data` carries the
/// sender's observations per market ordinal.
#[verifier::rlimit(100)]
pub fn execute_finalize_liquidity_token_transfer(
    ledger: &mut Ledger,
    block_time: u64,
    sender: &Vec<u8>,
    from_address: &Vec<u8>,
    to_address: &Vec<u8>,
    from_previous_balance: u128,
    to_previous_balance: u128,
    amount: u128,
    market_data: &Vec<crate::accounts::UserMarketData>,
) -> (r: Result<FinalizeTransferResult, ContractError>)
    requires
        market_data@.len() >= old(ledger).money_market.market_count,
    ensures
        r is Err ==> *final(ledger) == *old(ledger),
        find_market_by_ma_token(old(ledger).markets@, sender@) is None ==> (r matches Err(
            ContractError::MaTokenNotFound { ma_token_address },
        ) && ma_token_address@ == sender@),
        find_market_by_ma_token(old(ledger).markets@, sender@) matches Some(mi) ==> {
            let m = old(ledger).markets@[mi].market;
            &&& (crate::state::find_user_rec(old(ledger).users@, from_address@) is None ==> r
                == Result::<FinalizeTransferResult, ContractError>::Err(
                ContractError::UserNotFound,
            ))
            &&& (crate::state::user_of(old(ledger).users@, from_address@) matches Some(from_user)
                ==> {
                let healthy = spec_position_healthy(
                    *old(ledger),
                    from_address@,
                    from_user,
                    market_data@,
                    block_time,
                );
                &&& (healthy == Some(false) ==> r == Result::<
                    FinalizeTransferResult,
                    ContractError,
                >::Err(ContractError::CannotTransferTokenWhenInvalidHealthFactor))
                &&& (healthy == Some(true) && m.index < 128 && (from_address@ != to_address@
                    ==> from_previous_balance >= amount) ==> r is Ok)
            })
            &&& (r matches Ok(out) ==> crate::state::user_of(
                old(ledger).users@,
                from_address@,
            ) matches Some(from_user) && {
                let to_user = spec_user_or_default(old(ledger).users@, to_address@);
                let drain = from_address@ != to_address@ && from_previous_balance - amount == 0;
                let gain = from_address@ != to_address@ && to_previous_balance == 0 && amount
                    != 0;
                &&& spec_position_healthy(
                    *old(ledger),
                    from_address@,
                    from_user,
                    market_data@,
                    block_time,
                ) == Some(true)
                &&& m.index < 128
                &&& (from_address@ != to_address@ ==> from_previous_balance >= amount)
                &&& out.from_bit_unset == drain
                &&& out.to_bit_set == gain
                &&& (drain ==> crate::state::user_of(final(ledger).users@, from_address@) == Some(
                    (crate::state::User {
                        collateral_assets: spec_unset_bit(from_user.collateral_assets, m.index),
                        ..from_user
                    }),
                ))
                &&& (gain ==> crate::state::user_of(final(ledger).users@, to_address@) == Some(
                    (crate::state::User {
                        collateral_assets: spec_set_bit(to_user.collateral_assets, m.index),
                        ..to_user
                    }),
                ))
                &&& (forall|x: Seq<u8>|
                    (!drain || x != from_address@) && (!gain || x != to_address@)
                        ==> #[trigger] crate::state::user_of(final(ledger).users@, x)
                        == crate::state::user_of(old(ledger).users@, x))
                &&& final(ledger).config == old(ledger).config
                &&& final(ledger).money_market == old(ledger).money_market
                &&& final(ledger).markets@ == old(ledger).markets@
                &&& final(ledger).market_references_by_index@ == old(
                    ledger,
                ).market_references_by_index@
                &&& final(ledger).debts@ == old(ledger).debts@
                &&& final(ledger).uncollateralized_loan_limits@ == old(
                    ledger,
                ).uncollateralized_loan_limits@
            })
        },
{
    let mi = match market_position_by_ma_token(&ledger.markets, sender) {
        Some(i) => i,
        None => {
            return Err(ContractError::MaTokenNotFound { ma_token_address: clone_bytes(sender) });
        },
    };
    let market_index = ledger.markets[mi].market.index;
    let from_user = match crate::state::user_position(&ledger.users, from_address) {
        Some(ui) => ledger.users[ui].user,
        None => {
            return Err(ContractError::UserNotFound);
        },
    };
    // The sender's position, with only collateralized debt weighing in,
    // must stay healthy.
    let position = match crate::accounts::get_user_position(
        ledger,
        block_time,
        from_address,
        &from_user,
        market_data,
    ) {
        Ok(p) => p,
        Err(e) => {
            return Err(e);
        },
    };
    match position.health_status {
        crate::accounts::UserHealthStatus::Borrowing(hf) => {
            if hf.0 < DECIMAL_FRACTIONAL {
                return Err(ContractError::CannotTransferTokenWhenInvalidHealthFactor);
            }
        },
        crate::accounts::UserHealthStatus::NotBorrowing => {},
    }
    if market_index >= 128 {
        return Err(ContractError::BitIndexOutOfRange { index: market_index });
    }
    let mut from_bit_unset = false;
    let mut to_bit_set = false;
    let ghost users0 = ledger.users@;
    if !crate::state::bytes_eq(from_address, to_address) {
        let from_balance_after = match from_previous_balance.checked_sub(amount) {
            Some(v) => v,
            None => {
                return Err(ContractError::Math(crate::math::MathError::Overflow));
            },
        };
        let mut from_after: Option<crate::state::User> = None;
        if from_balance_after == 0 {
            let mut collateral_assets = from_user.collateral_assets;
            match unset_bit(&mut collateral_assets, market_index) {
                Ok(()) => {},
                Err(e) => {
                    return Err(e);
                },
            }
            from_after = Some(crate::state::User { collateral_assets, ..from_user });
        }
        let mut to_after: Option<crate::state::User> = None;
        if to_previous_balance == 0 && amount != 0 {
            let to_user = user_position_or_default(&ledger.users, to_address);
            let mut collateral_assets = to_user.collateral_assets;
            match set_bit(&mut collateral_assets, market_index) {
                Ok(()) => {},
                Err(e) => {
                    return Err(e);
                },
            }
            to_after = Some(crate::state::User { collateral_assets, ..to_user });
        }
        match from_after {
            Some(u) => {
                crate::state::users_save(
                    &mut ledger.users,
                    crate::state::UserRecord { address: clone_bytes(from_address), user: u },
                );
                proof {
                    crate::state::lemma_users_saved_effect(users0, ledger.users@, from_address@, u);
                }
                from_bit_unset = true;
            },
            None => {},
        }
        let ghost users1 = ledger.users@;
        match to_after {
            Some(u) => {
                crate::state::users_save(
                    &mut ledger.users,
                    crate::state::UserRecord { address: clone_bytes(to_address), user: u },
                );
                proof {
                    crate::state::lemma_users_saved_effect(users1, ledger.users@, to_address@, u);
                }
                to_bit_set = true;
            },
            None => {},
        }
    }
    Ok(FinalizeTransferResult { from_bit_unset, to_bit_set })
}

/// Whether the position of the given bitmasks is healthy/// Whether the position of the given bitmasks is healthy: `Some(true)`
/// when it owes nothing collateralized or its health factor is at or
/// above one, `Some(false)` when it is below, `None` when the position
/// cannot be computed.
pub open spec fn spec_position_healthy(
    l: Ledger,
    address: Seq<u8>,
    user: crate::state::User,
    data: Seq<crate::accounts::UserMarketData>,
    block_time: u64,
) -> Option<bool> {
    match crate::accounts::spec_user_position(l, address, user, data, block_time as int) {
        None => None,
        Some(sp) => {
            if sp.0.total_collateralized_debt == 0 {
                Some(true)
            } else {
                let ratio = crate::math::spec_from_ratio(
                    sp.0.weighted_maintenance_margin,
                    sp.0.total_collateralized_debt,
                );
                if ratio > u128::MAX {
                    None
                } else {
                    Some(ratio >= DECIMAL_FRACTIONAL)
                }
            }
        },
    }
}

/// Turns an asset's use as collateral on or off for the caller. Enabling
/// requires a positive ownership-token balance; disabling, while the user
/// has collateralized debt, requires the health factor to stay at or
/// above one with the bit already treated as cleared. `market_data`
/// carries the caller's observations per market ordinal.
#[verifier::rlimit(100)]
pub fn execute_update_user_collateral_asset_status(
    ledger: &mut Ledger,
    block_time: u64,
    sender: &Vec<u8>,
    asset_reference: &Vec<u8>,
    enable: bool,
    market_data: &Vec<crate::accounts::UserMarketData>,
) -> (r: Result<Option<bool>, ContractError>)
    requires
        market_data@.len() >= old(ledger).money_market.market_count,
    ensures
        r is Err ==> *final(ledger) == *old(ledger),
        find_market_rec(old(ledger).markets@, asset_reference@) is None ==> (r matches Err(
            ContractError::MarketNotFound { reference: e_ref },
        ) && e_ref@ == asset_reference@),
        find_market_rec(old(ledger).markets@, asset_reference@) matches Some(mi) ==> {
            let m = old(ledger).markets@[mi].market;
            let user = spec_user_or_default(old(ledger).users@, sender@);
            &&& (m.index < 128 && m.index < market_data@.len() && !spec_get_bit(
                user.collateral_assets,
                m.index,
            ) && enable && market_data@[m.index as int].collateral_balance_scaled == 0 ==> (
            r matches Err(ContractError::UserNoCollateralBalance { user_address, asset })
                && user_address@ == sender@ && asset@ == asset_reference@))
            &&& (m.index < 128 && m.index < market_data@.len() && !spec_get_bit(
                user.collateral_assets,
                m.index,
            ) && enable && market_data@[m.index as int].collateral_balance_scaled > 0 ==> r is Ok)
            &&& (m.index < 128 && spec_get_bit(user.collateral_assets, m.index) == enable ==> r
                is Ok)
            &&& ({
                let cleared = (crate::state::User {
                    collateral_assets: spec_unset_bit(user.collateral_assets, m.index),
                    ..user
                });
                let health = spec_position_healthy(
                    *old(ledger),
                    sender@,
                    cleared,
                    market_data@,
                    block_time,
                );
                &&& (m.index < 128 && spec_get_bit(user.collateral_assets, m.index) && !enable
                    && health == Some(false) ==> r == Result::<Option<bool>, ContractError>::Err(
                    ContractError::InvalidHealthFactorAfterDisablingCollateral,
                ))
                &&& (m.index < 128 && spec_get_bit(user.collateral_assets, m.index) && !enable
                    && health == Some(true) ==> r is Ok)
            })
            &&& (r matches Ok(out) ==> {
                let had_bit = spec_get_bit(user.collateral_assets, m.index);
                &&& m.index < 128
                &&& out == (if !had_bit && enable {
                    Some(true)
                } else if had_bit && !enable {
                    Some(false)
                } else {
                    Option::<bool>::None
                })
                &&& (!had_bit && enable ==> crate::state::users_saved(
                    old(ledger).users@,
                    final(ledger).users@,
                    sender@,
                    (crate::state::User {
                        collateral_assets: spec_set_bit(user.collateral_assets, m.index),
                        ..user
                    }),
                ))
                &&& (had_bit && !enable ==> crate::state::users_saved(
                    old(ledger).users@,
                    final(ledger).users@,
                    sender@,
                    (crate::state::User {
                        collateral_assets: spec_unset_bit(user.collateral_assets, m.index),
                        ..user
                    }),
                ) && (crate::accounts::spec_user_position(
                    *old(ledger),
                    sender@,
                    (crate::state::User {
                        collateral_assets: spec_unset_bit(user.collateral_assets, m.index),
                        ..user
                    }),
                    market_data@,
                    block_time as int,
                ) matches Some(sp) ==> (sp.0.total_collateralized_debt > 0
                    ==> crate::math::spec_from_ratio(
                    sp.0.weighted_maintenance_margin,
                    sp.0.total_collateralized_debt,
                ) >= DECIMAL_FRACTIONAL)))
                &&& (had_bit == enable ==> final(ledger).users@ == old(ledger).users@)
                &&& final(ledger).config == old(ledger).config
                &&& final(ledger).money_market == old(ledger).money_market
                &&& final(ledger).markets@ == old(ledger).markets@
                &&& final(ledger).market_references_by_index@ == old(
                    ledger,
                ).market_references_by_index@
                &&& final(ledger).debts@ == old(ledger).debts@
                &&& final(ledger).uncollateralized_loan_limits@ == old(
                    ledger,
                ).uncollateralized_loan_limits@
            })
        },
{
    let mi = match market_position(&ledger.markets, asset_reference) {
        Some(i) => i,
        None => {
            return Err(ContractError::MarketNotFound { reference: clone_bytes(asset_reference) });
        },
    };
    let market_index = ledger.markets[mi].market.index;
    let user = user_position_or_default(&ledger.users, sender);
    let has_bit = match get_bit(user.collateral_assets, market_index) {
        Ok(b) => b,
        Err(e) => {
            return Err(e);
        },
    };
    if !has_bit && enable {
        if (market_index as usize) >= market_data.len() {
            return Err(ContractError::MarketIndexNotFound { index: market_index });
        }
        let balance = market_data[market_index as usize].collateral_balance_scaled;
        if balance == 0 {
            return Err(
                ContractError::UserNoCollateralBalance {
                    user_address: clone_bytes(sender),
                    asset: clone_bytes(asset_reference),
                },
            );
        }
        let mut collateral_assets = user.collateral_assets;
        match set_bit(&mut collateral_assets, market_index) {
            Ok(()) => {},
            Err(e) => {
                return Err(e);
            },
        }
        crate::state::users_save(
            &mut ledger.users,
            crate::state::UserRecord {
                address: clone_bytes(sender),
                user: crate::state::User { collateral_assets, ..user },
            },
        );
        Ok(Some(true))
    } else if has_bit && !enable {
        let mut collateral_assets = user.collateral_assets;
        match unset_bit(&mut collateral_assets, market_index) {
            Ok(()) => {},
            Err(e) => {
                return Err(e);
            },
        }
        let updated_user = crate::state::User { collateral_assets, ..user };
        // The position is judged with the bit already treated as cleared.
        let position = match crate::accounts::get_user_position(
            ledger,
            block_time,
            sender,
            &updated_user,
            market_data,
        ) {
            Ok(p) => p,
            Err(e) => {
                return Err(e);
            },
        };
        match position.health_status {
            crate::accounts::UserHealthStatus::Borrowing(hf) => {
                if hf.0 < DECIMAL_FRACTIONAL {
                    return Err(ContractError::InvalidHealthFactorAfterDisablingCollateral);
                }
            },
            crate::accounts::UserHealthStatus::NotBorrowing => {},
        }
        crate::state::users_save(
            &mut ledger.users,
            crate::state::UserRecord { address: clone_bytes(sender), user: updated_user },
        );
        Ok(Some(false))
    } else {
        Ok(None)
    }
}


/// A market snapshot, as a query answers it.
#[derive(Clone, Debug, PartialEq, Eq)]
pub struct MarketResponse {
    pub ma_token_address: Vec<u8>,
    pub borrow_index: Decimal,
    pub liquidity_index: Decimal,
    pub borrow_rate: Decimal,
    pub liquidity_rate: Decimal,
    pub max_loan_to_value: Decimal,
    pub indexes_last_updated: u64,
    pub debt_total_scaled: u128,
    pub asset_type: AssetType,
    pub maintenance_margin: Decimal,
    pub liquidation_bonus: Decimal,
    pub reserve_factor: Decimal,
    pub interest_rate_strategy: InterestRateStrategy,
    pub active: bool,
    pub deposit_enabled: bool,
    pub borrow_enabled: bool,
}

/// The configuration, as a query answers it.
#[derive(Clone, Debug, PartialEq, Eq)]
pub struct ConfigResponse {
    pub owner: Vec<u8>,
    pub address_provider_address: Vec<u8>,
    pub ma_token_code_id: u64,
    pub market_count: u32,
    pub close_factor: Decimal,
}

/// One market in the market list.
#[derive(Clone, Debug, PartialEq, Eq)]
pub struct MarketInfo {
    pub reference: Vec<u8>,
    pub ma_token_address: Vec<u8>,
}

/// One market's scaled debt of a user.
#[derive(Clone, Debug, PartialEq, Eq)]
pub struct DebtInfo {
    pub reference: Vec<u8>,
    pub amount_scaled: u128,
}

/// One market's collateral status of a user.
#[derive(Clone, Debug, PartialEq, Eq)]
pub struct CollateralInfo {
    pub reference: Vec<u8>,
    pub enabled: bool,
}

/// The configuration and market count.
pub fn query_config(ledger: &Ledger) -> (r: ConfigResponse)
    ensures
        r.owner@ == ledger.config.owner@,
        r.address_provider_address@ == ledger.config.address_provider_address@,
        r.ma_token_code_id == ledger.config.ma_token_code_id,
        r.market_count == ledger.money_market.market_count,
        r.close_factor == ledger.config.close_factor,
{
    ConfigResponse {
        owner: clone_bytes(&ledger.config.owner),
        address_provider_address: clone_bytes(&ledger.config.address_provider_address),
        ma_token_code_id: ledger.config.ma_token_code_id,
        market_count: ledger.money_market.market_count,
        close_factor: ledger.config.close_factor,
    }
}

/// A snapshot of the market stored under the reference.
pub fn query_market(ledger: &Ledger, asset_reference: &Vec<u8>) -> (r: Result<
    MarketResponse,
    ContractError,
>)
    ensures
        find_market_rec(ledger.markets@, asset_reference@) is None ==> (r matches Err(
            ContractError::MarketNotFound { reference: e_ref },
        ) && e_ref@ == asset_reference@),
        find_market_rec(ledger.markets@, asset_reference@) matches Some(mi) ==> (r matches Ok(out)
            && {
            let m = ledger.markets@[mi].market;
            &&& out.ma_token_address@ == m.ma_token_address@
            &&& out.borrow_index == m.borrow_index
            &&& out.liquidity_index == m.liquidity_index
            &&& out.borrow_rate == m.borrow_rate
            &&& out.liquidity_rate == m.liquidity_rate
            &&& out.max_loan_to_value == m.max_loan_to_value
            &&& out.indexes_last_updated == m.indexes_last_updated
            &&& out.debt_total_scaled == m.debt_total_scaled
            &&& out.asset_type == m.asset_type
            &&& out.maintenance_margin == m.maintenance_margin
            &&& out.liquidation_bonus == m.liquidation_bonus
            &&& out.reserve_factor == m.reserve_factor
            &&& out.interest_rate_strategy == m.interest_rate_strategy
            &&& out.active == m.active
            &&& out.deposit_enabled == m.deposit_enabled
            &&& out.borrow_enabled == m.borrow_enabled
        }),
{
    let mi = match market_position(&ledger.markets, asset_reference) {
        Some(i) => i,
        None => {
            return Err(ContractError::MarketNotFound { reference: clone_bytes(asset_reference) });
        },
    };
    let m = &ledger.markets[mi].market;
    Ok(
        MarketResponse {
            ma_token_address: clone_bytes(&m.ma_token_address),
            borrow_index: m.borrow_index,
            liquidity_index: m.liquidity_index,
            borrow_rate: m.borrow_rate,
            liquidity_rate: m.liquidity_rate,
            max_loan_to_value: m.max_loan_to_value,
            indexes_last_updated: m.indexes_last_updated,
            debt_total_scaled: m.debt_total_scaled,
            asset_type: m.asset_type,
            maintenance_margin: m.maintenance_margin,
            liquidation_bonus: m.liquidation_bonus,
            reserve_factor: m.reserve_factor,
            interest_rate_strategy: m.interest_rate_strategy,
            active: m.active,
            deposit_enabled: m.deposit_enabled,
            borrow_enabled: m.borrow_enabled,
        },
    )
}

/// Every market's reference and ownership-token address, in storage order.
pub fn query_markets_list(ledger: &Ledger) -> (r: Vec<MarketInfo>)
    ensures
        r@.len() == ledger.markets@.len(),
        forall|k: int|
            0 <= k < r@.len() ==> #[trigger] r@[k].reference@ == ledger.markets@[k].reference@
                && r@[k].ma_token_address@ == ledger.markets@[k].market.ma_token_address@,
{
    let mut out: Vec<MarketInfo> = Vec::new();
    let n = ledger.markets.len();
    let mut i: usize = 0;
    while i < n
        invariant
            n == ledger.markets@.len(),
            i <= n,
            out@.len() == i,
            forall|k: int|
                0 <= k < i ==> #[trigger] out@[k].reference@ == ledger.markets@[k].reference@
                    && out@[k].ma_token_address@ == ledger.markets@[k].market.ma_token_address@,
        decreases n - i,
    {
        out.push(
            MarketInfo {
                reference: clone_bytes(&ledger.markets[i].reference),
                ma_token_address: clone_bytes(&ledger.markets[i].market.ma_token_address),
            },
        );
        i = i + 1;
    }
    out
}

/// The scaled debt a debt listing reports for the market at position `k`:
/// the stored record where the user's borrowed bit is set, zero elsewhere.
pub open spec fn spec_debt_info_amount(l: Ledger, address: Seq<u8>, k: int) -> u128 {
    let user = spec_user_or_default(l.users@, address);
    if spec_get_bit(user.borrowed_assets, l.markets@[k].market.index) {
        match crate::state::debt_of(l.debts@, l.markets@[k].reference@, address) {
            Some(d) => d.amount_scaled,
            None => 0,
        }
    } else {
        0
    }
}

/// The user's scaled debt per market, in storage order: the stored debt
/// where the borrowed bit is set, zero elsewhere. Fails only when a
/// market's ordinal does not fit the bitmask or a set bit has no record.
#[verifier::rlimit(100)]
#[verifier::spinoff_prover]
pub fn query_debt(ledger: &Ledger, address: &Vec<u8>) -> (r: Result<Vec<DebtInfo>, ContractError>)
    ensures
        ({
            let user = spec_user_or_default(ledger.users@, address@);
            forall|k: int|
                0 <= k < ledger.markets@.len() ==> (#[trigger] ledger.markets@[k].market.index
                    < 128 && (spec_get_bit(user.borrowed_assets, ledger.markets@[k].market.index)
                    ==> crate::state::debt_of(
                    ledger.debts@,
                    ledger.markets@[k].reference@,
                    address@,
                ) is Some))
        }) ==> r is Ok,
        r matches Ok(out) ==> {
            &&& out@.len() == ledger.markets@.len()
            &&& (forall|k: int|
                0 <= k < out@.len() ==> #[trigger] out@[k].reference@
                    == ledger.markets@[k].reference@ && out@[k].amount_scaled
                    == spec_debt_info_amount(*ledger, address@, k))
        },
{
    let user = user_position_or_default(&ledger.users, address);
    let mut out: Vec<DebtInfo> = Vec::new();
    let n = ledger.markets.len();
    let mut i: usize = 0;
    while i < n
        invariant
            n == ledger.markets@.len(),
            i <= n,
            out@.len() == i,
            user == spec_user_or_default(ledger.users@, address@),
            forall|k: int|
                0 <= k < i ==> #[trigger] out@[k].reference@ == ledger.markets@[k].reference@
                    && out@[k].amount_scaled == spec_debt_info_amount(*ledger, address@, k),
        decreases n - i,
    {
        let is_borrowing = match get_bit(user.borrowed_assets, ledger.markets[i].market.index) {
            Ok(b) => b,
            Err(e) => {
                return Err(e);
            },
        };
        let amount_scaled = if is_borrowing {
            match crate::state::debt_position(&ledger.debts, &ledger.markets[i].reference, address) {
                Some(di) => ledger.debts[di].debt.amount_scaled,
                None => {
                    return Err(ContractError::DebtNotFound);
                },
            }
        } else {
            0
        };
        proof {
            assert(amount_scaled == spec_debt_info_amount(*ledger, address@, i as int));
        }
        let ghost out_before = out@;
        out.push(
            DebtInfo { reference: clone_bytes(&ledger.markets[i].reference), amount_scaled },
        );
        proof {
            assert forall|k: int| 0 <= k < i + 1 implies #[trigger] out@[k].reference@
                == ledger.markets@[k].reference@ && out@[k].amount_scaled == spec_debt_info_amount(
                *ledger,
                address@,
                k,
            ) by {
                if k < i {
                    assert(out@[k] == out_before[k]);
                } else {
                    assert(out@.len() == i + 1);
                    assert(out@[k] == out@.last());
                    assert(out@.last().amount_scaled == amount_scaled);
                    assert(out@.last().reference@ == ledger.markets@[k].reference@);
                    assert(amount_scaled == spec_debt_info_amount(*ledger, address@, k));
                }
            }
        }
        i = i + 1;
    }
    Ok(out)
}

/// The user's collateral status per market, in storage order.
pub fn query_collateral(ledger: &Ledger, address: &Vec<u8>) -> (r: Result<
    Vec<CollateralInfo>,
    ContractError,
>)
    ensures
        (forall|k: int|
            0 <= k < ledger.markets@.len() ==> #[trigger] ledger.markets@[k].market.index < 128)
            ==> r is Ok,
        r matches Ok(out) ==> {
            let user = spec_user_or_default(ledger.users@, address@);
            &&& out@.len() == ledger.markets@.len()
            &&& (forall|k: int|
                0 <= k < out@.len() ==> #[trigger] out@[k].reference@
                    == ledger.markets@[k].reference@ && (ledger.markets@[k].market.index < 128
                    ==> out@[k].enabled == spec_get_bit(
                    user.collateral_assets,
                    ledger.markets@[k].market.index,
                )))
        },
{
    let user = user_position_or_default(&ledger.users, address);
    let mut out: Vec<CollateralInfo> = Vec::new();
    let n = ledger.markets.len();
    let mut i: usize = 0;
    while i < n
        invariant
            n == ledger.markets@.len(),
            i <= n,
            out@.len() == i,
            user == spec_user_or_default(ledger.users@, address@),
            forall|k: int|
                0 <= k < i ==> #[trigger] out@[k].reference@ == ledger.markets@[k].reference@ && (
                ledger.markets@[k].market.index < 128 ==> out@[k].enabled == spec_get_bit(
                    user.collateral_assets,
                    ledger.markets@[k].market.index,
                )),
        decreases n - i,
    {
        let enabled = match get_bit(user.collateral_assets, ledger.markets[i].market.index) {
            Ok(b) => b,
            Err(e) => {
                return Err(e);
            },
        };
        let ghost out_before = out@;
        out.push(
            CollateralInfo { reference: clone_bytes(&ledger.markets[i].reference), enabled },
        );
        proof {
            assert forall|k: int| 0 <= k < i + 1 implies #[trigger] out@[k].reference@
                == ledger.markets@[k].reference@ && (ledger.markets@[k].market.index < 128
                ==> out@[k].enabled == spec_get_bit(
                user.collateral_assets,
                ledger.markets@[k].market.index,
            )) by {
                if k < i {
                    assert(out@[k] == out_before[k]);
                }
            }
        }
        i = i + 1;
    }
    Ok(out)
}

/// The uncollateralized loan limit granted to the user for the asset; an
/// ungranted pair is reported as absent rather than zero.
pub fn query_uncollateralized_loan_limit(
    ledger: &Ledger,
    user_address: &Vec<u8>,
    asset_reference: &Vec<u8>,
) -> (r: Result<u128, ContractError>)
    ensures
        r == (match crate::state::limit_of(
            ledger.uncollateralized_loan_limits@,
            asset_reference@,
            user_address@,
        ) {
            Some(v) => Result::<u128, ContractError>::Ok(v),
            None => Result::<u128, ContractError>::Err(ContractError::DebtNotFound),
        }),
{
    match crate::state::limit_position(
        &ledger.uncollateralized_loan_limits,
        asset_reference,
        user_address,
    ) {
        Some(li) => Ok(ledger.uncollateralized_loan_limits[li].limit),
        None => Err(ContractError::DebtNotFound),
    }
}

/// The scaled form of a liquidity amount in the market, at its liquidity
/// index projected to the query time.
pub fn query_scaled_liquidity_amount(
    ledger: &Ledger,
    block_time: u64,
    asset_reference: &Vec<u8>,
    amount: u128,
) -> (r: Result<u128, ContractError>)
    ensures
        find_market_rec(ledger.markets@, asset_reference@) is None ==> r is Err,
        find_market_rec(ledger.markets@, asset_reference@) matches Some(mi) ==> {
            let m = ledger.markets@[mi].market;
            block_time >= m.indexes_last_updated
                && crate::interest_rates::spec_updated_liquidity_index_fits(m, block_time as int)
                && crate::interest_rates::spec_scale_fits(
                amount as int,
                crate::interest_rates::spec_updated_liquidity_index(m, block_time as int),
                crate::interest_rates::ScalingOperation::Truncate,
            ) ==> r == Result::<u128, ContractError>::Ok(
                crate::interest_rates::spec_scale_truncate(
                    amount as int,
                    crate::interest_rates::spec_updated_liquidity_index(m, block_time as int),
                ) as u128,
            )
        },
{
    let mi = match market_position(&ledger.markets, asset_reference) {
        Some(i) => i,
        None => {
            return Err(ContractError::MarketNotFound { reference: clone_bytes(asset_reference) });
        },
    };
    crate::interest_rates::get_scaled_liquidity_amount(
        amount,
        &ledger.markets[mi].market,
        block_time,
    )
}

/// The scaled form of a debt amount in the market, at its borrow index
/// projected to the query time.
pub fn query_scaled_debt_amount(
    ledger: &Ledger,
    block_time: u64,
    asset_reference: &Vec<u8>,
    amount: u128,
) -> (r: Result<u128, ContractError>)
    ensures
        find_market_rec(ledger.markets@, asset_reference@) is None ==> r is Err,
        find_market_rec(ledger.markets@, asset_reference@) matches Some(mi) ==> {
            let m = ledger.markets@[mi].market;
            crate::interest_rates::spec_updated_borrow_index_fits(m, block_time as int)
                && crate::interest_rates::spec_scale_fits(
                amount as int,
                crate::interest_rates::spec_updated_borrow_index(m, block_time as int),
                crate::interest_rates::ScalingOperation::Ceil,
            ) ==> r == Result::<u128, ContractError>::Ok(
                crate::interest_rates::spec_scale_ceil(
                    amount as int,
                    crate::interest_rates::spec_updated_borrow_index(m, block_time as int),
                ) as u128,
            )
        },
{
    let mi = match market_position(&ledger.markets, asset_reference) {
        Some(i) => i,
        None => {
            return Err(ContractError::MarketNotFound { reference: clone_bytes(asset_reference) });
        },
    };
    crate::error::lift_math(
        crate::interest_rates::get_scaled_debt_amount(
            amount,
            &ledger.markets[mi].market,
            block_time,
        ),
    )
}

/// The underlying form of a scaled liquidity amount of the market keyed to
/// the calling ownership token, at the projected liquidity index.
pub fn query_descaled_liquidity_amount(
    ledger: &Ledger,
    block_time: u64,
    ma_token_address: &Vec<u8>,
    amount_scaled: u128,
) -> (r: Result<u128, ContractError>)
    ensures
        find_market_by_ma_token(ledger.markets@, ma_token_address@) is None ==> r is Err,
        find_market_by_ma_token(ledger.markets@, ma_token_address@) matches Some(mi) ==> {
            let m = ledger.markets@[mi].market;
            block_time >= m.indexes_last_updated
                && crate::interest_rates::spec_updated_liquidity_index_fits(m, block_time as int)
                && crate::interest_rates::spec_descale_fits(
                amount_scaled as int,
                crate::interest_rates::spec_updated_liquidity_index(m, block_time as int),
            ) ==> r == Result::<u128, ContractError>::Ok(
                crate::interest_rates::spec_descale_truncate(
                    amount_scaled as int,
                    crate::interest_rates::spec_updated_liquidity_index(m, block_time as int),
                ) as u128,
            )
        },
{
    let mi = match market_position_by_ma_token(&ledger.markets, ma_token_address) {
        Some(i) => i,
        None => {
            return Err(
                ContractError::MaTokenNotFound { ma_token_address: clone_bytes(ma_token_address) },
            );
        },
    };
    crate::interest_rates::get_underlying_liquidity_amount(
        amount_scaled,
        &ledger.markets[mi].market,
        block_time,
    )
}

/// The user's full position; the user must have a stored record.
pub fn query_user_position(
    ledger: &Ledger,
    block_time: u64,
    address: &Vec<u8>,
    market_data: &Vec<crate::accounts::UserMarketData>,
) -> (r: Result<crate::accounts::UserPosition, ContractError>)
    requires
        market_data@.len() >= ledger.money_market.market_count,
    ensures
        crate::state::find_user_rec(ledger.users@, address@) is None ==> r == Result::<
            crate::accounts::UserPosition,
            ContractError,
        >::Err(ContractError::UserNotFound),
        crate::state::user_of(ledger.users@, address@) matches Some(user) ==> {
            &&& (r is Ok <==> crate::accounts::spec_user_position(
                *ledger,
                address@,
                user,
                market_data@,
                block_time as int,
            ) is Some)
            &&& (r matches Ok(p) ==> (crate::accounts::spec_user_position(
                *ledger,
                address@,
                user,
                market_data@,
                block_time as int,
            ) matches Some(sp) && {
                &&& p.total_collateral_in_uusd == sp.0.total_collateral
                &&& p.total_debt_in_uusd == sp.0.total_debt
                &&& p.total_collateralized_debt_in_uusd == sp.0.total_collateralized_debt
                &&& p.max_debt_in_uusd == sp.0.max_debt
                &&& p.weighted_maintenance_margin_in_uusd == sp.0.weighted_maintenance_margin
                &&& p.health_status == (match sp.1 {
                    Some(hf) => crate::accounts::UserHealthStatus::Borrowing(Decimal(hf as u128)),
                    None => crate::accounts::UserHealthStatus::NotBorrowing,
                })
            }))
        },
{
    let user = match crate::state::user_position(&ledger.users, address) {
        Some(ui) => ledger.users[ui].user,
        None => {
            return Err(ContractError::UserNotFound);
        },
    };
    crate::accounts::get_user_position(ledger, block_time, address, &user, market_data)
}

/// The asset reference recorded for a market ordinal, with the market's
/// position in the store.
pub fn market_get_from_index(ledger: &Ledger, index: u32) -> (r: Result<
    (Vec<u8>, usize),
    ContractError,
>)
    ensures
        r matches Ok(out) ==> (index as int) < ledger.market_references_by_index@.len()
            && out.0@ == ledger.market_references_by_index@[index as int].reference@
            && find_market_rec(ledger.markets@, out.0@) == Some(out.1 as int),
        (index as int) >= ledger.market_references_by_index@.len() ==> r == Result::<
            (Vec<u8>, usize),
            ContractError,
        >::Err(ContractError::MarketIndexNotFound { index: index }),
        (index as int) < ledger.market_references_by_index@.len() && find_market_rec(
            ledger.markets@,
            ledger.market_references_by_index@[index as int].reference@,
        ) is Some ==> r is Ok,
        (index as int) < ledger.market_references_by_index@.len() && find_market_rec(
            ledger.markets@,
            ledger.market_references_by_index@[index as int].reference@,
        ) is None ==> (r matches Err(ContractError::MarketNotFound { reference }) && reference@
            == ledger.market_references_by_index@[index as int].reference@),
{
    if (index as usize) >= ledger.market_references_by_index.len() {
        return Err(ContractError::MarketIndexNotFound { index });
    }
    let reference = &ledger.market_references_by_index[index as usize].reference;
    match market_position(&ledger.markets, reference) {
        Some(mi) => Ok((clone_bytes(reference), mi)),
        None => Err(ContractError::MarketNotFound { reference: clone_bytes(reference) }),
    }
}

} // verus!
