//! The queries over decimal text: every amount, price and time comes in as
//! the decimal digits of a scaled integer, and the answer goes out the same
//! way.
use vstd::prelude::*;
use crate::fees::{
    close_curve_fee_outcome, close_flat_fee_outcome, open_curve_fee_outcome,
    open_governance_fee_outcome,
};
use crate::fixed::{FixedPoint, ShortError};
use crate::curve::{chained, spot_price_outcome};
use crate::open::{open_short_outcome, spot_price_after_short_outcome};
use crate::state::{time_remaining_outcome, PoolConfig, PoolInfo, State};
use crate::wide::{
    dec_value, is_canonical_decimal, lemma_canonical_decimal_unique, readable, u256_to_string,
};

verus! {

/// What a query gave, with the text taken as the number that it writes.
pub open spec fn written(r: Result<String, ShortError>) -> Result<nat, ShortError> {
    match r {
        Ok(text) => Ok(dec_value(text@)),
        Err(e) => Err(e),
    }
}

/// Two answers in shortest decimal text that write the same outcome are the
/// same answer, character for character: what a query whose contract fixes
/// the written outcome returns depends on its arguments alone.
pub proof fn lemma_written_determines_answer(
    first: Result<String, ShortError>,
    second: Result<String, ShortError>,
)
    requires
        written(first) == written(second),
        first.is_ok() ==> is_canonical_decimal(first.unwrap()@),
        second.is_ok() ==> is_canonical_decimal(second.unwrap()@),
    ensures
        match (first, second) {
            (Ok(a), Ok(b)) => a@ == b@,
            (Err(a), Err(b)) => a == b,
            _ => false,
        },
{
    match (first, second) {
        (Ok(a), Ok(b)) => {
            lemma_canonical_decimal_unique(a@, b@);
        },
        _ => {},
    }
}

/// The pool's spot price.
pub open spec fn pool_spot_price(info: &PoolInfo, config: &PoolConfig) -> Result<nat, ShortError> {
    spot_price_outcome(
        config.initial_vault_share_price@,
        info.share_reserves@,
        info.bond_reserves@,
        config.time_stretch@,
    )
}

/// The curve fee that the trader pays to open a short of `bondAmount` bonds
/// at the pool's spot price.
#[allow(non_snake_case)]
pub fn getOpenShortCurveFee(poolInfo: &PoolInfo, poolConfig: &PoolConfig, bondAmount: &str) -> (r:
    Result<String, ShortError>)
    ensures
        r.is_ok() ==> is_canonical_decimal(r.unwrap()@),
        written(r) == if !readable(bondAmount@) {
            Err::<nat, ShortError>(ShortError::InputParse)
        } else {
            chained(
                pool_spot_price(poolInfo, poolConfig),
                |spot: nat| open_curve_fee_outcome(poolConfig.curve_fee@, dec_value(bondAmount@), spot),
            )
        },
{
    let bond_amount = FixedPoint::parse(bondAmount)?;
    let state = State { config: *poolConfig, info: *poolInfo };
    let spot_price = state.calculate_spot_price()?;
    let fee = state.open_short_curve_fee(bond_amount, spot_price)?;
    Ok(u256_to_string(fee.raw))
}

/// The governance fee that the trader pays to open a short of `bondAmount`
/// bonds at the pool's spot price.
#[allow(non_snake_case)]
pub fn getOpenShortGovernanceFee(
    poolInfo: &PoolInfo,
    poolConfig: &PoolConfig,
    bondAmount: &str,
) -> (r: Result<String, ShortError>)
    ensures
        r.is_ok() ==> is_canonical_decimal(r.unwrap()@),
        written(r) == if !readable(bondAmount@) {
            Err::<nat, ShortError>(ShortError::InputParse)
        } else {
            chained(
                pool_spot_price(poolInfo, poolConfig),
                |spot: nat|
                    open_governance_fee_outcome(
                        poolConfig.curve_fee@,
                        poolConfig.governance_lp_fee@,
                        dec_value(bondAmount@),
                        spot,
                    ),
            )
        },
{
    let bond_amount = FixedPoint::parse(bondAmount)?;
    let state = State { config: *poolConfig, info: *poolInfo };
    let spot_price = state.calculate_spot_price()?;
    let fee = state.open_short_governance_fee(bond_amount, spot_price)?;
    Ok(u256_to_string(fee.raw))
}

/// The curve fee that the trader pays to close a short of `bondAmount` bonds
/// that matures at `maturityTime`, at `currentTime` (both in seconds) and at
/// the pool's spot price.
#[allow(non_snake_case)]
pub fn getCloseShortCurveFee(
    poolInfo: &PoolInfo,
    poolConfig: &PoolConfig,
    bondAmount: &str,
    maturityTime: &str,
    currentTime: &str,
) -> (r: Result<String, ShortError>)
    ensures
        r.is_ok() ==> is_canonical_decimal(r.unwrap()@),
        written(r) == if !(readable(bondAmount@) && readable(maturityTime@) && readable(
            currentTime@,
        )) {
            Err::<nat, ShortError>(ShortError::InputParse)
        } else {
            chained(
                time_remaining_outcome(
                    dec_value(currentTime@),
                    dec_value(maturityTime@),
                    poolConfig.position_duration@,
                ),
                |remaining: nat|
                    chained(
                        pool_spot_price(poolInfo, poolConfig),
                        |spot: nat|
                            close_curve_fee_outcome(
                                poolConfig.curve_fee@,
                                dec_value(bondAmount@),
                                spot,
                                remaining,
                            ),
                    ),
            )
        },
{
    let bond_amount = FixedPoint::parse(bondAmount)?;
    let maturity_time = FixedPoint::parse(maturityTime)?;
    let current_time = FixedPoint::parse(currentTime)?;
    let state = State { config: *poolConfig, info: *poolInfo };
    let remaining = state.time_remaining_scaled(current_time.raw, maturity_time.raw)?;
    let fee = state.close_short_curve_fee(bond_amount, remaining)?;
    Ok(u256_to_string(fee.raw))
}

/// The flat fee that the trader pays to close a short of `bondAmount` bonds
/// that matures at `maturityTime`, at `currentTime` (both in seconds).
#[allow(non_snake_case)]
pub fn getCloseShortFlatFee(
    poolInfo: &PoolInfo,
    poolConfig: &PoolConfig,
    bondAmount: &str,
    maturityTime: &str,
    currentTime: &str,
) -> (r: Result<String, ShortError>)
    ensures
        r.is_ok() ==> is_canonical_decimal(r.unwrap()@),
        written(r) == if !(readable(bondAmount@) && readable(maturityTime@) && readable(
            currentTime@,
        )) {
            Err::<nat, ShortError>(ShortError::InputParse)
        } else {
            chained(
                time_remaining_outcome(
                    dec_value(currentTime@),
                    dec_value(maturityTime@),
                    poolConfig.position_duration@,
                ),
                |remaining: nat|
                    close_flat_fee_outcome(
                        poolConfig.flat_fee@,
                        dec_value(bondAmount@),
                        remaining,
                    ),
            )
        },
{
    let bond_amount = FixedPoint::parse(bondAmount)?;
    let maturity_time = FixedPoint::parse(maturityTime)?;
    let current_time = FixedPoint::parse(currentTime)?;
    let state = State { config: *poolConfig, info: *poolInfo };
    let remaining = state.time_remaining_scaled(current_time.raw, maturity_time.raw)?;
    let fee = state.close_short_flat_fee(bond_amount, remaining)?;
    Ok(u256_to_string(fee.raw))
}

/// The base that the trader deposits to open a short of `bondAmount` bonds
/// in a checkpoint that opened at the vault share price
/// `openVaultSharePrice`.
#[allow(non_snake_case)]
pub fn calcOpenShort(
    poolInfo: &PoolInfo,
    poolConfig: &PoolConfig,
    bondAmount: &str,
    openVaultSharePrice: &str,
) -> (r: Result<String, ShortError>)
    ensures
        r.is_ok() ==> is_canonical_decimal(r.unwrap()@),
        written(r) == if !(readable(bondAmount@) && readable(openVaultSharePrice@)) {
            Err::<nat, ShortError>(ShortError::InputParse)
        } else {
            open_short_outcome(
                (State { config: *poolConfig, info: *poolInfo }),
                dec_value(bondAmount@),
                dec_value(openVaultSharePrice@),
            )
        },
{
    let bond_amount = FixedPoint::parse(bondAmount)?;
    let open_vault_share_price = FixedPoint::parse(openVaultSharePrice)?;
    let state = State { config: *poolConfig, info: *poolInfo };
    let deposit = state.calculate_open_short(bond_amount, open_vault_share_price)?;
    Ok(u256_to_string(deposit.raw))
}

/// The spot price once a short of `bondAmount` bonds has been traded on the
/// curve, before any fee. The price does not depend on
/// `openVaultSharePrice`, which is read all the same.
#[allow(non_snake_case)]
pub fn spotPriceAfterShort(
    poolInfo: &PoolInfo,
    poolConfig: &PoolConfig,
    bondAmount: &str,
    openVaultSharePrice: &str,
) -> (r: Result<String, ShortError>)
    ensures
        r.is_ok() ==> is_canonical_decimal(r.unwrap()@),
        written(r) == if !(readable(bondAmount@) && readable(openVaultSharePrice@)) {
            Err::<nat, ShortError>(ShortError::InputParse)
        } else {
            spot_price_after_short_outcome(
                (State { config: *poolConfig, info: *poolInfo }),
                dec_value(bondAmount@),
            )
        },
{
    let bond_amount = FixedPoint::parse(bondAmount)?;
    let _open_vault_share_price = FixedPoint::parse(openVaultSharePrice)?;
    let state = State { config: *poolConfig, info: *poolInfo };
    let price = state.calculate_spot_price_after_short(bond_amount)?;
    Ok(u256_to_string(price.raw))
}

} // verus!
