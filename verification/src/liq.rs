//! Liquidation price and the settlement payout with its insolvency waiver.
//!
//! The formulas consume already-computed rollover and funding fees; time
//! enters only through those fees.

use vstd::prelude::*;

use crate::arith::{fits_i128, floor_div, lemma_floor_div_monotonic, lemma_trunc_div_monotonic, mul_div_floor, trunc_div, MathError};
use crate::scale::P_SCALE;

verus! {

/// `collateral * liq_threshold_p / 100 - rollover_fee - funding_fee`: the part
/// of the collateral that may be lost before liquidation.
pub open spec fn liq_numerator(collateral: int, liq_threshold_p: int, rollover_fee: int, funding_fee: int) -> int {
    trunc_div(collateral * liq_threshold_p, 100) - rollover_fee - funding_fee
}

/// Every intermediate value before the division by `collateral` fits in `i128`.
pub open spec fn liq_numerator_fits(collateral: int, liq_threshold_p: int, rollover_fee: int, funding_fee: int) -> bool {
    &&& fits_i128(collateral * liq_threshold_p)
    &&& fits_i128(trunc_div(collateral * liq_threshold_p, 100) - rollover_fee)
    &&& fits_i128(liq_numerator(collateral, liq_threshold_p, rollover_fee, funding_fee))
}

/// The one input on which the liquidation computation cannot complete: a collateral
/// of `-1` with `open_price * numerator == i128::MIN`.
pub open spec fn liq_traps(open: int, collateral: int, leverage: int, liq_threshold_p: int, rollover_fee: int, funding_fee: int) -> bool {
    &&& collateral == -1
    &&& leverage != 0
    &&& liq_numerator_fits(collateral, liq_threshold_p, rollover_fee, funding_fee)
    &&& open * liq_numerator(collateral, liq_threshold_p, rollover_fee, funding_fee) == i128::MIN
}

/// The liquidation price:
/// `distance = trunc(floor(open * numerator / collateral) / leverage)`,
/// `liq = open - distance` for longs and `open + distance` for shorts, floored at 0.
pub open spec fn liquidation_price_spec(
    open: int, is_long: bool, collateral: int, leverage: int, rollover_fee: int, funding_fee: int, liq_threshold_p: int,
) -> Result<i128, MathError> {
    let numer = liq_numerator(collateral, liq_threshold_p, rollover_fee, funding_fee);
    let distance = trunc_div(floor_div(open * numer, collateral), leverage);
    let liq = if is_long { open - distance } else { open + distance };
    if collateral == 0 || leverage == 0 {
        Err(MathError::DivByZero)
    } else if !liq_numerator_fits(collateral, liq_threshold_p, rollover_fee, funding_fee)
        || !fits_i128(open * numer) || !fits_i128(liq) {
        Err(MathError::Overflow)
    } else {
        Ok(if liq > 0 { liq as i128 } else { 0 })
    }
}

/// Liquidation price at `PRICE_SCALE`, floored at zero. `liq_threshold_p` is an
/// integer percent (e.g. 90); USDC inputs are at `USDC_SCALE`.
pub fn liquidation_price(
    open_price: i128,
    is_long: bool,
    collateral: i128,
    leverage: u32,
    rollover_fee: i128,
    funding_fee: i128,
    liq_threshold_p: u32,
) -> (r: Result<i128, MathError>)
    requires
        !liq_traps(
            open_price as int,
            collateral as int,
            leverage as int,
            liq_threshold_p as int,
            rollover_fee as int,
            funding_fee as int,
        ),
    ensures
        r == liquidation_price_spec(
            open_price as int,
            is_long,
            collateral as int,
            leverage as int,
            rollover_fee as int,
            funding_fee as int,
            liq_threshold_p as int,
        ),
{
    if collateral == 0 {
        return Err(MathError::DivByZero);
    }
    if leverage == 0 {
        return Err(MathError::DivByZero);
    }

    let collateral_threshold = collateral
        .checked_mul(liq_threshold_p as i128)
        .ok_or(MathError::Overflow)?
        / 100;

    let numer_inner = collateral_threshold
        .checked_sub(rollover_fee)
        .ok_or(MathError::Overflow)?
        .checked_sub(funding_fee)
        .ok_or(MathError::Overflow)?;

    let stage = mul_div_floor(open_price, numer_inner, collateral)?;
    let distance = stage / leverage as i128;

    let liq = if is_long {
        open_price.checked_sub(distance).ok_or(MathError::Overflow)?
    } else {
        open_price.checked_add(distance).ok_or(MathError::Overflow)?
    };
    Ok(if liq > 0 { liq } else { 0 })
}

/// Whether `observed_price` has crossed the liquidation price for this side
/// (a zero liquidation price never triggers).
pub open spec fn liquidatable_spec(observed_price: int, liq_price: int, is_long: bool) -> bool {
    liq_price != 0 && if is_long { observed_price <= liq_price } else { observed_price >= liq_price }
}

/// Whether `observed_price` has crossed the liquidation threshold for this side.
pub fn is_liquidatable(observed_price: i128, liq_price: i128, is_long: bool) -> (r: bool)
    ensures
        r == liquidatable_spec(observed_price as int, liq_price as int, is_long),
{
    if liq_price == 0 {
        return false;
    }
    if is_long { observed_price <= liq_price } else { observed_price >= liq_price }
}

/// The PnL amount `trunc(floor(collateral * pnl_p / P_SCALE) / 100)`.
pub open spec fn pnl_amount(collateral: int, pnl_p: int) -> int {
    trunc_div(floor_div(collateral * pnl_p, P_SCALE as int), 100)
}

/// The trade's value before the close fee: collateral + PnL - rollover - funding.
pub open spec fn value_before_close_fee(collateral: int, pnl_p: int, rollover_fee: int, funding_fee: int) -> int {
    collateral + pnl_amount(collateral, pnl_p) - rollover_fee - funding_fee
}

/// The insolvency cutoff `trunc(collateral * max(100 - liq_threshold_p, 0) / 100)`.
pub open spec fn insolvency_cutoff(collateral: int, liq_threshold_p: int) -> int {
    trunc_div(collateral * (if liq_threshold_p <= 100 { 100 - liq_threshold_p } else { 0 }), 100)
}

/// Every intermediate value of the settlement fits in `i128`.
pub open spec fn settlement_fits(collateral: int, pnl_p: int, rollover_fee: int, funding_fee: int, liq_threshold_p: int) -> bool {
    &&& fits_i128(collateral * pnl_p)
    &&& fits_i128(collateral + pnl_amount(collateral, pnl_p))
    &&& fits_i128(collateral + pnl_amount(collateral, pnl_p) - rollover_fee)
    &&& fits_i128(value_before_close_fee(collateral, pnl_p, rollover_fee, funding_fee))
    &&& fits_i128(collateral * (if liq_threshold_p <= 100 { 100 - liq_threshold_p } else { 0 }))
}

/// `(gross_payout, close_fee_charged)`: nothing at or below the insolvency
/// cutoff (the close fee is waived), otherwise the value net of the close fee,
/// floored at zero, with the close fee charged.
pub open spec fn settlement_spec(
    collateral: int, pnl_p: int, rollover_fee: int, funding_fee: int, close_fee: int, liq_threshold_p: int,
) -> Result<(i128, i128), MathError> {
    let value = value_before_close_fee(collateral, pnl_p, rollover_fee, funding_fee);
    if collateral <= 0 {
        Err(MathError::DivByZero)
    } else if !settlement_fits(collateral, pnl_p, rollover_fee, funding_fee, liq_threshold_p) {
        Err(MathError::Overflow)
    } else if value <= insolvency_cutoff(collateral, liq_threshold_p) {
        Ok((0, 0))
    } else if !fits_i128(value - close_fee) {
        Err(MathError::Overflow)
    } else {
        Ok(((if value - close_fee > 0 { value - close_fee } else { 0 }) as i128, close_fee as i128))
    }
}

/// Payout decision with insolvency waiver. `collateral` is the effective
/// collateral (net of the open fee), `pnl_p_at_p_scale_times_100` the signed PnL
/// percentage at `P_SCALE * 100`, the fees USDC amounts and `liq_threshold_p`
/// an integer percent.
pub fn settlement_payout(
    collateral: i128,
    pnl_p_at_p_scale_times_100: i128,
    rollover_fee: i128,
    funding_fee: i128,
    close_fee: i128,
    liq_threshold_p: u32,
) -> (r: Result<(i128, i128), MathError>)
    ensures
        r == settlement_spec(
            collateral as int,
            pnl_p_at_p_scale_times_100 as int,
            rollover_fee as int,
            funding_fee as int,
            close_fee as int,
            liq_threshold_p as int,
        ),
{
    if collateral <= 0 {
        return Err(MathError::DivByZero);
    }
    let stage = mul_div_floor(collateral, pnl_p_at_p_scale_times_100, P_SCALE)?;
    let pnl_amount = stage / 100;

    let value_before_close_fee = collateral
        .checked_add(pnl_amount).ok_or(MathError::Overflow)?
        .checked_sub(rollover_fee).ok_or(MathError::Overflow)?
        .checked_sub(funding_fee).ok_or(MathError::Overflow)?;

    let liq_remainder_p = (100u32).saturating_sub(liq_threshold_p) as i128;
    let cutoff = collateral
        .checked_mul(liq_remainder_p).ok_or(MathError::Overflow)?
        / 100;

    if value_before_close_fee <= cutoff {
        return Ok((0, 0));
    }

    let net = value_before_close_fee.checked_sub(close_fee).ok_or(MathError::Overflow)?;
    let gross_payout = if net > 0 { net } else { 0 };
    Ok((gross_payout, close_fee))
}

/// Whether `liquidation_price` would trap on these inputs (see [`liq_traps`]).
pub fn liquidation_traps(
    open_price: i128,
    collateral: i128,
    leverage: u32,
    liq_threshold_p: u32,
    rollover_fee: i128,
    funding_fee: i128,
) -> (r: bool)
    ensures
        r == liq_traps(open_price as int, collateral as int, leverage as int, liq_threshold_p as int, rollover_fee as int, funding_fee as int),
{
    if collateral != -1 || leverage == 0 {
        return false;
    }
    let scaled = match collateral.checked_mul(liq_threshold_p as i128) {
        Some(v) => v,
        None => return false,
    };
    let threshold = scaled / 100;
    let after_rollover = match threshold.checked_sub(rollover_fee) {
        Some(v) => v,
        None => return false,
    };
    let numer = match after_rollover.checked_sub(funding_fee) {
        Some(v) => v,
        None => return false,
    };
    match open_price.checked_mul(numer) {
        Some(p) => p == i128::MIN,
        None => false,
    }
}

// ───────────────────────────── laws ─────────────────────────────

/// Accrued fees bring the liquidation price toward the open price: with more
/// rollover plus funding owed, a long's liquidation price does not fall and a
/// short's does not rise.
pub proof fn lemma_fees_tighten_liquidation(
    open: i128, is_long: bool, collateral: i128, leverage: u32, liq_threshold_p: u32,
    rollover_lo: i128, funding_lo: i128, rollover_hi: i128, funding_hi: i128,
)
    requires
        open >= 0,
        collateral > 0,
        leverage >= 1,
        rollover_lo + funding_lo <= rollover_hi + funding_hi,
    ensures
        liquidation_price_spec(open as int, is_long, collateral as int, leverage as int, rollover_lo as int, funding_lo as int, liq_threshold_p as int)
            matches Ok(lo)
        ==> liquidation_price_spec(open as int, is_long, collateral as int, leverage as int, rollover_hi as int, funding_hi as int, liq_threshold_p as int)
            matches Ok(hi)
        ==> (if is_long { lo <= hi } else { hi <= lo }),
{
    let n_lo = liq_numerator(collateral as int, liq_threshold_p as int, rollover_lo as int, funding_lo as int);
    let n_hi = liq_numerator(collateral as int, liq_threshold_p as int, rollover_hi as int, funding_hi as int);
    assert(n_hi <= n_lo);
    assert(open * n_hi <= open * n_lo) by (nonlinear_arith)
        requires
            open >= 0,
            n_hi <= n_lo,
    ;
    lemma_floor_div_monotonic(open * n_hi, open * n_lo, collateral as int);
    lemma_trunc_div_monotonic(
        floor_div(open * n_hi, collateral as int),
        floor_div(open * n_lo, collateral as int),
        leverage as int,
    );
}

/// Settlement never pays out more than the trade is worth: the payout is never
/// negative, an insolvent trade gets nothing and is charged nothing, and when the
/// close fee is charged and covered by the trade's value, payout plus fee equal
/// that value exactly.
pub proof fn lemma_settlement_conserves_value(
    collateral: i128, pnl_p: i128, rollover_fee: i128, funding_fee: i128, close_fee: i128, liq_threshold_p: u32,
)
    ensures
        settlement_spec(collateral as int, pnl_p as int, rollover_fee as int, funding_fee as int, close_fee as int, liq_threshold_p as int)
            matches Ok((payout, charged)) ==> {
            let value = value_before_close_fee(collateral as int, pnl_p as int, rollover_fee as int, funding_fee as int);
            &&& payout >= 0
            &&& value <= insolvency_cutoff(collateral as int, liq_threshold_p as int) ==> payout == 0 && charged == 0
            &&& value > insolvency_cutoff(collateral as int, liq_threshold_p as int) ==> charged == close_fee
            &&& (value > insolvency_cutoff(collateral as int, liq_threshold_p as int) && close_fee <= value) ==> payout + charged == value
        },
{
}

} // verus!
