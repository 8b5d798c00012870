//! Funding and rollover accumulators, per-trade fees, price impact, spread and
//! signed PnL percentage.
//!
//! Every `a * b / d` step is a checked multiply followed by a floor division
//! ([`mul_div_floor`]); every addition and subtraction is checked. Each
//! function's contract gives its exact result over mathematical integers, and
//! `Err(Overflow)` exactly when one of the intermediate values it names leaves
//! the `i128` range.

use vstd::prelude::*;
use vstd::arithmetic::div_mod::{lemma_div_pos_is_pos, lemma_div_is_ordered};
use vstd::arithmetic::mul::lemma_mul_nonnegative;

use crate::arith::{fits_i128, floor_div, mul_div_floor, mul_div_floor_spec, mul_div_floor_traps, trunc_div, MathError};
use crate::scale::P_SCALE;

verus! {

// ───────────────────────────── rollover ─────────────────────────────

/// The rollover accumulator after `delta` ledgers:
/// `acc + floor(delta * (rate * scale) / (P_SCALE * 100))`.
pub open spec fn rollover_acc_spec(acc: int, delta: int, rate: int, scale: int) -> Result<i128, MathError> {
    if delta == 0 || rate == 0 {
        Ok(acc as i128)
    } else if !fits_i128(rate * scale) || !fits_i128(delta * (rate * scale)) {
        Err(MathError::Overflow)
    } else if !fits_i128(acc + floor_div(delta * (rate * scale), P_SCALE * 100)) {
        Err(MathError::Overflow)
    } else {
        Ok((acc + floor_div(delta * (rate * scale), P_SCALE * 100)) as i128)
    }
}

/// Advances the per-collateral rollover accumulator by `delta_ledgers` ledgers
/// at `rollover_fee_per_ledger_p` (at `P_SCALE`):
/// `acc' = acc + delta * rate * usdc_scale / P_SCALE / 100`, floored, with the
/// rate scaled up before dividing so that small rates are not lost.
pub fn pending_acc_rollover(
    acc_per_collateral: i128,
    delta_ledgers: u64,
    rollover_fee_per_ledger_p: i128,
    usdc_scale: i128,
) -> (r: Result<i128, MathError>)
    ensures
        r == rollover_acc_spec(
            acc_per_collateral as int,
            delta_ledgers as int,
            rollover_fee_per_ledger_p as int,
            usdc_scale as int,
        ),
{
    if delta_ledgers == 0 || rollover_fee_per_ledger_p == 0 {
        return Ok(acc_per_collateral);
    }
    let delta = delta_ledgers as i128;
    let num = rollover_fee_per_ledger_p.checked_mul(usdc_scale).ok_or(MathError::Overflow)?;
    let denom = P_SCALE.checked_mul(100).ok_or(MathError::Overflow)?;
    let increment = mul_div_floor(delta, num, denom)?;
    acc_per_collateral.checked_add(increment).ok_or(MathError::Overflow)
}

/// What a trade owes in rollover: `floor((acc_now - acc_open) * collateral / scale)`.
pub open spec fn rollover_fee_spec(acc_open: int, acc_now: int, collateral: int, scale: int) -> Result<i128, MathError> {
    if !fits_i128(acc_now - acc_open) {
        Err(MathError::Overflow)
    } else if acc_now - acc_open == 0 {
        Ok(0)
    } else {
        mul_div_floor_spec(acc_now - acc_open, collateral, scale)
    }
}

/// Per-trade rollover fee in USDC:
/// `fee = (acc_now - acc_open) * collateral / usdc_scale`, floored.
pub fn rollover_fee_for_trade(
    acc_open: i128,
    acc_now: i128,
    collateral: i128,
    usdc_scale: i128,
) -> (r: Result<i128, MathError>)
    requires
        fits_i128(acc_now - acc_open) ==> !mul_div_floor_traps(acc_now - acc_open, collateral as int, usdc_scale as int),
    ensures
        r == rollover_fee_spec(acc_open as int, acc_now as int, collateral as int, usdc_scale as int),
{
    let delta = acc_now.checked_sub(acc_open).ok_or(MathError::Overflow)?;
    if delta == 0 {
        return Ok(0);
    }
    mul_div_floor(delta, collateral, usdc_scale)
}

// ───────────────────────────── funding ─────────────────────────────

/// What the longs pay over `delta` ledgers:
/// `floor((oi_long - oi_short) * delta * rate / (P_SCALE * 100))`.
pub open spec fn paid_by_longs(oi_long: int, oi_short: int, delta: int, rate: int) -> int {
    floor_div(((oi_long - oi_short) * delta) * rate, P_SCALE * 100)
}

/// The long accumulator's increment (the short one is `scale`-identical over `oi_short`).
pub open spec fn funding_increment(paid: int, scale: int, oi: int) -> int {
    floor_div(paid * scale, oi)
}

/// Every intermediate value of the funding update fits in `i128`.
pub open spec fn funding_fits(
    acc_long: int, acc_short: int, oi_long: int, oi_short: int, delta: int, rate: int, scale: int,
) -> bool {
    let paid = paid_by_longs(oi_long, oi_short, delta, rate);
    &&& fits_i128(oi_long - oi_short)
    &&& fits_i128((oi_long - oi_short) * delta)
    &&& fits_i128(((oi_long - oi_short) * delta) * rate)
    &&& (oi_long > 0 || oi_short > 0) ==> fits_i128(paid * scale)
    &&& oi_long > 0 ==> fits_i128(acc_long + funding_increment(paid, scale, oi_long))
    &&& oi_short > 0 ==> fits_i128(acc_short - funding_increment(paid, scale, oi_short))
}

/// The funding accumulators after `delta` ledgers: the longs' accumulator rises by
/// what they pay per unit of long OI, the shorts' falls by the same amount per
/// unit of short OI; a side without OI keeps its accumulator.
pub open spec fn funding_accs_spec(
    acc_long: int, acc_short: int, oi_long: int, oi_short: int, delta: int, rate: int, scale: int,
) -> Result<(i128, i128), MathError> {
    let paid = paid_by_longs(oi_long, oi_short, delta, rate);
    if delta == 0 || rate == 0 {
        Ok((acc_long as i128, acc_short as i128))
    } else if !funding_fits(acc_long, acc_short, oi_long, oi_short, delta, rate, scale) {
        Err(MathError::Overflow)
    } else {
        Ok((
            (if oi_long > 0 { acc_long + funding_increment(paid, scale, oi_long) } else { acc_long }) as i128,
            (if oi_short > 0 { acc_short - funding_increment(paid, scale, oi_short) } else { acc_short }) as i128,
        ))
    }
}

/// Asymmetric pending funding accumulators `(acc_long', acc_short')`:
/// `paid = (oi_long - oi_short) * delta * rate / P_SCALE / 100`,
/// `acc_long' = acc_long + paid * usdc_scale / oi_long` (when `oi_long > 0`),
/// `acc_short' = acc_short - paid * usdc_scale / oi_short` (when `oi_short > 0`).
pub fn pending_acc_funding(
    acc_long: i128,
    acc_short: i128,
    oi_long: i128,
    oi_short: i128,
    delta_ledgers: u64,
    funding_fee_per_ledger_p: i128,
    usdc_scale: i128,
) -> (r: Result<(i128, i128), MathError>)
    ensures
        r == funding_accs_spec(
            acc_long as int,
            acc_short as int,
            oi_long as int,
            oi_short as int,
            delta_ledgers as int,
            funding_fee_per_ledger_p as int,
            usdc_scale as int,
        ),
{
    if delta_ledgers == 0 || funding_fee_per_ledger_p == 0 {
        return Ok((acc_long, acc_short));
    }
    let delta = delta_ledgers as i128;
    let oi_diff = oi_long.checked_sub(oi_short).ok_or(MathError::Overflow)?;
    let denom = P_SCALE.checked_mul(100).ok_or(MathError::Overflow)?;
    let stage = oi_diff.checked_mul(delta).ok_or(MathError::Overflow)?;
    let paid_by_longs = mul_div_floor(stage, funding_fee_per_ledger_p, denom)?;

    let new_long = if oi_long > 0 {
        let inc = mul_div_floor(paid_by_longs, usdc_scale, oi_long)?;
        acc_long.checked_add(inc).ok_or(MathError::Overflow)?
    } else {
        acc_long
    };

    let new_short = if oi_short > 0 {
        let inc = mul_div_floor(paid_by_longs, usdc_scale, oi_short)?;
        acc_short.checked_sub(inc).ok_or(MathError::Overflow)?
    } else {
        acc_short
    };

    Ok((new_long, new_short))
}

/// What a trade owes in funding: `floor((acc_now - acc_open) * collateral / scale) * leverage`.
pub open spec fn funding_fee_spec(acc_open: int, acc_now: int, collateral: int, leverage: int, scale: int) -> Result<i128, MathError> {
    if !fits_i128(acc_now - acc_open) {
        Err(MathError::Overflow)
    } else if acc_now - acc_open == 0 {
        Ok(0)
    } else {
        match mul_div_floor_spec(acc_now - acc_open, collateral, scale) {
            Err(e) => Err(e),
            Ok(staged) => if fits_i128(staged * leverage) {
                Ok((staged * leverage) as i128)
            } else {
                Err(MathError::Overflow)
            },
        }
    }
}

/// Per-trade funding fee in USDC; positive means the trader pays:
/// `fee = (acc_now - acc_open) * collateral / usdc_scale * leverage`.
pub fn funding_fee_for_trade(
    acc_open: i128,
    acc_now: i128,
    collateral: i128,
    leverage: u32,
    usdc_scale: i128,
) -> (r: Result<i128, MathError>)
    requires
        fits_i128(acc_now - acc_open) ==> !mul_div_floor_traps(acc_now - acc_open, collateral as int, usdc_scale as int),
    ensures
        r == funding_fee_spec(acc_open as int, acc_now as int, collateral as int, leverage as int, usdc_scale as int),
{
    let delta = acc_now.checked_sub(acc_open).ok_or(MathError::Overflow)?;
    if delta == 0 {
        return Ok(0);
    }
    let staged = mul_div_floor(delta, collateral, usdc_scale)?;
    staged.checked_mul(leverage as i128).ok_or(MathError::Overflow)
}

/// Floors `funding_fee` at `min_funding_fee`.
pub fn clamp_funding_fee(funding_fee: i128, min_funding_fee: i128) -> (r: i128)
    ensures
        r == if funding_fee < min_funding_fee { min_funding_fee } else { funding_fee },
{
    if funding_fee < min_funding_fee { min_funding_fee } else { funding_fee }
}

// ───────────────────────────── impact and spread ─────────────────────────────

/// The price after moving `open` by `amount` in the trade's direction (up for
/// longs, down for shorts), or `Err(Overflow)` when it leaves `i128`.
pub open spec fn shifted_price(open: int, amount: int, is_long: bool) -> Result<i128, MathError> {
    let p = if is_long { open + amount } else { open - amount };
    if fits_i128(p) { Ok(p as i128) } else { Err(MathError::Overflow) }
}

/// Dynamic price impact `(impact_p, price_after_impact)`:
/// `impact_p = floor((start_oi + trade_oi / 2) * P_SCALE / (scale * depth))`,
/// `price_after = open ± trunc(floor(impact_p * open / P_SCALE) / 100)`.
pub open spec fn price_impact_spec(
    open: int, is_long: bool, start_oi: int, trade_oi: int, depth: int, scale: int,
) -> Result<(i128, i128), MathError> {
    let oi_term = start_oi + trunc_div(trade_oi, 2);
    let denom = scale * depth;
    let impact = floor_div(oi_term * P_SCALE, denom);
    let price_impact = trunc_div(floor_div(impact * open, P_SCALE as int), 100);
    if depth == 0 {
        Ok((0, open as i128))
    } else if !fits_i128(oi_term) || !fits_i128(denom) {
        Err(MathError::Overflow)
    } else if denom == 0 {
        Err(MathError::DivByZero)
    } else if !fits_i128(oi_term * P_SCALE) || !fits_i128(impact * open) {
        Err(MathError::Overflow)
    } else {
        match shifted_price(open, price_impact, is_long) {
            Ok(after) => Ok((impact as i128, after)),
            Err(e) => Err(e),
        }
    }
}

/// No integer times `P_SCALE` equals `i128::MIN`.
proof fn lemma_p_scale_multiple_not_min(x: int)
    ensures
        x * P_SCALE != i128::MIN,
{
}

/// Dynamic price impact `(impact_p, price_after_impact)`. A zero depth means no
/// impact. `start_oi`, `trade_oi` and `one_percent_depth` are USDC amounts.
pub fn price_impact(
    open_price: i128,
    is_long: bool,
    start_oi: i128,
    trade_oi: i128,
    one_percent_depth: i128,
    usdc_scale: i128,
) -> (r: Result<(i128, i128), MathError>)
    ensures
        r == price_impact_spec(
            open_price as int,
            is_long,
            start_oi as int,
            trade_oi as int,
            one_percent_depth as int,
            usdc_scale as int,
        ),
{
    if one_percent_depth == 0 {
        return Ok((0, open_price));
    }
    let half = trade_oi / 2;
    let oi_term = start_oi.checked_add(half).ok_or(MathError::Overflow)?;
    let denom = usdc_scale.checked_mul(one_percent_depth).ok_or(MathError::Overflow)?;
    proof {
        lemma_p_scale_multiple_not_min(oi_term as int);
    }
    let impact_p = mul_div_floor(oi_term, P_SCALE, denom)?;
    let stage = mul_div_floor(impact_p, open_price, P_SCALE)?;
    let price_impact = stage / 100;

    let price_after = if is_long {
        open_price.checked_add(price_impact).ok_or(MathError::Overflow)?
    } else {
        open_price.checked_sub(price_impact).ok_or(MathError::Overflow)?
    };
    Ok((impact_p, price_after))
}

/// The spread amount `trunc(floor(price * spread_p / P_SCALE) / 100)` applied in
/// the trade's direction.
pub open spec fn spread_spec(price: int, spread_p: int, is_long: bool) -> Result<i128, MathError> {
    if spread_p == 0 {
        Ok(price as i128)
    } else if !fits_i128(price * spread_p) {
        Err(MathError::Overflow)
    } else {
        shifted_price(price, trunc_div(floor_div(price * spread_p, P_SCALE as int), 100), is_long)
    }
}

/// Applies a spread (`spread_p` at `P_SCALE`) on top of a price:
/// longs pay `price + spread`, shorts `price - spread`.
pub fn apply_spread(price: i128, spread_p: i128, is_long: bool) -> (r: Result<i128, MathError>)
    ensures
        r == spread_spec(price as int, spread_p as int, is_long),
{
    if spread_p == 0 {
        return Ok(price);
    }
    let stage = mul_div_floor(price, spread_p, P_SCALE)?;
    let spread_amount = stage / 100;
    if is_long {
        price.checked_add(spread_amount).ok_or(MathError::Overflow)
    } else {
        price.checked_sub(spread_amount).ok_or(MathError::Overflow)
    }
}

/// Impact first, then spread on the impacted price.
pub open spec fn spread_and_impact_spec(
    open: int, spread_p: int, is_long: bool, start_oi: int, trade_oi: int, depth: int, scale: int,
) -> Result<(i128, i128), MathError> {
    match price_impact_spec(open, is_long, start_oi, trade_oi, depth, scale) {
        Err(e) => Err(e),
        Ok((impact, after)) => match spread_spec(after as int, spread_p, is_long) {
            Err(e) => Err(e),
            Ok(market) => Ok((impact, market)),
        },
    }
}

/// Market execution price: impact first, then spread. Returns `(impact_p, market_price)`.
pub fn apply_spread_and_impact(
    open_price: i128,
    spread_p: i128,
    is_long: bool,
    start_oi: i128,
    trade_oi: i128,
    one_percent_depth: i128,
    usdc_scale: i128,
) -> (r: Result<(i128, i128), MathError>)
    ensures
        r == spread_and_impact_spec(
            open_price as int,
            spread_p as int,
            is_long,
            start_oi as int,
            trade_oi as int,
            one_percent_depth as int,
            usdc_scale as int,
        ),
{
    let (impact_p, price_after_impact) = price_impact(
        open_price, is_long, start_oi, trade_oi, one_percent_depth, usdc_scale,
    )?;
    let market_price = apply_spread(price_after_impact, spread_p, is_long)?;
    Ok((impact_p, market_price))
}

// ───────────────────────────── PnL ─────────────────────────────

/// `x` clamped to `[-cap, cap]`.
pub open spec fn clamp_sym(x: int, cap: int) -> int {
    if x < -cap { -cap } else if x > cap { cap } else { x }
}

/// The price move in the trade's favour.
pub open spec fn favourable_move(open: int, close: int, is_long: bool) -> int {
    if is_long { close - open } else { open - close }
}

/// Signed PnL percentage at `P_SCALE`:
/// `floor(move * P_SCALE / open) * leverage * 100`, clamped to `±max_gain_p * P_SCALE`.
pub open spec fn percent_profit_spec(open: int, close: int, is_long: bool, leverage: int, max_gain_p: int) -> Result<i128, MathError> {
    let diff = favourable_move(open, close, is_long);
    let step = floor_div(diff * P_SCALE, open);
    if open <= 0 {
        Err(MathError::DivByZero)
    } else if !fits_i128(diff) || !fits_i128(diff * P_SCALE) || !fits_i128(step * leverage)
        || !fits_i128((step * leverage) * 100) {
        Err(MathError::Overflow)
    } else {
        Ok(clamp_sym((step * leverage) * 100, max_gain_p * P_SCALE) as i128)
    }
}

/// Signed PnL percentage at `P_SCALE` (positive is profit), capped at
/// `±max_gain_p` percent (an integer percent such as 900).
pub fn current_percent_profit(
    open_price: i128,
    close_price: i128,
    is_long: bool,
    leverage: u32,
    max_gain_p: u32,
) -> (r: Result<i128, MathError>)
    ensures
        r == percent_profit_spec(open_price as int, close_price as int, is_long, leverage as int, max_gain_p as int),
{
    if open_price <= 0 {
        return Err(MathError::DivByZero);
    }
    let diff = if is_long {
        close_price.checked_sub(open_price).ok_or(MathError::Overflow)?
    } else {
        open_price.checked_sub(close_price).ok_or(MathError::Overflow)?
    };
    let step = mul_div_floor(diff, P_SCALE, open_price)?;
    let raw = step
        .checked_mul(leverage as i128)
        .ok_or(MathError::Overflow)?
        .checked_mul(100)
        .ok_or(MathError::Overflow)?;

    let cap_pos = (max_gain_p as i128).checked_mul(P_SCALE).ok_or(MathError::Overflow)?;
    let cap_neg = -cap_pos;
    Ok(if raw < cap_neg { cap_neg } else if raw > cap_pos { cap_pos } else { raw })
}

// ───────────────────────────── laws ─────────────────────────────

/// The rollover accumulator never decreases at a non-negative rate and scale.
pub proof fn lemma_rollover_acc_monotonic(acc: i128, delta: u64, rate: i128, scale: i128)
    requires
        rate >= 0,
        scale >= 0,
    ensures
        rollover_acc_spec(acc as int, delta as int, rate as int, scale as int) matches Ok(v) ==> v >= acc,
{
    lemma_mul_nonnegative(rate as int, scale as int);
    lemma_mul_nonnegative(delta as int, rate * scale);
    lemma_div_pos_is_pos(delta * (rate * scale), P_SCALE * 100);
}

/// Small rates are not lost: once `delta * rate * scale` reaches one unit of the
/// `P_SCALE * 100` denominator, the accumulator strictly advances.
pub proof fn lemma_rollover_small_rate_advances(acc: i128, delta: u64, rate: i128, scale: i128)
    requires
        delta >= 1,
        rate >= 1,
        scale >= 0,
        delta * (rate * scale) >= P_SCALE * 100,
    ensures
        rollover_acc_spec(acc as int, delta as int, rate as int, scale as int) matches Ok(v) ==> v > acc,
{
    lemma_div_is_ordered(P_SCALE * 100, delta * (rate * scale), P_SCALE * 100);
}

/// Balanced open interest exerts no funding pressure: both accumulators are unchanged.
pub proof fn lemma_funding_balanced_is_noop(acc_long: i128, acc_short: i128, oi: i128, delta: u64, rate: i128, scale: i128)
    ensures
        funding_accs_spec(acc_long as int, acc_short as int, oi as int, oi as int, delta as int, rate as int, scale as int)
            == Ok::<(i128, i128), MathError>((acc_long, acc_short)),
{
    assert(((oi - oi) * delta) * rate == 0) by (nonlinear_arith);
    assert(paid_by_longs(oi as int, oi as int, delta as int, rate as int) == 0);
    assert(0 * (scale as int) == 0);
    if oi > 0 {
        assert(funding_increment(0, scale as int, oi as int) == 0);
    }
}

/// When longs outweigh shorts (at a non-negative rate and scale) the longs pay:
/// their accumulator does not fall and the shorts' does not rise.
pub proof fn lemma_funding_long_heavy_longs_pay(
    acc_long: i128, acc_short: i128, oi_long: i128, oi_short: i128, delta: u64, rate: i128, scale: i128,
)
    requires
        oi_long >= oi_short,
        rate >= 0,
        scale >= 0,
    ensures
        funding_accs_spec(acc_long as int, acc_short as int, oi_long as int, oi_short as int, delta as int, rate as int, scale as int)
            matches Ok((l, s)) ==> l >= acc_long && s <= acc_short,
{
    let diff = oi_long - oi_short;
    lemma_mul_nonnegative(diff, delta as int);
    lemma_mul_nonnegative(diff * delta, rate as int);
    lemma_div_pos_is_pos((diff * delta) * rate, P_SCALE * 100);
    let paid = paid_by_longs(oi_long as int, oi_short as int, delta as int, rate as int);
    lemma_mul_nonnegative(paid, scale as int);
    if oi_long > 0 {
        lemma_div_pos_is_pos(paid * scale, oi_long as int);
    }
    if oi_short > 0 {
        lemma_div_pos_is_pos(paid * scale, oi_short as int);
    }
}

/// Price impact never favours the trader: with non-negative inputs the impact is
/// non-negative, longs execute at or above the open price and shorts at or below.
pub proof fn lemma_price_impact_direction(
    open: i128, is_long: bool, start_oi: i128, trade_oi: i128, depth: i128, scale: i128,
)
    requires
        open >= 0,
        start_oi >= 0,
        trade_oi >= 0,
        depth > 0,
        scale > 0,
    ensures
        price_impact_spec(open as int, is_long, start_oi as int, trade_oi as int, depth as int, scale as int)
            matches Ok((impact, after)) ==> impact >= 0 && (if is_long { after >= open } else { after <= open }),
{
    lemma_div_pos_is_pos(trade_oi as int, 2);
    let oi_term = start_oi + trunc_div(trade_oi as int, 2);
    let denom = scale * depth;
    lemma_mul_nonnegative(scale as int, depth as int);
    assert(denom > 0) by (nonlinear_arith)
        requires
            scale > 0,
            depth > 0,
            denom == scale * depth,
    ;
    lemma_mul_nonnegative(oi_term, P_SCALE as int);
    lemma_div_pos_is_pos(oi_term * P_SCALE, denom);
    let impact = floor_div(oi_term * P_SCALE, denom);
    lemma_mul_nonnegative(impact, open as int);
    lemma_div_pos_is_pos(impact * open, P_SCALE as int);
    lemma_div_pos_is_pos(floor_div(impact * open, P_SCALE as int), 100);
}

/// The spread never favours the trader: with a non-negative price and spread,
/// longs pay at or above the price and shorts at or below.
pub proof fn lemma_spread_direction(price: i128, spread_p: i128, is_long: bool)
    requires
        price >= 0,
        spread_p >= 0,
    ensures
        spread_spec(price as int, spread_p as int, is_long) matches Ok(p) ==> (if is_long { p >= price } else { p <= price }),
{
    lemma_mul_nonnegative(price as int, spread_p as int);
    lemma_div_pos_is_pos(price * spread_p, P_SCALE as int);
    lemma_div_pos_is_pos(floor_div(price * spread_p, P_SCALE as int), 100);
}

/// The PnL percentage is capped on both sides at `max_gain_p` percent.
pub proof fn lemma_percent_profit_capped(open: i128, close: i128, is_long: bool, leverage: u32, max_gain_p: u32)
    ensures
        percent_profit_spec(open as int, close as int, is_long, leverage as int, max_gain_p as int) matches Ok(p)
            ==> -(max_gain_p * P_SCALE) <= p <= max_gain_p * P_SCALE,
{
}

/// Without a cap in play, a long profits exactly when the price rises and a short
/// when it falls: the PnL has the sign of the favourable move.
pub proof fn lemma_percent_profit_sign(open: i128, close: i128, is_long: bool, leverage: u32, max_gain_p: u32)
    requires
        leverage >= 1,
    ensures
        percent_profit_spec(open as int, close as int, is_long, leverage as int, max_gain_p as int) matches Ok(p)
            ==> (favourable_move(open as int, close as int, is_long) >= 0 ==> p >= 0)
            && (favourable_move(open as int, close as int, is_long) < 0 ==> p <= 0),
{
    let diff = favourable_move(open as int, close as int, is_long);
    if open > 0 {
        if diff >= 0 {
            lemma_mul_nonnegative(diff, P_SCALE as int);
            lemma_div_pos_is_pos(diff * P_SCALE, open as int);
            let step = floor_div(diff * P_SCALE, open as int);
            lemma_mul_nonnegative(step, leverage as int);
        } else {
            assert(diff * P_SCALE < 0) by (nonlinear_arith)
                requires
                    diff < 0,
            ;
            let step = floor_div(diff * P_SCALE, open as int);
            lemma_div_is_ordered(diff * P_SCALE, 0, open as int);
            assert(step <= 0);
            assert(step * leverage <= 0) by (nonlinear_arith)
                requires
                    step <= 0,
                    leverage >= 1,
            ;
        }
    }
}

} // verus!
