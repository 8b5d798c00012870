//! The position manager: market and limit orders, closing, take-profit /
//! stop-loss and liquidation.
//!
//! Each entry point is a function from what it reads (the stored trade or
//! order, the pair and group configuration, the oracle price, which trade slots
//! are taken) and its arguments to what it writes, transfers and returns. The
//! reads, the USDC transfers and the calls into the registry and the vault stand
//! outside; they only carry out what these functions decided. A result of
//! `Aborted` is an invocation that traps (an arithmetic overflow, a missing
//! record or a failed call), which reverts everything.

use vstd::prelude::*;

use crate::arith::{fits_i128, mul_div_floor, mul_div_floor_spec, MathError};
use crate::fees::{current_percent_profit, percent_profit_spec};
use crate::liq::{
    is_liquidatable, liquidatable_spec, liq_traps, liquidation_price, liquidation_price_spec, liquidation_traps, settlement_payout,
    settlement_spec,
};
use crate::registry::{Group, PairInfo};
use crate::scale::P_SCALE;
use crate::vault::{settle_spec, VaultError, VaultTotals};

verus! {

/// Errors raised by the position manager.
#[derive(Clone, Copy, Debug, PartialEq, Eq, Structural)]
pub enum PositionManagerError {
    AlreadyInitialized,
    NotInitialized,
    NotAdmin,
    Paused,
    PairDisabled,
    LeverageIncorrect,
    AboveMaxPos,
    BelowMinPos,
    MaxTradesReached,
    InvalidPriceProof,
    PriceImpactTooHigh,
    WrongTp,
    WrongSl,
    OiCapExceeded,
    GroupCollateralCapExceeded,
    InsufficientSubscriptionReserve,
    TradeNotFound,
    UnauthorizedCallback,
    SubNotFound,
    SubOrphaned,
    PriceMismatch,
    OracleDeviationTooHigh,
    NotLiquidatable,
    InsufficientAccruedFees,
    MathFault,
    InvalidParam,
    OracleUnavailable,
    LimitNotFound,
    SubscriptionNotConfigured,
}

impl PositionManagerError {
    /// The error's stable numeric code.
    pub open spec fn numeric_code(self) -> u32 {
        match self {
            PositionManagerError::AlreadyInitialized => 1,
            PositionManagerError::NotInitialized => 2,
            PositionManagerError::NotAdmin => 3,
            PositionManagerError::Paused => 4,
            PositionManagerError::PairDisabled => 5,
            PositionManagerError::LeverageIncorrect => 6,
            PositionManagerError::AboveMaxPos => 7,
            PositionManagerError::BelowMinPos => 8,
            PositionManagerError::MaxTradesReached => 9,
            PositionManagerError::InvalidPriceProof => 10,
            PositionManagerError::PriceImpactTooHigh => 11,
            PositionManagerError::WrongTp => 12,
            PositionManagerError::WrongSl => 13,
            PositionManagerError::OiCapExceeded => 14,
            PositionManagerError::GroupCollateralCapExceeded => 15,
            PositionManagerError::InsufficientSubscriptionReserve => 16,
            PositionManagerError::TradeNotFound => 17,
            PositionManagerError::UnauthorizedCallback => 18,
            PositionManagerError::SubNotFound => 19,
            PositionManagerError::SubOrphaned => 20,
            PositionManagerError::PriceMismatch => 21,
            PositionManagerError::OracleDeviationTooHigh => 22,
            PositionManagerError::NotLiquidatable => 23,
            PositionManagerError::InsufficientAccruedFees => 24,
            PositionManagerError::MathFault => 25,
            PositionManagerError::InvalidParam => 26,
            PositionManagerError::OracleUnavailable => 27,
            PositionManagerError::LimitNotFound => 28,
            PositionManagerError::SubscriptionNotConfigured => 29,
        }
    }

    /// The error's stable numeric code.
    pub fn code(self) -> (r: u32)
        ensures
            r == self.numeric_code(),
    {
        match self {
            PositionManagerError::AlreadyInitialized => 1,
            PositionManagerError::NotInitialized => 2,
            PositionManagerError::NotAdmin => 3,
            PositionManagerError::Paused => 4,
            PositionManagerError::PairDisabled => 5,
            PositionManagerError::LeverageIncorrect => 6,
            PositionManagerError::AboveMaxPos => 7,
            PositionManagerError::BelowMinPos => 8,
            PositionManagerError::MaxTradesReached => 9,
            PositionManagerError::InvalidPriceProof => 10,
            PositionManagerError::PriceImpactTooHigh => 11,
            PositionManagerError::WrongTp => 12,
            PositionManagerError::WrongSl => 13,
            PositionManagerError::OiCapExceeded => 14,
            PositionManagerError::GroupCollateralCapExceeded => 15,
            PositionManagerError::InsufficientSubscriptionReserve => 16,
            PositionManagerError::TradeNotFound => 17,
            PositionManagerError::UnauthorizedCallback => 18,
            PositionManagerError::SubNotFound => 19,
            PositionManagerError::SubOrphaned => 20,
            PositionManagerError::PriceMismatch => 21,
            PositionManagerError::OracleDeviationTooHigh => 22,
            PositionManagerError::NotLiquidatable => 23,
            PositionManagerError::InsufficientAccruedFees => 24,
            PositionManagerError::MathFault => 25,
            PositionManagerError::InvalidParam => 26,
            PositionManagerError::OracleUnavailable => 27,
            PositionManagerError::LimitNotFound => 28,
            PositionManagerError::SubscriptionNotConfigured => 29,
        }
    }
}

/// How an entry point fails: with one of its errors, or by trapping.
#[derive(Clone, Copy, Debug, PartialEq, Eq, Structural)]
pub enum PositionFailure {
    /// The entry point returns this error.
    Rejected(PositionManagerError),
    /// The invocation traps and is reverted.
    Aborted,
}

/// An open trade.
#[derive(Clone, Copy, Debug, PartialEq, Eq, Structural)]
pub struct Trade {
    pub pair_index: u32,
    pub is_long: bool,
    pub leverage: u32,
    pub open_price: i128,
    /// Effective collateral (net of the open fee).
    pub collateral: i128,
    pub acc_rollover_open: i128,
    pub acc_funding_open: i128,
    pub tp_price: i128,
    pub sl_price: i128,
}

/// A pending limit order.
#[derive(Clone, Copy, Debug, PartialEq, Eq, Structural)]
pub struct LimitOrder {
    pub pair_index: u32,
    pub is_long: bool,
    /// Raw collateral (before the open fee).
    pub collateral: i128,
    pub leverage: u32,
    pub limit_price: i128,
    pub tp_price: i128,
    pub sl_price: i128,
}

/// A trade being opened: the slot it takes, the record to store and the open
/// interest to add on its side.
#[derive(Clone, Copy, Debug, PartialEq, Eq, Structural)]
pub struct TradeOpened {
    pub trade_index: u32,
    pub trade: Trade,
    /// Open interest (effective collateral times leverage) to add.
    pub oi_delta: i128,
}

/// A trade being closed: what the manager keeps, sends to the vault, what the
/// vault settles and the open interest to remove.
#[derive(Clone, Copy, Debug, PartialEq, Eq, Structural)]
pub struct TradeClosed {
    /// Close fee kept by the position manager.
    pub close_fee_charged: i128,
    /// USDC moved from the position manager into the vault.
    pub amount_to_vault: i128,
    /// The vault's side of the PnL (`gross_payout - amount_to_vault`).
    pub net_pnl_for_vault: i128,
    /// What the trader receives from the vault.
    pub gross_payout: i128,
    /// Open interest (collateral times leverage) to remove.
    pub oi_delta: i128,
}

// ───────────────────────────── helpers ─────────────────────────────

/// The least index at or after `from` whose slot is not taken.
pub open spec fn first_free(occupied: Seq<bool>, from: int) -> Option<u32>
    decreases occupied.len() - from,
{
    if from < 0 || from >= occupied.len() {
        None
    } else if !occupied[from] {
        Some(from as u32)
    } else {
        first_free(occupied, from + 1)
    }
}

/// The least index whose slot is free, if any.
pub fn first_free_slot(occupied: &Vec<bool>) -> (r: Option<u32>)
    requires
        occupied.len() <= u32::MAX,
    ensures
        r == first_free(occupied@, 0),
{
    let n = occupied.len();
    let mut i: usize = 0;
    while i < n
        invariant
            n == occupied.len(),
            n <= u32::MAX,
            i <= n,
            first_free(occupied@, 0) == first_free(occupied@, i as int),
        decreases n - i,
    {
        if !occupied[i] {
            return Some(i as u32);
        }
        i = i + 1;
    }
    None
}

/// Refuses when the manager is paused.
pub fn require_not_paused(paused: bool) -> (r: Result<(), PositionManagerError>)
    ensures
        r == if paused { Err::<(), PositionManagerError>(PositionManagerError::Paused) } else { Ok(()) },
{
    if paused {
        return Err(PositionManagerError::Paused);
    }
    Ok(())
}

/// A fee of `fee_p` (at `P_SCALE`) on `notional`, floored; any failure is a `MathFault`.
pub open spec fn fee_on(notional: int, fee_p: int) -> Result<i128, PositionFailure> {
    match mul_div_floor_spec(notional, fee_p, P_SCALE as int) {
        Ok(v) => Ok(v),
        Err(_) => Err(PositionFailure::Rejected(PositionManagerError::MathFault)),
    }
}

/// Computes a fee of `fee_p` on `notional`.
fn fee_for(notional: i128, fee_p: i128) -> (r: Result<i128, PositionFailure>)
    ensures
        r == fee_on(notional as int, fee_p as int),
{
    match mul_div_floor(notional, fee_p, P_SCALE) {
        Ok(v) => Ok(v),
        Err(_) => Err(PositionFailure::Rejected(PositionManagerError::MathFault)),
    }
}

/// The trade a market order or an executed limit order opens: its open fee is
/// `fee_on(collateral * leverage, open_fee_p)` and its effective collateral the
/// rest. `Aborted` where an unchecked step would overflow.
pub open spec fn opened_trade_spec(
    pair_index: u32, is_long: bool, collateral: int, leverage: u32, open_price: i128, tp_price: i128, sl_price: i128,
    open_fee_p: int, occupied: Seq<bool>, require_positive: bool,
) -> Result<TradeOpened, PositionFailure> {
    if !fits_i128(collateral * leverage) {
        Err(PositionFailure::Aborted)
    } else {
        match fee_on(collateral * leverage, open_fee_p) {
            Err(e) => Err(e),
            Ok(fee) => {
                let effective = collateral - fee;
                if !fits_i128(effective) {
                    Err(PositionFailure::Aborted)
                } else if require_positive && effective <= 0 {
                    Err(PositionFailure::Rejected(PositionManagerError::InvalidParam))
                } else {
                    match first_free(occupied, 0) {
                        None => Err(PositionFailure::Rejected(PositionManagerError::MaxTradesReached)),
                        Some(trade_index) => if !fits_i128(effective * leverage) {
                            Err(PositionFailure::Aborted)
                        } else {
                            Ok(TradeOpened {
                                trade_index,
                                trade: Trade {
                                    pair_index,
                                    is_long,
                                    leverage,
                                    open_price,
                                    collateral: effective as i128,
                                    acc_rollover_open: 0,
                                    acc_funding_open: 0,
                                    tp_price,
                                    sl_price,
                                },
                                oi_delta: (effective * leverage) as i128,
                            })
                        },
                    }
                }
            },
        }
    }
}

/// Computes the trade an order opens (see [`opened_trade_spec`]).
fn open_trade(
    pair_index: u32, is_long: bool, collateral: i128, leverage: u32, open_price: i128, tp_price: i128, sl_price: i128,
    open_fee_p: i128, occupied: &Vec<bool>, require_positive: bool,
) -> (r: Result<TradeOpened, PositionFailure>)
    requires
        occupied.len() <= u32::MAX,
    ensures
        r == opened_trade_spec(pair_index, is_long, collateral as int, leverage, open_price, tp_price, sl_price, open_fee_p as int, occupied@, require_positive),
{
    let notional = match collateral.checked_mul(leverage as i128) {
        Some(v) => v,
        None => return Err(PositionFailure::Aborted),
    };
    let open_fee = fee_for(notional, open_fee_p)?;
    let effective_collateral = match collateral.checked_sub(open_fee) {
        Some(v) => v,
        None => return Err(PositionFailure::Aborted),
    };
    if require_positive && effective_collateral <= 0 {
        return Err(PositionFailure::Rejected(PositionManagerError::InvalidParam));
    }
    let trade_index = match first_free_slot(occupied) {
        Some(i) => i,
        None => return Err(PositionFailure::Rejected(PositionManagerError::MaxTradesReached)),
    };
    let oi_delta = match effective_collateral.checked_mul(leverage as i128) {
        Some(v) => v,
        None => return Err(PositionFailure::Aborted),
    };
    Ok(TradeOpened {
        trade_index,
        trade: Trade {
            pair_index,
            is_long,
            leverage,
            open_price,
            collateral: effective_collateral,
            acc_rollover_open: 0,
            acc_funding_open: 0,
            tp_price,
            sl_price,
        },
        oi_delta,
    })
}

/// The settlement of closing `trade` at `price` with no accrued rollover or
/// funding: PnL capped by the pair, close fee on the notional, insolvency waiver.
pub open spec fn closed_trade_spec(trade: Trade, price: i128, max_gain_p: u32, liq_threshold_p: u32, close_fee_p: int, pnl_traps: bool)
    -> Result<TradeClosed, PositionFailure>
{
    match percent_profit_spec(trade.open_price as int, price as int, trade.is_long, trade.leverage as int, max_gain_p as int) {
        Err(_) => if pnl_traps {
            Err(PositionFailure::Aborted)
        } else {
            Err(PositionFailure::Rejected(PositionManagerError::MathFault))
        },
        Ok(pnl_p) => {
            let notional = trade.collateral * trade.leverage;
            if !fits_i128(notional) {
                Err(PositionFailure::Aborted)
            } else {
                match fee_on(notional, close_fee_p) {
                    Err(e) => Err(e),
                    Ok(close_fee) => match settlement_spec(trade.collateral as int, pnl_p as int, 0, 0, close_fee as int, liq_threshold_p as int) {
                        Err(_) => Err(PositionFailure::Rejected(PositionManagerError::MathFault)),
                        Ok((gross, charged)) => {
                            let amount = trade.collateral - charged;
                            if !fits_i128(amount) || !fits_i128(gross - amount) {
                                Err(PositionFailure::Aborted)
                            } else {
                                Ok(TradeClosed {
                                    close_fee_charged: charged,
                                    amount_to_vault: amount as i128,
                                    net_pnl_for_vault: (gross - amount) as i128,
                                    gross_payout: gross,
                                    oi_delta: notional as i128,
                                })
                            }
                        },
                    },
                }
            }
        },
    }
}

/// Computes the settlement of closing `trade` (see [`closed_trade_spec`]).
fn close_trade(trade: &Trade, price: i128, max_gain_p: u32, liq_threshold_p: u32, close_fee_p: i128, pnl_traps: bool)
    -> (r: Result<TradeClosed, PositionFailure>)
    ensures
        r == closed_trade_spec(*trade, price, max_gain_p, liq_threshold_p, close_fee_p as int, pnl_traps),
{
    let pnl_p = match current_percent_profit(trade.open_price, price, trade.is_long, trade.leverage, max_gain_p) {
        Ok(v) => v,
        Err(_) => {
            if pnl_traps {
                return Err(PositionFailure::Aborted);
            }
            return Err(PositionFailure::Rejected(PositionManagerError::MathFault));
        },
    };
    let notional = match trade.collateral.checked_mul(trade.leverage as i128) {
        Some(v) => v,
        None => return Err(PositionFailure::Aborted),
    };
    let close_fee = fee_for(notional, close_fee_p)?;
    let (gross_payout, close_fee_charged) = match settlement_payout(trade.collateral, pnl_p, 0, 0, close_fee, liq_threshold_p) {
        Ok(v) => v,
        Err(_) => return Err(PositionFailure::Rejected(PositionManagerError::MathFault)),
    };
    let amount_to_vault = match trade.collateral.checked_sub(close_fee_charged) {
        Some(v) => v,
        None => return Err(PositionFailure::Aborted),
    };
    let net_pnl_for_vault = match gross_payout.checked_sub(amount_to_vault) {
        Some(v) => v,
        None => return Err(PositionFailure::Aborted),
    };
    Ok(TradeClosed { close_fee_charged, amount_to_vault, net_pnl_for_vault, gross_payout, oi_delta: notional })
}

/// Whether a take-profit or stop-loss level (a zero level is unset) is reached at `price`.
pub open spec fn tp_sl_reached(trade: Trade, price: int) -> bool {
    if trade.is_long {
        (trade.tp_price > 0 && price >= trade.tp_price) || (trade.sl_price > 0 && price <= trade.sl_price)
    } else {
        (trade.tp_price > 0 && price <= trade.tp_price) || (trade.sl_price > 0 && price >= trade.sl_price)
    }
}

/// What a market order does: the order's checks in turn (the pause, size and leverage,
/// the pair, its leverage range, the oracle price, the group), then the trade
/// it opens at the oracle price.
pub open spec fn market_open_spec(
    paused: bool, pair_index: u32, is_long: bool, collateral: i128, leverage: u32, tp_price: i128, sl_price: i128,
    pair: Option<&PairInfo>, price: Option<i128>, group: Option<&Group>, occupied: Seq<bool>,
) -> Result<TradeOpened, PositionFailure> {
    if paused {
        Err(PositionFailure::Rejected(PositionManagerError::Paused))
    } else if collateral <= 0 || leverage == 0 {
        Err(PositionFailure::Rejected(PositionManagerError::InvalidParam))
    } else {
        match pair {
            None => Err(PositionFailure::Aborted),
            Some(p) => if p.disabled {
                Err(PositionFailure::Rejected(PositionManagerError::PairDisabled))
            } else if leverage < p.min_leverage || leverage > p.max_leverage {
                Err(PositionFailure::Rejected(PositionManagerError::LeverageIncorrect))
            } else {
                match price {
                    None => Err(PositionFailure::Rejected(PositionManagerError::OracleUnavailable)),
                    Some(px) => match group {
                        None => Err(PositionFailure::Aborted),
                        Some(g) => opened_trade_spec(pair_index, is_long, collateral as int, leverage, px, tp_price, sl_price, g.open_fee_p as int, occupied, true),
                    },
                }
            },
        }
    }
}

/// What placing a limit order does: the order's checks in turn (the pause
/// first), then the
/// order stored at the first free slot.
pub open spec fn limit_place_spec(
    paused: bool, pair_index: u32, is_long: bool, collateral: i128, leverage: u32, limit_price: i128, tp_price: i128,
    sl_price: i128, pair: Option<&PairInfo>, occupied: Seq<bool>,
) -> Result<(u32, LimitOrder), PositionFailure> {
    if paused {
        Err(PositionFailure::Rejected(PositionManagerError::Paused))
    } else if collateral <= 0 || leverage == 0 || limit_price <= 0 {
        Err(PositionFailure::Rejected(PositionManagerError::InvalidParam))
    } else {
        match pair {
            None => Err(PositionFailure::Aborted),
            Some(p) => if p.disabled {
                Err(PositionFailure::Rejected(PositionManagerError::PairDisabled))
            } else if leverage < p.min_leverage || leverage > p.max_leverage {
                Err(PositionFailure::Rejected(PositionManagerError::LeverageIncorrect))
            } else {
                match first_free(occupied, 0) {
                    None => Err(PositionFailure::Rejected(PositionManagerError::MaxTradesReached)),
                    Some(i) => Ok((i, LimitOrder { pair_index, is_long, collateral, leverage, limit_price, tp_price, sl_price })),
                }
            },
        }
    }
}

/// What executing a limit order does: refused while paused, for a missing
/// order, on a disabled pair, without an oracle price or before the price has
/// reached the limit (at or below it for longs, at or above for shorts); then
/// the trade it opens at the oracle price.
pub open spec fn limit_execute_spec(
    paused: bool, pair_index: u32, order: Option<LimitOrder>, pair: Option<&PairInfo>, group: Option<&Group>,
    price: Option<i128>, occupied: Seq<bool>,
) -> Result<TradeOpened, PositionFailure> {
    if paused {
        Err(PositionFailure::Rejected(PositionManagerError::Paused))
    } else {
        match order {
            None => Err(PositionFailure::Rejected(PositionManagerError::LimitNotFound)),
            Some(o) => match (pair, group) {
                (Some(p), Some(g)) => if p.disabled {
                    Err(PositionFailure::Rejected(PositionManagerError::PairDisabled))
                } else {
                    match price {
                        None => Err(PositionFailure::Rejected(PositionManagerError::OracleUnavailable)),
                        Some(px) => if (o.is_long && px > o.limit_price) || (!o.is_long && px < o.limit_price) {
                            Err(PositionFailure::Rejected(PositionManagerError::PriceMismatch))
                        } else {
                            opened_trade_spec(pair_index, o.is_long, o.collateral as int, o.leverage, px, o.tp_price, o.sl_price, g.open_fee_p as int, occupied, false)
                        },
                    }
                },
                _ => Err(PositionFailure::Aborted),
            },
        }
    }
}

/// What executing a take-profit or stop-loss does: refused while paused, for a
/// missing trade, without an oracle price or before a level is reached; then
/// the close of the trade at the oracle price.
pub open spec fn tp_sl_execute_spec(
    paused: bool, trade: Option<Trade>, pair: Option<&PairInfo>, group: Option<&Group>, price: Option<i128>,
) -> Result<TradeClosed, PositionFailure> {
    if paused {
        Err(PositionFailure::Rejected(PositionManagerError::Paused))
    } else {
        match trade {
            None => Err(PositionFailure::Rejected(PositionManagerError::TradeNotFound)),
            Some(t) => match pair {
                None => Err(PositionFailure::Aborted),
                Some(p) => match price {
                    None => Err(PositionFailure::Rejected(PositionManagerError::OracleUnavailable)),
                    Some(px) => if !tp_sl_reached(t, px as int) {
                        Err(PositionFailure::Rejected(PositionManagerError::PriceMismatch))
                    } else {
                        match group {
                            None => Err(PositionFailure::Aborted),
                            Some(g) => closed_trade_spec(t, px, p.max_gain_p, p.liq_threshold_p, g.close_fee_p as int, true),
                        }
                    },
                },
            },
        }
    }
}

/// What liquidating a trade moves: the whole collateral goes to the vault, which
/// keeps it, and the open interest is removed.
#[derive(Clone, Copy, Debug, PartialEq, Eq, Structural)]
pub struct TradeLiquidated {
    /// USDC moved from the position manager into the vault.
    pub amount_to_vault: i128,
    /// The vault's side of the PnL: minus the collateral.
    pub net_pnl_for_vault: i128,
    /// Open interest (collateral times leverage) to remove.
    pub oi_delta: i128,
}

/// What liquidating a trade does: refused unless the oracle price has crossed
/// the trade's liquidation price without fees; then the whole collateral goes
/// to the vault.
pub open spec fn liquidation_spec(trade: Option<Trade>, pair: Option<&PairInfo>, price: Option<i128>) -> Result<TradeLiquidated, PositionFailure> {
    match trade {
        None => Err(PositionFailure::Rejected(PositionManagerError::TradeNotFound)),
        Some(t) => match pair {
            None => Err(PositionFailure::Aborted),
            Some(p) => match price {
                None => Err(PositionFailure::Rejected(PositionManagerError::OracleUnavailable)),
                Some(px) => if liq_traps(t.open_price as int, t.collateral as int, t.leverage as int, p.liq_threshold_p as int, 0, 0) {
                    Err(PositionFailure::Aborted)
                } else {
                    match liquidation_price_spec(t.open_price as int, t.is_long, t.collateral as int, t.leverage as int, 0, 0, p.liq_threshold_p as int) {
                        Err(_) => Err(PositionFailure::Rejected(PositionManagerError::MathFault)),
                        Ok(liq) => if !liquidatable_spec(px as int, liq as int, t.is_long) {
                            Err(PositionFailure::Rejected(PositionManagerError::NotLiquidatable))
                        } else if t.collateral == i128::MIN || !fits_i128(t.collateral * t.leverage) {
                            Err(PositionFailure::Aborted)
                        } else {
                            Ok(TradeLiquidated {
                                amount_to_vault: t.collateral,
                                net_pnl_for_vault: (-t.collateral) as i128,
                                oi_delta: (t.collateral * t.leverage) as i128,
                            })
                        },
                    }
                },
            },
        },
    }
}

/// The position manager's entry points, over the values they read and write.
pub struct PositionManagerContract;

impl PositionManagerContract {
    /// One-shot initialization.
    pub fn init(already_initialized: bool) -> (r: Result<(), PositionManagerError>)
        ensures
            r == if already_initialized {
                Err::<(), PositionManagerError>(PositionManagerError::AlreadyInitialized)
            } else {
                Ok(())
            },
    {
        if already_initialized {
            return Err(PositionManagerError::AlreadyInitialized);
        }
        Ok(())
    }

    /// A trade's current PnL in USDC at the oracle price:
    /// `trunc(trunc(collateral * pnl_p / P_SCALE) / 100)`; `None` when the
    /// computation traps (no trade, no pair, no price, a PnL error or an overflow).
    pub fn get_trade_pnl(trade: Option<Trade>, pair: Option<&PairInfo>, price: Option<i128>) -> (r: Option<i128>)
        ensures
            r == match (trade, pair, price) {
                (Some(t), Some(p), Some(px)) => match percent_profit_spec(t.open_price as int, px as int, t.is_long, t.leverage as int, p.max_gain_p as int) {
                    Ok(pnl_p) => if fits_i128(t.collateral * pnl_p) {
                        Some(crate::arith::trunc_div(crate::arith::trunc_div(t.collateral * pnl_p, P_SCALE as int), 100) as i128)
                    } else {
                        None::<i128>
                    },
                    Err(_) => None,
                },
                _ => None,
            },
    {
        let trade = match trade {
            Some(t) => t,
            None => return None,
        };
        let pair = match pair {
            Some(p) => p,
            None => return None,
        };
        let current_price = match price {
            Some(px) => px,
            None => return None,
        };
        let pnl_p = match current_percent_profit(trade.open_price, current_price, trade.is_long, trade.leverage, pair.max_gain_p) {
            Ok(v) => v,
            Err(_) => return None,
        };
        let scaled = match trade.collateral.checked_mul(pnl_p) {
            Some(v) => v,
            None => return None,
        };
        Some(scaled / P_SCALE / 100)
    }

    /// Opens a market trade at the oracle price, unless the manager is
    /// `paused`. `pair` and `group` are the
    /// registry's records (none when the registry call fails), `price` the
    /// oracle's, `occupied` which of the trader's slots on this pair are taken.
    pub fn open_market_trade(
        paused: bool,
        pair_index: u32,
        is_long: bool,
        collateral: i128,
        leverage: u32,
        tp_price: i128,
        sl_price: i128,
        pair: Option<&PairInfo>,
        price: Option<i128>,
        group: Option<&Group>,
        occupied: &Vec<bool>,
    ) -> (r: Result<TradeOpened, PositionFailure>)
        requires
            occupied.len() <= u32::MAX,
        ensures
            r == market_open_spec(paused, pair_index, is_long, collateral, leverage, tp_price, sl_price, pair, price, group, occupied@),
    {
        if paused {
            return Err(PositionFailure::Rejected(PositionManagerError::Paused));
        }
        if collateral <= 0 || leverage == 0 {
            return Err(PositionFailure::Rejected(PositionManagerError::InvalidParam));
        }
        let pair = match pair {
            Some(p) => p,
            None => return Err(PositionFailure::Aborted),
        };
        if pair.disabled {
            return Err(PositionFailure::Rejected(PositionManagerError::PairDisabled));
        }
        if leverage < pair.min_leverage || leverage > pair.max_leverage {
            return Err(PositionFailure::Rejected(PositionManagerError::LeverageIncorrect));
        }
        let open_price = match price {
            Some(px) => px,
            None => return Err(PositionFailure::Rejected(PositionManagerError::OracleUnavailable)),
        };
        let group = match group {
            Some(g) => g,
            None => return Err(PositionFailure::Aborted),
        };
        open_trade(pair_index, is_long, collateral, leverage, open_price, tp_price, sl_price, group.open_fee_p, occupied, true)
    }

    /// Closes a trade at the oracle price.
    pub fn close_market_trade(
        trade: Option<Trade>,
        pair: Option<&PairInfo>,
        group: Option<&Group>,
        price: Option<i128>,
    ) -> (r: Result<TradeClosed, PositionFailure>)
        ensures
            r == match trade {
                None => Err::<TradeClosed, PositionFailure>(PositionFailure::Rejected(PositionManagerError::TradeNotFound)),
                Some(t) => match (pair, group) {
                    (Some(p), Some(g)) => match price {
                        None => Err(PositionFailure::Rejected(PositionManagerError::OracleUnavailable)),
                        Some(px) => closed_trade_spec(t, px, p.max_gain_p, p.liq_threshold_p, g.close_fee_p as int, false),
                    },
                    _ => Err(PositionFailure::Aborted),
                },
            },
    {
        let trade = match trade {
            Some(t) => t,
            None => return Err(PositionFailure::Rejected(PositionManagerError::TradeNotFound)),
        };
        let (pair, group) = match (pair, group) {
            (Some(p), Some(g)) => (p, g),
            _ => return Err(PositionFailure::Aborted),
        };
        let close_price = match price {
            Some(px) => px,
            None => return Err(PositionFailure::Rejected(PositionManagerError::OracleUnavailable)),
        };
        close_trade(&trade, close_price, pair.max_gain_p, pair.liq_threshold_p, group.close_fee_p, false)
    }

    /// Places a limit order holding the raw collateral until it executes,
    /// unless the manager is `paused`.
    pub fn place_limit_order(
        paused: bool,
        pair_index: u32,
        is_long: bool,
        collateral: i128,
        leverage: u32,
        limit_price: i128,
        tp_price: i128,
        sl_price: i128,
        pair: Option<&PairInfo>,
        occupied: &Vec<bool>,
    ) -> (r: Result<(u32, LimitOrder), PositionFailure>)
        requires
            occupied.len() <= u32::MAX,
        ensures
            r == limit_place_spec(paused, pair_index, is_long, collateral, leverage, limit_price, tp_price, sl_price, pair, occupied@),
    {
        if paused {
            return Err(PositionFailure::Rejected(PositionManagerError::Paused));
        }
        if collateral <= 0 || leverage == 0 || limit_price <= 0 {
            return Err(PositionFailure::Rejected(PositionManagerError::InvalidParam));
        }
        let pair = match pair {
            Some(p) => p,
            None => return Err(PositionFailure::Aborted),
        };
        if pair.disabled {
            return Err(PositionFailure::Rejected(PositionManagerError::PairDisabled));
        }
        if leverage < pair.min_leverage || leverage > pair.max_leverage {
            return Err(PositionFailure::Rejected(PositionManagerError::LeverageIncorrect));
        }
        let limit_index = match first_free_slot(occupied) {
            Some(i) => i,
            None => return Err(PositionFailure::Rejected(PositionManagerError::MaxTradesReached)),
        };
        Ok((limit_index, LimitOrder { pair_index, is_long, collateral, leverage, limit_price, tp_price, sl_price }))
    }

    /// Executes a limit order on an enabled pair once the oracle price has
    /// reached its limit (see [`limit_execute_spec`]). The trade opens at the
    /// oracle price.
    pub fn execute_limit_order(
        paused: bool,
        pair_index: u32,
        order: Option<LimitOrder>,
        pair: Option<&PairInfo>,
        group: Option<&Group>,
        price: Option<i128>,
        occupied: &Vec<bool>,
    ) -> (r: Result<TradeOpened, PositionFailure>)
        requires
            occupied.len() <= u32::MAX,
        ensures
            r == limit_execute_spec(paused, pair_index, order, pair, group, price, occupied@),
    {
        if paused {
            return Err(PositionFailure::Rejected(PositionManagerError::Paused));
        }
        let order = match order {
            Some(o) => o,
            None => return Err(PositionFailure::Rejected(PositionManagerError::LimitNotFound)),
        };
        let group = match (pair, group) {
            (Some(p), Some(g)) => {
                if p.disabled {
                    return Err(PositionFailure::Rejected(PositionManagerError::PairDisabled));
                }
                g
            },
            _ => return Err(PositionFailure::Aborted),
        };
        let current = match price {
            Some(px) => px,
            None => return Err(PositionFailure::Rejected(PositionManagerError::OracleUnavailable)),
        };
        if order.is_long {
            if current > order.limit_price {
                return Err(PositionFailure::Rejected(PositionManagerError::PriceMismatch));
            }
        } else {
            if current < order.limit_price {
                return Err(PositionFailure::Rejected(PositionManagerError::PriceMismatch));
            }
        }
        open_trade(
            pair_index,
            order.is_long,
            order.collateral,
            order.leverage,
            current,
            order.tp_price,
            order.sl_price,
            group.open_fee_p,
            occupied,
            false,
        )
    }

    /// Cancels a limit order, unless the manager is `paused`; its raw collateral
    /// goes back to the trader.
    pub fn cancel_limit_order(paused: bool, order: Option<LimitOrder>) -> (r: Result<i128, PositionManagerError>)
        ensures
            r == if paused {
                Err::<i128, PositionManagerError>(PositionManagerError::Paused)
            } else {
                match order {
                    Some(o) => Ok::<i128, PositionManagerError>(o.collateral),
                    None => Err(PositionManagerError::LimitNotFound),
                }
            },
    {
        if paused {
            return Err(PositionManagerError::Paused);
        }
        match order {
            Some(o) => Ok(o.collateral),
            None => Err(PositionManagerError::LimitNotFound),
        }
    }

    /// Moves a limit order's limit, take-profit and stop-loss; refused while
    /// `paused`, and a non-positive limit is refused.
    pub fn update_limit_order(paused: bool, order: Option<LimitOrder>, limit_price: i128, tp_price: i128, sl_price: i128)
        -> (r: Result<LimitOrder, PositionManagerError>)
        ensures
            r == if paused {
                Err::<LimitOrder, PositionManagerError>(PositionManagerError::Paused)
            } else {
                match order {
                    None => Err::<LimitOrder, PositionManagerError>(PositionManagerError::LimitNotFound),
                    Some(o) => if limit_price <= 0 {
                        Err(PositionManagerError::InvalidParam)
                    } else {
                        Ok(LimitOrder { limit_price, tp_price, sl_price, ..o })
                    },
                }
            },
    {
        if paused {
            return Err(PositionManagerError::Paused);
        }
        let mut order = match order {
            Some(o) => o,
            None => return Err(PositionManagerError::LimitNotFound),
        };
        if limit_price <= 0 {
            return Err(PositionManagerError::InvalidParam);
        }
        order.limit_price = limit_price;
        order.tp_price = tp_price;
        order.sl_price = sl_price;
        Ok(order)
    }

    /// Liquidates a trade whose no-fee liquidation price the oracle price has crossed.
    pub fn liquidate_trade(trade: Option<Trade>, pair: Option<&PairInfo>, price: Option<i128>)
        -> (r: Result<TradeLiquidated, PositionFailure>)
        ensures
            r == liquidation_spec(trade, pair, price),
    {
        let trade = match trade {
            Some(t) => t,
            None => return Err(PositionFailure::Rejected(PositionManagerError::TradeNotFound)),
        };
        let pair = match pair {
            Some(p) => p,
            None => return Err(PositionFailure::Aborted),
        };
        let observed = match price {
            Some(px) => px,
            None => return Err(PositionFailure::Rejected(PositionManagerError::OracleUnavailable)),
        };
        if liquidation_traps(trade.open_price, trade.collateral, trade.leverage, pair.liq_threshold_p, 0, 0) {
            return Err(PositionFailure::Aborted);
        }
        let liq_price = match liquidation_price(trade.open_price, trade.is_long, trade.collateral, trade.leverage, 0, 0, pair.liq_threshold_p) {
            Ok(v) => v,
            Err(_) => return Err(PositionFailure::Rejected(PositionManagerError::MathFault)),
        };
        if !is_liquidatable(observed, liq_price, trade.is_long) {
            return Err(PositionFailure::Rejected(PositionManagerError::NotLiquidatable));
        }
        if trade.collateral == i128::MIN {
            return Err(PositionFailure::Aborted);
        }
        let net_pnl_for_vault = -trade.collateral;
        let oi_delta = match trade.collateral.checked_mul(trade.leverage as i128) {
            Some(v) => v,
            None => return Err(PositionFailure::Aborted),
        };
        Ok(TradeLiquidated { amount_to_vault: trade.collateral, net_pnl_for_vault, oi_delta })
    }

    /// Moves a trade's take-profit and stop-loss, unless the manager is `paused`.
    pub fn update_tp_sl(paused: bool, trade: Option<Trade>, tp_price: i128, sl_price: i128) -> (r: Result<Trade, PositionManagerError>)
        ensures
            r == if paused {
                Err::<Trade, PositionManagerError>(PositionManagerError::Paused)
            } else {
                match trade {
                    None => Err::<Trade, PositionManagerError>(PositionManagerError::TradeNotFound),
                    Some(t) => Ok(Trade { tp_price, sl_price, ..t }),
                }
            },
    {
        if paused {
            return Err(PositionManagerError::Paused);
        }
        let mut trade = match trade {
            Some(t) => t,
            None => return Err(PositionManagerError::TradeNotFound),
        };
        trade.tp_price = tp_price;
        trade.sl_price = sl_price;
        Ok(trade)
    }

    /// Closes a trade whose take-profit or stop-loss the oracle price has
    /// reached, unless the manager is `paused`.
    pub fn execute_tp_sl(
        paused: bool,
        trade: Option<Trade>,
        pair: Option<&PairInfo>,
        group: Option<&Group>,
        price: Option<i128>,
    ) -> (r: Result<TradeClosed, PositionFailure>)
        ensures
            r == tp_sl_execute_spec(paused, trade, pair, group, price),
    {
        if paused {
            return Err(PositionFailure::Rejected(PositionManagerError::Paused));
        }
        let trade = match trade {
            Some(t) => t,
            None => return Err(PositionFailure::Rejected(PositionManagerError::TradeNotFound)),
        };
        let pair = match pair {
            Some(p) => p,
            None => return Err(PositionFailure::Aborted),
        };
        let current = match price {
            Some(px) => px,
            None => return Err(PositionFailure::Rejected(PositionManagerError::OracleUnavailable)),
        };
        let mut condition_met = false;
        if trade.is_long {
            if trade.tp_price > 0 && current >= trade.tp_price {
                condition_met = true;
            }
            if trade.sl_price > 0 && current <= trade.sl_price {
                condition_met = true;
            }
        } else {
            if trade.tp_price > 0 && current <= trade.tp_price {
                condition_met = true;
            }
            if trade.sl_price > 0 && current >= trade.sl_price {
                condition_met = true;
            }
        }
        if !condition_met {
            return Err(PositionFailure::Rejected(PositionManagerError::PriceMismatch));
        }
        let group = match group {
            Some(g) => g,
            None => return Err(PositionFailure::Aborted),
        };
        close_trade(&trade, current, pair.max_gain_p, pair.liq_threshold_p, group.close_fee_p, true)
    }
}

// ───────────────────────────── laws ─────────────────────────────

/// The slot a new trade or order takes is free, and every slot before it is taken.
pub proof fn lemma_first_free_is_least_free(occupied: Seq<bool>, from: int)
    requires
        0 <= from,
        occupied.len() <= u32::MAX,
    ensures
        first_free(occupied, from) matches Some(i) ==> from <= i < occupied.len() && !occupied[i as int]
            && forall|j: int| from <= j < i ==> occupied[j],
        first_free(occupied, from) is None ==> forall|j: int| from <= j < occupied.len() ==> occupied[j],
    decreases occupied.len() - from,
{
    if from < occupied.len() && occupied[from] {
        lemma_first_free_is_least_free(occupied, from + 1);
    }
}

/// A disabled pair takes no new position: a market order, a limit placement
/// of valid size and leverage, or the execution of a limit order placed
/// before the pair was disabled, is refused with `PairDisabled` (while the
/// manager is not paused).
pub proof fn lemma_disabled_pair_takes_no_order(
    pair_index: u32, is_long: bool, collateral: i128, leverage: u32, limit_price: i128, tp_price: i128, sl_price: i128,
    pair: PairInfo, price: Option<i128>, group: Option<&Group>, occupied: Seq<bool>, order: LimitOrder,
)
    requires
        pair.disabled,
    ensures
        collateral > 0 && leverage > 0 ==> market_open_spec(false, pair_index, is_long, collateral, leverage, tp_price, sl_price, Some(&pair), price, group, occupied)
            == Err::<TradeOpened, PositionFailure>(PositionFailure::Rejected(PositionManagerError::PairDisabled)),
        collateral > 0 && leverage > 0 && limit_price > 0 ==> limit_place_spec(false, pair_index, is_long, collateral, leverage, limit_price, tp_price, sl_price, Some(&pair), occupied)
            == Err::<(u32, LimitOrder), PositionFailure>(PositionFailure::Rejected(PositionManagerError::PairDisabled)),
        group is Some ==> limit_execute_spec(false, pair_index, Some(order), Some(&pair), group, price, occupied)
            == Err::<TradeOpened, PositionFailure>(PositionFailure::Rejected(PositionManagerError::PairDisabled)),
{
}

/// A paused manager refuses every order-taking entry point with `Paused`,
/// before any other check.
pub proof fn lemma_paused_refuses_first(
    pair_index: u32, is_long: bool, collateral: i128, leverage: u32, limit_price: i128, tp_price: i128, sl_price: i128,
    pair: Option<&PairInfo>, price: Option<i128>, group: Option<&Group>, occupied: Seq<bool>, order: Option<LimitOrder>,
)
    ensures
        market_open_spec(true, pair_index, is_long, collateral, leverage, tp_price, sl_price, pair, price, group, occupied)
            == Err::<TradeOpened, PositionFailure>(PositionFailure::Rejected(PositionManagerError::Paused)),
        limit_place_spec(true, pair_index, is_long, collateral, leverage, limit_price, tp_price, sl_price, pair, occupied)
            == Err::<(u32, LimitOrder), PositionFailure>(PositionFailure::Rejected(PositionManagerError::Paused)),
        limit_execute_spec(true, pair_index, order, pair, group, price, occupied)
            == Err::<TradeOpened, PositionFailure>(PositionFailure::Rejected(PositionManagerError::Paused)),
{
}

/// A floored-then-truncated fraction of a non-negative amount has the sign of
/// its rate: the PnL amount of a positive collateral follows the PnL percentage.
proof fn lemma_pnl_amount_sign(collateral: int, pnl_p: int)
    requires
        collateral > 0,
    ensures
        pnl_p >= 0 ==> crate::liq::pnl_amount(collateral, pnl_p) >= 0,
        pnl_p <= 0 ==> crate::liq::pnl_amount(collateral, pnl_p) <= 0,
{
    let x = collateral * pnl_p;
    if pnl_p >= 0 {
        assert(x >= 0) by (nonlinear_arith)
            requires
                collateral > 0,
                pnl_p >= 0,
                x == collateral * pnl_p,
        ;
        vstd::arithmetic::div_mod::lemma_div_pos_is_pos(x, P_SCALE as int);
        vstd::arithmetic::div_mod::lemma_div_pos_is_pos(x / (P_SCALE as int), 100);
    }
    if pnl_p <= 0 {
        assert(x <= 0) by (nonlinear_arith)
            requires
                collateral > 0,
                pnl_p <= 0,
                x == collateral * pnl_p,
        ;
        vstd::arithmetic::div_mod::lemma_div_is_ordered(x, 0, P_SCALE as int);
        vstd::arithmetic::div_mod::lemma_div_of0(P_SCALE as int);
        vstd::arithmetic::div_mod::lemma_div_pos_is_pos(-(x / (P_SCALE as int)), 100);
    }
}

/// A close pays by the price move on the trade's own side. When the price has
/// moved in the trade's favour (up for a long, down for a short), the trader's
/// payout plus the close fee kept covers the whole collateral; when it has
/// moved against the trade (down for a long, up for a short), the payout is at
/// most the collateral. Stated for a valid trade (positive collateral and open
/// price, leverage at least 1), a non-negative close fee rate and a
/// liquidation threshold between 1 and 100.
pub proof fn lemma_close_pays_by_the_price_move(
    trade: Trade, price: i128, max_gain_p: u32, liq_threshold_p: u32, close_fee_p: i128, pnl_traps: bool,
)
    requires
        trade.collateral > 0,
        trade.open_price > 0,
        trade.leverage >= 1,
        close_fee_p >= 0,
        1 <= liq_threshold_p <= 100,
    ensures
        closed_trade_spec(trade, price, max_gain_p, liq_threshold_p, close_fee_p as int, pnl_traps) matches Ok(c)
            ==> (if trade.is_long { price >= trade.open_price } else { price <= trade.open_price })
            ==> c.gross_payout + c.close_fee_charged >= trade.collateral,
        closed_trade_spec(trade, price, max_gain_p, liq_threshold_p, close_fee_p as int, pnl_traps) matches Ok(c)
            ==> (if trade.is_long { price < trade.open_price } else { price > trade.open_price })
            ==> c.gross_payout <= trade.collateral,
{
    let col = trade.collateral as int;
    crate::fees::lemma_percent_profit_sign(trade.open_price, price, trade.is_long, trade.leverage, max_gain_p);
    match percent_profit_spec(trade.open_price as int, price as int, trade.is_long, trade.leverage as int, max_gain_p as int) {
        Ok(pnl_p) => {
            lemma_pnl_amount_sign(col, pnl_p as int);
            let notional = col * trade.leverage;
            assert(notional >= 0) by (nonlinear_arith)
                requires
                    col > 0,
                    trade.leverage >= 1,
                    notional == col * trade.leverage,
            ;
            assert(notional * close_fee_p >= 0) by (nonlinear_arith)
                requires
                    notional >= 0,
                    close_fee_p >= 0,
            ;
            vstd::arithmetic::div_mod::lemma_div_pos_is_pos(notional * close_fee_p, P_SCALE as int);
            // The insolvency cutoff lies below the collateral.
            let rem = 100 - liq_threshold_p;
            assert(col * rem <= col * 99 && col * rem >= 0) by (nonlinear_arith)
                requires
                    col > 0,
                    0 <= rem <= 99,
            ;
            vstd::arithmetic::div_mod::lemma_div_is_ordered(col * rem, col * 99, 100);
            assert((col * 99) / 100 < col) by {
                vstd::arithmetic::div_mod::lemma_fundamental_div_mod(col * 99, 100);
                vstd::arithmetic::div_mod::lemma_mod_bound(col * 99, 100);
            }
        },
        Err(_) => {},
    }
}

/// A liquidation succeeds only once the oracle price has crossed the trade's
/// own-side liquidation price: at or below it for a long, at or above it for a
/// short (a zero liquidation price never triggers). Conversely, when it has
/// crossed and the computation completes, the vault takes the whole collateral.
pub proof fn lemma_liquidation_only_past_the_liquidation_price(trade: Trade, pair: PairInfo, px: i128)
    ensures
        liquidation_spec(Some(trade), Some(&pair), Some(px)) matches Ok(_)
            ==> liquidation_price_spec(trade.open_price as int, trade.is_long, trade.collateral as int, trade.leverage as int, 0, 0, pair.liq_threshold_p as int)
                matches Ok(liq) && liq != 0 && (if trade.is_long { px <= liq } else { px >= liq }),
        liquidation_price_spec(trade.open_price as int, trade.is_long, trade.collateral as int, trade.leverage as int, 0, 0, pair.liq_threshold_p as int)
            matches Ok(liq)
            ==> liq != 0 && (if trade.is_long { px <= liq } else { px >= liq })
            ==> !liq_traps(trade.open_price as int, trade.collateral as int, trade.leverage as int, pair.liq_threshold_p as int, 0, 0)
            ==> trade.collateral != i128::MIN && fits_i128(trade.collateral * trade.leverage)
            ==> (liquidation_spec(Some(trade), Some(&pair), Some(px)) matches Ok(l)
                && l.amount_to_vault == trade.collateral && l.net_pnl_for_vault == -trade.collateral),
{
}

/// A trade is never liquidated while in profit: a long whose oracle price is
/// above its open price, or a short whose oracle price is below it, is refused.
pub proof fn lemma_profitable_trade_is_not_liquidated(trade: Trade, pair: PairInfo, px: i128)
    requires
        trade.collateral > 0,
        trade.open_price > 0,
        trade.leverage >= 1,
    ensures
        (if trade.is_long { px > trade.open_price } else { px < trade.open_price })
            ==> !(liquidation_spec(Some(trade), Some(&pair), Some(px)) is Ok),
{
    let col = trade.collateral as int;
    let open = trade.open_price as int;
    let lt = pair.liq_threshold_p as int;
    let scaled = col * lt;
    assert(scaled >= 0) by (nonlinear_arith)
        requires
            col > 0,
            lt >= 0,
            scaled == col * lt,
    ;
    vstd::arithmetic::div_mod::lemma_div_pos_is_pos(scaled, 100);
    let numer = crate::liq::liq_numerator(col, lt, 0, 0);
    assert(numer >= 0);
    assert(open * numer >= 0) by (nonlinear_arith)
        requires
            open > 0,
            numer >= 0,
    ;
    vstd::arithmetic::div_mod::lemma_div_pos_is_pos(open * numer, col);
    vstd::arithmetic::div_mod::lemma_div_pos_is_pos((open * numer) / col, trade.leverage as int);
}

/// Take-profit and stop-loss trigger on the trade's own side. A long closes
/// once the price is at or above its take-profit or at or below its stop-loss,
/// a short once the price is at or below its take-profit or at or above its
/// stop-loss (a zero level is unset); at any other price the execution is
/// refused with `PriceMismatch`.
pub proof fn lemma_tp_sl_triggers_by_side(trade: Trade, pair: PairInfo, group: Group, px: i128)
    ensures
        ({
            let r = tp_sl_execute_spec(false, Some(trade), Some(&pair), Some(&group), Some(px));
            let closes = r == closed_trade_spec(trade, px, pair.max_gain_p, pair.liq_threshold_p, group.close_fee_p as int, true);
            let refused = r == Err::<TradeClosed, PositionFailure>(PositionFailure::Rejected(PositionManagerError::PriceMismatch));
            &&& trade.is_long && trade.tp_price > 0 && px >= trade.tp_price ==> closes
            &&& trade.is_long && trade.sl_price > 0 && px <= trade.sl_price ==> closes
            &&& trade.is_long && (trade.tp_price <= 0 || px < trade.tp_price) && (trade.sl_price <= 0 || px > trade.sl_price) ==> refused
            &&& !trade.is_long && trade.tp_price > 0 && px <= trade.tp_price ==> closes
            &&& !trade.is_long && trade.sl_price > 0 && px >= trade.sl_price ==> closes
            &&& !trade.is_long && (trade.tp_price <= 0 || px > trade.tp_price) && (trade.sl_price <= 0 || px < trade.sl_price) ==> refused
        }),
{
}

/// A limit order executes only once the price has reached its limit on the
/// order's own side: a long at or below its limit, a short at or above it;
/// on the wrong side of the limit it is refused with `PriceMismatch`.
pub proof fn lemma_limit_executes_by_side(
    pair_index: u32, order: LimitOrder, pair: PairInfo, group: Group, px: i128, occupied: Seq<bool>,
)
    requires
        !pair.disabled,
    ensures
        ({
            let r = limit_execute_spec(false, pair_index, Some(order), Some(&pair), Some(&group), Some(px), occupied);
            let opens = r == opened_trade_spec(pair_index, order.is_long, order.collateral as int, order.leverage, px,
                order.tp_price, order.sl_price, group.open_fee_p as int, occupied, false);
            let refused = r == Err::<TradeOpened, PositionFailure>(PositionFailure::Rejected(PositionManagerError::PriceMismatch));
            &&& order.is_long && px <= order.limit_price ==> opens
            &&& order.is_long && px > order.limit_price ==> refused
            &&& !order.is_long && px >= order.limit_price ==> opens
            &&& !order.is_long && px < order.limit_price ==> refused
        }),
{
}

/// Opening takes exactly the open fee: the trade's effective collateral plus
/// the fee equal the collateral put up, and the open interest added is the
/// effective collateral times the leverage.
pub proof fn lemma_open_takes_only_the_fee(
    pair_index: u32, is_long: bool, collateral: i128, leverage: u32, open_price: i128, tp_price: i128, sl_price: i128,
    open_fee_p: i128, occupied: Seq<bool>, require_positive: bool,
)
    ensures
        opened_trade_spec(pair_index, is_long, collateral as int, leverage, open_price, tp_price, sl_price, open_fee_p as int, occupied, require_positive)
            matches Ok(o) ==> fee_on(collateral * leverage, open_fee_p as int) matches Ok(fee)
            && o.trade.collateral + fee == collateral
            && o.oi_delta == o.trade.collateral * leverage
            && (require_positive ==> o.trade.collateral > 0),
{
}

/// Closing splits the collateral between the close fee the manager keeps and
/// what it sends the vault, and the vault pays the trader exactly that amount
/// plus its side of the PnL.
pub proof fn lemma_close_conserves_collateral(
    trade: Trade, price: i128, max_gain_p: u32, liq_threshold_p: u32, close_fee_p: i128, pnl_traps: bool,
)
    ensures
        closed_trade_spec(trade, price, max_gain_p, liq_threshold_p, close_fee_p as int, pnl_traps) matches Ok(c)
            ==> c.amount_to_vault + c.close_fee_charged == trade.collateral
            && c.amount_to_vault + c.net_pnl_for_vault == c.gross_payout
            && c.gross_payout >= 0,
{
    crate::liq::lemma_settlement_conserves_value(trade.collateral, 0, 0, 0, 0, liq_threshold_p);
    match percent_profit_spec(trade.open_price as int, price as int, trade.is_long, trade.leverage as int, max_gain_p as int) {
        Ok(pnl_p) => {
            let notional = trade.collateral * trade.leverage;
            match fee_on(notional, close_fee_p as int) {
                Ok(close_fee) => {
                    crate::liq::lemma_settlement_conserves_value(trade.collateral, pnl_p, 0, 0, close_fee, liq_threshold_p);
                },
                Err(_) => {},
            }
        },
        Err(_) => {},
    }
}

/// The vault pays the trader exactly what the position manager settled. For a
/// close, the vault's settlement returns the close's gross payout and moves its
/// assets by minus the vault's side of the PnL; for a liquidation, it pays
/// nothing and keeps the whole collateral. Both hold whenever the vault's
/// assets cover the settlement.
pub proof fn lemma_vault_pays_what_was_settled(
    totals: VaultTotals, trade: Trade, price: i128, max_gain_p: u32, liq_threshold_p: u32, close_fee_p: i128, pnl_traps: bool,
    pair: PairInfo,
)
    ensures
        closed_trade_spec(trade, price, max_gain_p, liq_threshold_p, close_fee_p as int, pnl_traps) matches Ok(c)
            ==> c.amount_to_vault >= 0 && 0 <= totals.total_assets - c.net_pnl_for_vault <= i128::MAX
            ==> settle_spec(totals, c.amount_to_vault as int, c.net_pnl_for_vault as int)
                == Ok::<(VaultTotals, i128), VaultError>((
                    VaultTotals { total_assets: (totals.total_assets - c.net_pnl_for_vault) as i128, ..totals },
                    c.gross_payout,
                )),
        liquidation_spec(Some(trade), Some(&pair), Some(price)) matches Ok(l)
            ==> l.amount_to_vault >= 0 && 0 <= totals.total_assets + l.amount_to_vault <= i128::MAX
            ==> settle_spec(totals, l.amount_to_vault as int, l.net_pnl_for_vault as int)
                == Ok::<(VaultTotals, i128), VaultError>((
                    VaultTotals { total_assets: (totals.total_assets + l.amount_to_vault) as i128, ..totals },
                    0,
                )),
{
    lemma_close_conserves_collateral(trade, price, max_gain_p, liq_threshold_p, close_fee_p, pnl_traps);
}

/// A round trip at an unchanged price with no close fee pays back the
/// effective collateral in full (for a pair whose liquidation threshold is a
/// valid percentage).
pub proof fn lemma_round_trip_at_same_price_pays_back(trade: Trade, max_gain_p: u32, liq_threshold_p: u32, pnl_traps: bool)
    requires
        trade.collateral > 0,
        trade.open_price > 0,
        1 <= liq_threshold_p <= 100,
    ensures
        closed_trade_spec(trade, trade.open_price, max_gain_p, liq_threshold_p, 0, pnl_traps) matches Ok(c)
            ==> c.gross_payout == trade.collateral && c.close_fee_charged == 0 && c.net_pnl_for_vault == 0,
{
    let c = trade.collateral as int;
    let open = trade.open_price as int;
    assert(crate::fees::favourable_move(open, open, trade.is_long) == 0);
    assert(0 * (P_SCALE as int) == 0);
    vstd::arithmetic::div_mod::lemma_div_of0(open);
    assert(crate::arith::floor_div(0, open) == 0);
    assert(0 * (trade.leverage as int) == 0);
    vstd::arithmetic::div_mod::lemma_div_of0(P_SCALE as int);
    assert(crate::arith::floor_div(0, P_SCALE as int) == 0);
    vstd::arithmetic::div_mod::lemma_div_of0(100);
    assert(c * 0 == 0);
    let rem = 100 - liq_threshold_p;
    assert(c * rem <= c * 99) by (nonlinear_arith)
        requires
            c > 0,
            rem <= 99,
    ;
    assert(c * rem >= 0) by (nonlinear_arith)
        requires
            c > 0,
            rem >= 0,
    ;
    vstd::arithmetic::div_mod::lemma_div_is_ordered(c * rem, c * 99, 100);
    assert((c * 99) / 100 < c) by {
        vstd::arithmetic::div_mod::lemma_fundamental_div_mod(c * 99, 100);
        vstd::arithmetic::div_mod::lemma_mod_bound(c * 99, 100);
    }
    assert(crate::arith::trunc_div(c * rem, 100) < c);
    let notional = c * trade.leverage;
    assert(notional * 0 == 0);
}

} // verus!
