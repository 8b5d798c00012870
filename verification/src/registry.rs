//! The pair registry: per-pair configuration, group fee configuration, the
//! rollover and funding accumulators and per-side open interest.
//!
//! Each entry point is a function from the stored records it reads (and its
//! arguments) to the records it writes and the value it returns. Authorization
//! (admin or position manager) and the storage itself stand outside these
//! functions; everything the registry decides stands inside them.

use vstd::prelude::*;

use crate::arith::{fits_i128, MathError};
use crate::fees::{
    funding_accs_spec, funding_fee_for_trade, funding_fee_spec, lemma_funding_long_heavy_longs_pay,
    lemma_rollover_acc_monotonic, pending_acc_funding, pending_acc_rollover, rollover_acc_spec, rollover_fee_for_trade,
    rollover_fee_spec,
};
use crate::liq::{is_liquidatable, liquidatable_spec, liq_traps, liquidation_price, liquidation_price_spec, liquidation_traps};
use crate::oracle::ReflectorAsset;
use crate::scale::USDC_SCALE;

verus! {

/// Errors raised by the registry.
#[derive(Clone, Copy, Debug, PartialEq, Eq, Structural)]
pub enum PairRegistryError {
    /// `init` called twice.
    AlreadyInitialized,
    /// Entry point requires the registry to have been initialized.
    NotInitialized,
    /// Caller is not the admin.
    NotAdmin,
    /// Caller is not the pinned position manager.
    NotPositionManager,
    /// Pair index has no configuration.
    PairNotFound,
    /// Pair already exists at the given index.
    PairAlreadyExists,
    /// Group index has no configuration.
    GroupNotFound,
    /// Group already exists at the given index.
    GroupAlreadyExists,
    /// Numeric input outside the accepted range.
    InvalidParam,
    /// Underlying math overflowed or divided by zero.
    MathFault,
    /// A commit was asked for a ledger before the last committed one.
    StaleLedger,
}

impl PairRegistryError {
    /// The error's stable numeric code.
    pub open spec fn numeric_code(self) -> u32 {
        match self {
            PairRegistryError::AlreadyInitialized => 1,
            PairRegistryError::NotInitialized => 2,
            PairRegistryError::NotAdmin => 3,
            PairRegistryError::NotPositionManager => 4,
            PairRegistryError::PairNotFound => 5,
            PairRegistryError::PairAlreadyExists => 6,
            PairRegistryError::GroupNotFound => 7,
            PairRegistryError::GroupAlreadyExists => 8,
            PairRegistryError::InvalidParam => 9,
            PairRegistryError::MathFault => 10,
            PairRegistryError::StaleLedger => 11,
        }
    }

    /// The error's stable numeric code.
    pub fn code(self) -> (r: u32)
        ensures
            r == self.numeric_code(),
    {
        match self {
            PairRegistryError::AlreadyInitialized => 1,
            PairRegistryError::NotInitialized => 2,
            PairRegistryError::NotAdmin => 3,
            PairRegistryError::NotPositionManager => 4,
            PairRegistryError::PairNotFound => 5,
            PairRegistryError::PairAlreadyExists => 6,
            PairRegistryError::GroupNotFound => 7,
            PairRegistryError::GroupAlreadyExists => 8,
            PairRegistryError::InvalidParam => 9,
            PairRegistryError::MathFault => 10,
            PairRegistryError::StaleLedger => 11,
        }
    }
}

/// Per-pair configuration. `spread_p` and `max_neg_pnl_p` are at `P_SCALE`,
/// `min_lev_pos_usdc` and `max_oi_usdc` at `USDC_SCALE`, `liq_threshold_p` and
/// `max_gain_p` integer percents.
#[derive(Clone, Debug, PartialEq, Eq)]
pub struct PairInfo {
    pub symbol: String,
    pub reflector_asset: ReflectorAsset,
    pub group_index: u32,
    pub spread_p: i128,
    pub min_leverage: u32,
    pub max_leverage: u32,
    pub min_lev_pos_usdc: i128,
    pub max_oi_usdc: i128,
    pub max_neg_pnl_p: i128,
    pub liq_threshold_p: u32,
    pub max_gain_p: u32,
    pub disabled: bool,
}

/// Group configuration shared by several pairs; fees at `P_SCALE`.
#[derive(Clone, Debug, PartialEq, Eq)]
pub struct Group {
    pub name: String,
    pub max_collateral_usdc: i128,
    pub open_fee_p: i128,
    pub close_fee_p: i128,
}

/// Rollover accumulator state of a pair.
#[derive(Clone, Copy, Debug, PartialEq, Eq, Structural)]
pub struct RolloverState {
    /// Monotonic accumulator, USDC per unit of collateral.
    pub acc_per_collateral: i128,
    /// Rate per ledger at `P_SCALE`.
    pub fee_per_ledger_p: i128,
    /// Ledger at which the accumulator was last committed.
    pub last_update_ledger: u32,
}

impl Default for RolloverState {
    fn default() -> (r: RolloverState)
        ensures
            r == (RolloverState { acc_per_collateral: 0, fee_per_ledger_p: 0, last_update_ledger: 0 }),
    {
        RolloverState { acc_per_collateral: 0, fee_per_ledger_p: 0, last_update_ledger: 0 }
    }
}

/// Funding accumulator state of a pair (asymmetric long/short).
#[derive(Clone, Copy, Debug, PartialEq, Eq, Structural)]
pub struct FundingState {
    pub acc_long: i128,
    pub acc_short: i128,
    /// Rate per ledger at `P_SCALE`.
    pub fee_per_ledger_p: i128,
    /// Ledger at which the accumulators were last committed.
    pub last_update_ledger: u32,
}

impl Default for FundingState {
    fn default() -> (r: FundingState)
        ensures
            r == (FundingState { acc_long: 0, acc_short: 0, fee_per_ledger_p: 0, last_update_ledger: 0 }),
    {
        FundingState { acc_long: 0, acc_short: 0, fee_per_ledger_p: 0, last_update_ledger: 0 }
    }
}

/// Per-side open interest, USDC at `USDC_SCALE`.
#[derive(Clone, Copy, Debug, PartialEq, Eq, Structural)]
pub struct PairOi {
    pub long: i128,
    pub short: i128,
}

impl Default for PairOi {
    fn default() -> (r: PairOi)
        ensures
            r == (PairOi { long: 0, short: 0 }),
    {
        PairOi { long: 0, short: 0 }
    }
}

/// The part of a trade that liquidation views need.
#[derive(Clone, Copy, Debug, PartialEq, Eq, Structural)]
pub struct TradeMeta {
    pub pair_index: u32,
    pub is_long: bool,
    pub leverage: u32,
    pub open_price: i128,
    /// Effective collateral (net of the open fee).
    pub collateral: i128,
    /// Rollover accumulator at open.
    pub acc_rollover_open: i128,
    /// This side's funding accumulator at open.
    pub acc_funding_open: i128,
}

/// What `add_pair` stores: the pair, its freshly seeded accumulators and the new count.
#[derive(Debug)]
pub struct PairAdded {
    pub pair: PairInfo,
    pub rollover: RolloverState,
    pub funding: FundingState,
    pub pairs_count: u32,
}

// ───────────────────────────── validation ─────────────────────────────

/// The accepted pair configurations.
pub open spec fn pair_info_valid(pair: PairInfo) -> bool {
    &&& pair.min_leverage != 0
    &&& pair.max_leverage != 0
    &&& pair.max_leverage >= pair.min_leverage
    &&& pair.spread_p >= 0
    &&& pair.min_lev_pos_usdc >= 0
    &&& pair.max_oi_usdc >= 0
    &&& pair.max_neg_pnl_p >= 0
    &&& 1 <= pair.liq_threshold_p <= 100
    &&& pair.max_gain_p != 0
}

/// The accepted group configurations.
pub open spec fn group_valid(group: Group) -> bool {
    group.max_collateral_usdc >= 0 && group.open_fee_p >= 0 && group.close_fee_p >= 0
}

/// Rejects a pair configuration outside the accepted ranges.
pub fn validate_pair_info(pair: &PairInfo) -> (r: Result<(), PairRegistryError>)
    ensures
        r == if pair_info_valid(*pair) { Ok::<(), PairRegistryError>(()) } else { Err(PairRegistryError::InvalidParam) },
{
    if pair.min_leverage == 0 || pair.max_leverage == 0 || pair.max_leverage < pair.min_leverage || pair.spread_p < 0
        || pair.min_lev_pos_usdc < 0 || pair.max_oi_usdc < 0 || pair.max_neg_pnl_p < 0 || pair.liq_threshold_p == 0
        || pair.liq_threshold_p > 100 || pair.max_gain_p == 0 {
        return Err(PairRegistryError::InvalidParam);
    }
    Ok(())
}

/// Rejects a group configuration with a negative cap or fee.
pub fn validate_group(group: &Group) -> (r: Result<(), PairRegistryError>)
    ensures
        r == if group_valid(*group) { Ok::<(), PairRegistryError>(()) } else { Err(PairRegistryError::InvalidParam) },
{
    if group.max_collateral_usdc < 0 || group.open_fee_p < 0 || group.close_fee_p < 0 {
        return Err(PairRegistryError::InvalidParam);
    }
    Ok(())
}

/// Any fixed-point failure becomes `MathFault`.
pub open spec fn math_to_registry<T>(r: Result<T, MathError>) -> Result<T, PairRegistryError> {
    match r {
        Ok(v) => Ok(v),
        Err(_) => Err(PairRegistryError::MathFault),
    }
}

/// Maps any fixed-point failure to `MathFault`.
pub fn map_math_err<T>(r: Result<T, MathError>) -> (out: Result<T, PairRegistryError>)
    ensures
        out == math_to_registry(r),
{
    match r {
        Ok(v) => Ok(v),
        Err(_) => Err(PairRegistryError::MathFault),
    }
}

/// Ledgers elapsed from `state_last` to `at_ledger`; a ledger in the past is stale.
pub fn delta_ledgers_to(state_last: u32, at_ledger: u32) -> (r: Result<u32, PairRegistryError>)
    ensures
        r == if at_ledger < state_last {
            Err::<u32, PairRegistryError>(PairRegistryError::StaleLedger)
        } else {
            Ok((at_ledger - state_last) as u32)
        },
{
    if at_ledger < state_last {
        return Err(PairRegistryError::StaleLedger);
    }
    Ok(at_ledger - state_last)
}

// ───────────────────────────── entry points ─────────────────────────────

/// The rollover accumulator projected to `at_ledger` (never before its last commit).
pub open spec fn projected_rollover(state: RolloverState, at_ledger: int) -> Result<i128, PairRegistryError> {
    if at_ledger <= state.last_update_ledger {
        Ok(state.acc_per_collateral)
    } else {
        math_to_registry(rollover_acc_spec(
            state.acc_per_collateral as int,
            at_ledger - state.last_update_ledger,
            state.fee_per_ledger_p as int,
            USDC_SCALE as int,
        ))
    }
}

/// The funding accumulators projected to `at_ledger` (never before their last commit).
pub open spec fn projected_funding(state: FundingState, oi: PairOi, at_ledger: int) -> Result<(i128, i128), PairRegistryError> {
    if at_ledger <= state.last_update_ledger {
        Ok((state.acc_long, state.acc_short))
    } else {
        math_to_registry(funding_accs_spec(
            state.acc_long as int,
            state.acc_short as int,
            oi.long as int,
            oi.short as int,
            at_ledger - state.last_update_ledger,
            state.fee_per_ledger_p as int,
            USDC_SCALE as int,
        ))
    }
}

/// The fees a trade has accrued by `at_ledger`: `(rollover_fee, funding_fee)`.
pub open spec fn trade_fees(rollover: RolloverState, funding: FundingState, oi: PairOi, trade: TradeMeta, at_ledger: int)
    -> Result<(i128, i128), PairRegistryError>
{
    match projected_rollover(rollover, at_ledger) {
        Err(e) => Err(e),
        Ok(acc_rollover_now) => match projected_funding(funding, oi, at_ledger) {
            Err(e) => Err(e),
            Ok((acc_long_now, acc_short_now)) => {
                let acc_funding_now = if trade.is_long { acc_long_now } else { acc_short_now };
                match math_to_registry(rollover_fee_spec(
                    trade.acc_rollover_open as int,
                    acc_rollover_now as int,
                    trade.collateral as int,
                    USDC_SCALE as int,
                )) {
                    Err(e) => Err(e),
                    Ok(rollover_fee) => match math_to_registry(funding_fee_spec(
                        trade.acc_funding_open as int,
                        acc_funding_now as int,
                        trade.collateral as int,
                        trade.leverage as int,
                        USDC_SCALE as int,
                    )) {
                        Err(e) => Err(e),
                        Ok(funding_fee) => Ok((rollover_fee, funding_fee)),
                    },
                }
            },
        },
    }
}

/// The trade's liquidation price with its fees projected to `at_ledger`.
pub open spec fn trade_liquidation_price_spec(
    pair: PairInfo, rollover: RolloverState, funding: FundingState, oi: PairOi, trade: TradeMeta, at_ledger: int,
) -> Result<i128, PairRegistryError> {
    match trade_fees(rollover, funding, oi, trade, at_ledger) {
        Err(e) => Err(e),
        Ok((rollover_fee, funding_fee)) => math_to_registry(liquidation_price_spec(
            trade.open_price as int,
            trade.is_long,
            trade.collateral as int,
            trade.leverage as int,
            rollover_fee as int,
            funding_fee as int,
            pair.liq_threshold_p as int,
        )),
    }
}

/// The one input on which the liquidation computation cannot complete.
pub open spec fn trade_liquidation_traps(
    pair: PairInfo, rollover: RolloverState, funding: FundingState, oi: PairOi, trade: TradeMeta, at_ledger: int,
) -> bool {
    match trade_fees(rollover, funding, oi, trade, at_ledger) {
        Err(_) => false,
        Ok((rollover_fee, funding_fee)) => liq_traps(
            trade.open_price as int,
            trade.collateral as int,
            trade.leverage as int,
            pair.liq_threshold_p as int,
            rollover_fee as int,
            funding_fee as int,
        ),
    }
}

/// What committing the rollover accumulator up to `at_ledger` does: refused
/// for an unknown pair or a ledger before the last commit; nothing to store
/// when no ledger has passed; otherwise the projected accumulator, stored with
/// `at_ledger` as its last commit. The second component is the accumulator.
pub open spec fn rollover_commit_spec(pair_exists: bool, state: RolloverState, at_ledger: u32)
    -> Result<(Option<RolloverState>, i128), PairRegistryError>
{
    if !pair_exists {
        Err(PairRegistryError::PairNotFound)
    } else if at_ledger < state.last_update_ledger {
        Err(PairRegistryError::StaleLedger)
    } else if at_ledger == state.last_update_ledger {
        Ok((None, state.acc_per_collateral))
    } else {
        match projected_rollover(state, at_ledger as int) {
            Err(e) => Err(e),
            Ok(acc) => Ok((Some(RolloverState { acc_per_collateral: acc, last_update_ledger: at_ledger, ..state }), acc)),
        }
    }
}

/// What committing the funding accumulators up to `at_ledger` does, as for
/// the rollover accumulator; the second component is `(acc_long, acc_short)`.
pub open spec fn funding_commit_spec(pair_exists: bool, state: FundingState, oi: PairOi, at_ledger: u32)
    -> Result<(Option<FundingState>, (i128, i128)), PairRegistryError>
{
    if !pair_exists {
        Err(PairRegistryError::PairNotFound)
    } else if at_ledger < state.last_update_ledger {
        Err(PairRegistryError::StaleLedger)
    } else if at_ledger == state.last_update_ledger {
        Ok((None, (state.acc_long, state.acc_short)))
    } else {
        match projected_funding(state, oi, at_ledger as int) {
            Err(e) => Err(e),
            Ok((l, s)) => Ok((Some(FundingState { acc_long: l, acc_short: s, last_update_ledger: at_ledger, ..state }), (l, s))),
        }
    }
}

/// The registry's entry points, over the records they read and write.
pub struct PairRegistryContract;

impl PairRegistryContract {
    /// One-shot initialization: refused when already initialized or when the
    /// maximum position is negative. On success the registry stores the admin,
    /// the position manager, `max_pos_usdc` and a pair count of zero.
    pub fn init(already_initialized: bool, max_pos_usdc: i128) -> (r: Result<(), PairRegistryError>)
        ensures
            r == if already_initialized {
                Err::<(), PairRegistryError>(PairRegistryError::AlreadyInitialized)
            } else if max_pos_usdc < 0 {
                Err(PairRegistryError::InvalidParam)
            } else {
                Ok(())
            },
    {
        if already_initialized {
            return Err(PairRegistryError::AlreadyInitialized);
        }
        if max_pos_usdc < 0 {
            return Err(PairRegistryError::InvalidParam);
        }
        Ok(())
    }

    /// Adds a pair under an existing group; seeds both accumulators at `now_ledger`
    /// and increments the pair count.
    pub fn add_pair(
        pair: PairInfo,
        pair_exists: bool,
        group_exists: bool,
        pairs_count: u32,
        now_ledger: u32,
    ) -> (r: Result<PairAdded, PairRegistryError>)
        requires
            pair_info_valid(pair) && !pair_exists && group_exists ==> pairs_count < u32::MAX,
        ensures
            !pair_info_valid(pair) ==> r matches Err(PairRegistryError::InvalidParam),
            pair_info_valid(pair) && pair_exists ==> r matches Err(PairRegistryError::PairAlreadyExists),
            pair_info_valid(pair) && !pair_exists && !group_exists ==> r matches Err(PairRegistryError::GroupNotFound),
            pair_info_valid(pair) && !pair_exists && group_exists ==> (r matches Ok(added) && added.pair == pair
                && added.rollover == (RolloverState { acc_per_collateral: 0, fee_per_ledger_p: 0, last_update_ledger: now_ledger })
                && added.funding == (FundingState { acc_long: 0, acc_short: 0, fee_per_ledger_p: 0, last_update_ledger: now_ledger })
                && added.pairs_count == pairs_count + 1),
    {
        validate_pair_info(&pair)?;
        if pair_exists {
            return Err(PairRegistryError::PairAlreadyExists);
        }
        if !group_exists {
            return Err(PairRegistryError::GroupNotFound);
        }
        Ok(PairAdded {
            pair,
            rollover: RolloverState { acc_per_collateral: 0, fee_per_ledger_p: 0, last_update_ledger: now_ledger },
            funding: FundingState { acc_long: 0, acc_short: 0, fee_per_ledger_p: 0, last_update_ledger: now_ledger },
            pairs_count: pairs_count + 1,
        })
    }

    /// Replaces an existing pair's configuration; its group must still exist.
    pub fn update_pair(new_pair: PairInfo, pair_exists: bool, group_exists: bool) -> (r: Result<PairInfo, PairRegistryError>)
        ensures
            !pair_info_valid(new_pair) ==> r matches Err(PairRegistryError::InvalidParam),
            pair_info_valid(new_pair) && !pair_exists ==> r matches Err(PairRegistryError::PairNotFound),
            pair_info_valid(new_pair) && pair_exists && !group_exists ==> r matches Err(PairRegistryError::GroupNotFound),
            pair_info_valid(new_pair) && pair_exists && group_exists ==> r == Ok::<PairInfo, PairRegistryError>(new_pair),
    {
        validate_pair_info(&new_pair)?;
        if !pair_exists {
            return Err(PairRegistryError::PairNotFound);
        }
        if !group_exists {
            return Err(PairRegistryError::GroupNotFound);
        }
        Ok(new_pair)
    }

    /// Sets `disabled` on a stored pair, leaving every other field as it was.
    pub fn disable_pair(stored: Option<PairInfo>) -> (r: Result<PairInfo, PairRegistryError>)
        ensures
            stored is None ==> r matches Err(PairRegistryError::PairNotFound),
            stored matches Some(p) ==> r == Ok::<PairInfo, PairRegistryError>(PairInfo { disabled: true, ..p }),
    {
        let mut pair = Self::get_pair(stored)?;
        pair.disabled = true;
        Ok(pair)
    }

    /// Sets a pair's rollover rate (`P_SCALE`), keeping its accumulator and last commit.
    pub fn set_rollover_rate_p(rate_p: i128, pair_exists: bool, state: RolloverState) -> (r: Result<RolloverState, PairRegistryError>)
        ensures
            r == if rate_p < 0 {
                Err::<RolloverState, PairRegistryError>(PairRegistryError::InvalidParam)
            } else if !pair_exists {
                Err(PairRegistryError::PairNotFound)
            } else {
                Ok(RolloverState { fee_per_ledger_p: rate_p, ..state })
            },
    {
        if rate_p < 0 {
            return Err(PairRegistryError::InvalidParam);
        }
        if !pair_exists {
            return Err(PairRegistryError::PairNotFound);
        }
        let mut state = state;
        state.fee_per_ledger_p = rate_p;
        Ok(state)
    }

    /// Sets a pair's funding rate (`P_SCALE`), keeping its accumulators and last commit.
    pub fn set_funding_rate_p(rate_p: i128, pair_exists: bool, state: FundingState) -> (r: Result<FundingState, PairRegistryError>)
        ensures
            r == if rate_p < 0 {
                Err::<FundingState, PairRegistryError>(PairRegistryError::InvalidParam)
            } else if !pair_exists {
                Err(PairRegistryError::PairNotFound)
            } else {
                Ok(FundingState { fee_per_ledger_p: rate_p, ..state })
            },
    {
        if rate_p < 0 {
            return Err(PairRegistryError::InvalidParam);
        }
        if !pair_exists {
            return Err(PairRegistryError::PairNotFound);
        }
        let mut state = state;
        state.fee_per_ledger_p = rate_p;
        Ok(state)
    }

    /// Sets a pair's one-percent depth (USDC) used by price-impact math.
    pub fn set_one_percent_depth(depth_usdc: i128, pair_exists: bool) -> (r: Result<i128, PairRegistryError>)
        ensures
            r == if depth_usdc < 0 {
                Err::<i128, PairRegistryError>(PairRegistryError::InvalidParam)
            } else if !pair_exists {
                Err(PairRegistryError::PairNotFound)
            } else {
                Ok(depth_usdc)
            },
    {
        if depth_usdc < 0 {
            return Err(PairRegistryError::InvalidParam);
        }
        if !pair_exists {
            return Err(PairRegistryError::PairNotFound);
        }
        Ok(depth_usdc)
    }

    /// Adds a group at a free index.
    pub fn add_group(group: Group, group_exists: bool) -> (r: Result<Group, PairRegistryError>)
        ensures
            !group_valid(group) ==> r matches Err(PairRegistryError::InvalidParam),
            group_valid(group) && group_exists ==> r matches Err(PairRegistryError::GroupAlreadyExists),
            group_valid(group) && !group_exists ==> r == Ok::<Group, PairRegistryError>(group),
    {
        validate_group(&group)?;
        if group_exists {
            return Err(PairRegistryError::GroupAlreadyExists);
        }
        Ok(group)
    }

    /// Replaces an existing group's configuration.
    pub fn update_group(new_group: Group, group_exists: bool) -> (r: Result<Group, PairRegistryError>)
        ensures
            !group_valid(new_group) ==> r matches Err(PairRegistryError::InvalidParam),
            group_valid(new_group) && !group_exists ==> r matches Err(PairRegistryError::GroupNotFound),
            group_valid(new_group) && group_exists ==> r == Ok::<Group, PairRegistryError>(new_group),
    {
        validate_group(&new_group)?;
        if !group_exists {
            return Err(PairRegistryError::GroupNotFound);
        }
        Ok(new_group)
    }

    /// Sets only the open-fee rate of a stored group.
    pub fn set_group_open_fee_p(fee_p: i128, stored: Option<Group>) -> (r: Result<Group, PairRegistryError>)
        ensures
            fee_p < 0 ==> r matches Err(PairRegistryError::InvalidParam),
            fee_p >= 0 && stored is None ==> r matches Err(PairRegistryError::GroupNotFound),
            fee_p >= 0 ==> (stored matches Some(g) ==> r == Ok::<Group, PairRegistryError>(Group { open_fee_p: fee_p, ..g })),
    {
        if fee_p < 0 {
            return Err(PairRegistryError::InvalidParam);
        }
        let mut group = Self::get_group(stored)?;
        group.open_fee_p = fee_p;
        Ok(group)
    }

    /// Sets only the close-fee rate of a stored group.
    pub fn set_group_close_fee_p(fee_p: i128, stored: Option<Group>) -> (r: Result<Group, PairRegistryError>)
        ensures
            fee_p < 0 ==> r matches Err(PairRegistryError::InvalidParam),
            fee_p >= 0 && stored is None ==> r matches Err(PairRegistryError::GroupNotFound),
            fee_p >= 0 ==> (stored matches Some(g) ==> r == Ok::<Group, PairRegistryError>(Group { close_fee_p: fee_p, ..g })),
    {
        if fee_p < 0 {
            return Err(PairRegistryError::InvalidParam);
        }
        let mut group = Self::get_group(stored)?;
        group.close_fee_p = fee_p;
        Ok(group)
    }

    /// Sets the protocol-wide maximum position size; refused when negative.
    pub fn set_max_pos_usdc(value: i128) -> (r: Result<i128, PairRegistryError>)
        ensures
            r == if value < 0 { Err::<i128, PairRegistryError>(PairRegistryError::InvalidParam) } else { Ok(value) },
    {
        if value < 0 {
            return Err(PairRegistryError::InvalidParam);
        }
        Ok(value)
    }

    /// A stored pair, or `PairNotFound`.
    pub fn get_pair(stored: Option<PairInfo>) -> (r: Result<PairInfo, PairRegistryError>)
        ensures
            r == match stored {
                Some(p) => Ok::<PairInfo, PairRegistryError>(p),
                None => Err(PairRegistryError::PairNotFound),
            },
    {
        match stored {
            Some(p) => Ok(p),
            None => Err(PairRegistryError::PairNotFound),
        }
    }

    /// A stored group, or `GroupNotFound`.
    pub fn get_group(stored: Option<Group>) -> (r: Result<Group, PairRegistryError>)
        ensures
            r == match stored {
                Some(g) => Ok::<Group, PairRegistryError>(g),
                None => Err(PairRegistryError::GroupNotFound),
            },
    {
        match stored {
            Some(g) => Ok(g),
            None => Err(PairRegistryError::GroupNotFound),
        }
    }

    /// The rollover accumulator projected to `at_ledger` without committing it.
    pub fn pending_acc_rollover_view(state: &RolloverState, at_ledger: u32) -> (r: Result<i128, PairRegistryError>)
        ensures
            r == projected_rollover(*state, at_ledger as int),
    {
        if at_ledger <= state.last_update_ledger {
            return Ok(state.acc_per_collateral);
        }
        let delta = (at_ledger - state.last_update_ledger) as u64;
        map_math_err(pending_acc_rollover(state.acc_per_collateral, delta, state.fee_per_ledger_p, USDC_SCALE))
    }

    /// The funding accumulators projected to `at_ledger` without committing them.
    pub fn pending_acc_funding_view(state: &FundingState, oi: &PairOi, at_ledger: u32) -> (r: Result<(i128, i128), PairRegistryError>)
        ensures
            r == projected_funding(*state, *oi, at_ledger as int),
    {
        if at_ledger <= state.last_update_ledger {
            return Ok((state.acc_long, state.acc_short));
        }
        let delta = (at_ledger - state.last_update_ledger) as u64;
        map_math_err(pending_acc_funding(
            state.acc_long,
            state.acc_short,
            oi.long,
            oi.short,
            delta,
            state.fee_per_ledger_p,
            USDC_SCALE,
        ))
    }

    /// The rollover and funding fees `trade` has accrued by `at_ledger`.
    fn accrued_fees(rollover: &RolloverState, funding: &FundingState, oi: &PairOi, trade: &TradeMeta, at_ledger: u32)
        -> (r: Result<(i128, i128), PairRegistryError>)
        ensures
            r == trade_fees(*rollover, *funding, *oi, *trade, at_ledger as int),
    {
        let acc_rollover_now = Self::pending_acc_rollover_view(rollover, at_ledger)?;
        let (acc_long_now, acc_short_now) = Self::pending_acc_funding_view(funding, oi, at_ledger)?;
        let acc_funding_now = if trade.is_long { acc_long_now } else { acc_short_now };

        let rollover_fee = map_math_err(rollover_fee_for_trade(
            trade.acc_rollover_open,
            acc_rollover_now,
            trade.collateral,
            USDC_SCALE,
        ))?;
        let funding_fee = map_math_err(funding_fee_for_trade(
            trade.acc_funding_open,
            acc_funding_now,
            trade.collateral,
            trade.leverage,
            USDC_SCALE,
        ))?;
        Ok((rollover_fee, funding_fee))
    }

    /// Whether the liquidation computation for `trade` would trap (see
    /// [`trade_liquidation_traps`]).
    pub fn trade_liquidation_would_trap(
        pair: &PairInfo,
        rollover: &RolloverState,
        funding: &FundingState,
        oi: &PairOi,
        trade: &TradeMeta,
        at_ledger: u32,
    ) -> (r: bool)
        ensures
            r == trade_liquidation_traps(*pair, *rollover, *funding, *oi, *trade, at_ledger as int),
    {
        match Self::accrued_fees(rollover, funding, oi, trade, at_ledger) {
            Err(_) => false,
            Ok((rollover_fee, funding_fee)) => liquidation_traps(
                trade.open_price,
                trade.collateral,
                trade.leverage,
                pair.liq_threshold_p,
                rollover_fee,
                funding_fee,
            ),
        }
    }

    /// Liquidation price of `trade` using its accumulator snapshots and the
    /// accumulators projected to `at_ledger`.
    pub fn get_trade_liquidation_price(
        pair: &PairInfo,
        rollover: &RolloverState,
        funding: &FundingState,
        oi: &PairOi,
        trade: &TradeMeta,
        at_ledger: u32,
    ) -> (r: Result<i128, PairRegistryError>)
        requires
            !trade_liquidation_traps(*pair, *rollover, *funding, *oi, *trade, at_ledger as int),
        ensures
            r == trade_liquidation_price_spec(*pair, *rollover, *funding, *oi, *trade, at_ledger as int),
    {
        let (rollover_fee, funding_fee) = Self::accrued_fees(rollover, funding, oi, trade, at_ledger)?;
        map_math_err(liquidation_price(
            trade.open_price,
            trade.is_long,
            trade.collateral,
            trade.leverage,
            rollover_fee,
            funding_fee,
            pair.liq_threshold_p,
        ))
    }

    /// Whether `observed_price` crosses the trade's liquidation price projected to `at_ledger`.
    pub fn is_liquidatable_view(
        pair: &PairInfo,
        rollover: &RolloverState,
        funding: &FundingState,
        oi: &PairOi,
        trade: &TradeMeta,
        observed_price: i128,
        at_ledger: u32,
    ) -> (r: Result<bool, PairRegistryError>)
        requires
            !trade_liquidation_traps(*pair, *rollover, *funding, *oi, *trade, at_ledger as int),
        ensures
            r == match trade_liquidation_price_spec(*pair, *rollover, *funding, *oi, *trade, at_ledger as int) {
                Err(e) => Err::<bool, PairRegistryError>(e),
                Ok(liq) => Ok(liquidatable_spec(observed_price as int, liq as int, trade.is_long)),
            },
    {
        let liq = Self::get_trade_liquidation_price(pair, rollover, funding, oi, trade, at_ledger)?;
        Ok(is_liquidatable(observed_price, liq, trade.is_long))
    }

    /// Commits the rollover accumulator up to `at_ledger`. Returns the state to
    /// store (none when no ledger has passed) and the accumulator's value.
    pub fn commit_acc_rollover(pair_exists: bool, state: RolloverState, at_ledger: u32)
        -> (r: Result<(Option<RolloverState>, i128), PairRegistryError>)
        ensures
            r == rollover_commit_spec(pair_exists, state, at_ledger),
    {
        if !pair_exists {
            return Err(PairRegistryError::PairNotFound);
        }
        let mut state = state;
        let delta_u32 = delta_ledgers_to(state.last_update_ledger, at_ledger)?;
        if delta_u32 == 0 {
            return Ok((None, state.acc_per_collateral));
        }
        let new_acc = map_math_err(pending_acc_rollover(
            state.acc_per_collateral,
            delta_u32 as u64,
            state.fee_per_ledger_p,
            USDC_SCALE,
        ))?;
        state.acc_per_collateral = new_acc;
        state.last_update_ledger = at_ledger;
        Ok((Some(state), new_acc))
    }

    /// Commits the funding accumulators up to `at_ledger`. Returns the state to
    /// store (none when no ledger has passed) and `(acc_long, acc_short)`.
    pub fn commit_acc_funding(pair_exists: bool, state: FundingState, oi: &PairOi, at_ledger: u32)
        -> (r: Result<(Option<FundingState>, (i128, i128)), PairRegistryError>)
        ensures
            r == funding_commit_spec(pair_exists, state, *oi, at_ledger),
    {
        if !pair_exists {
            return Err(PairRegistryError::PairNotFound);
        }
        let mut state = state;
        let delta_u32 = delta_ledgers_to(state.last_update_ledger, at_ledger)?;
        if delta_u32 == 0 {
            return Ok((None, (state.acc_long, state.acc_short)));
        }
        let (new_long, new_short) = map_math_err(pending_acc_funding(
            state.acc_long,
            state.acc_short,
            oi.long,
            oi.short,
            delta_u32 as u64,
            state.fee_per_ledger_p,
            USDC_SCALE,
        ))?;
        state.acc_long = new_long;
        state.acc_short = new_short;
        state.last_update_ledger = at_ledger;
        Ok((Some(state), (new_long, new_short)))
    }

    /// Adds open interest on one side; a negative delta is refused.
    pub fn add_oi(oi: PairOi, is_long: bool, delta_usdc: i128) -> (r: Result<PairOi, PairRegistryError>)
        ensures
            r == add_oi_spec(oi, is_long, delta_usdc as int),
    {
        if delta_usdc < 0 {
            return Err(PairRegistryError::InvalidParam);
        }
        let mut oi = oi;
        if is_long {
            oi.long = oi.long.checked_add(delta_usdc).ok_or(PairRegistryError::MathFault)?;
        } else {
            oi.short = oi.short.checked_add(delta_usdc).ok_or(PairRegistryError::MathFault)?;
        }
        Ok(oi)
    }

    /// Removes open interest on one side, flooring that side at zero; a
    /// negative delta is refused.
    pub fn sub_oi(oi: PairOi, is_long: bool, delta_usdc: i128) -> (r: Result<PairOi, PairRegistryError>)
        ensures
            r == sub_oi_spec(oi, is_long, delta_usdc as int),
    {
        if delta_usdc < 0 {
            return Err(PairRegistryError::InvalidParam);
        }
        let mut oi = oi;
        if is_long {
            oi.long = oi.long.checked_sub(delta_usdc).ok_or(PairRegistryError::MathFault)?;
            if oi.long < 0 {
                oi.long = 0;
            }
        } else {
            oi.short = oi.short.checked_sub(delta_usdc).ok_or(PairRegistryError::MathFault)?;
            if oi.short < 0 {
                oi.short = 0;
            }
        }
        Ok(oi)
    }
}

// ───────────────────────────── laws ─────────────────────────────

/// A commit returns what the pending view projects for that ledger (a ledger
/// at or after the last commit), and the view of what it stores gives the same
/// value back: committing never changes what the views report.
pub proof fn lemma_commit_agrees_with_view(rollover: RolloverState, funding: FundingState, oi: PairOi, at_ledger: u32)
    requires
        at_ledger >= rollover.last_update_ledger,
        at_ledger >= funding.last_update_ledger,
    ensures
        rollover_commit_spec(true, rollover, at_ledger) matches Ok((w, acc))
            ==> projected_rollover(rollover, at_ledger as int) == Ok::<i128, PairRegistryError>(acc)
            && projected_rollover(match w { Some(n) => n, None => rollover }, at_ledger as int) == Ok::<i128, PairRegistryError>(acc),
        projected_rollover(rollover, at_ledger as int) matches Ok(acc)
            ==> rollover_commit_spec(true, rollover, at_ledger) matches Ok((_w, c)) && c == acc,
        funding_commit_spec(true, funding, oi, at_ledger) matches Ok((w, accs))
            ==> projected_funding(funding, oi, at_ledger as int) == Ok::<(i128, i128), PairRegistryError>(accs)
            && projected_funding(match w { Some(n) => n, None => funding }, oi, at_ledger as int)
                == Ok::<(i128, i128), PairRegistryError>(accs),
        projected_funding(funding, oi, at_ledger as int) matches Ok(accs)
            ==> funding_commit_spec(true, funding, oi, at_ledger) matches Ok((_w, c)) && c == accs,
{
}

/// The rollover accumulator never decreases as it is projected or committed
/// forward: at a non-negative rate (the only rates the registry accepts) the
/// projected value is at least the stored one.
pub proof fn lemma_rollover_projection_never_decreases(state: RolloverState, at_ledger: u32)
    requires
        state.fee_per_ledger_p >= 0,
    ensures
        projected_rollover(state, at_ledger as int) matches Ok(acc) ==> acc >= state.acc_per_collateral,
{
    if at_ledger > state.last_update_ledger {
        lemma_rollover_acc_monotonic(
            state.acc_per_collateral,
            (at_ledger - state.last_update_ledger) as u64,
            state.fee_per_ledger_p,
            USDC_SCALE,
        );
    }
}

/// Commits are idempotent: committing again at the same ledger, from what the
/// first commit stored, stores nothing and returns the same accumulators.
pub proof fn lemma_commit_twice_at_one_ledger(rollover: RolloverState, funding: FundingState, oi: PairOi, at_ledger: u32)
    ensures
        rollover_commit_spec(true, rollover, at_ledger) matches Ok((w, acc)) ==> rollover_commit_spec(
            true,
            match w { Some(n) => n, None => rollover },
            at_ledger,
        ) == Ok::<(Option<RolloverState>, i128), PairRegistryError>((None, acc)),
        funding_commit_spec(true, funding, oi, at_ledger) matches Ok((w, accs)) ==> funding_commit_spec(
            true,
            match w { Some(n) => n, None => funding },
            oi,
            at_ledger,
        ) == Ok::<(Option<FundingState>, (i128, i128)), PairRegistryError>((None, accs)),
{
}

/// A trade's funding fee is taken from its own side's accumulator. With longs
/// outweighing shorts at a non-negative rate, a long whose snapshot is the
/// stored long accumulator pays funding (its fee is at least zero) and a short
/// whose snapshot is the stored short accumulator receives it (its fee is at
/// most zero), at every ledger the fees are projected to. Likewise a trade
/// whose rollover snapshot is the stored accumulator owes a rollover fee of at
/// least zero at a non-negative rate.
pub proof fn lemma_funding_fee_follows_own_side(
    rollover: RolloverState, funding: FundingState, oi: PairOi, trade: TradeMeta, at_ledger: u32,
)
    requires
        oi.long >= oi.short,
        funding.fee_per_ledger_p >= 0,
        trade.collateral >= 0,
        trade.acc_funding_open == if trade.is_long { funding.acc_long } else { funding.acc_short },
    ensures
        trade_fees(rollover, funding, oi, trade, at_ledger as int) matches Ok((_r, f))
            ==> if trade.is_long { f >= 0 } else { f <= 0 },
        rollover.fee_per_ledger_p >= 0 && trade.acc_rollover_open == rollover.acc_per_collateral
            ==> (trade_fees(rollover, funding, oi, trade, at_ledger as int) matches Ok((r, _f)) ==> r >= 0),
{
    if rollover.fee_per_ledger_p >= 0 {
        lemma_rollover_projection_never_decreases(rollover, at_ledger);
    }
    match projected_rollover(rollover, at_ledger as int) {
        Ok(acc) => {
            let d = acc - trade.acc_rollover_open;
            if d >= 0 {
                assert(d * trade.collateral >= 0) by (nonlinear_arith)
                    requires
                        d >= 0,
                        trade.collateral >= 0,
                ;
                vstd::arithmetic::div_mod::lemma_div_pos_is_pos(d * trade.collateral, USDC_SCALE as int);
            }
        },
        Err(_) => {},
    }
    if at_ledger > funding.last_update_ledger {
        lemma_funding_long_heavy_longs_pay(
            funding.acc_long,
            funding.acc_short,
            oi.long,
            oi.short,
            (at_ledger - funding.last_update_ledger) as u64,
            funding.fee_per_ledger_p,
            USDC_SCALE,
        );
    }
    match projected_funding(funding, oi, at_ledger as int) {
        Ok((l, sh)) => {
            let now = if trade.is_long { l } else { sh };
            let delta = now - trade.acc_funding_open;
            let c = trade.collateral as int;
            let scale = USDC_SCALE as int;
            if trade.is_long {
                assert(delta >= 0);
                assert(delta * c >= 0) by (nonlinear_arith)
                    requires
                        delta >= 0,
                        c >= 0,
                ;
                vstd::arithmetic::div_mod::lemma_div_pos_is_pos(delta * c, scale);
                let staged = (delta * c) / scale;
                assert(staged * trade.leverage >= 0) by (nonlinear_arith)
                    requires
                        staged >= 0,
                        trade.leverage >= 0,
                ;
            } else {
                assert(delta <= 0);
                assert(delta * c <= 0) by (nonlinear_arith)
                    requires
                        delta <= 0,
                        c >= 0,
                ;
                vstd::arithmetic::div_mod::lemma_div_is_ordered(delta * c, 0, scale);
                vstd::arithmetic::div_mod::lemma_div_of0(scale);
                let staged = (delta * c) / scale;
                assert(staged * trade.leverage <= 0) by (nonlinear_arith)
                    requires
                        staged <= 0,
                        trade.leverage >= 0,
                ;
            }
        },
        Err(_) => {},
    }
}

/// What `add_oi` returns for a given open interest, side and delta.
pub open spec fn add_oi_spec(oi: PairOi, is_long: bool, delta: int) -> Result<PairOi, PairRegistryError> {
    if delta < 0 {
        Err(PairRegistryError::InvalidParam)
    } else if is_long {
        if fits_i128(oi.long + delta) { Ok(PairOi { long: (oi.long + delta) as i128, short: oi.short }) } else { Err(PairRegistryError::MathFault) }
    } else {
        if fits_i128(oi.short + delta) { Ok(PairOi { long: oi.long, short: (oi.short + delta) as i128 }) } else { Err(PairRegistryError::MathFault) }
    }
}

/// What `sub_oi` returns for a given open interest, side and delta.
pub open spec fn sub_oi_spec(oi: PairOi, is_long: bool, delta: int) -> Result<PairOi, PairRegistryError> {
    if delta < 0 {
        Err(PairRegistryError::InvalidParam)
    } else if is_long {
        if fits_i128(oi.long - delta) {
            Ok(PairOi { long: (if oi.long - delta < 0 { 0 } else { oi.long - delta }) as i128, short: oi.short })
        } else {
            Err(PairRegistryError::MathFault)
        }
    } else {
        if fits_i128(oi.short - delta) {
            Ok(PairOi { long: oi.long, short: (if oi.short - delta < 0 { 0 } else { oi.short - delta }) as i128 })
        } else {
            Err(PairRegistryError::MathFault)
        }
    }
}

/// Open interest never goes negative through `sub_oi`: the side it touches ends
/// at zero or above, and the other side is untouched.
pub proof fn lemma_sub_oi_floors_at_zero(oi: PairOi, is_long: bool, delta: i128)
    ensures
        sub_oi_spec(oi, is_long, delta as int) matches Ok(after) ==> if is_long {
            after.long >= 0 && after.short == oi.short
        } else {
            after.short >= 0 && after.long == oi.long
        },
{
}

/// Adding then removing the same non-negative open interest on the same side
/// restores the open interest, as long as that side was not negative.
pub proof fn lemma_add_then_sub_oi_restores(oi: PairOi, is_long: bool, delta: i128)
    requires
        delta >= 0,
        if is_long { oi.long >= 0 } else { oi.short >= 0 },
    ensures
        add_oi_spec(oi, is_long, delta as int) matches Ok(added) ==> sub_oi_spec(added, is_long, delta as int) == Ok::<PairOi, PairRegistryError>(oi),
{
}

} // verus!
