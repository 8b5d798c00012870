//! Fixed-point scale constants shared by every module.

use vstd::prelude::*;

verus! {

/// USDC native scale on Stellar (1e7).
pub const USDC_SCALE: i128 = 10_000_000;

/// Price scale (1e10).
pub const PRICE_SCALE: i128 = 10_000_000_000;

/// Percentage scale used for fee rates, PnL caps and liquidation thresholds (1e10).
pub const P_SCALE: i128 = 10_000_000_000;

/// Default per-side group fee at `P_SCALE`: 0.08%.
pub const DEFAULT_GROUP_FEE_P: i128 = 80_000_000;

/// Maximum gain, as an integer percent (900%).
pub const MAX_GAIN_P: u32 = 900;

/// Maximum gain for flagged pairs, as an integer percent.
pub const EXCEPTION_PAIR_MAX_GAIN_P: u32 = 300;

/// Maximum stop-loss, as an integer percent of collateral.
pub const MAX_SL_P: u32 = 75;

/// Default liquidation threshold, as an integer percent of collateral.
pub const LIQ_THRESHOLD_P: u32 = 90;

/// Oracle callback drift cap (1% at `P_SCALE`).
pub const MAX_CALLBACK_PRICE_DRIFT_P: i128 = 100_000_000;

/// Per-ledger price deviation cap (10% at `P_SCALE`).
pub const MAX_PRICE_DEVIATION_PER_LEDGER_P: i128 = 1_000_000_000;

/// Window, in ledgers, after which a trusted price baseline is reset.
pub const MAX_TRUSTED_PRICE_AGE_LEDGERS: u32 = 1_200;

/// Re-subscription gating window, in ledgers.
pub const RESUB_LEDGER_INTERVAL: u32 = 720;

} // verus!
