//! Verified core of a perpetual-futures exchange: fixed-point fee, PnL and
//! liquidation math, and the decision logic of the pair registry, the LP vault
//! and the position manager, each stated over plain values.

pub mod scale;
pub mod arith;
pub mod types;
pub mod fees;
pub mod liq;
pub mod oracle;
pub mod registry;
pub mod vault;
pub mod position;
pub mod mock;

pub use arith::{mul_div_floor, MathError};
