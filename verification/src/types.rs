//! Strongly typed fixed-point quantities.

use vstd::prelude::*;

verus! {

/// USDC amount at `USDC_SCALE` (1e7).
#[derive(Clone, Copy, Debug, PartialEq, Eq, PartialOrd, Ord, Structural)]
pub struct UsdcAmount(pub i128);

/// Price at `PRICE_SCALE` (1e10).
#[derive(Clone, Copy, Debug, PartialEq, Eq, PartialOrd, Ord, Structural)]
pub struct Price(pub i128);

/// Percentage at `P_SCALE` (1e10 == 100%); may be negative for signed PnL.
#[derive(Clone, Copy, Debug, PartialEq, Eq, PartialOrd, Ord, Structural)]
pub struct PercentP(pub i128);

/// Integer leverage.
#[derive(Clone, Copy, Debug, PartialEq, Eq, PartialOrd, Ord, Structural)]
pub struct Leverage(pub u32);

impl UsdcAmount {
    /// The underlying scaled integer.
    pub fn raw(self) -> (r: i128)
        ensures
            r == self.0,
    {
        self.0
    }
}

impl Price {
    /// The underlying scaled integer.
    pub fn raw(self) -> (r: i128)
        ensures
            r == self.0,
    {
        self.0
    }
}

impl PercentP {
    /// The underlying scaled integer.
    pub fn raw(self) -> (r: i128)
        ensures
            r == self.0,
    {
        self.0
    }
}

impl Leverage {
    /// The underlying integer leverage.
    pub fn raw(self) -> (r: u32)
        ensures
            r == self.0,
    {
        self.0
    }
}

} // verus!
