//! Oracle-side vocabulary: the asset identifier a pair is priced by, and a
//! price observation.

use vstd::prelude::*;

use crate::arith::{fits_i128, trunc_div};
use crate::scale::PRICE_SCALE;

verus! {

/// The asset an oracle prices: a Stellar asset contract (by its address, as a
/// strkey) or any other asset (by its ticker symbol).
#[derive(Clone, Debug, PartialEq, Eq)]
pub enum ReflectorAsset {
    Stellar(String),
    Other(String),
}

/// What identifies an asset: its kind and the characters of its name.
pub open spec fn asset_key(a: ReflectorAsset) -> (bool, Seq<char>) {
    match a {
        ReflectorAsset::Stellar(s) => (true, s@),
        ReflectorAsset::Other(s) => (false, s@),
    }
}

impl ReflectorAsset {
    /// Whether two assets name the same thing.
    pub fn same_as(&self, other: &ReflectorAsset) -> (r: bool)
        ensures
            r == (asset_key(*self) == asset_key(*other)),
    {
        match (self, other) {
            (ReflectorAsset::Stellar(a), ReflectorAsset::Stellar(b)) => String::eq(a, b),
            (ReflectorAsset::Other(a), ReflectorAsset::Other(b)) => String::eq(a, b),
            _ => false,
        }
    }

    /// A copy of this asset.
    pub fn duplicate(&self) -> (r: ReflectorAsset)
        ensures
            r == *self,
    {
        match self {
            ReflectorAsset::Stellar(s) => ReflectorAsset::Stellar(s.clone()),
            ReflectorAsset::Other(s) => ReflectorAsset::Other(s.clone()),
        }
    }
}

/// One oracle price reading: the price and the time it was observed.
#[derive(Clone, Copy, Debug, PartialEq, Eq, Structural)]
pub struct PriceObservation {
    pub price: i128,
    pub timestamp: u64,
}

/// A price as the oracle contract reports it.
#[derive(Clone, Copy, Debug, PartialEq, Eq, Structural)]
pub struct ReflectorPriceData {
    pub price: i128,
    pub timestamp: u64,
}

/// `10` to the power `n`.
pub open spec fn pow10(n: nat) -> int
    decreases n,
{
    if n == 0 {
        1
    } else {
        10 * pow10((n - 1) as nat)
    }
}

/// Powers of ten are positive and grow with the exponent.
proof fn lemma_pow10_grows(m: nat, n: nat)
    requires
        m <= n,
    ensures
        1 <= pow10(m) <= pow10(n),
    decreases n,
{
    if n > 0 {
        if m == n {
            lemma_pow10_grows(0, (n - 1) as nat);
        } else {
            lemma_pow10_grows(m, (n - 1) as nat);
        }
    }
}

/// The powers of ten that bracket the `i128` range.
proof fn lemma_pow10_bounds()
    ensures
        pow10(10) == PRICE_SCALE,
        pow10(38) == 100_000_000_000_000_000_000_000_000_000_000_000_000int,
        pow10(39) == 1_000_000_000_000_000_000_000_000_000_000_000_000_000int,
{
    reveal_with_fuel(pow10, 40);
}

/// A raw oracle price quoted with `decimals` decimals, restated at
/// `PRICE_SCALE` (ten decimals): a finer quote is truncated toward zero, a
/// coarser one scaled up, and `None` when scaling up leaves `i128`.
pub open spec fn price_at_scale(raw: int, decimals: int) -> Option<int> {
    if decimals >= 10 {
        Some(trunc_div(raw, pow10((decimals - 10) as nat)))
    } else if fits_i128(raw * pow10((10 - decimals) as nat)) {
        Some(raw * pow10((10 - decimals) as nat))
    } else {
        None
    }
}

/// `10^k` as an `i128`.
fn pow10_i128(k: u32) -> (r: i128)
    requires
        k <= 38,
    ensures
        r == pow10(k as nat),
{
    proof {
        lemma_pow10_bounds();
    }
    let mut r: i128 = 1;
    let mut i: u32 = 0;
    while i < k
        invariant
            i <= k <= 38,
            r == pow10(i as nat),
            pow10(38) == 100_000_000_000_000_000_000_000_000_000_000_000_000int,
        decreases k - i,
    {
        proof {
            lemma_pow10_grows((i + 1) as nat, 38);
        }
        r = r * 10;
        i = i + 1;
    }
    r
}

/// Restates a raw oracle price quoted with `decimals` decimals at `PRICE_SCALE`
/// (see [`price_at_scale`]).
pub fn normalize_price(raw: i128, decimals: u32) -> (r: Option<i128>)
    ensures
        price_at_scale(raw as int, decimals as int) == match r {
            Some(v) => Some(v as int),
            None => None::<int>,
        },
{
    if decimals >= 10 {
        let k = decimals - 10;
        if k > 38 {
            proof {
                lemma_pow10_bounds();
                lemma_pow10_grows(39, k as nat);
                let p = pow10(k as nat);
                if raw >= 0 {
                    vstd::arithmetic::div_mod::lemma_basic_div(raw as int, p);
                } else {
                    vstd::arithmetic::div_mod::lemma_basic_div(-raw, p);
                }
            }
            return Some(0);
        }
        let d = pow10_i128(k);
        proof {
            lemma_pow10_grows(0, k as nat);
        }
        Some(raw / d)
    } else {
        let m = pow10_i128(10 - decimals);
        raw.checked_mul(m)
    }
}

/// Status of an oracle subscription.
#[derive(Clone, Copy, Debug, PartialEq, Eq, Structural)]
pub enum SubscriptionStatus {
    Active,
    Suspended,
}

/// What a subscription is created from.
#[derive(Clone, Debug, PartialEq, Eq)]
pub struct SubscriptionInitParams {
    /// Owner account (strkey).
    pub owner: String,
    pub base: ReflectorAsset,
    pub quote: ReflectorAsset,
    /// Price-change threshold that triggers a notification.
    pub threshold: u32,
    /// Maximum interval between notifications.
    pub heartbeat: u32,
    /// Notification target.
    pub webhook: Vec<u8>,
}

/// An oracle subscription.
#[derive(Clone, Debug, PartialEq, Eq)]
pub struct Subscription {
    pub owner: String,
    pub base: ReflectorAsset,
    pub quote: ReflectorAsset,
    pub threshold: u32,
    pub heartbeat: u32,
    pub webhook: Vec<u8>,
    /// Remaining fee balance.
    pub balance: u64,
    pub status: SubscriptionStatus,
    /// Time of the last notification.
    pub updated: u64,
}

/// A copy of a byte string.
pub fn copy_bytes(bytes: &Vec<u8>) -> (r: Vec<u8>)
    ensures
        r@ == bytes@,
{
    let mut r: Vec<u8> = Vec::new();
    let mut i: usize = 0;
    while i < bytes.len()
        invariant
            i <= bytes.len(),
            r@ == bytes@.subrange(0, i as int),
        decreases bytes.len() - i,
    {
        r.push(bytes[i]);
        i = i + 1;
    }
    r
}

impl Subscription {
    /// A copy of this subscription.
    pub fn duplicate(&self) -> (r: Subscription)
        ensures
            r.owner == self.owner,
            r.base == self.base,
            r.quote == self.quote,
            r.threshold == self.threshold,
            r.heartbeat == self.heartbeat,
            r.webhook@ == self.webhook@,
            r.balance == self.balance,
            r.status == self.status,
            r.updated == self.updated,
    {
        Subscription {
            owner: self.owner.clone(),
            base: self.base.duplicate(),
            quote: self.quote.duplicate(),
            threshold: self.threshold,
            heartbeat: self.heartbeat,
            webhook: copy_bytes(&self.webhook),
            balance: self.balance,
            status: self.status,
            updated: self.updated,
        }
    }
}

} // verus!
