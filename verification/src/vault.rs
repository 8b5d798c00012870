//! The LP vault: a tokenized vault whose shares are a fungible token. It holds
//! the USDC that backs trader PnL.
//!
//! Each entry point is a function from the stored values it reads (the vault
//! totals, the balances and allowance involved) and its arguments to the values
//! it writes and the value it returns. Authorization, the USDC transfers and the
//! storage itself stand outside these functions: a transfer only moves what the
//! function computed, and a failure reverts the whole invocation.

use vstd::prelude::*;

use crate::arith::{
    fits_i128, floor_div, lemma_mul_div_floor_brackets, mul_div_floor, mul_div_floor_spec, mul_div_floor_traps,
    mul_div_floor_would_trap, MathError,
};
use vstd::arithmetic::div_mod::{lemma_div_is_ordered, lemma_div_multiples_vanish};

verus! {

/// Errors raised by the vault.
#[derive(Clone, Copy, Debug, PartialEq, Eq, Structural)]
pub enum VaultError {
    /// `init` called twice.
    AlreadyInitialized,
    /// Entry point requires the vault to have been initialized.
    NotInitialized,
    /// Caller is not the admin.
    NotAdmin,
    /// Caller is not the pinned position manager.
    NotPositionManager,
    /// Withdrawal attempted before the withdraw lock elapsed.
    WithdrawLocked,
    /// Share balance too small for the burn or transfer.
    InsufficientShares,
    /// The vault holds fewer assets than the operation requires.
    InsufficientAssets,
    /// Allowance too small for the spend.
    InsufficientAllowance,
    /// Operation attempted while the vault is paused.
    Paused,
    /// Numeric input outside the accepted range.
    InvalidParam,
    /// Underlying math overflowed or divided by zero.
    MathFault,
}

impl VaultError {
    /// The error's stable numeric code.
    pub open spec fn numeric_code(self) -> u32 {
        match self {
            VaultError::AlreadyInitialized => 1,
            VaultError::NotInitialized => 2,
            VaultError::NotAdmin => 3,
            VaultError::NotPositionManager => 4,
            VaultError::WithdrawLocked => 5,
            VaultError::InsufficientShares => 6,
            VaultError::InsufficientAssets => 7,
            VaultError::InsufficientAllowance => 8,
            VaultError::Paused => 9,
            VaultError::InvalidParam => 10,
            VaultError::MathFault => 11,
        }
    }

    /// The error's stable numeric code.
    pub fn code(self) -> (r: u32)
        ensures
            r == self.numeric_code(),
    {
        match self {
            VaultError::AlreadyInitialized => 1,
            VaultError::NotInitialized => 2,
            VaultError::NotAdmin => 3,
            VaultError::NotPositionManager => 4,
            VaultError::WithdrawLocked => 5,
            VaultError::InsufficientShares => 6,
            VaultError::InsufficientAssets => 7,
            VaultError::InsufficientAllowance => 8,
            VaultError::Paused => 9,
            VaultError::InvalidParam => 10,
            VaultError::MathFault => 11,
        }
    }
}

/// A share allowance: the amount and the last ledger at which it may be spent.
#[derive(Clone, Copy, Debug, PartialEq, Eq, Structural)]
pub struct AllowanceValue {
    pub amount: i128,
    pub expiration_ledger: u32,
}

/// The vault's totals: USDC backing the vault and shares outstanding.
#[derive(Clone, Copy, Debug, PartialEq, Eq, Structural)]
pub struct VaultTotals {
    pub total_assets: i128,
    pub total_shares: i128,
}

/// What a deposit or a mint writes and returns.
#[derive(Clone, Copy, Debug, PartialEq, Eq, Structural)]
pub struct SharesIssued {
    /// USDC pulled from the depositor.
    pub assets: i128,
    /// Shares credited to the receiver.
    pub shares: i128,
    pub totals: VaultTotals,
    /// The receiver's new share balance.
    pub receiver_balance: i128,
    /// The ledger to record as the receiver's last deposit (it starts the
    /// receiver's withdraw lock).
    pub last_deposit_ledger: u32,
}

/// What a redeem or a withdraw writes and returns.
#[derive(Clone, Copy, Debug, PartialEq, Eq, Structural)]
pub struct SharesRedeemed {
    /// USDC sent to the receiver.
    pub assets: i128,
    /// Shares burned from the owner.
    pub shares: i128,
    pub totals: VaultTotals,
    /// The owner's new share balance.
    pub owner_balance: i128,
}

// ───────────────────────────── helpers ─────────────────────────────

/// Any fixed-point failure becomes `MathFault`.
pub open spec fn math_to_vault<T>(r: Result<T, MathError>) -> Result<T, VaultError> {
    match r {
        Ok(v) => Ok(v),
        Err(_) => Err(VaultError::MathFault),
    }
}

/// Refuses when the vault is paused.
pub fn require_not_paused(paused: bool) -> (r: Result<(), VaultError>)
    ensures
        r == if paused { Err::<(), VaultError>(VaultError::Paused) } else { Ok(()) },
{
    if paused {
        return Err(VaultError::Paused);
    }
    Ok(())
}

/// Shares worth `assets`: `floor(assets * total_shares / total_assets)`, one to
/// one while the vault is empty.
pub open spec fn to_shares_spec(assets: int, total_assets: int, total_shares: int) -> Result<i128, VaultError> {
    if total_shares == 0 || total_assets == 0 {
        Ok(assets as i128)
    } else {
        math_to_vault(mul_div_floor_spec(assets, total_shares, total_assets))
    }
}

/// The input on which the share conversion cannot complete.
pub open spec fn to_shares_traps(assets: int, total_assets: int, total_shares: int) -> bool {
    total_shares != 0 && total_assets != 0 && mul_div_floor_traps(assets, total_shares, total_assets)
}

/// Assets worth `shares`: `floor(shares * total_assets / total_shares)`, one to
/// one while no share exists.
pub open spec fn to_assets_spec(shares: int, total_assets: int, total_shares: int) -> Result<i128, VaultError> {
    if total_shares == 0 {
        Ok(shares as i128)
    } else {
        math_to_vault(mul_div_floor_spec(shares, total_assets, total_shares))
    }
}

/// The input on which the asset conversion cannot complete.
pub open spec fn to_assets_traps(shares: int, total_assets: int, total_shares: int) -> bool {
    total_shares != 0 && mul_div_floor_traps(shares, total_assets, total_shares)
}

/// `shares = assets * total_shares / total_assets`, floored (1:1 when empty).
pub fn assets_to_shares(assets: i128, total_assets: i128, total_shares: i128) -> (r: Result<i128, VaultError>)
    requires
        !to_shares_traps(assets as int, total_assets as int, total_shares as int),
    ensures
        r == to_shares_spec(assets as int, total_assets as int, total_shares as int),
{
    if total_shares == 0 || total_assets == 0 {
        return Ok(assets);
    }
    match mul_div_floor(assets, total_shares, total_assets) {
        Ok(v) => Ok(v),
        Err(_) => Err(VaultError::MathFault),
    }
}

/// `assets = shares * total_assets / total_shares`, floored (1:1 when empty).
pub fn shares_to_assets(shares: i128, total_assets: i128, total_shares: i128) -> (r: Result<i128, VaultError>)
    requires
        !to_assets_traps(shares as int, total_assets as int, total_shares as int),
    ensures
        r == to_assets_spec(shares as int, total_assets as int, total_shares as int),
{
    if total_shares == 0 {
        return Ok(shares);
    }
    match mul_div_floor(shares, total_assets, total_shares) {
        Ok(v) => Ok(v),
        Err(_) => Err(VaultError::MathFault),
    }
}

/// Whether converting `assets` to shares would trap (see [`to_shares_traps`]).
pub fn to_shares_would_trap(assets: i128, total_assets: i128, total_shares: i128) -> (r: bool)
    ensures
        r == to_shares_traps(assets as int, total_assets as int, total_shares as int),
{
    total_shares != 0 && total_assets != 0 && mul_div_floor_would_trap(assets, total_shares, total_assets)
}

/// Whether converting `shares` to assets would trap (see [`to_assets_traps`]).
pub fn to_assets_would_trap(shares: i128, total_assets: i128, total_shares: i128) -> (r: bool)
    ensures
        r == to_assets_traps(shares as int, total_assets as int, total_shares as int),
{
    total_shares != 0 && mul_div_floor_would_trap(shares, total_assets, total_shares)
}

/// Credits `amount` shares: `(balance + amount, total_shares + amount)`.
pub open spec fn mint_shares_spec(balance: int, total_shares: int, amount: int) -> Result<(i128, i128), VaultError> {
    if !fits_i128(balance + amount) || !fits_i128(total_shares + amount) {
        Err(VaultError::MathFault)
    } else {
        Ok(((balance + amount) as i128, (total_shares + amount) as i128))
    }
}

/// Credits `amount` shares to a holder; returns `(new_balance, new_total_shares)`.
pub fn mint_shares(balance: i128, total_shares: i128, amount: i128) -> (r: Result<(i128, i128), VaultError>)
    ensures
        r == mint_shares_spec(balance as int, total_shares as int, amount as int),
{
    let new_bal = balance.checked_add(amount).ok_or(VaultError::MathFault)?;
    let new_total = total_shares.checked_add(amount).ok_or(VaultError::MathFault)?;
    Ok((new_bal, new_total))
}

/// Burns `amount` shares: refused above the balance.
pub open spec fn burn_shares_spec(balance: int, total_shares: int, amount: int) -> Result<(i128, i128), VaultError> {
    if balance < amount {
        Err(VaultError::InsufficientShares)
    } else if !fits_i128(total_shares - amount) {
        Err(VaultError::MathFault)
    } else {
        Ok(((balance - amount) as i128, (total_shares - amount) as i128))
    }
}

/// Burns `amount` shares from a holder; returns `(new_balance, new_total_shares)`.
pub fn burn_shares(balance: i128, total_shares: i128, amount: i128) -> (r: Result<(i128, i128), VaultError>)
    requires
        balance >= amount ==> fits_i128(balance - amount),
    ensures
        r == burn_shares_spec(balance as int, total_shares as int, amount as int),
{
    if balance < amount {
        return Err(VaultError::InsufficientShares);
    }
    let new_total = total_shares.checked_sub(amount).ok_or(VaultError::MathFault)?;
    Ok((balance - amount, new_total))
}

/// Moves `amount` shares between holders. `same_holder` says that both sides
/// are one account, whose balance then ends where it started.
pub open spec fn move_shares_spec(from_balance: int, to_balance: int, amount: int, same_holder: bool) -> Result<(i128, i128), VaultError> {
    let new_from = from_balance - amount;
    let to_before = if same_holder { new_from } else { to_balance };
    if amount < 0 {
        Err(VaultError::InvalidParam)
    } else if from_balance < amount {
        Err(VaultError::InsufficientShares)
    } else if !fits_i128(to_before + amount) {
        Err(VaultError::MathFault)
    } else {
        Ok((new_from as i128, (to_before + amount) as i128))
    }
}

/// Moves `amount` shares; returns `(new_from_balance, new_to_balance)`, the
/// second written last.
pub fn move_shares(from_balance: i128, to_balance: i128, amount: i128, same_holder: bool) -> (r: Result<(i128, i128), VaultError>)
    ensures
        r == move_shares_spec(from_balance as int, to_balance as int, amount as int, same_holder),
{
    if amount < 0 {
        return Err(VaultError::InvalidParam);
    }
    if from_balance < amount {
        return Err(VaultError::InsufficientShares);
    }
    let new_from = from_balance - amount;
    let to_before = if same_holder { new_from } else { to_balance };
    let new_to = to_before.checked_add(amount).ok_or(VaultError::MathFault)?;
    Ok((new_from, new_to))
}

/// Consumes `amount` from an allowance, keeping its expiration.
pub open spec fn spend_allowance_spec(allowance: AllowanceValue, amount: int) -> Result<AllowanceValue, VaultError> {
    if allowance.amount < amount {
        Err(VaultError::InsufficientAllowance)
    } else {
        Ok(AllowanceValue { amount: (allowance.amount - amount) as i128, expiration_ledger: allowance.expiration_ledger })
    }
}

/// The input on which spending an allowance cannot complete: a negative amount
/// that takes the allowance above `i128::MAX`.
pub open spec fn spend_allowance_traps(allowance: AllowanceValue, amount: int) -> bool {
    allowance.amount >= amount && !fits_i128(allowance.amount - amount)
}

/// Consumes `amount` from the allowance; refused when the allowance is short.
pub fn spend_allowance(allowance: AllowanceValue, amount: i128) -> (r: Result<AllowanceValue, VaultError>)
    requires
        !spend_allowance_traps(allowance, amount as int),
    ensures
        r == spend_allowance_spec(allowance, amount as int),
{
    if allowance.amount < amount {
        return Err(VaultError::InsufficientAllowance);
    }
    Ok(AllowanceValue { amount: allowance.amount - amount, expiration_ledger: allowance.expiration_ledger })
}

/// Whether spending `amount` from the allowance would trap (see [`spend_allowance_traps`]).
pub fn spend_allowance_would_trap(allowance: AllowanceValue, amount: i128) -> (r: bool)
    ensures
        r == spend_allowance_traps(allowance, amount as int),
{
    allowance.amount >= amount && allowance.amount.checked_sub(amount).is_none()
}

/// The allowance in force at `current_ledger`: a missing or expired allowance reads as zero.
pub open spec fn effective_allowance_spec(stored: Option<AllowanceValue>, current_ledger: int) -> AllowanceValue {
    match stored {
        Some(v) if v.expiration_ledger >= current_ledger => v,
        _ => AllowanceValue { amount: 0, expiration_ledger: 0 },
    }
}

/// The allowance in force at `current_ledger`.
pub fn effective_allowance(stored: Option<AllowanceValue>, current_ledger: u32) -> (r: AllowanceValue)
    ensures
        r == effective_allowance_spec(stored, current_ledger as int),
{
    match stored {
        Some(v) if v.expiration_ledger >= current_ledger => v,
        _ => AllowanceValue { amount: 0, expiration_ledger: 0 },
    }
}

/// Whether the withdraw lock still holds at `now`: `now < last_deposit + lock`
/// (saturating), never when the lock is zero.
pub open spec fn withdraw_locked(lock: int, last_deposit: int, now: int) -> bool {
    lock != 0 && now < (if last_deposit + lock > u32::MAX { u32::MAX as int } else { last_deposit + lock })
}

/// Refuses a withdrawal before `last_deposit_ledger + withdraw_lock_ledgers`.
pub fn check_withdraw_lock(withdraw_lock_ledgers: u32, last_deposit_ledger: u32, now_ledger: u32) -> (r: Result<(), VaultError>)
    ensures
        r == if withdraw_locked(withdraw_lock_ledgers as int, last_deposit_ledger as int, now_ledger as int) {
            Err::<(), VaultError>(VaultError::WithdrawLocked)
        } else {
            Ok(())
        },
{
    if withdraw_lock_ledgers == 0 {
        return Ok(());
    }
    let unlock_at = last_deposit_ledger.saturating_add(withdraw_lock_ledgers);
    if now_ledger < unlock_at {
        return Err(VaultError::WithdrawLocked);
    }
    Ok(())
}

// ───────────────────────────── entry points ─────────────────────────────

/// What a deposit of `assets` at ledger `now` does to the vault, the receiver's
/// balance and the receiver's last deposit ledger.
pub open spec fn deposit_spec(totals: VaultTotals, assets: int, receiver_balance: int, now: u32) -> Result<SharesIssued, VaultError> {
    if assets <= 0 {
        Err(VaultError::InvalidParam)
    } else {
        match to_shares_spec(assets, totals.total_assets as int, totals.total_shares as int) {
            Err(e) => Err(e),
            Ok(shares) => if shares <= 0 {
                Err(VaultError::InvalidParam)
            } else if !fits_i128(totals.total_assets + assets) {
                Err(VaultError::MathFault)
            } else {
                match mint_shares_spec(receiver_balance, totals.total_shares as int, shares as int) {
                    Err(e) => Err(e),
                    Ok((bal, total_shares)) => Ok(SharesIssued {
                        assets: assets as i128,
                        shares,
                        totals: VaultTotals { total_assets: (totals.total_assets + assets) as i128, total_shares },
                        receiver_balance: bal,
                        last_deposit_ledger: now,
                    }),
                }
            },
        }
    }
}

/// What a mint of exactly `shares` at ledger `now` does to the vault, the
/// receiver's balance and the receiver's last deposit ledger.
pub open spec fn mint_spec(totals: VaultTotals, shares: int, receiver_balance: int, now: u32) -> Result<SharesIssued, VaultError> {
    if shares <= 0 {
        Err(VaultError::InvalidParam)
    } else {
        match to_assets_spec(shares, totals.total_assets as int, totals.total_shares as int) {
            Err(e) => Err(e),
            Ok(assets) => if assets <= 0 {
                Err(VaultError::InvalidParam)
            } else if !fits_i128(totals.total_assets + assets) {
                Err(VaultError::MathFault)
            } else {
                match mint_shares_spec(receiver_balance, totals.total_shares as int, shares) {
                    Err(e) => Err(e),
                    Ok((bal, total_shares)) => Ok(SharesIssued {
                        assets,
                        shares: shares as i128,
                        totals: VaultTotals { total_assets: (totals.total_assets + assets) as i128, total_shares },
                        receiver_balance: bal,
                        last_deposit_ledger: now,
                    }),
                }
            },
        }
    }
}

/// Burning `shares` worth `assets` from the owner, with the vault holding enough.
pub open spec fn settle_redemption(totals: VaultTotals, assets: int, shares: int, owner_balance: int) -> Result<SharesRedeemed, VaultError> {
    match burn_shares_spec(owner_balance, totals.total_shares as int, shares) {
        Err(e) => Err(e),
        Ok((bal, total_shares)) => Ok(SharesRedeemed {
            assets: assets as i128,
            shares: shares as i128,
            totals: VaultTotals { total_assets: (totals.total_assets - assets) as i128, total_shares },
            owner_balance: bal,
        }),
    }
}

/// What redeeming exactly `shares` does.
pub open spec fn redeem_spec(totals: VaultTotals, shares: int, owner_balance: int, lock: int, last_deposit: int, now: int)
    -> Result<SharesRedeemed, VaultError>
{
    if shares <= 0 {
        Err(VaultError::InvalidParam)
    } else if withdraw_locked(lock, last_deposit, now) {
        Err(VaultError::WithdrawLocked)
    } else {
        match to_assets_spec(shares, totals.total_assets as int, totals.total_shares as int) {
            Err(e) => Err(e),
            Ok(assets) => if assets > totals.total_assets {
                Err(VaultError::InsufficientAssets)
            } else {
                settle_redemption(totals, assets as int, shares, owner_balance)
            },
        }
    }
}

/// The shares burned to withdraw exactly `assets`: the floored conversion, plus
/// one when converting it back falls short of `assets`.
pub open spec fn withdraw_shares_spec(assets: int, total_assets: int, total_shares: int) -> Result<i128, VaultError> {
    match to_shares_spec(assets, total_assets, total_shares) {
        Err(e) => Err(e),
        Ok(floored) => match to_assets_spec(floored as int, total_assets, total_shares) {
            Err(e) => Err(e),
            Ok(round_trip) => if round_trip < assets {
                if fits_i128(floored + 1) { Ok((floored + 1) as i128) } else { Err(VaultError::MathFault) }
            } else {
                Ok(floored)
            },
        },
    }
}

/// Computes the shares burned to withdraw exactly `assets` (see [`withdraw_shares_spec`]).
fn withdraw_shares(assets: i128, total_assets: i128, total_shares: i128) -> (r: Result<i128, VaultError>)
    requires
        !to_shares_traps(assets as int, total_assets as int, total_shares as int),
        to_shares_spec(assets as int, total_assets as int, total_shares as int) matches Ok(f)
            ==> !to_assets_traps(f as int, total_assets as int, total_shares as int),
    ensures
        r == withdraw_shares_spec(assets as int, total_assets as int, total_shares as int),
{
    let floored = assets_to_shares(assets, total_assets, total_shares)?;
    let round_trip = shares_to_assets(floored, total_assets, total_shares)?;
    if round_trip < assets {
        floored.checked_add(1).ok_or(VaultError::MathFault)
    } else {
        Ok(floored)
    }
}

/// What withdrawing exactly `assets` does.
pub open spec fn withdraw_spec(totals: VaultTotals, assets: int, owner_balance: int, lock: int, last_deposit: int, now: int)
    -> Result<SharesRedeemed, VaultError>
{
    if assets <= 0 {
        Err(VaultError::InvalidParam)
    } else if withdraw_locked(lock, last_deposit, now) {
        Err(VaultError::WithdrawLocked)
    } else if assets > totals.total_assets {
        Err(VaultError::InsufficientAssets)
    } else {
        match withdraw_shares_spec(assets, totals.total_assets as int, totals.total_shares as int) {
            Err(e) => Err(e),
            Ok(shares) => settle_redemption(totals, assets, shares as int, owner_balance),
        }
    }
}

/// The inputs on which a withdrawal cannot complete.
pub open spec fn withdraw_traps(totals: VaultTotals, assets: int, owner_balance: int) -> bool {
    let ta = totals.total_assets as int;
    let ts = totals.total_shares as int;
    ||| to_shares_traps(assets, ta, ts)
    ||| (to_shares_spec(assets, ta, ts) matches Ok(floored) && to_assets_traps(floored as int, ta, ts))
    ||| (withdraw_shares_spec(assets, ta, ts) matches Ok(shares) && owner_balance >= shares && !fits_i128(owner_balance - shares))
}

/// The inputs on which a redemption cannot complete.
pub open spec fn redeem_traps(totals: VaultTotals, shares: int, owner_balance: int) -> bool {
    let ta = totals.total_assets as int;
    let ts = totals.total_shares as int;
    ||| to_assets_traps(shares, ta, ts)
    ||| (to_assets_spec(shares, ta, ts) matches Ok(assets) && assets <= ta && !fits_i128(ta - assets))
    ||| (owner_balance >= shares && !fits_i128(owner_balance - shares))
}

/// Whether a withdrawal would trap on these inputs (see [`withdraw_traps`]).
pub fn withdraw_would_trap(totals: VaultTotals, assets: i128, owner_balance: i128) -> (r: bool)
    ensures
        r == withdraw_traps(totals, assets as int, owner_balance as int),
{
    let ta = totals.total_assets;
    let ts = totals.total_shares;
    if to_shares_would_trap(assets, ta, ts) {
        return true;
    }
    let floored = match assets_to_shares(assets, ta, ts) {
        Ok(f) => f,
        Err(_) => return false,
    };
    if to_assets_would_trap(floored, ta, ts) {
        return true;
    }
    match withdraw_shares(assets, ta, ts) {
        Ok(shares) => owner_balance >= shares && owner_balance.checked_sub(shares).is_none(),
        Err(_) => false,
    }
}

/// Whether a redemption would trap on these inputs (see [`redeem_traps`]).
pub fn redeem_would_trap(totals: VaultTotals, shares: i128, owner_balance: i128) -> (r: bool)
    ensures
        r == redeem_traps(totals, shares as int, owner_balance as int),
{
    let ta = totals.total_assets;
    let ts = totals.total_shares;
    if to_assets_would_trap(shares, ta, ts) {
        return true;
    }
    let assets_trap = match shares_to_assets(shares, ta, ts) {
        Ok(assets) => assets <= ta && ta.checked_sub(assets).is_none(),
        Err(_) => false,
    };
    assets_trap || (owner_balance >= shares && owner_balance.checked_sub(shares).is_none())
}

/// What settling a closing trade does: the trader receives
/// `effective_collateral + net_pnl_for_vault`, the vault's assets move by
/// `-net_pnl_for_vault`.
pub open spec fn settle_spec(totals: VaultTotals, effective_collateral: int, net_pnl_for_vault: int) -> Result<(VaultTotals, i128), VaultError> {
    let gross = effective_collateral + net_pnl_for_vault;
    let new_total = totals.total_assets - net_pnl_for_vault;
    if effective_collateral < 0 {
        Err(VaultError::InvalidParam)
    } else if !fits_i128(gross) {
        Err(VaultError::MathFault)
    } else if gross < 0 {
        Err(VaultError::InvalidParam)
    } else if !fits_i128(new_total) {
        Err(VaultError::MathFault)
    } else if new_total < 0 {
        Err(VaultError::InsufficientAssets)
    } else {
        Ok((VaultTotals { total_assets: new_total as i128, total_shares: totals.total_shares }, gross as i128))
    }
}

/// What recording `amount` of bad debt does: the pair's pool grows by it and
/// the vault's assets shrink by it, floored at zero.
pub open spec fn bad_debt_spec(totals: VaultTotals, pool: int, amount: int) -> Result<(VaultTotals, i128), VaultError> {
    let new_total = totals.total_assets - amount;
    if amount <= 0 {
        Err(VaultError::InvalidParam)
    } else if !fits_i128(pool + amount) || !fits_i128(new_total) {
        Err(VaultError::MathFault)
    } else {
        Ok((
            VaultTotals { total_assets: (if new_total < 0 { 0 } else { new_total }) as i128, total_shares: totals.total_shares },
            (pool + amount) as i128,
        ))
    }
}

/// The vault's entry points, over the values they read and write.
pub struct VaultContract;

impl VaultContract {
    /// One-shot initialization: the vault starts empty and unpaused.
    pub fn init(already_initialized: bool) -> (r: Result<VaultTotals, VaultError>)
        ensures
            r == if already_initialized {
                Err::<VaultTotals, VaultError>(VaultError::AlreadyInitialized)
            } else {
                Ok(VaultTotals { total_assets: 0, total_shares: 0 })
            },
    {
        if already_initialized {
            return Err(VaultError::AlreadyInitialized);
        }
        Ok(VaultTotals { total_assets: 0, total_shares: 0 })
    }

    /// The allowance in force at `current_ledger` (zero when missing or expired).
    pub fn allowance(stored: Option<AllowanceValue>, current_ledger: u32) -> (r: i128)
        ensures
            r == effective_allowance_spec(stored, current_ledger as int).amount,
    {
        effective_allowance(stored, current_ledger).amount
    }

    /// Sets an allowance; a negative amount is refused.
    pub fn approve(amount: i128, expiration_ledger: u32) -> (r: Result<AllowanceValue, VaultError>)
        ensures
            r == if amount < 0 {
                Err::<AllowanceValue, VaultError>(VaultError::InvalidParam)
            } else {
                Ok(AllowanceValue { amount, expiration_ledger })
            },
    {
        if amount < 0 {
            return Err(VaultError::InvalidParam);
        }
        Ok(AllowanceValue { amount, expiration_ledger })
    }

    /// Share transfer between holders; returns `(new_from_balance, new_to_balance)`.
    pub fn transfer(from_balance: i128, to_balance: i128, amount: i128, same_holder: bool) -> (r: Result<(i128, i128), VaultError>)
        ensures
            r == move_shares_spec(from_balance as int, to_balance as int, amount as int, same_holder),
    {
        move_shares(from_balance, to_balance, amount, same_holder)
    }

    /// Share transfer by a spender: the allowance is consumed first, then the
    /// shares move. Returns `(new_allowance, new_from_balance, new_to_balance)`.
    pub fn transfer_from(
        allowance: AllowanceValue,
        from_balance: i128,
        to_balance: i128,
        amount: i128,
        same_holder: bool,
    ) -> (r: Result<(AllowanceValue, i128, i128), VaultError>)
        requires
            !spend_allowance_traps(allowance, amount as int),
        ensures
            r == match spend_allowance_spec(allowance, amount as int) {
                Err(e) => Err::<(AllowanceValue, i128, i128), VaultError>(e),
                Ok(a) => match move_shares_spec(from_balance as int, to_balance as int, amount as int, same_holder) {
                    Err(e) => Err(e),
                    Ok((f, t)) => Ok((a, f, t)),
                },
            },
    {
        let allowance = spend_allowance(allowance, amount)?;
        let (f, t) = move_shares(from_balance, to_balance, amount, same_holder)?;
        Ok((allowance, f, t))
    }

    /// Burns a holder's own shares; returns `(new_balance, new_totals)`.
    pub fn burn(balance: i128, totals: VaultTotals, amount: i128) -> (r: Result<(i128, VaultTotals), VaultError>)
        ensures
            r == if amount < 0 {
                Err::<(i128, VaultTotals), VaultError>(VaultError::InvalidParam)
            } else {
                match burn_shares_spec(balance as int, totals.total_shares as int, amount as int) {
                    Err(e) => Err(e),
                    Ok((b, ts)) => Ok((b, VaultTotals { total_shares: ts, ..totals })),
                }
            },
    {
        if amount < 0 {
            return Err(VaultError::InvalidParam);
        }
        let (b, ts) = burn_shares(balance, totals.total_shares, amount)?;
        Ok((b, VaultTotals { total_assets: totals.total_assets, total_shares: ts }))
    }

    /// Burns a holder's shares by a spender, consuming the allowance first.
    /// Returns `(new_allowance, new_balance, new_totals)`.
    pub fn burn_from(allowance: AllowanceValue, balance: i128, totals: VaultTotals, amount: i128)
        -> (r: Result<(AllowanceValue, i128, VaultTotals), VaultError>)
        ensures
            r == if amount < 0 {
                Err::<(AllowanceValue, i128, VaultTotals), VaultError>(VaultError::InvalidParam)
            } else {
                match spend_allowance_spec(allowance, amount as int) {
                    Err(e) => Err(e),
                    Ok(a) => match burn_shares_spec(balance as int, totals.total_shares as int, amount as int) {
                        Err(e) => Err(e),
                        Ok((b, ts)) => Ok((a, b, VaultTotals { total_shares: ts, ..totals })),
                    },
                }
            },
    {
        if amount < 0 {
            return Err(VaultError::InvalidParam);
        }
        let allowance = spend_allowance(allowance, amount)?;
        let (b, ts) = burn_shares(balance, totals.total_shares, amount)?;
        Ok((allowance, b, VaultTotals { total_assets: totals.total_assets, total_shares: ts }))
    }

    /// Decimals of the share token.
    pub fn decimals() -> (r: u32)
        ensures
            r == 7,
    {
        7
    }

    /// Deposits `assets` USDC at ledger `now_ledger` and issues shares at the
    /// current share price, unless the vault is `paused`.
    pub fn deposit(paused: bool, totals: VaultTotals, assets: i128, receiver_balance: i128, now_ledger: u32)
        -> (r: Result<SharesIssued, VaultError>)
        requires
            !paused && assets > 0 ==> !to_shares_traps(assets as int, totals.total_assets as int, totals.total_shares as int),
        ensures
            r == if paused {
                Err::<SharesIssued, VaultError>(VaultError::Paused)
            } else {
                deposit_spec(totals, assets as int, receiver_balance as int, now_ledger)
            },
    {
        require_not_paused(paused)?;
        if assets <= 0 {
            return Err(VaultError::InvalidParam);
        }
        let shares = assets_to_shares(assets, totals.total_assets, totals.total_shares)?;
        if shares <= 0 {
            return Err(VaultError::InvalidParam);
        }
        let total_assets = totals.total_assets.checked_add(assets).ok_or(VaultError::MathFault)?;
        let (receiver_balance, total_shares) = mint_shares(receiver_balance, totals.total_shares, shares)?;
        Ok(SharesIssued {
            assets,
            shares,
            totals: VaultTotals { total_assets, total_shares },
            receiver_balance,
            last_deposit_ledger: now_ledger,
        })
    }

    /// Mints exactly `shares` at ledger `now_ledger`, charging the USDC they are
    /// worth, unless the vault is `paused`.
    pub fn mint(paused: bool, totals: VaultTotals, shares: i128, receiver_balance: i128, now_ledger: u32)
        -> (r: Result<SharesIssued, VaultError>)
        requires
            !paused && shares > 0 ==> !to_assets_traps(shares as int, totals.total_assets as int, totals.total_shares as int),
        ensures
            r == if paused {
                Err::<SharesIssued, VaultError>(VaultError::Paused)
            } else {
                mint_spec(totals, shares as int, receiver_balance as int, now_ledger)
            },
    {
        require_not_paused(paused)?;
        if shares <= 0 {
            return Err(VaultError::InvalidParam);
        }
        let assets = shares_to_assets(shares, totals.total_assets, totals.total_shares)?;
        if assets <= 0 {
            return Err(VaultError::InvalidParam);
        }
        let total_assets = totals.total_assets.checked_add(assets).ok_or(VaultError::MathFault)?;
        let (receiver_balance, total_shares) = mint_shares(receiver_balance, totals.total_shares, shares)?;
        Ok(SharesIssued {
            assets,
            shares,
            totals: VaultTotals { total_assets, total_shares },
            receiver_balance,
            last_deposit_ledger: now_ledger,
        })
    }

    /// Burns exactly `shares` from the owner for the USDC they are worth, once
    /// the owner's withdraw lock has elapsed, unless the vault is `paused`.
    pub fn redeem(
        paused: bool,
        totals: VaultTotals,
        shares: i128,
        owner_balance: i128,
        withdraw_lock_ledgers: u32,
        last_deposit_ledger: u32,
        now_ledger: u32,
    ) -> (r: Result<SharesRedeemed, VaultError>)
        requires
            !paused && shares > 0 && !withdraw_locked(withdraw_lock_ledgers as int, last_deposit_ledger as int, now_ledger as int)
                ==> !redeem_traps(totals, shares as int, owner_balance as int),
        ensures
            r == if paused {
                Err::<SharesRedeemed, VaultError>(VaultError::Paused)
            } else {
                redeem_spec(totals, shares as int, owner_balance as int, withdraw_lock_ledgers as int, last_deposit_ledger as int, now_ledger as int)
            },
    {
        require_not_paused(paused)?;
        if shares <= 0 {
            return Err(VaultError::InvalidParam);
        }
        check_withdraw_lock(withdraw_lock_ledgers, last_deposit_ledger, now_ledger)?;
        let assets = shares_to_assets(shares, totals.total_assets, totals.total_shares)?;
        if assets > totals.total_assets {
            return Err(VaultError::InsufficientAssets);
        }
        let (owner_balance, total_shares) = burn_shares(owner_balance, totals.total_shares, shares)?;
        Ok(SharesRedeemed {
            assets,
            shares,
            totals: VaultTotals { total_assets: totals.total_assets - assets, total_shares },
            owner_balance,
        })
    }

    /// Withdraws exactly `assets`, burning the shares they take (rounded up so
    /// the vault is never short-changed), once the owner's withdraw lock has
    /// elapsed, unless the vault is `paused`.
    pub fn withdraw(
        paused: bool,
        totals: VaultTotals,
        assets: i128,
        owner_balance: i128,
        withdraw_lock_ledgers: u32,
        last_deposit_ledger: u32,
        now_ledger: u32,
    ) -> (r: Result<SharesRedeemed, VaultError>)
        requires
            !paused && assets > 0 && !withdraw_locked(withdraw_lock_ledgers as int, last_deposit_ledger as int, now_ledger as int)
                && assets <= totals.total_assets ==> !withdraw_traps(totals, assets as int, owner_balance as int),
        ensures
            r == if paused {
                Err::<SharesRedeemed, VaultError>(VaultError::Paused)
            } else {
                withdraw_spec(totals, assets as int, owner_balance as int, withdraw_lock_ledgers as int, last_deposit_ledger as int, now_ledger as int)
            },
    {
        require_not_paused(paused)?;
        if assets <= 0 {
            return Err(VaultError::InvalidParam);
        }
        check_withdraw_lock(withdraw_lock_ledgers, last_deposit_ledger, now_ledger)?;
        if assets > totals.total_assets {
            return Err(VaultError::InsufficientAssets);
        }
        let shares = withdraw_shares(assets, totals.total_assets, totals.total_shares)?;
        let (owner_balance, total_shares) = burn_shares(owner_balance, totals.total_shares, shares)?;
        Ok(SharesRedeemed {
            assets,
            shares,
            totals: VaultTotals { total_assets: totals.total_assets - assets, total_shares },
            owner_balance,
        })
    }

    /// Moves `amount` USDC of working capital to the position manager.
    pub fn take_collateral(totals: VaultTotals, amount: i128) -> (r: Result<VaultTotals, VaultError>)
        ensures
            r == if amount <= 0 {
                Err::<VaultTotals, VaultError>(VaultError::InvalidParam)
            } else if amount > totals.total_assets {
                Err(VaultError::InsufficientAssets)
            } else {
                Ok(VaultTotals { total_assets: (totals.total_assets - amount) as i128, ..totals })
            },
    {
        if amount <= 0 {
            return Err(VaultError::InvalidParam);
        }
        if amount > totals.total_assets {
            return Err(VaultError::InsufficientAssets);
        }
        Ok(VaultTotals { total_assets: totals.total_assets - amount, total_shares: totals.total_shares })
    }

    /// Settles a closing trade whose effective collateral the position manager
    /// has already moved into the vault. Returns the new totals and the gross
    /// payout to send the trader.
    pub fn return_collateral_with_pnl(totals: VaultTotals, effective_collateral: i128, net_pnl_for_vault: i128)
        -> (r: Result<(VaultTotals, i128), VaultError>)
        ensures
            r == settle_spec(totals, effective_collateral as int, net_pnl_for_vault as int),
    {
        if effective_collateral < 0 {
            return Err(VaultError::InvalidParam);
        }
        let gross_payout = effective_collateral.checked_add(net_pnl_for_vault).ok_or(VaultError::MathFault)?;
        if gross_payout < 0 {
            return Err(VaultError::InvalidParam);
        }
        let new_total = totals.total_assets.checked_sub(net_pnl_for_vault).ok_or(VaultError::MathFault)?;
        if new_total < 0 {
            return Err(VaultError::InsufficientAssets);
        }
        Ok((VaultTotals { total_assets: new_total, total_shares: totals.total_shares }, gross_payout))
    }

    /// Records bad debt for a pair. Returns the new totals and the pair's new pool.
    pub fn record_bad_debt(totals: VaultTotals, pool: i128, amount: i128) -> (r: Result<(VaultTotals, i128), VaultError>)
        ensures
            r == bad_debt_spec(totals, pool as int, amount as int),
    {
        if amount <= 0 {
            return Err(VaultError::InvalidParam);
        }
        let new_pool = pool.checked_add(amount).ok_or(VaultError::MathFault)?;
        let new_total = totals.total_assets.checked_sub(amount).ok_or(VaultError::MathFault)?;
        Ok((
            VaultTotals { total_assets: if new_total < 0 { 0 } else { new_total }, total_shares: totals.total_shares },
            new_pool,
        ))
    }

    /// Shares worth `assets` at the current share price.
    pub fn convert_to_shares(totals: VaultTotals, assets: i128) -> (r: Result<i128, VaultError>)
        requires
            !to_shares_traps(assets as int, totals.total_assets as int, totals.total_shares as int),
        ensures
            r == to_shares_spec(assets as int, totals.total_assets as int, totals.total_shares as int),
    {
        assets_to_shares(assets, totals.total_assets, totals.total_shares)
    }

    /// Assets worth `shares` at the current share price.
    pub fn convert_to_assets(totals: VaultTotals, shares: i128) -> (r: Result<i128, VaultError>)
        requires
            !to_assets_traps(shares as int, totals.total_assets as int, totals.total_shares as int),
        ensures
            r == to_assets_spec(shares as int, totals.total_assets as int, totals.total_shares as int),
    {
        shares_to_assets(shares, totals.total_assets, totals.total_shares)
    }
}

// ───────────────────────────── laws ─────────────────────────────

/// Converting assets to shares and back never creates assets: with assets and
/// shares outstanding, the round trip gives back at most what went in.
pub proof fn lemma_round_trip_never_creates_assets(assets: i128, total_assets: i128, total_shares: i128)
    requires
        assets >= 0,
        total_assets > 0,
        total_shares > 0,
    ensures
        to_shares_spec(assets as int, total_assets as int, total_shares as int) matches Ok(shares)
            ==> to_assets_spec(shares as int, total_assets as int, total_shares as int) matches Ok(back)
            ==> back <= assets,
{
    if fits_i128(assets * total_shares) {
        lemma_mul_div_floor_brackets(assets, total_shares, total_assets);
        let s = floor_div(assets * total_shares, total_assets as int);
        if fits_i128(s * total_assets) {
            // s * ta <= a * ts, hence floor(s * ta / ts) <= a.
            assert(s * total_assets <= assets * total_shares) by (nonlinear_arith)
                requires
                    s * total_assets <= assets * total_shares,
            ;
            lemma_div_is_ordered(s * total_assets, assets * total_shares, total_shares as int);
            assert((assets * total_shares) / (total_shares as int) == assets) by {
                lemma_div_multiples_vanish(assets as int, total_shares as int);
                assert(assets * total_shares == total_shares * assets) by (nonlinear_arith);
            }
        }
    }
}

/// A withdrawal burns the least number of shares that covers the assets: with
/// assets and shares outstanding, the shares taken for `assets` are
/// `ceil(assets * total_shares / total_assets)`, so they are worth at least
/// `assets` and one share fewer would not be.
pub proof fn lemma_withdraw_burns_enough(assets: i128, total_assets: i128, total_shares: i128)
    requires
        assets > 0,
        total_assets > 0,
        total_shares > 0,
    ensures
        withdraw_shares_spec(assets as int, total_assets as int, total_shares as int) matches Ok(shares)
            ==> shares * total_assets >= assets * total_shares
            && (shares - 1) * total_assets < assets * total_shares,
        withdraw_shares_spec(assets as int, total_assets as int, total_shares as int) matches Ok(shares)
            ==> to_assets_spec(shares as int, total_assets as int, total_shares as int) matches Ok(worth)
            ==> worth >= assets,
{
    let ta = total_assets as int;
    let ts = total_shares as int;
    let a = assets as int;
    if fits_i128(a * ts) {
        lemma_mul_div_floor_brackets(assets, total_shares, total_assets);
        let f = floor_div(a * ts, ta);
        // f * ta <= a * ts < (f + 1) * ta.
        assert(f * ta <= a * ts && a * ts < (f + 1) * ta) by (nonlinear_arith)
            requires
                f * ta <= a * ts,
                a * ts < f * ta + ta,
        ;
        assert((f - 1) * ta < a * ts) by (nonlinear_arith)
            requires
                f * ta <= a * ts,
                ta > 0,
        ;
        lemma_div_is_ordered(a * ts, (f + 1) * ta, ts);
        lemma_div_multiples_vanish(a, ts);
        assert(a * ts == ts * a) by (nonlinear_arith);
        if fits_i128(f * ta) {
            lemma_mul_div_floor_brackets(f as i128, total_assets, total_shares);
            let r = floor_div(f * ta, ts);
            if r >= a {
                // a * ts <= r * ts <= f * ta.
                assert(a * ts <= f * ta) by (nonlinear_arith)
                    requires
                        a <= r,
                        ts > 0,
                        r * ts <= f * ta,
                ;
            } else {
                // Were f * ta >= a * ts, the round trip would reach a.
                if f * ta >= a * ts {
                    lemma_div_is_ordered(a * ts, f * ta, ts);
                }
            }
        }
    }
}

/// Share accounting: every entry point that moves shares changes the holders'
/// balances by exactly what it changes the share supply by, so balances keep
/// summing to the supply. A transfer between two holders moves shares without
/// creating any, and a transfer to oneself leaves the balance as it was.
pub proof fn lemma_share_supply_tracks_balances(
    totals: VaultTotals, amount: i128, from_balance: i128, to_balance: i128, lock: u32, last_deposit: u32, now: u32,
)
    requires
        totals.total_assets >= 0,
        totals.total_shares >= 0,
        from_balance >= 0,
        to_balance >= 0,
    ensures
        move_shares_spec(from_balance as int, to_balance as int, amount as int, false) matches Ok((f, t))
            ==> f + t == from_balance + to_balance,
        move_shares_spec(from_balance as int, to_balance as int, amount as int, true) matches Ok((_f, t))
            ==> t == from_balance,
        amount >= 0 ==> (burn_shares_spec(from_balance as int, totals.total_shares as int, amount as int) matches Ok((b, s))
            ==> b - from_balance == s - totals.total_shares && s - totals.total_shares == -amount),
        deposit_spec(totals, amount as int, to_balance as int, now) matches Ok(d)
            ==> d.receiver_balance - to_balance == d.totals.total_shares - totals.total_shares
            && d.totals.total_shares - totals.total_shares == d.shares,
        mint_spec(totals, amount as int, to_balance as int, now) matches Ok(d)
            ==> d.receiver_balance - to_balance == d.totals.total_shares - totals.total_shares
            && d.totals.total_shares - totals.total_shares == d.shares,
        redeem_spec(totals, amount as int, from_balance as int, lock as int, last_deposit as int, now as int) matches Ok(w)
            ==> w.owner_balance - from_balance == w.totals.total_shares - totals.total_shares
            && w.totals.total_shares - totals.total_shares == -w.shares,
        withdraw_spec(totals, amount as int, from_balance as int, lock as int, last_deposit as int, now as int) matches Ok(w)
            ==> w.owner_balance - from_balance == w.totals.total_shares - totals.total_shares
            && w.totals.total_shares - totals.total_shares == -w.shares,
{
    lemma_scaled_quotient_nonneg(amount as int, totals.total_shares as int, totals.total_assets as int);
}

/// Deposits, redemptions and withdrawals never lower the share price: with
/// assets and shares outstanding, the assets per share afterwards (compared by
/// cross-multiplication) are at least those before.
pub proof fn lemma_share_price_never_drops(totals: VaultTotals, amount: i128, balance: i128, lock: u32, last_deposit: u32, now: u32)
    requires
        totals.total_assets > 0,
        totals.total_shares > 0,
    ensures
        deposit_spec(totals, amount as int, balance as int, now) matches Ok(d)
            ==> d.totals.total_assets * totals.total_shares >= totals.total_assets * d.totals.total_shares,
        redeem_spec(totals, amount as int, balance as int, lock as int, last_deposit as int, now as int) matches Ok(w)
            ==> w.totals.total_assets * totals.total_shares >= totals.total_assets * w.totals.total_shares,
        withdraw_spec(totals, amount as int, balance as int, lock as int, last_deposit as int, now as int) matches Ok(w)
            ==> w.totals.total_assets * totals.total_shares >= totals.total_assets * w.totals.total_shares,
{
    let ta = totals.total_assets as int;
    let ts = totals.total_shares as int;
    let a = amount as int;
    if fits_i128(a * ts) {
        lemma_mul_div_floor_brackets(amount, totals.total_shares, totals.total_assets);
        match mul_div_floor_spec(a, ts, ta) {
            Ok(f) => {
                // Deposit: the shares issued, f, satisfy f * ta <= a * ts.
                assert((ta + a) * ts - ta * (ts + f) == a * ts - f * ta) by (nonlinear_arith);
                // Withdraw: burning f + 1 shares is worth more than `amount`.
                assert(a * ts < (f + 1) * ta) by (nonlinear_arith)
                    requires
                        a * ts < f * ta + ta,
                ;
                assert((ta - a) * ts - ta * (ts - (f + 1)) == (f + 1) * ta - a * ts) by (nonlinear_arith);
                // Withdraw: burning f shares happens only when they are worth `amount`.
                if fits_i128(f * ta) {
                    lemma_mul_div_floor_brackets(f, totals.total_assets, totals.total_shares);
                    match mul_div_floor_spec(f as int, ta, ts) {
                        Ok(r) => {
                            if r >= a {
                                assert(a * ts <= r * ts) by (nonlinear_arith)
                                    requires
                                        a <= r,
                                        ts > 0,
                                ;
                            }
                            assert((ta - a) * ts - ta * (ts - f) == f * ta - a * ts) by (nonlinear_arith);
                        },
                        Err(_) => {},
                    }
                }
            },
            Err(_) => {},
        }
    }
    if fits_i128(a * ta) {
        // Redeem: the assets paid, x, satisfy x * ts <= a * ta.
        lemma_mul_div_floor_brackets(amount, totals.total_assets, totals.total_shares);
        match mul_div_floor_spec(a, ta, ts) {
            Ok(x) => {
                assert((ta - x) * ts - ta * (ts - a) == a * ta - x * ts) by (nonlinear_arith);
            },
            Err(_) => {},
        }
    }
}

/// The vault's totals stay non-negative: every entry point that succeeds from
/// non-negative totals (and, for burns, an owner balance within the share total,
/// as holds when balances sum to the total) leaves them non-negative.
pub proof fn lemma_totals_stay_nonnegative(
    totals: VaultTotals, amount: i128, balance: i128, pool: i128, net_pnl: i128,
    lock: u32, last_deposit: u32, now: u32,
)
    requires
        totals.total_assets >= 0,
        totals.total_shares >= 0,
        0 <= balance <= totals.total_shares,
    ensures
        deposit_spec(totals, amount as int, balance as int, now) matches Ok(d) ==> d.totals.total_assets >= 0 && d.totals.total_shares >= 0,
        mint_spec(totals, amount as int, balance as int, now) matches Ok(d) ==> d.totals.total_assets >= 0 && d.totals.total_shares >= 0,
        redeem_spec(totals, amount as int, balance as int, lock as int, last_deposit as int, now as int) matches Ok(w)
            ==> w.totals.total_assets >= 0 && w.totals.total_shares >= 0,
        withdraw_spec(totals, amount as int, balance as int, lock as int, last_deposit as int, now as int) matches Ok(w)
            ==> w.totals.total_assets >= 0 && w.totals.total_shares >= 0,
        settle_spec(totals, amount as int, net_pnl as int) matches Ok((t, _g)) ==> t.total_assets >= 0 && t.total_shares >= 0,
        bad_debt_spec(totals, pool as int, amount as int) matches Ok((t, _p)) ==> t.total_assets >= 0 && t.total_shares >= 0,
{
    lemma_scaled_quotient_nonneg(amount as int, totals.total_assets as int, totals.total_shares as int);
    lemma_scaled_quotient_nonneg(amount as int, totals.total_shares as int, totals.total_assets as int);
}

/// Floor of a product of non-negatives by a positive stays non-negative.
proof fn lemma_scaled_quotient_nonneg(x: int, y: int, d: int)
    requires
        y >= 0,
        d >= 0,
    ensures
        x >= 0 && d > 0 ==> floor_div(x * y, d) >= 0,
{
    if x >= 0 && d > 0 {
        assert(x * y >= 0) by (nonlinear_arith)
            requires
                x >= 0,
                y >= 0,
        ;
        vstd::arithmetic::div_mod::lemma_div_pos_is_pos(x * y, d);
    }
}

} // verus!
