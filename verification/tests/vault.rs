//! Vault flows, driven through the vault's entry points over an in-memory
//! store that plays the contract's storage and the USDC token.

use std::collections::HashMap;

use perp_dex::vault::{
    check_withdraw_lock, redeem_would_trap, require_not_paused, spend_allowance_would_trap, to_assets_would_trap,
    to_shares_would_trap, withdraw_would_trap, AllowanceValue, VaultContract, VaultError, VaultTotals,
};

const USDC_SCALE: i128 = 10_000_000;
const VAULT: &str = "vault";

fn one_usdc() -> i128 {
    USDC_SCALE
}

/// The vault's storage, the USDC balances and the ledger.
struct Vault {
    initialized: bool,
    admin: String,
    pm: String,
    totals: VaultTotals,
    paused: bool,
    withdraw_lock_ledgers: u32,
    shares: HashMap<String, i128>,
    last_deposit: HashMap<String, u32>,
    allowances: HashMap<(String, String), AllowanceValue>,
    bad_debt: HashMap<u32, i128>,
    usdc: HashMap<String, i128>,
    ledger: u32,
}

impl Vault {
    fn setup(withdraw_lock_ledgers: u32) -> Vault {
        let mut v = Vault {
            initialized: false,
            admin: String::new(),
            pm: String::new(),
            totals: VaultTotals { total_assets: 0, total_shares: 0 },
            paused: false,
            withdraw_lock_ledgers: 0,
            shares: HashMap::new(),
            last_deposit: HashMap::new(),
            allowances: HashMap::new(),
            bad_debt: HashMap::new(),
            usdc: HashMap::new(),
            ledger: 0,
        };
        v.init("admin", "pm", withdraw_lock_ledgers).unwrap();
        v
    }

    fn init(&mut self, admin: &str, pm: &str, lock: u32) -> Result<(), VaultError> {
        self.totals = VaultContract::init(self.initialized)?;
        self.initialized = true;
        self.admin = admin.to_string();
        self.pm = pm.to_string();
        self.withdraw_lock_ledgers = lock;
        self.paused = false;
        Ok(())
    }

    fn usdc_of(&self, who: &str) -> i128 {
        *self.usdc.get(who).unwrap_or(&0)
    }

    fn move_usdc(&mut self, from: &str, to: &str, amount: i128) {
        let f = self.usdc_of(from);
        assert!(f >= amount, "insufficient USDC");
        self.usdc.insert(from.to_string(), f - amount);
        let t = self.usdc_of(to);
        self.usdc.insert(to.to_string(), t + amount);
    }

    fn mint_usdc(&mut self, to: &str, amount: i128) {
        let t = self.usdc_of(to);
        self.usdc.insert(to.to_string(), t + amount);
    }

    fn balance(&self, who: &str) -> i128 {
        *self.shares.get(who).unwrap_or(&0)
    }

    fn deposit(&mut self, from: &str, assets: i128, receiver: &str) -> Result<i128, VaultError> {
        let issued = VaultContract::deposit(self.paused, self.totals, assets, self.balance(receiver), self.ledger)?;
        self.move_usdc(from, VAULT, issued.assets);
        self.totals = issued.totals;
        self.shares.insert(receiver.to_string(), issued.receiver_balance);
        self.last_deposit.insert(receiver.to_string(), issued.last_deposit_ledger);
        Ok(issued.shares)
    }

    fn redeem(&mut self, owner: &str, shares: i128, receiver: &str) -> Result<i128, VaultError> {
        let last = *self.last_deposit.get(owner).unwrap_or(&0);
        let out = VaultContract::redeem(self.paused, self.totals, shares, self.balance(owner), self.withdraw_lock_ledgers, last, self.ledger)?;
        self.shares.insert(owner.to_string(), out.owner_balance);
        self.totals = out.totals;
        self.move_usdc(VAULT, receiver, out.assets);
        Ok(out.assets)
    }

    fn withdraw(&mut self, owner: &str, assets: i128, receiver: &str) -> Result<i128, VaultError> {
        let last = *self.last_deposit.get(owner).unwrap_or(&0);
        let out = VaultContract::withdraw(self.paused, self.totals, assets, self.balance(owner), self.withdraw_lock_ledgers, last, self.ledger)?;
        self.shares.insert(owner.to_string(), out.owner_balance);
        self.totals = out.totals;
        self.move_usdc(VAULT, receiver, out.assets);
        Ok(out.shares)
    }

    fn return_collateral_with_pnl(&mut self, trader: &str, effective_collateral: i128, net_pnl: i128) -> Result<i128, VaultError> {
        let (totals, gross) = VaultContract::return_collateral_with_pnl(self.totals, effective_collateral, net_pnl)?;
        self.totals = totals;
        if gross > 0 {
            self.move_usdc(VAULT, trader, gross);
        }
        Ok(gross)
    }

    fn record_bad_debt(&mut self, pair: u32, amount: i128) -> Result<(), VaultError> {
        let pool = *self.bad_debt.get(&pair).unwrap_or(&0);
        let (totals, pool) = VaultContract::record_bad_debt(self.totals, pool, amount)?;
        self.totals = totals;
        self.bad_debt.insert(pair, pool);
        Ok(())
    }

    fn transfer(&mut self, from: &str, to: &str, amount: i128) -> Result<(), VaultError> {
        let (f, t) = VaultContract::transfer(self.balance(from), self.balance(to), amount, from == to)?;
        self.shares.insert(from.to_string(), f);
        self.shares.insert(to.to_string(), t);
        Ok(())
    }

    fn convert_to_assets(&self, shares: i128) -> Result<i128, VaultError> {
        VaultContract::convert_to_assets(self.totals, shares)
    }
}

// ───────────────── init ─────────────────

#[test]
fn init_sets_state() {
    let f = Vault::setup(0);
    assert_eq!(f.admin, "admin");
    assert_eq!(f.pm, "pm");
    assert_eq!(f.withdraw_lock_ledgers, 0);
    assert_eq!(f.totals.total_assets, 0);
    assert_eq!(f.totals.total_shares, 0);
    assert!(!f.paused);
}

#[test]
fn vault_init_twice_errors() {
    let mut f = Vault::setup(0);
    let err = f.init("admin", "pm", 0).unwrap_err();
    assert_eq!(err, VaultError::AlreadyInitialized);
}

// ───────────────── deposit / withdraw ─────────────────

#[test]
fn deposit_mints_one_to_one_first_time() {
    let mut f = Vault::setup(0);
    f.mint_usdc("lp", 1_000 * one_usdc());
    let shares = f.deposit("lp", 1_000 * one_usdc(), "lp").unwrap();
    assert_eq!(shares, 1_000 * one_usdc());
    assert_eq!(f.balance("lp"), 1_000 * one_usdc());
    assert_eq!(f.totals.total_assets, 1_000 * one_usdc());
    assert_eq!(f.totals.total_shares, 1_000 * one_usdc());
    assert_eq!(f.usdc_of(VAULT), 1_000 * one_usdc());
}

#[test]
fn redeem_returns_assets_and_burns_shares() {
    let mut f = Vault::setup(0);
    f.mint_usdc("lp", 1_000 * one_usdc());
    let shares = f.deposit("lp", 1_000 * one_usdc(), "lp").unwrap();
    let assets = f.redeem("lp", shares, "lp").unwrap();
    assert_eq!(assets, 1_000 * one_usdc());
    assert_eq!(f.balance("lp"), 0);
    assert_eq!(f.totals.total_assets, 0);
    assert_eq!(f.usdc_of("lp"), 1_000 * one_usdc());
}

#[test]
fn withdraw_exact_assets_burns_required_shares() {
    let mut f = Vault::setup(0);
    f.mint_usdc("lp", 1_000 * one_usdc());
    f.deposit("lp", 1_000 * one_usdc(), "lp").unwrap();
    let shares_burned = f.withdraw("lp", 400 * one_usdc(), "lp").unwrap();
    assert_eq!(shares_burned, 400 * one_usdc());
    assert_eq!(f.totals.total_assets, 600 * one_usdc());
    assert_eq!(f.balance("lp"), 600 * one_usdc());
}

#[test]
fn withdraw_locked_until_window_elapses() {
    let mut f = Vault::setup(100);
    f.mint_usdc("lp", 1_000 * one_usdc());
    let shares = f.deposit("lp", 1_000 * one_usdc(), "lp").unwrap();
    let err = f.redeem("lp", shares, "lp").unwrap_err();
    assert_eq!(err, VaultError::WithdrawLocked);
    f.ledger += 100;
    let assets = f.redeem("lp", shares, "lp").unwrap();
    assert_eq!(assets, 1_000 * one_usdc());
}

// ───────────────── share price after PnL ─────────────────

#[test]
fn share_price_rises_after_vault_gains_on_trader_loss() {
    let mut f = Vault::setup(0);
    f.mint_usdc("lp", 1_000 * one_usdc());
    f.deposit("lp", 1_000 * one_usdc(), "lp").unwrap();
    f.mint_usdc("pm", 100 * one_usdc());
    f.move_usdc("pm", VAULT, 100 * one_usdc());
    let gross = f.return_collateral_with_pnl("trader", 100 * one_usdc(), -100 * one_usdc()).unwrap();
    assert_eq!(gross, 0);
    assert_eq!(f.totals.total_assets, 1_100 * one_usdc());
    assert_eq!(f.totals.total_shares, 1_000 * one_usdc());
    assert_eq!(f.convert_to_assets(1_000 * one_usdc()).unwrap(), 1_100 * one_usdc());
}

#[test]
fn settle_pays_trader_profit_from_equity() {
    let mut f = Vault::setup(0);
    f.mint_usdc("lp", 1_000 * one_usdc());
    f.deposit("lp", 1_000 * one_usdc(), "lp").unwrap();
    f.mint_usdc("pm", 100 * one_usdc());
    f.move_usdc("pm", VAULT, 100 * one_usdc());
    let gross = f.return_collateral_with_pnl("trader", 100 * one_usdc(), 50 * one_usdc()).unwrap();
    assert_eq!(gross, 150 * one_usdc());
    assert_eq!(f.usdc_of("trader"), 150 * one_usdc());
    assert_eq!(f.totals.total_assets, 950 * one_usdc());
}

// ───────────────── bad debt ─────────────────

#[test]
fn record_bad_debt_debits_equity_and_pools() {
    let mut f = Vault::setup(0);
    f.mint_usdc("lp", 1_000 * one_usdc());
    f.deposit("lp", 1_000 * one_usdc(), "lp").unwrap();
    f.record_bad_debt(3, 200 * one_usdc()).unwrap();
    assert_eq!(*f.bad_debt.get(&3).unwrap(), 200 * one_usdc());
    assert_eq!(f.totals.total_assets, 800 * one_usdc());
}

// ───────────────── pause ─────────────────

#[test]
fn pause_blocks_deposit() {
    let mut f = Vault::setup(0);
    f.paused = true;
    f.mint_usdc("lp", 100 * one_usdc());
    let err = f.deposit("lp", 100 * one_usdc(), "lp").unwrap_err();
    assert_eq!(err, VaultError::Paused);
    f.paused = false;
    let shares = f.deposit("lp", 100 * one_usdc(), "lp").unwrap();
    assert_eq!(shares, 100 * one_usdc());
}

// ───────────────── share transfer ─────────────────

#[test]
fn gtoken_transfer_moves_shares() {
    let mut f = Vault::setup(0);
    f.mint_usdc("lp", 500 * one_usdc());
    f.deposit("lp", 500 * one_usdc(), "lp").unwrap();
    f.transfer("lp", "other", 200 * one_usdc()).unwrap();
    assert_eq!(f.balance("lp"), 300 * one_usdc());
    assert_eq!(f.balance("other"), 200 * one_usdc());
}

// ───────────────── further cases ─────────────────

#[test]
fn transfer_to_self_keeps_balance() {
    assert_eq!(VaultContract::transfer(70, 70, 30, true), Ok((40, 70)));
    assert_eq!(VaultContract::transfer(70, 5, 30, false), Ok((40, 35)));
    assert_eq!(VaultContract::transfer(20, 5, 30, false), Err(VaultError::InsufficientShares));
    assert_eq!(VaultContract::transfer(20, 5, -1, false), Err(VaultError::InvalidParam));
    assert_eq!(VaultContract::transfer(20, i128::MAX, 1, false), Err(VaultError::MathFault));
}

#[test]
fn withdraw_rounds_shares_up() {
    // 1000 assets backed by 3 shares: 1 asset is worth 3/1000 of a share, floored to 0,
    // which converts back to 0 assets, so one share is burned.
    let totals = VaultTotals { total_assets: 1000, total_shares: 3 };
    let out = VaultContract::withdraw(false, totals, 1, 3, 0, 0, 0).unwrap();
    assert_eq!(out.shares, 1);
    assert_eq!(out.totals, VaultTotals { total_assets: 999, total_shares: 2 });
    assert_eq!(out.owner_balance, 2);
    assert!(VaultContract::convert_to_assets(totals, out.shares).unwrap() >= 1);
}

#[test]
fn round_trip_never_creates_assets() {
    let totals = VaultTotals { total_assets: 1_000_003, total_shares: 999_999 };
    let shares = VaultContract::convert_to_shares(totals, 12_345).unwrap();
    let back = VaultContract::convert_to_assets(totals, shares).unwrap();
    assert!(back <= 12_345);
    assert_eq!(shares, 12_344);
}

#[test]
fn allowances_expire_and_are_spent() {
    let allowance = VaultContract::approve(100, 50).unwrap();
    assert_eq!(VaultContract::approve(-1, 50), Err(VaultError::InvalidParam));
    assert_eq!(VaultContract::allowance(Some(allowance), 50), 100);
    assert_eq!(VaultContract::allowance(Some(allowance), 51), 0);
    assert_eq!(VaultContract::allowance(None, 0), 0);
    let (a, f, t) = VaultContract::transfer_from(allowance, 80, 0, 60, false).unwrap();
    assert_eq!((a.amount, a.expiration_ledger, f, t), (40, 50, 20, 60));
    assert_eq!(
        VaultContract::transfer_from(allowance, 80, 0, 101, false),
        Err(VaultError::InsufficientAllowance)
    );
    let totals = VaultTotals { total_assets: 500, total_shares: 500 };
    let (a, b, t) = VaultContract::burn_from(allowance, 80, totals, 30).unwrap();
    assert_eq!((a.amount, b, t.total_shares, t.total_assets), (70, 50, 470, 500));
    assert_eq!(VaultContract::burn(10, totals, 11), Err(VaultError::InsufficientShares));
    assert_eq!(VaultContract::burn(10, totals, -1), Err(VaultError::InvalidParam));
}

#[test]
fn settlement_and_collateral_errors() {
    let totals = VaultTotals { total_assets: 100, total_shares: 100 };
    assert_eq!(VaultContract::return_collateral_with_pnl(totals, -1, 0), Err(VaultError::InvalidParam));
    assert_eq!(VaultContract::return_collateral_with_pnl(totals, 10, -11), Err(VaultError::InvalidParam));
    assert_eq!(VaultContract::return_collateral_with_pnl(totals, 10, 101), Err(VaultError::InsufficientAssets));
    assert_eq!(VaultContract::return_collateral_with_pnl(totals, 1, i128::MAX), Err(VaultError::MathFault));
    assert_eq!(VaultContract::take_collateral(totals, 0), Err(VaultError::InvalidParam));
    assert_eq!(VaultContract::take_collateral(totals, 101), Err(VaultError::InsufficientAssets));
    assert_eq!(VaultContract::take_collateral(totals, 40), Ok(VaultTotals { total_assets: 60, total_shares: 100 }));
    assert_eq!(VaultContract::record_bad_debt(totals, 0, 0), Err(VaultError::InvalidParam));
    assert_eq!(
        VaultContract::record_bad_debt(totals, 5, 150),
        Ok((VaultTotals { total_assets: 0, total_shares: 100 }, 155))
    );
    assert_eq!(VaultContract::deposit(false, totals, 0, 0, 0), Err(VaultError::InvalidParam));
    assert_eq!(VaultContract::mint(false, totals, 0, 0, 0), Err(VaultError::InvalidParam));
    let tiny = VaultTotals { total_assets: 1000, total_shares: 1 };
    assert_eq!(VaultContract::deposit(false, tiny, 10, 0, 0), Err(VaultError::InvalidParam));
    assert_eq!(VaultContract::withdraw(false, totals, 101, 100, 0, 0, 0), Err(VaultError::InsufficientAssets));
}

#[test]
fn mint_charges_the_share_price() {
    let totals = VaultTotals { total_assets: 2_000, total_shares: 1_000 };
    let issued = VaultContract::mint(false, totals, 10, 0, 0).unwrap();
    assert_eq!(issued.assets, 20);
    assert_eq!(issued.totals, VaultTotals { total_assets: 2_020, total_shares: 1_010 });
    assert_eq!(issued.receiver_balance, 10);
}

#[test]
fn lock_saturates_at_the_last_ledger() {
    assert_eq!(check_withdraw_lock(10, u32::MAX - 5, u32::MAX - 1), Err(VaultError::WithdrawLocked));
    assert_eq!(check_withdraw_lock(10, u32::MAX - 5, u32::MAX), Ok(()));
    assert_eq!(check_withdraw_lock(0, 100, 0), Ok(()));
    assert_eq!(VaultError::MathFault.code(), 11);
}

#[test]
fn traps_are_detected_before_the_call() {
    // Converting through a divisor of -1 would divide i128::MIN by -1.
    assert!(to_shares_would_trap(i128::MIN, -1, 1));
    assert!(!to_shares_would_trap(5, -1, 1));
    assert!(!to_shares_would_trap(i128::MIN, 0, 1));
    assert!(to_assets_would_trap(i128::MIN, 1, -1));
    assert!(!to_assets_would_trap(i128::MIN, 1, 0));
    // Spending a negative amount from a full allowance would overflow it.
    let full = AllowanceValue { amount: i128::MAX, expiration_ledger: 0 };
    assert!(spend_allowance_would_trap(full, -1));
    assert!(!spend_allowance_would_trap(AllowanceValue { amount: 5, expiration_ledger: 0 }, -1));
    assert!(!spend_allowance_would_trap(AllowanceValue { amount: 5, expiration_ledger: 0 }, 10));
    // Burning a negative share count from a full balance would overflow it.
    let healthy = VaultTotals { total_assets: 100, total_shares: 100 };
    assert!(!redeem_would_trap(healthy, 10, 50));
    assert!(redeem_would_trap(healthy, -1, i128::MAX));
    assert!(redeem_would_trap(VaultTotals { total_assets: 1, total_shares: -1 }, i128::MIN, 0));
    assert!(!withdraw_would_trap(healthy, 10, 50));
    assert!(withdraw_would_trap(VaultTotals { total_assets: -1, total_shares: 1 }, i128::MIN, 0));
    assert!(withdraw_would_trap(VaultTotals { total_assets: 10, total_shares: -10 }, 1, i128::MAX));
}

#[test]
fn deposits_redemptions_and_withdrawals_keep_the_share_price() {
    let totals = VaultTotals { total_assets: 2_000, total_shares: 1_000 };
    let price_kept = |after: VaultTotals| after.total_assets * totals.total_shares >= totals.total_assets * after.total_shares;
    let d = VaultContract::deposit(false, totals, 3, 0, 0).unwrap();
    assert_eq!(d.shares, 1);
    assert_eq!(d.totals, VaultTotals { total_assets: 2_003, total_shares: 1_001 });
    assert!(price_kept(d.totals));
    let r = VaultContract::redeem(false, totals, 3, 10, 0, 0, 0).unwrap();
    assert_eq!(r.assets, 6);
    assert!(price_kept(r.totals));
    let w = VaultContract::withdraw(false, totals, 3, 10, 0, 0, 0).unwrap();
    assert_eq!(w.shares, 2);
    assert_eq!(w.totals, VaultTotals { total_assets: 1_997, total_shares: 998 });
    assert!(price_kept(w.totals));
}

#[test]
fn mint_rounds_in_the_minters_favour() {
    // One share of a vault holding 3 assets for 2 shares is worth 1.5 assets,
    // and minting it charges the floor, 1.
    let totals = VaultTotals { total_assets: 3, total_shares: 2 };
    let issued = VaultContract::mint(false, totals, 1, 0, 0).unwrap();
    assert_eq!(issued.assets, 1);
    assert_eq!(issued.totals, VaultTotals { total_assets: 4, total_shares: 3 });
    assert!(issued.totals.total_assets * totals.total_shares < totals.total_assets * issued.totals.total_shares);
}

#[test]
fn share_supply_tracks_balances() {
    let totals = VaultTotals { total_assets: 2_000, total_shares: 1_000 };
    let d = VaultContract::deposit(false, totals, 500, 40, 0).unwrap();
    assert_eq!(d.receiver_balance - 40, d.shares);
    assert_eq!(d.totals.total_shares - totals.total_shares, d.shares);
    let (from, to) = VaultContract::transfer(40, 7, 15, false).unwrap();
    assert_eq!((from, to), (25, 22));
    assert_eq!(from + to, 40 + 7);
    assert_eq!(VaultContract::transfer(40, 40, 15, true), Ok((25, 40)));
    let (balance, after) = VaultContract::burn(40, totals, 15).unwrap();
    assert_eq!(balance - 40, after.total_shares - totals.total_shares);
    let w = VaultContract::withdraw(false, totals, 3, 40, 0, 0, 0).unwrap();
    assert_eq!(w.owner_balance - 40, -w.shares);
    assert_eq!(w.totals.total_shares - totals.total_shares, -w.shares);
}

#[test]
fn deposits_and_mints_record_the_receivers_ledger() {
    let totals = VaultTotals { total_assets: 2_000, total_shares: 1_000 };
    let d = VaultContract::deposit(false, totals, 500, 0, 77).unwrap();
    assert_eq!(d.last_deposit_ledger, 77);
    let m = VaultContract::mint(false, totals, 10, 0, 91).unwrap();
    assert_eq!(m.last_deposit_ledger, 91);
    // The recorded ledger starts the lock.
    let mut f = Vault::setup(50);
    f.ledger = 1_000;
    f.mint_usdc("lp", 100 * one_usdc());
    f.deposit("lp", 100 * one_usdc(), "lp").unwrap();
    assert_eq!(f.last_deposit.get("lp"), Some(&1_000));
    f.ledger = 1_049;
    assert_eq!(f.withdraw("lp", one_usdc(), "lp").unwrap_err(), VaultError::WithdrawLocked);
    f.ledger = 1_050;
    assert_eq!(f.withdraw("lp", one_usdc(), "lp").unwrap(), one_usdc());
}

#[test]
fn paused_vault_refuses_before_anything_else() {
    let totals = VaultTotals { total_assets: 2_000, total_shares: 1_000 };
    assert_eq!(VaultContract::deposit(true, totals, 0, 0, 0), Err(VaultError::Paused));
    assert_eq!(VaultContract::mint(true, totals, 10, 0, 0), Err(VaultError::Paused));
    assert_eq!(VaultContract::redeem(true, totals, 3, 10, 0, 0, 0), Err(VaultError::Paused));
    assert_eq!(VaultContract::withdraw(true, totals, 3, 10, 0, 0, 0), Err(VaultError::Paused));
    assert_eq!(require_not_paused(true), Err(VaultError::Paused));
}

#[test]
fn withdraw_burns_the_least_covering_shares() {
    // 7 assets of a vault with 10 assets for 3 shares need ceil(7 * 3 / 10) = 3 shares.
    let totals = VaultTotals { total_assets: 10, total_shares: 3 };
    let w = VaultContract::withdraw(false, totals, 7, 3, 0, 0, 0).unwrap();
    assert_eq!(w.shares, 3);
    // 20 assets of a vault with 40 assets for 10 shares need exactly 5 shares.
    let even = VaultTotals { total_assets: 40, total_shares: 10 };
    assert_eq!(VaultContract::withdraw(false, even, 20, 10, 0, 0, 0).unwrap().shares, 5);
}
