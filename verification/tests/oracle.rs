//! Oracle price normalization, the in-memory oracle and subscription sources,
//! and the stand-in oracle contract.

use perp_dex::mock::{MockOracle, MockOracleContract, MockSubscription};
use perp_dex::oracle::{
    normalize_price, PriceObservation, ReflectorAsset, SubscriptionInitParams, SubscriptionStatus,
};

fn btc() -> ReflectorAsset {
    ReflectorAsset::Other("BTC".to_string())
}

fn eth() -> ReflectorAsset {
    ReflectorAsset::Other("ETH".to_string())
}

fn obs(price: i128) -> PriceObservation {
    PriceObservation { price, timestamp: 12345 }
}

fn params() -> SubscriptionInitParams {
    SubscriptionInitParams {
        owner: "GOWNER".to_string(),
        base: btc(),
        quote: ReflectorAsset::Stellar("CUSDC".to_string()),
        threshold: 10,
        heartbeat: 60,
        webhook: vec![1, 2, 3],
    }
}

// ───────────────── price normalization ─────────────────

#[test]
fn fourteen_decimal_prices_drop_four_digits() {
    assert_eq!(normalize_price(5_000_000_000_000_000_000, 14), Some(50_000_0000000000));
    assert_eq!(normalize_price(48_000 * 10i128.pow(14), 14), Some(48_000 * 10i128.pow(10)));
    assert_eq!(normalize_price(123_456, 14), Some(12));
}

#[test]
fn ten_decimal_prices_are_unchanged() {
    assert_eq!(normalize_price(777, 10), Some(777));
    assert_eq!(normalize_price(-777, 10), Some(-777));
}

#[test]
fn coarser_prices_are_scaled_up() {
    assert_eq!(normalize_price(5, 8), Some(500));
    assert_eq!(normalize_price(3, 0), Some(30_000_000_000));
}

#[test]
fn scaling_up_past_i128_is_refused() {
    assert_eq!(normalize_price(i128::MAX / 10 + 1, 9), None);
    assert_eq!(normalize_price(i128::MAX / 100, 9), Some((i128::MAX / 100) * 10));
}

#[test]
fn negative_prices_truncate_toward_zero() {
    assert_eq!(normalize_price(-123_456, 14), Some(-12));
}

#[test]
fn very_fine_prices_vanish() {
    assert_eq!(normalize_price(i128::MAX, 49), Some(0));
    assert_eq!(normalize_price(i128::MIN, 200), Some(0));
    assert_eq!(normalize_price(i128::MAX, 48), Some(i128::MAX / 10i128.pow(38)));
}

// ───────────────── MockOracle ─────────────────

#[test]
fn mock_oracle_starts_empty() {
    let oracle = MockOracle::new();
    assert_eq!(oracle.read_price(&btc()), None);
}

#[test]
fn mock_oracle_default_answers_every_asset() {
    let mut oracle = MockOracle::new();
    oracle.set_default(obs(100));
    assert_eq!(oracle.read_price(&btc()), Some(obs(100)));
    assert_eq!(oracle.read_price(&eth()), Some(obs(100)));
}

#[test]
fn mock_oracle_override_wins_for_its_asset_only() {
    let mut oracle = MockOracle::new();
    oracle.set_default(obs(100));
    oracle.set_for(btc(), obs(200));
    assert_eq!(oracle.read_price(&btc()), Some(obs(200)));
    assert_eq!(oracle.read_price(&eth()), Some(obs(100)));
    assert_eq!(oracle.read_price(&ReflectorAsset::Stellar("BTC".to_string())), Some(obs(100)));
}

#[test]
fn mock_oracle_set_for_then_read_gives_back_the_write() {
    let mut oracle = MockOracle::new();
    oracle.set_for(btc(), obs(1));
    oracle.set_for(eth(), obs(2));
    oracle.set_for(btc(), obs(3));
    assert_eq!(oracle.read_price(&btc()), Some(obs(3)));
    assert_eq!(oracle.read_price(&eth()), Some(obs(2)));
}

#[test]
fn mock_oracle_clear_removes_everything() {
    let mut oracle = MockOracle::new();
    oracle.set_default(obs(100));
    oracle.set_for(btc(), obs(200));
    oracle.clear();
    assert_eq!(oracle.read_price(&btc()), None);
    assert_eq!(oracle.read_price(&eth()), None);
}

// ───────────────── MockSubscription ─────────────────

#[test]
fn subscriptions_get_increasing_ids_and_echo_params() {
    let mut subs = MockSubscription::new();
    let (id1, sub1) = subs.create_subscription(params(), 500);
    let (id2, _) = subs.create_subscription(params(), 7);
    assert_eq!(id1, 1);
    assert_eq!(id2, 2);
    assert_eq!(sub1.owner, "GOWNER");
    assert_eq!(sub1.base, btc());
    assert_eq!(sub1.quote, ReflectorAsset::Stellar("CUSDC".to_string()));
    assert_eq!(sub1.threshold, 10);
    assert_eq!(sub1.heartbeat, 60);
    assert_eq!(sub1.webhook, vec![1, 2, 3]);
    assert_eq!(sub1.balance, 500);
    assert_eq!(sub1.status, SubscriptionStatus::Active);
    assert_eq!(sub1.updated, 0);
    assert!(subs.is_active(1));
    assert!(subs.is_active(2));
    assert!(!subs.is_active(3));
}

#[test]
fn cancel_deactivates_and_is_logged() {
    let mut subs = MockSubscription::new();
    let (id1, _) = subs.create_subscription(params(), 1);
    let (id2, _) = subs.create_subscription(params(), 1);
    subs.cancel(id2);
    subs.cancel(id1);
    assert!(!subs.is_active(id1));
    assert!(!subs.is_active(id2));
    assert_eq!(subs.cancellations(), vec![id2, id1]);
    let (id3, _) = subs.create_subscription(params(), 1);
    assert_eq!(id3, 3);
}

#[test]
fn deposits_are_logged_even_for_inactive_ids() {
    let mut subs = MockSubscription::new();
    let (id, _) = subs.create_subscription(params(), 10);
    subs.deposit(id, 5);
    subs.deposit(99, 6);
    assert_eq!(subs.deposits(), vec![(id, 5), (99, 6)]);
    assert!(subs.is_active(id));
    assert!(!subs.is_active(99));
    assert_eq!(subs.cancellations(), Vec::<u64>::new());
}

// ───────────────── stand-in oracle contract ─────────────────

#[test]
fn mock_oracle_contract_defaults_and_stored_prices() {
    let d = MockOracleContract::lastprice(None, 42);
    assert_eq!(d.price, 50_000_000_000_000_000_000);
    assert_eq!(d.timestamp, 42);
    let s = MockOracleContract::lastprice(Some(48_000 * 10i128.pow(14)), 7);
    assert_eq!(s.price, 48_000 * 10i128.pow(14));
    assert_eq!(s.timestamp, 7);
    assert_eq!(MockOracleContract::decimals(), 14);
    assert_eq!(normalize_price(s.price, MockOracleContract::decimals()), Some(48_000 * 10i128.pow(10)));
}

#[test]
fn subscription_ids_count_up_and_are_never_reused() {
    let mut subs = MockSubscription::new();
    let mut ids = Vec::new();
    for k in 1..=6u64 {
        let (id, sub) = subs.create_subscription(params(), k);
        assert_eq!(id, k);
        assert_eq!(sub.balance, k);
        assert!(subs.is_active(id));
        ids.push(id);
        if k % 2 == 0 {
            subs.cancel(id);
            assert!(!subs.is_active(id));
        }
        subs.deposit(id, 1);
    }
    assert_eq!(ids, vec![1, 2, 3, 4, 5, 6]);
    assert_eq!(subs.cancellations(), vec![2, 4, 6]);
}
