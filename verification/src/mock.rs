//! In-memory oracle and subscription sources for driving the position manager
//! through scripted price reads and subscription ids in tests, and the logic of
//! a stand-in oracle contract.

use vstd::prelude::*;

use crate::oracle::{
    asset_key, copy_bytes, PriceObservation, ReflectorAsset, ReflectorPriceData, Subscription, SubscriptionInitParams,
    SubscriptionStatus,
};

verus! {

/// The observation of the first override whose asset is `asset`, searching from `from`.
pub open spec fn override_for(overrides: Seq<(ReflectorAsset, PriceObservation)>, asset: ReflectorAsset, from: int) -> Option<PriceObservation>
    decreases overrides.len() - from,
{
    if from < 0 || from >= overrides.len() {
        None
    } else if asset_key(overrides[from].0) == asset_key(asset) {
        Some(overrides[from].1)
    } else {
        override_for(overrides, asset, from + 1)
    }
}

/// The index of the first override whose asset is `asset`, searching from `from`.
pub open spec fn override_index(overrides: Seq<(ReflectorAsset, PriceObservation)>, asset: ReflectorAsset, from: int) -> Option<int>
    decreases overrides.len() - from,
{
    if from < 0 || from >= overrides.len() {
        None
    } else if asset_key(overrides[from].0) == asset_key(asset) {
        Some(from)
    } else {
        override_index(overrides, asset, from + 1)
    }
}

/// The overrides after setting `obs` for `asset`: the first override of that
/// asset is replaced in place, or a new one is appended.
pub open spec fn with_override(overrides: Seq<(ReflectorAsset, PriceObservation)>, asset: ReflectorAsset, obs: PriceObservation)
    -> Seq<(ReflectorAsset, PriceObservation)>
{
    match override_index(overrides, asset, 0) {
        Some(i) => overrides.update(i, (overrides[i].0, obs)),
        None => overrides.push((asset, obs)),
    }
}

/// Stub price source: answers every asset with a default observation unless an
/// asset-specific override has been set.
pub struct MockOracle {
    default: Option<PriceObservation>,
    overrides: Vec<(ReflectorAsset, PriceObservation)>,
}

impl MockOracle {
    /// The default observation.
    pub closed spec fn default_price(&self) -> Option<PriceObservation> {
        self.default
    }

    /// The per-asset overrides, in the order they were first set.
    pub closed spec fn overrides(&self) -> Seq<(ReflectorAsset, PriceObservation)> {
        self.overrides@
    }

    /// What a read of `asset` returns: its override, else the default.
    pub open spec fn price_of(&self, asset: ReflectorAsset) -> Option<PriceObservation> {
        match override_for(self.overrides(), asset, 0) {
            Some(obs) => Some(obs),
            None => self.default_price(),
        }
    }

    /// A source with no price configured.
    pub fn new() -> (r: MockOracle)
        ensures
            r.default_price() is None,
            r.overrides() == Seq::<(ReflectorAsset, PriceObservation)>::empty(),
    {
        MockOracle { default: None, overrides: Vec::new() }
    }

    /// Sets the observation returned for assets without an override.
    pub fn set_default(&mut self, obs: PriceObservation)
        ensures
            final(self).default_price() == Some(obs),
            final(self).overrides() == old(self).overrides(),
    {
        self.default = Some(obs);
    }

    /// Sets the observation returned for `asset`, replacing an earlier override
    /// of the same asset in place.
    pub fn set_for(&mut self, asset: ReflectorAsset, obs: PriceObservation)
        ensures
            final(self).default_price() == old(self).default_price(),
            final(self).overrides() == with_override(old(self).overrides(), asset, obs),
    {
        let n = self.overrides.len();
        let mut i: usize = 0;
        while i < n
            invariant
                n == self.overrides.len(),
                i <= n,
                override_index(self.overrides@, asset, 0) == override_index(self.overrides@, asset, i as int),
                self.default == old(self).default,
                self.overrides@ == old(self).overrides@,
            decreases n - i,
        {
            if self.overrides[i].0.same_as(&asset) {
                let key = self.overrides[i].0.duplicate();
                self.overrides.set(i, (key, obs));
                return;
            }
            i = i + 1;
        }
        self.overrides.push((asset, obs));
    }

    /// Removes every configured price.
    pub fn clear(&mut self)
        ensures
            final(self).default_price() is None,
            final(self).overrides() == Seq::<(ReflectorAsset, PriceObservation)>::empty(),
    {
        self.default = None;
        self.overrides.clear();
    }

    /// The observation for `asset`: its override, else the default.
    pub fn read_price(&self, asset: &ReflectorAsset) -> (r: Option<PriceObservation>)
        ensures
            r == self.price_of(*asset),
    {
        let n = self.overrides.len();
        let mut i: usize = 0;
        while i < n
            invariant
                n == self.overrides.len(),
                i <= n,
                override_for(self.overrides@, *asset, 0) == override_for(self.overrides@, *asset, i as int),
            decreases n - i,
        {
            if self.overrides[i].0.same_as(asset) {
                return Some(self.overrides[i].1);
            }
            i = i + 1;
        }
        self.default
    }
}

/// A read finds the first entry whose asset matches.
proof fn lemma_override_for_hits(t: Seq<(ReflectorAsset, PriceObservation)>, a: ReflectorAsset, i: int, from: int)
    requires
        0 <= from <= i < t.len(),
        asset_key(t[i].0) == asset_key(a),
        forall|j: int| from <= j < i ==> asset_key(#[trigger] t[j].0) != asset_key(a),
    ensures
        override_for(t, a, from) == Some(t[i].1),
    decreases i - from,
{
    if from < i {
        lemma_override_for_hits(t, a, i, from + 1);
    }
}

/// Two override lists give the same read of `b` when they agree on every entry
/// that could match `b` and the longer one's extra entries do not match it.
proof fn lemma_override_for_agree(s: Seq<(ReflectorAsset, PriceObservation)>, t: Seq<(ReflectorAsset, PriceObservation)>, b: ReflectorAsset, from: int)
    requires
        0 <= from,
        s.len() <= t.len(),
        forall|j: int| from <= j < s.len() ==> (#[trigger] s[j] == t[j] || (asset_key(s[j].0) == asset_key(t[j].0) && asset_key(s[j].0) != asset_key(b))),
        forall|j: int| s.len() <= j < t.len() ==> asset_key(#[trigger] t[j].0) != asset_key(b),
    ensures
        override_for(t, b, from) == override_for(s, b, from),
    decreases t.len() - from,
{
    if from < t.len() {
        lemma_override_for_agree(s, t, b, from + 1);
    }
}

/// `override_index` finds the first entry whose asset matches.
proof fn lemma_override_index_first(s: Seq<(ReflectorAsset, PriceObservation)>, a: ReflectorAsset, from: int)
    requires
        0 <= from,
    ensures
        override_index(s, a, from) matches Some(i) ==> from <= i < s.len() && asset_key(s[i].0) == asset_key(a)
            && forall|j: int| from <= j < i ==> asset_key(#[trigger] s[j].0) != asset_key(a),
        override_index(s, a, from) is None ==> forall|j: int| from <= j < s.len() ==> asset_key(#[trigger] s[j].0) != asset_key(a),
    decreases s.len() - from,
{
    if from < s.len() && asset_key(s[from].0) != asset_key(a) {
        lemma_override_index_first(s, a, from + 1);
    }
}

/// A read after a write gives back what was written, and leaves every other
/// asset's read unchanged.
pub proof fn lemma_set_for_then_read(
    overrides: Seq<(ReflectorAsset, PriceObservation)>, asset: ReflectorAsset, obs: PriceObservation, other: ReflectorAsset,
)
    ensures
        override_for(with_override(overrides, asset, obs), asset, 0) == Some(obs),
        asset_key(other) != asset_key(asset) ==> override_for(with_override(overrides, asset, obs), other, 0) == override_for(overrides, other, 0),
{
    let after = with_override(overrides, asset, obs);
    lemma_override_index_first(overrides, asset, 0);
    match override_index(overrides, asset, 0) {
        Some(i) => {
            lemma_override_for_hits(after, asset, i, 0);
            if asset_key(other) != asset_key(asset) {
                lemma_override_for_agree(overrides, after, other, 0);
            }
        },
        None => {
            lemma_override_for_hits(after, asset, overrides.len() as int, 0);
            if asset_key(other) != asset_key(asset) {
                lemma_override_for_agree(overrides, after, other, 0);
            }
        },
    }
}

/// Stub subscription source: hands out increasing ids, keeps active
/// subscriptions and records cancellations and deposits in call order.
pub struct MockSubscription {
    next_id: u64,
    active: Vec<(u64, Subscription)>,
    cancellations: Vec<u64>,
    deposits: Vec<(u64, u64)>,
}

/// The ids of a list of active subscriptions.
pub open spec fn active_ids(active: Seq<(u64, Subscription)>) -> Seq<u64> {
    active.map_values(|e: (u64, Subscription)| e.0)
}

/// `ids` strictly increase and none exceeds `last`.
pub open spec fn ids_increasing_to(ids: Seq<u64>, last: u64) -> bool {
    &&& forall|i: int, j: int| 0 <= i < j < ids.len() ==> ids[i] < ids[j]
    &&& forall|i: int| 0 <= i < ids.len() ==> ids[i] <= last
}

/// Appending the id after `last` keeps the ids increasing.
proof fn lemma_ids_push(ids: Seq<u64>, last: u64)
    requires
        ids_increasing_to(ids, last),
        last < u64::MAX,
    ensures
        ids_increasing_to(ids.push((last + 1) as u64), (last + 1) as u64),
        ids.push((last + 1) as u64).contains((last + 1) as u64),
{
    let pushed = ids.push((last + 1) as u64);
    assert(pushed[ids.len() as int] == last + 1);
}

/// Removing one id keeps the ids increasing, and that id no longer occurs.
proof fn lemma_ids_remove(ids: Seq<u64>, last: u64, k: int)
    requires
        ids_increasing_to(ids, last),
        0 <= k < ids.len(),
    ensures
        ids_increasing_to(ids.remove(k), last),
        !ids.remove(k).contains(ids[k]),
{
    let removed = ids.remove(k);
    assert forall|i: int, j: int| 0 <= i < j < removed.len() implies removed[i] < removed[j] by {
        let oi = if i < k { i } else { i + 1 };
        let oj = if j < k { j } else { j + 1 };
        assert(removed[i] == ids[oi] && removed[j] == ids[oj]);
    }
    if removed.contains(ids[k]) {
        let j = choose|j: int| 0 <= j < removed.len() && removed[j] == ids[k];
        let oj = if j < k { j } else { j + 1 };
        assert(removed[j] == ids[oj]);
    }
}

impl MockSubscription {
    /// The last id handed out (0 before the first).
    pub closed spec fn last_id(&self) -> u64 {
        self.next_id
    }

    /// The active subscriptions, oldest first.
    pub closed spec fn active_list(&self) -> Seq<(u64, Subscription)> {
        self.active@
    }

    /// Ids of cancelled subscriptions, in call order.
    pub closed spec fn cancellation_log(&self) -> Seq<u64> {
        self.cancellations@
    }

    /// `(subscription_id, amount)` of each deposit, in call order.
    pub closed spec fn deposit_log(&self) -> Seq<(u64, u64)> {
        self.deposits@
    }

    /// Every id handed out so far, in the order handed out: `1, 2, …, last_id()`.
    pub open spec fn issued_ids(&self) -> Seq<u64> {
        Seq::new(self.last_id() as nat, |i: int| (i + 1) as u64)
    }

    /// Active ids are distinct: they increase from the oldest subscription to
    /// the newest, and none exceeds the last id handed out.
    pub open spec fn wf(&self) -> bool {
        ids_increasing_to(active_ids(self.active_list()), self.last_id())
    }

    /// A source with nothing handed out yet.
    pub fn new() -> (r: MockSubscription)
        ensures
            r.wf(),
            r.issued_ids() == Seq::<u64>::empty(),
            r.last_id() == 0,
            r.active_list() == Seq::<(u64, Subscription)>::empty(),
            r.cancellation_log() == Seq::<u64>::empty(),
            r.deposit_log() == Seq::<(u64, u64)>::empty(),
    {
        MockSubscription { next_id: 0, active: Vec::new(), cancellations: Vec::new(), deposits: Vec::new() }
    }

    /// The cancellations so far, in call order.
    pub fn cancellations(&self) -> (r: Vec<u64>)
        ensures
            r@ == self.cancellation_log(),
    {
        let mut r: Vec<u64> = Vec::new();
        let mut i: usize = 0;
        while i < self.cancellations.len()
            invariant
                i <= self.cancellations.len(),
                r@ == self.cancellations@.subrange(0, i as int),
            decreases self.cancellations.len() - i,
        {
            r.push(self.cancellations[i]);
            i = i + 1;
        }
        r
    }

    /// The deposits so far, in call order.
    pub fn deposits(&self) -> (r: Vec<(u64, u64)>)
        ensures
            r@ == self.deposit_log(),
    {
        let mut r: Vec<(u64, u64)> = Vec::new();
        let mut i: usize = 0;
        while i < self.deposits.len()
            invariant
                i <= self.deposits.len(),
                r@ == self.deposits@.subrange(0, i as int),
            decreases self.deposits.len() - i,
        {
            r.push(self.deposits[i]);
            i = i + 1;
        }
        r
    }

    /// Whether subscription `id` is active.
    pub fn is_active(&self, id: u64) -> (r: bool)
        ensures
            r == active_ids(self.active_list()).contains(id),
    {
        let n = self.active.len();
        let mut i: usize = 0;
        while i < n
            invariant
                n == self.active.len(),
                i <= n,
                forall|j: int| 0 <= j < i ==> self.active@[j].0 != id,
            decreases n - i,
        {
            if self.active[i].0 == id {
                assert(active_ids(self.active@)[i as int] == id);
                return true;
            }
            i = i + 1;
        }
        assert(!active_ids(self.active@).contains(id)) by {
            if active_ids(self.active@).contains(id) {
                let k = choose|k: int| 0 <= k < active_ids(self.active@).len() && active_ids(self.active@)[k] == id;
                assert(self.active@[k].0 == id);
            }
        }
        false
    }

    /// Opens a subscription echoing `params`, funded with `amount`; returns its
    /// new id and the subscription.
    pub fn create_subscription(&mut self, params: SubscriptionInitParams, amount: u64) -> (r: (u64, Subscription))
        requires
            old(self).wf(),
            old(self).last_id() < u64::MAX,
        ensures
            final(self).wf(),
            active_ids(final(self).active_list()).contains(r.0),
            r.0 == old(self).issued_ids().len() + 1,
            !old(self).issued_ids().contains(r.0),
            final(self).issued_ids() == old(self).issued_ids().push(r.0),
            r.0 == old(self).last_id() + 1,
            final(self).last_id() == r.0,
            r.1.owner == params.owner,
            r.1.base == params.base,
            r.1.quote == params.quote,
            r.1.threshold == params.threshold,
            r.1.heartbeat == params.heartbeat,
            r.1.webhook@ == params.webhook@,
            r.1.balance == amount,
            r.1.status == SubscriptionStatus::Active,
            r.1.updated == 0,
            active_ids(final(self).active_list()) == active_ids(old(self).active_list()).push(r.0),
            final(self).cancellation_log() == old(self).cancellation_log(),
            final(self).deposit_log() == old(self).deposit_log(),
    {
        self.next_id = self.next_id + 1;
        let id = self.next_id;
        let sub = Subscription {
            owner: params.owner.clone(),
            base: params.base.duplicate(),
            quote: params.quote.duplicate(),
            threshold: params.threshold,
            heartbeat: params.heartbeat,
            webhook: copy_bytes(&params.webhook),
            balance: amount,
            status: SubscriptionStatus::Active,
            updated: 0,
        };
        let kept = sub.duplicate();
        self.active.push((id, kept));
        proof {
            assert(active_ids(self.active@) =~= active_ids(old(self).active@).push(id));
            lemma_ids_push(active_ids(old(self).active@), old(self).next_id);
            assert(self.issued_ids() =~= old(self).issued_ids().push(id));
            if old(self).issued_ids().contains(id) {
                let j = choose|j: int| 0 <= j < old(self).issued_ids().len() && old(self).issued_ids()[j] == id;
                assert(old(self).issued_ids()[j] == j + 1);
            }
        }
        (id, sub)
    }

    /// Cancels active subscription `id` (which must exist) and records the cancellation.
    pub fn cancel(&mut self, subscription_id: u64)
        requires
            old(self).wf(),
            active_ids(old(self).active_list()).contains(subscription_id),
        ensures
            final(self).wf(),
            !active_ids(final(self).active_list()).contains(subscription_id),
            final(self).issued_ids() == old(self).issued_ids(),
            final(self).last_id() == old(self).last_id(),
            exists|k: int| 0 <= k < old(self).active_list().len()
                && old(self).active_list()[k].0 == subscription_id
                && (forall|j: int| 0 <= j < k ==> old(self).active_list()[j].0 != subscription_id)
                && final(self).active_list() == old(self).active_list().remove(k),
            final(self).cancellation_log() == old(self).cancellation_log().push(subscription_id),
            final(self).deposit_log() == old(self).deposit_log(),
    {
        let n = self.active.len();
        let mut i: usize = 0;
        while i < n
            invariant
                n == self.active.len(),
                i <= n,
                self.active@ == old(self).active@,
                self.cancellations@ == old(self).cancellations@,
                self.deposits@ == old(self).deposits@,
                self.next_id == old(self).next_id,
                ids_increasing_to(active_ids(self.active@), self.next_id),
                forall|j: int| 0 <= j < i ==> self.active@[j].0 != subscription_id,
                active_ids(self.active@).contains(subscription_id),
            decreases n - i,
        {
            if self.active[i].0 == subscription_id {
                let ghost before = self.active@;
                self.active.remove(i);
                self.cancellations.push(subscription_id);
                assert(self.active@ == before.remove(i as int));
                proof {
                    assert(active_ids(self.active@) =~= active_ids(before).remove(i as int));
                    lemma_ids_remove(active_ids(before), old(self).next_id, i as int);
                }
                assert(old(self).active_list()[i as int].0 == subscription_id
                    && (forall|j: int| 0 <= j < i ==> old(self).active_list()[j].0 != subscription_id)
                    && self.active_list() == old(self).active_list().remove(i as int));
                return;
            }
            i = i + 1;
        }
        proof {
            let k = choose|k: int| 0 <= k < active_ids(self.active@).len() && active_ids(self.active@)[k] == subscription_id;
            assert(self.active@[k].0 == subscription_id);
        }
    }

    /// Adds `amount` to the balance of subscription `id` when it is active, and
    /// records the deposit either way.
    pub fn deposit(&mut self, subscription_id: u64, amount: u64)
        requires
            old(self).wf(),
            forall|k: int| 0 <= k < old(self).active_list().len() && old(self).active_list()[k].0 == subscription_id
                ==> old(self).active_list()[k].1.balance + amount <= u64::MAX,
        ensures
            final(self).wf(),
            final(self).issued_ids() == old(self).issued_ids(),
            final(self).last_id() == old(self).last_id(),
            active_ids(final(self).active_list()) == active_ids(old(self).active_list()),
            forall|k: int| 0 <= k < old(self).active_list().len() ==> (#[trigger] final(self).active_list()[k]).1.balance == if old(self).active_list()[k].0 == subscription_id
                && forall|j: int| 0 <= j < k ==> old(self).active_list()[j].0 != subscription_id {
                (old(self).active_list()[k].1.balance + amount) as u64
            } else {
                old(self).active_list()[k].1.balance
            },
            final(self).cancellation_log() == old(self).cancellation_log(),
            final(self).deposit_log() == old(self).deposit_log().push((subscription_id, amount)),
    {
        let n = self.active.len();
        let mut i: usize = 0;
        while i < n
            invariant
                n == self.active.len(),
                i <= n,
                self.active@ == old(self).active@,
                self.cancellations@ == old(self).cancellations@,
                self.deposits@ == old(self).deposits@,
                self.next_id == old(self).next_id,
                ids_increasing_to(active_ids(self.active@), self.next_id),
                forall|j: int| 0 <= j < i ==> self.active@[j].0 != subscription_id,
                forall|k: int| 0 <= k < self.active@.len() && self.active@[k].0 == subscription_id
                    ==> self.active@[k].1.balance + amount <= u64::MAX,
            decreases n - i,
        {
            if self.active[i].0 == subscription_id {
                let mut sub = self.active[i].1.duplicate();
                sub.balance = self.active[i].1.balance + amount;
                self.active.set(i, (subscription_id, sub));
                proof {
                    assert(active_ids(self.active@) =~= active_ids(old(self).active@));
                }
                self.deposits.push((subscription_id, amount));
                return;
            }
            i = i + 1;
        }
        self.deposits.push((subscription_id, amount));
    }
}

/// Subscription ids run 1, 2, 3, … and are never reused: the i-th id handed
/// out is `i + 1`, so they strictly increase. With `new` handing out none,
/// each `create_subscription` appending the next one and `cancel` and `deposit`
/// leaving them as they are, the k-th subscription created gets id `k`.
pub proof fn lemma_issued_ids_count_up(m: MockSubscription)
    ensures
        m.issued_ids().len() == m.last_id(),
        forall|i: int| 0 <= i < m.issued_ids().len() ==> #[trigger] m.issued_ids()[i] == i + 1,
        forall|i: int, j: int| 0 <= i < j < m.issued_ids().len() ==> m.issued_ids()[i] < m.issued_ids()[j],
{
}

/// The stand-in oracle contract's answer: the stored price for the asset or,
/// when none is stored, 5 × 10^22 (500 000 000 at 14 decimals), stamped with
/// the ledger time.
pub struct MockOracleContract;

impl MockOracleContract {
    /// The latest price of an asset.
    pub fn lastprice(stored_price: Option<i128>, timestamp: u64) -> (r: ReflectorPriceData)
        ensures
            r.price == match stored_price {
                Some(p) => p,
                None => 50_000_000_000_000_000_000i128,
            },
            r.timestamp == timestamp,
    {
        let price = match stored_price {
            Some(p) => p,
            None => 50_000_000_000_000_000_000i128,
        };
        ReflectorPriceData { price, timestamp }
    }

    /// Decimals of the prices this oracle reports.
    pub fn decimals() -> (r: u32)
        ensures
            r == 14,
    {
        14
    }
}

} // verus!
