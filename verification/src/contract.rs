//! The subscription ledger: the executable operations, each proved to do
//! what the state machine of the model says.

use crate::budget::calc_ledgers_to_live;
use crate::fee::checked_fee;
use crate::model::{
    charge_batch, charge_due, charge_effects, charge_fails, charged, valid_subscription, Charge,
    Ledger, Step, DAY, MAX_THRESHOLD, MAX_WEBHOOK_SIZE, MIN_HEARTBEAT,
};
use crate::types::{
    effect_views, Address, ContractConfig, Effect, EffectView, Error, Subscription,
    SubscriptionInitParams, SubscriptionStatus, SubscriptionView,
};
use std::collections::HashMap;
use vstd::prelude::*;
use vstd::std_specs::hash::group_hash_axioms;

verus! {

broadcast use group_hash_axioms;

/// The ledger: its configuration, the counter of identifiers and the
/// subscriptions that exist.
pub struct SubscriptionContract {
    config: Option<ContractConfig>,
    last_id: u64,
    subscriptions: HashMap<u64, Subscription>,
}

/// The views of the records kept, by identifier.
spec fn subscription_views(records: Map<u64, Subscription>) -> Map<
    u64,
    SubscriptionView,
> {
    records.map_values(|subscription: Subscription| subscription@)
}

impl View for SubscriptionContract {
    type V = Ledger;

    closed spec fn view(&self) -> Ledger {
        Ledger {
            config: match self.config {
                Some(config) => Some(config@),
                None => None,
            },
            last_id: self.last_id,
            subscriptions: subscription_views(self.subscriptions@),
        }
    }
}

/// `result`, with the ledger before and after, is what the model gives.
pub open spec fn refines(
    result: Result<Vec<Effect>, Error>,
    before: Ledger,
    after: Ledger,
    model: Result<Step, Error>,
) -> bool {
    match result {
        Ok(effects) => model == Ok::<Step, Error>(
            Step { ledger: after, effects: effect_views(effects@) },
        ),
        Err(error) => model == Err::<Step, Error>(error) && after == before,
    }
}

proof fn lemma_views_of_none()
    ensures
        subscription_views(Map::empty()) == Map::<u64, SubscriptionView>::empty(),
{
    assert(subscription_views(Map::empty()) =~= Map::<u64, SubscriptionView>::empty());
}

proof fn lemma_views_after_insert(
    records: Map<u64, Subscription>,
    id: u64,
    subscription: Subscription,
)
    ensures
        subscription_views(records.insert(id, subscription)) == subscription_views(
            records,
        ).insert(id, subscription@),
{
    assert(subscription_views(records.insert(id, subscription)) =~= subscription_views(
        records,
    ).insert(id, subscription@));
}

proof fn lemma_views_after_remove(records: Map<u64, Subscription>, id: u64)
    ensures
        subscription_views(records.remove(id)) == subscription_views(records).remove(id),
{
    assert(subscription_views(records.remove(id)) =~= subscription_views(records).remove(id));
}

proof fn lemma_views_at(records: Map<u64, Subscription>, id: u64)
    ensures
        subscription_views(records).contains_key(id) == records.contains_key(id),
        records.contains_key(id) ==> subscription_views(records)[id] == records[id]@,
{
}

/// The record with this identifier, if there is one.
fn find(records: &HashMap<u64, Subscription>, id: u64) -> (found: Option<&Subscription>)
    ensures
        match found {
            Some(subscription) => records@.contains_key(id) && records@[id] == *subscription,
            None => !records@.contains_key(id),
        },
{
    records.get(&id)
}

/// Takes the record with this identifier out of the records.
fn take(records: &mut HashMap<u64, Subscription>, id: u64) -> (taken: Subscription)
    requires
        old(records)@.contains_key(id),
    ensures
        final(records)@ == old(records)@.remove(id),
        taken == old(records)@[id],
{
    records.remove(&id).unwrap()
}

impl Subscription {
    /// Whether the parameters are within their ranges.
    pub fn is_valid(&self) -> (valid: bool)
        ensures
            valid == valid_subscription(self@),
    {
        1 <= self.threshold && self.threshold <= MAX_THRESHOLD && self.heartbeat >= MIN_HEARTBEAT
            && self.webhook.len() <= MAX_WEBHOOK_SIZE
    }

    /// The charge that is due at `now`, if any, with `base_fee` the base
    /// fee and `max_ttl` the longest retention that the platform grants.
    pub fn charge_due(&self, base_fee: u64, now: u64, max_ttl: u32) -> (due: Result<
        Option<Charge>,
        Error,
    >)
        ensures
            due == charge_due(self@, base_fee, now, max_ttl),
    {
        if now < self.updated {
            return Ok(None);
        }
        // Several periods may have passed since the last charge
        let periods = (now - self.updated) / DAY;
        if periods == 0 {
            return Ok(None);
        }
        let fee = match checked_fee(base_fee, &self.base, &self.quote, self.heartbeat) {
            None => {
                return Err(Error::InvalidAmount);
            },
            Some(fee) => fee,
        };
        assert(periods * fee <= 0xffff_ffff_ffff_ffff * 0xffff_ffff_ffff_ffff)
            by (nonlinear_arith)
            requires
                periods <= 0xffff_ffff_ffff_ffff,
                fee <= 0xffff_ffff_ffff_ffff,
        ;
        let wanted: u128 = (periods as u128) * (fee as u128);
        // Do not charge more than is left on the balance
        let amount: u64 = if (self.balance as u128) < wanted {
            self.balance
        } else {
            wanted as u64
        };
        let balance = self.balance - amount;
        let ledgers = match calc_ledgers_to_live(max_ttl, fee, balance) {
            Err(error) => {
                return Err(error);
            },
            Ok(ledgers) => ledgers,
        };
        Ok(Some(Charge { amount, balance, suspended: balance < fee, ledgers }))
    }
}

impl SubscriptionContract {
    /// A ledger that has not been configured.
    pub fn new() -> (contract: Self)
        ensures
            contract@ == Ledger::initial(),
            contract@.wf(),
    {
        proof {
            lemma_views_of_none();
        }
        SubscriptionContract { config: None, last_id: 0, subscriptions: HashMap::new() }
    }

    /// A configured ledger that has given out the identifiers up to
    /// `last_id`, with no subscription in it yet.
    pub fn restore(config: ContractConfig, last_id: u64) -> (contract: Self)
        ensures
            contract@.config == Some(config@),
            contract@.last_id == last_id,
            contract@.subscriptions == Map::<u64, SubscriptionView>::empty(),
            contract@.wf(),
    {
        proof {
            lemma_views_of_none();
        }
        SubscriptionContract { config: Some(config), last_id, subscriptions: HashMap::new() }
    }

    /// Puts the record of a subscription that exists into the ledger. A
    /// record is refused where the ledger is not configured, where its
    /// identifier was never given out or is in the ledger already, and where
    /// its parameters are out of range.
    pub fn load_subscription(&mut self, subscription_id: u64, subscription: Subscription) -> (loaded:
        bool)
        requires
            old(self)@.wf(),
        ensures
            final(self)@.wf(),
            loaded == (old(self)@.config is Some && 1 <= subscription_id <= old(self)@.last_id
                && !old(self)@.subscriptions.contains_key(subscription_id) && valid_subscription(
                subscription@,
            )),
            final(self)@.config == old(self)@.config,
            final(self)@.last_id == old(self)@.last_id,
            final(self)@.subscriptions == if loaded {
                old(self)@.subscriptions.insert(subscription_id, subscription@)
            } else {
                old(self)@.subscriptions
            },
    {
        proof {
            lemma_views_at(self.subscriptions@, subscription_id);
        }
        if self.config.is_none() || subscription_id < 1 || subscription_id > self.last_id
            || !subscription.is_valid() || find(&self.subscriptions, subscription_id).is_some() {
            return false;
        }
        proof {
            lemma_views_after_insert(self.subscriptions@, subscription_id, subscription);
        }
        self.subscriptions.insert(subscription_id, subscription);
        proof {
            assert forall|id: u64| #[trigger] self@.subscriptions.contains_key(id) implies 1 <= id
                <= self@.last_id && valid_subscription(self@.subscriptions[id]) by {
                if id != subscription_id {
                    assert(old(self)@.subscriptions.contains_key(id));
                }
            }
        }
        true
    }

    /// Whether `caller` is the administrator.
    fn check_admin(&self, caller: &Address) -> (checked: Result<&ContractConfig, Error>)
        ensures
            match checked {
                Ok(config) => self@.admin_error(caller@) is None && self.config == Some(*config),
                Err(error) => self@.admin_error(caller@) == Some(error),
            },
    {
        match &self.config {
            None => Err(Error::NotInitialized),
            Some(config) => if caller.same_as(&config.admin) {
                Ok(config)
            } else {
                Err(Error::Unauthorized)
            },
        }
    }

    /// Configures the ledger. This can be done once, by the administrator
    /// that the configuration names.
    pub fn config(&mut self, caller: &Address, config: ContractConfig) -> (result: Result<
        Vec<Effect>,
        Error,
    >)
        requires
            old(self)@.wf(),
        ensures
            final(self)@.wf(),
            refines(result, old(self)@, final(self)@, old(self)@.config(caller@, config@)),
    {
        if !caller.same_as(&config.admin) {
            return Err(Error::Unauthorized);
        }
        if self.config.is_some() {
            return Err(Error::AlreadyInitialized);
        }
        let effects = vec![Effect::ConfigUpdated { config: config.clone() }];
        self.config = Some(config);
        self.last_id = 0;
        proof {
            assert(effect_views(effects@) =~= old(self)@.config(
                caller@,
                config@,
            ).unwrap().effects);
        }
        Ok(effects)
    }

    /// Changes the base fee. Only the administrator may do so.
    pub fn set_fee(&mut self, caller: &Address, fee: u64) -> (result: Result<Vec<Effect>, Error>)
        requires
            old(self)@.wf(),
        ensures
            final(self)@.wf(),
            refines(result, old(self)@, final(self)@, old(self)@.set_fee(caller@, fee)),
    {
        let config = match self.check_admin(caller) {
            Err(error) => {
                return Err(error);
            },
            Ok(config) => config,
        };
        let changed = ContractConfig {
            admin: config.admin.clone(),
            token: config.token.clone(),
            fee,
        };
        self.config = Some(changed);
        let effects = vec![Effect::FeeUpdated { fee }];
        proof {
            assert(effect_views(effects@) =~= old(self)@.set_fee(caller@, fee).unwrap().effects);
        }
        Ok(effects)
    }

    /// Announces the notifications generated at `timestamp`, of which
    /// `trigger_hash` is the root hash. Only the administrator may do so.
    pub fn trigger(&self, caller: &Address, timestamp: u64, trigger_hash: [u8; 32]) -> (result:
        Result<Vec<Effect>, Error>)
        ensures
            refines(result, self@, self@, self@.trigger(caller@, timestamp, trigger_hash@)),
    {
        if let Err(error) = self.check_admin(caller) {
            return Err(error);
        }
        let effects = vec![Effect::Triggered { timestamp, trigger_hash }];
        proof {
            assert(effect_views(effects@) =~= self@.trigger(
                caller@,
                timestamp,
                trigger_hash@,
            ).unwrap().effects);
        }
        Ok(effects)
    }

    /// Asks for the executable of the service to be replaced by the one
    /// with this hash. Only the administrator may do so.
    pub fn update_contract(&self, caller: &Address, wasm_hash: [u8; 32]) -> (result: Result<
        Vec<Effect>,
        Error,
    >)
        ensures
            refines(result, self@, self@, self@.update_contract(caller@, wasm_hash@)),
    {
        if let Err(error) = self.check_admin(caller) {
            return Err(error);
        }
        let effects = vec![Effect::UpgradeCode { wasm_hash }, Effect::CodeUpdated { wasm_hash }];
        proof {
            assert(effect_views(effects@) =~= self@.update_contract(
                caller@,
                wasm_hash@,
            ).unwrap().effects);
        }
        Ok(effects)
    }

    /// Charges retention fees from the balances of the subscriptions
    /// listed, each for the whole periods that have passed since it was
    /// last charged, and asks for all that was taken to be destroyed in one
    /// go. Only the administrator may do so. Nothing is done where one of
    /// the subscriptions cannot be charged.
    pub fn charge(
        &mut self,
        caller: &Address,
        subscription_ids: &Vec<u64>,
        now: u64,
        max_ttl: u32,
    ) -> (result: Result<Vec<Effect>, Error>)
        requires
            old(self)@.wf(),
        ensures
            final(self)@.wf(),
            refines(
                result,
                old(self)@,
                final(self)@,
                old(self)@.charge(caller@, subscription_ids@, now, max_ttl),
            ),
    {
        let base_fee = match self.check_admin(caller) {
            Err(error) => {
                return Err(error);
            },
            Ok(config) => config.fee,
        };
        let ghost before = self@.subscriptions;
        // First see that each subscription can be charged
        let mut checked: usize = 0;
        while checked < subscription_ids.len()
            invariant
                checked <= subscription_ids.len(),
                *self == *old(self),
                old(self)@.wf(),
                old(self)@.admin_error(caller@) is None,
                old(self)@.config.unwrap().fee == base_fee,
                before == self@.subscriptions,
                forall|j: int|
                    0 <= j < checked ==> !(before.contains_key(#[trigger] subscription_ids@[j])
                        && charge_due(before[subscription_ids@[j]], base_fee, now, max_ttl) is Err),
            decreases subscription_ids.len() - checked,
        {
            let id = subscription_ids[checked];
            proof {
                lemma_views_at(self.subscriptions@, id);
            }
            if let Some(found) = find(&self.subscriptions, id) {
                if found.charge_due(base_fee, now, max_ttl).is_err() {
                    assert(charge_fails(before, subscription_ids@, base_fee, now, max_ttl));
                    return Err(Error::InvalidAmount);
                }
            }
            checked += 1;
        }
        assert(!charge_fails(before, subscription_ids@, base_fee, now, max_ttl));

        let mut effects: Vec<Effect> = Vec::new();
        let mut total: u128 = 0;
        let mut done: usize = 0;
        proof {
            assert(subscription_ids@.take(0) =~= Seq::<u64>::empty());
            assert(effect_views(effects@) =~= Seq::<EffectView>::empty());
        }
        while done < subscription_ids.len()
            invariant
                done <= subscription_ids.len(),
                self.config == old(self).config,
                self.last_id == old(self).last_id,
                old(self)@.wf(),
                old(self)@.admin_error(caller@) is None,
                old(self)@.config.unwrap().fee == base_fee,
                !charge_fails(before, subscription_ids@, base_fee, now, max_ttl),
                before == old(self)@.subscriptions,
                ({
                    let batch = charge_batch(
                        before,
                        subscription_ids@.take(done as int),
                        base_fee,
                        now,
                        max_ttl,
                    );
                    &&& self@.subscriptions == batch.subscriptions
                    &&& effect_views(effects@) == batch.effects
                    &&& total == batch.total
                }),
                total <= done * 0xffff_ffff_ffff_ffff,
                forall|id: u64| #[trigger]
                    self@.subscriptions.contains_key(id) ==> before.contains_key(id)
                        && valid_subscription(self@.subscriptions[id]),
            decreases subscription_ids.len() - done,
        {
            let id = subscription_ids[done];
            let ghost ids = subscription_ids@.take(done + 1);
            let ghost earlier = charge_batch(
                before,
                subscription_ids@.take(done as int),
                base_fee,
                now,
                max_ttl,
            );
            proof {
                assert(ids.drop_last() =~= subscription_ids@.take(done as int));
                assert(ids.last() == id);
                lemma_views_at(self.subscriptions@, id);
            }
            let due = match find(&self.subscriptions, id) {
                None => Ok(None),
                Some(found) => found.charge_due(base_fee, now, max_ttl),
            };
            if let Ok(Some(charge)) = due {
                let ghost records = self.subscriptions@;
                let mut subscription = take(&mut self.subscriptions, id);
                let ghost found = subscription@;
                // Take the fees and note when
                subscription.balance = charge.balance;
                subscription.updated = now;
                effects.push(
                    Effect::Charged {
                        subscription_id: id,
                        owner: subscription.owner.clone(),
                        amount: charge.amount,
                        timestamp: now,
                    },
                );
                // Suspend the subscription where less than the fee of one period is left
                if charge.suspended {
                    subscription.status = SubscriptionStatus::Suspended;
                    effects.push(
                        Effect::Suspended {
                            subscription_id: id,
                            owner: subscription.owner.clone(),
                            timestamp: now,
                        },
                    );
                }
                effects.push(Effect::ExtendTtl { subscription_id: id, ledgers: charge.ledgers });
                proof {
                    lemma_views_after_remove(records, id);
                    lemma_views_after_insert(self.subscriptions@, id, subscription);
                    assert(subscription@ == charged(found, charge, now));
                    assert(effect_views(effects@) =~= earlier.effects + charge_effects(
                        id,
                        found.owner,
                        charge,
                        now,
                    ));
                }
                self.subscriptions.insert(id, subscription);
                // Sum up what is taken
                total = total + charge.amount as u128;
                proof {
                    assert(self@.subscriptions =~= earlier.subscriptions.insert(
                        id,
                        charged(found, charge, now),
                    ));
                    assert forall|other: u64| #[trigger]
                        self@.subscriptions.contains_key(other) implies before.contains_key(other)
                        && valid_subscription(self@.subscriptions[other]) by {
                        if other != id {
                            assert(earlier.subscriptions.contains_key(other));
                        }
                    }
                }
            }
            done += 1;
        }
        proof {
            assert(subscription_ids@.take(done as int) =~= subscription_ids@);
        }
        // Destroy what was taken from all the subscriptions
        if total > 0 {
            effects.push(Effect::Burn { amount: total });
            proof {
                let batch = charge_batch(before, subscription_ids@, base_fee, now, max_ttl);
                assert(effect_views(effects@) =~= batch.effects.push(
                    EffectView::Burn { amount: total },
                ));
            }
        }
        proof {
            assert forall|id: u64| #[trigger] self@.subscriptions.contains_key(id) implies 1 <= id
                <= self@.last_id && valid_subscription(self@.subscriptions[id]) by {
                assert(before.contains_key(id));
            }
        }
        Ok(effects)
    }

    /// Opens a subscription for `caller`, who must be its owner, against a
    /// deposit of `amount`, of which the creation fee, twice the retention
    /// fee, is destroyed. `now` is the time in milliseconds and `max_ttl`
    /// the longest retention that the platform grants. Gives the
    /// identifier and the record of the new subscription.
    pub fn create_subscription(
        &mut self,
        caller: &Address,
        new_subscription: SubscriptionInitParams,
        amount: u64,
        now: u64,
        max_ttl: u32,
    ) -> (result: Result<((u64, Subscription), Vec<Effect>), Error>)
        requires
            old(self)@.wf(),
            old(self)@.last_id < u64::MAX,
        ensures
            final(self)@.wf(),
            refines(
                match result {
                    Ok(created) => Ok(created.1),
                    Err(error) => Err(error),
                },
                old(self)@,
                final(self)@,
                old(self)@.create_subscription(caller@, new_subscription@, amount, now, max_ttl),
            ),
            match result {
                Ok(created) => {
                    &&& created.0.0 == old(self)@.last_id + 1
                    &&& final(self)@.get_subscription(created.0.0) == Ok::<SubscriptionView, Error>(
                        created.0.1@,
                    )
                },
                Err(_) => true,
            },
    {
        let base_fee = match &self.config {
            None => {
                return Err(Error::NotInitialized);
            },
            Some(config) => config.fee,
        };
        if !caller.same_as(&new_subscription.owner) {
            return Err(Error::Unauthorized);
        }
        if new_subscription.heartbeat == 0 {
            return Err(Error::InvalidHeartbeat);
        }
        // The retention fee of one period, from the parameters
        let retention_fee = match checked_fee(
            base_fee,
            &new_subscription.base,
            &new_subscription.quote,
            new_subscription.heartbeat,
        ) {
            None => {
                return Err(Error::InvalidAmount);
            },
            Some(fee) => fee,
        };
        // The creation fee is 2 times the retention fee
        let init_fee: u128 = 2 * (retention_fee as u128);
        if (amount as u128) < init_fee {
            return Err(Error::InvalidAmount);
        }
        if MIN_HEARTBEAT > new_subscription.heartbeat {
            return Err(Error::InvalidHeartbeat);
        }
        if new_subscription.threshold == 0 || new_subscription.threshold > MAX_THRESHOLD {
            return Err(Error::InvalidThreshold);
        }
        if new_subscription.webhook.len() > MAX_WEBHOOK_SIZE {
            return Err(Error::WebhookTooLong);
        }
        let balance = amount - (init_fee as u64);
        // Retention follows from the retention fee and the balance
        let ledgers = match calc_ledgers_to_live(max_ttl, retention_fee, balance) {
            Err(error) => {
                return Err(error);
            },
            Ok(ledgers) => ledgers,
        };
        let subscription_id = self.last_id + 1;
        let subscription = Subscription {
            owner: new_subscription.owner,
            base: new_subscription.base,
            quote: new_subscription.quote,
            threshold: new_subscription.threshold,
            heartbeat: new_subscription.heartbeat,
            webhook: new_subscription.webhook,
            balance,
            status: SubscriptionStatus::Active,
            updated: now,
        };
        let effects = vec![
            Effect::TransferIn { from: subscription.owner.clone(), amount: amount as u128 },
            Effect::Burn { amount: init_fee },
            Effect::ExtendTtl { subscription_id, ledgers },
            Effect::Created { subscription_id, subscription: subscription.clone() },
        ];
        let created = subscription.clone();
        proof {
            lemma_views_after_insert(self.subscriptions@, subscription_id, subscription);
            assert(effect_views(effects@) =~= old(self)@.create_subscription(
                caller@,
                new_subscription@,
                amount,
                now,
                max_ttl,
            ).unwrap().effects);
        }
        self.subscriptions.insert(subscription_id, subscription);
        self.last_id = subscription_id;
        proof {
            assert forall|id: u64| #[trigger] self@.subscriptions.contains_key(id) implies 1 <= id
                <= self@.last_id && valid_subscription(self@.subscriptions[id]) by {
                if id != subscription_id {
                    assert(old(self)@.subscriptions.contains_key(id));
                }
            }
        }
        Ok(((subscription_id, created), effects))
    }

    /// Adds `amount`, paid by `from`, to the balance of a subscription. A
    /// suspended subscription becomes active again, which costs the
    /// retention fee of one period.
    pub fn deposit(&mut self, from: &Address, subscription_id: u64, amount: u64, max_ttl: u32) -> (result:
        Result<Vec<Effect>, Error>)
        requires
            old(self)@.wf(),
        ensures
            final(self)@.wf(),
            refines(
                result,
                old(self)@,
                final(self)@,
                old(self)@.deposit(from@, subscription_id, amount, max_ttl),
            ),
    {
        proof {
            lemma_views_at(self.subscriptions@, subscription_id);
        }
        let base_fee = match &self.config {
            None => {
                return Err(Error::NotInitialized);
            },
            Some(config) => config.fee,
        };
        if amount == 0 {
            return Err(Error::InvalidAmount);
        }
        let found = match find(&self.subscriptions, subscription_id) {
            None => {
                return Err(Error::SubscriptionNotFound);
            },
            Some(subscription) => subscription,
        };
        // The retention fee of one period, from the parameters
        let retention_fee = match checked_fee(
            base_fee,
            &found.base,
            &found.quote,
            found.heartbeat,
        ) {
            None => {
                return Err(Error::InvalidAmount);
            },
            Some(fee) => fee,
        };
        let suspended = match found.status {
            SubscriptionStatus::Suspended => true,
            SubscriptionStatus::Active => false,
        };
        // A suspended subscription pays one period to become active again
        let cost = if suspended {
            retention_fee
        } else {
            0
        };
        let topped_up = match found.balance.checked_add(amount) {
            None => {
                return Err(Error::InvalidAmount);
            },
            Some(sum) => sum,
        };
        if cost > amount {
            return Err(Error::InvalidAmount);
        }
        let balance = topped_up - cost;
        let ledgers = match calc_ledgers_to_live(max_ttl, retention_fee, balance) {
            Err(error) => {
                return Err(error);
            },
            Ok(ledgers) => ledgers,
        };
        let mut subscription = take(&mut self.subscriptions, subscription_id);
        subscription.balance = balance;
        subscription.status = SubscriptionStatus::Active;
        let mut effects = vec![Effect::TransferIn { from: from.clone(), amount: amount as u128 }];
        if suspended {
            effects.push(Effect::Burn { amount: retention_fee as u128 });
        }
        effects.push(Effect::ExtendTtl { subscription_id, ledgers });
        effects.push(Effect::Deposited { subscription_id, subscription: subscription.clone(), amount });
        proof {
            lemma_views_after_remove(old(self).subscriptions@, subscription_id);
            lemma_views_after_insert(self.subscriptions@, subscription_id, subscription);
            assert(effect_views(effects@) =~= old(self)@.deposit(
                from@,
                subscription_id,
                amount,
                max_ttl,
            ).unwrap().effects);
        }
        self.subscriptions.insert(subscription_id, subscription);
        proof {
            assert(self@.subscriptions =~= old(self)@.subscriptions.insert(
                subscription_id,
                subscription@,
            ));
            assert forall|id: u64| #[trigger] self@.subscriptions.contains_key(id) implies 1 <= id
                <= self@.last_id && valid_subscription(self@.subscriptions[id]) by {
                assert(old(self)@.subscriptions.contains_key(id));
            }
        }
        Ok(effects)
    }

    /// Ends an active subscription for `caller`, who must be its owner and
    /// gets the balance back.
    pub fn cancel(&mut self, caller: &Address, subscription_id: u64) -> (result: Result<
        Vec<Effect>,
        Error,
    >)
        requires
            old(self)@.wf(),
        ensures
            final(self)@.wf(),
            refines(result, old(self)@, final(self)@, old(self)@.cancel(caller@, subscription_id)),
    {
        proof {
            lemma_views_at(self.subscriptions@, subscription_id);
        }
        if self.config.is_none() {
            return Err(Error::NotInitialized);
        }
        let found = match find(&self.subscriptions, subscription_id) {
            None => {
                return Err(Error::SubscriptionNotFound);
            },
            Some(subscription) => subscription,
        };
        // Only the owner can cancel the subscription
        if !caller.same_as(&found.owner) {
            return Err(Error::Unauthorized);
        }
        match found.status {
            SubscriptionStatus::Active => {},
            SubscriptionStatus::Suspended => {
                return Err(Error::InvalidSubscriptionStatusError);
            },
        }
        let subscription = take(&mut self.subscriptions, subscription_id);
        let effects = vec![
            Effect::TransferOut {
                to: subscription.owner.clone(),
                amount: subscription.balance as u128,
            },
            Effect::Cancelled { subscription_id, owner: subscription.owner },
        ];
        proof {
            lemma_views_after_remove(old(self).subscriptions@, subscription_id);
            assert(effect_views(effects@) =~= old(self)@.cancel(
                caller@,
                subscription_id,
            ).unwrap().effects);
            assert forall|id: u64| #[trigger] self@.subscriptions.contains_key(id) implies 1 <= id
                <= self@.last_id && valid_subscription(self@.subscriptions[id]) by {
                assert(old(self)@.subscriptions.contains_key(id));
            }
        }
        Ok(effects)
    }

    /// The subscription with this identifier.
    pub fn get_subscription(&self, subscription_id: u64) -> (result: Result<Subscription, Error>)
        ensures
            match result {
                Ok(subscription) => self@.get_subscription(subscription_id) == Ok::<
                    SubscriptionView,
                    Error,
                >(subscription@),
                Err(error) => self@.get_subscription(subscription_id) == Err::<
                    SubscriptionView,
                    Error,
                >(error),
            },
    {
        proof {
            lemma_views_at(self.subscriptions@, subscription_id);
        }
        if self.config.is_none() {
            return Err(Error::NotInitialized);
        }
        match find(&self.subscriptions, subscription_id) {
            None => Err(Error::SubscriptionNotFound),
            Some(subscription) => Ok(subscription.clone()),
        }
    }

    /// The retention fee of the subscription with this identifier, at the
    /// base fee of now.
    pub fn get_retention_fee(&self, subscription_id: u64) -> (result: Result<u64, Error>)
        ensures
            result == self@.get_retention_fee(subscription_id),
    {
        proof {
            lemma_views_at(self.subscriptions@, subscription_id);
        }
        let config = match &self.config {
            None => {
                return Err(Error::NotInitialized);
            },
            Some(config) => config,
        };
        let subscription = match find(&self.subscriptions, subscription_id) {
            None => {
                return Err(Error::SubscriptionNotFound);
            },
            Some(subscription) => subscription,
        };
        match checked_fee(
            config.fee,
            &subscription.base,
            &subscription.quote,
            subscription.heartbeat,
        ) {
            None => Err(Error::InvalidAmount),
            Some(fee) => Ok(fee),
        }
    }

    /// The identifier given to the subscription created last.
    pub fn last_id(&self) -> (result: Result<u64, Error>)
        ensures
            result == self@.last_id(),
    {
        if self.config.is_none() {
            return Err(Error::NotInitialized);
        }
        Ok(self.last_id)
    }

    /// The administrator, if the ledger has been configured.
    pub fn admin(&self) -> (result: Option<Address>)
        ensures
            match result {
                Some(admin) => self@.admin() == Some(admin@),
                None => self@.admin() is None,
            },
    {
        match &self.config {
            None => None,
            Some(config) => Some(config.admin.clone()),
        }
    }

    /// The base fee, from which the fee of each subscription is derived.
    pub fn fee(&self) -> (result: Result<u64, Error>)
        ensures
            result == self@.fee(),
    {
        match &self.config {
            None => Err(Error::NotInitialized),
            Some(config) => Ok(config.fee),
        }
    }

    /// The token in which fees are paid.
    pub fn token(&self) -> (result: Result<Address, Error>)
        ensures
            match result {
                Ok(token) => self@.token() == Ok::<Seq<char>, Error>(token@),
                Err(error) => self@.token() == Err::<Seq<char>, Error>(error),
            },
    {
        match &self.config {
            None => Err(Error::NotInitialized),
            Some(config) => Ok(config.token.clone()),
        }
    }
}

} // verus!
