//! The ledger as a state machine over mathematical values: what each
//! operation requires, how it changes the ledger, and what it asks of the
//! ledger's surroundings.

use crate::budget::checked_ledgers_to_live;
use crate::fee::checked_retention_fee;
use crate::types::{
    ContractConfigView, EffectView, Error, SubscriptionInitParamsView, SubscriptionStatus,
    SubscriptionView,
};
use vstd::prelude::*;

verus! {

/// One charging period (a day), in milliseconds.
pub const DAY: u64 = 86400 * 1000;

/// Maximum size of a webhook, in bytes.
pub const MAX_WEBHOOK_SIZE: usize = 2048;

/// Minimum heartbeat, in minutes.
pub const MIN_HEARTBEAT: u32 = 5;

/// Maximum threshold, in per mille.
pub const MAX_THRESHOLD: u32 = 10000;

/// The state of the ledger.
pub struct Ledger {
    /// The configuration, once the ledger has been configured
    pub config: Option<ContractConfigView>,
    /// The identifier given to the subscription created last
    pub last_id: u64,
    /// The subscriptions that exist, by identifier
    pub subscriptions: Map<u64, SubscriptionView>,
}

/// The outcome of an operation that succeeds: the ledger after it, and what
/// it asks of the ledger's surroundings, in order.
pub struct Step {
    pub ledger: Ledger,
    pub effects: Seq<EffectView>,
}

/// What one charge takes from a subscription and leaves to it.
#[derive(Clone, Copy, Debug, PartialEq, Eq)]
pub struct Charge {
    /// The amount taken
    pub amount: u64,
    /// The balance left
    pub balance: u64,
    /// Whether the balance left is below the fee of one period
    pub suspended: bool,
    /// The retention that the balance left pays for, in ledgers
    pub ledgers: u32,
}

/// The state of a run through a list of subscriptions to charge.
pub struct Batch {
    pub subscriptions: Map<u64, SubscriptionView>,
    pub effects: Seq<EffectView>,
    /// The sum of the amounts taken
    pub total: nat,
}

/// The parameters of a subscription are within their ranges.
pub open spec fn valid_subscription(subscription: SubscriptionView) -> bool {
    &&& 1 <= subscription.threshold <= MAX_THRESHOLD
    &&& subscription.heartbeat >= MIN_HEARTBEAT
    &&& subscription.webhook.len() <= MAX_WEBHOOK_SIZE
}

/// The number of whole periods from `updated` to `now`.
pub open spec fn elapsed_periods(updated: u64, now: u64) -> nat {
    if now >= updated {
        ((now - updated) / DAY as int) as nat
    } else {
        0
    }
}

/// The charge that is due from a subscription at `now`: none before a whole
/// period has passed; else the fee of each period passed, as far as the
/// balance goes. It fails where the fee or the retention of what is left
/// cannot be had.
pub open spec fn charge_due(
    subscription: SubscriptionView,
    base_fee: u64,
    now: u64,
    max_ttl: u32,
) -> Result<Option<Charge>, Error> {
    let periods = elapsed_periods(subscription.updated, now);
    if periods == 0 {
        Ok(None)
    } else {
        match checked_retention_fee(
            base_fee,
            subscription.base,
            subscription.quote,
            subscription.heartbeat,
        ) {
            None => Err(Error::InvalidAmount),
            Some(fee) => {
                let amount = if subscription.balance < periods * fee {
                    subscription.balance
                } else {
                    (periods * fee) as u64
                };
                let balance = (subscription.balance - amount) as u64;
                match checked_ledgers_to_live(max_ttl, fee, balance) {
                    Err(error) => Err(error),
                    Ok(ledgers) => Ok(
                        Some(Charge { amount, balance, suspended: balance < fee, ledgers }),
                    ),
                }
            },
        }
    }
}

/// A subscription after a charge at `now`.
pub open spec fn charged(subscription: SubscriptionView, charge: Charge, now: u64)
    -> SubscriptionView {
    SubscriptionView {
        balance: charge.balance,
        updated: now,
        status: if charge.suspended {
            SubscriptionStatus::Suspended
        } else {
            subscription.status
        },
        ..subscription
    }
}

/// What a charge asks for: a notification of the charge, one of the
/// suspension where the balance ran low, and the retention of the record.
pub open spec fn charge_effects(id: u64, owner: Seq<char>, charge: Charge, now: u64) -> Seq<
    EffectView,
> {
    let notice = EffectView::Charged {
        subscription_id: id,
        owner,
        amount: charge.amount,
        timestamp: now,
    };
    let retain = EffectView::ExtendTtl { subscription_id: id, ledgers: charge.ledgers };
    if charge.suspended {
        seq![notice, EffectView::Suspended { subscription_id: id, owner, timestamp: now }, retain]
    } else {
        seq![notice, retain]
    }
}

/// The run through `ids` in order, each subscription that exists being
/// charged what is due from it at that point of the run.
pub open spec fn charge_batch(
    subscriptions: Map<u64, SubscriptionView>,
    ids: Seq<u64>,
    base_fee: u64,
    now: u64,
    max_ttl: u32,
) -> Batch
    decreases ids.len(),
{
    if ids.len() == 0 {
        Batch { subscriptions, effects: Seq::empty(), total: 0 }
    } else {
        let before = charge_batch(subscriptions, ids.drop_last(), base_fee, now, max_ttl);
        let id = ids.last();
        if before.subscriptions.contains_key(id) {
            let subscription = before.subscriptions[id];
            match charge_due(subscription, base_fee, now, max_ttl) {
                Ok(Some(charge)) => Batch {
                    subscriptions: before.subscriptions.insert(
                        id,
                        charged(subscription, charge, now),
                    ),
                    effects: before.effects + charge_effects(id, subscription.owner, charge, now),
                    total: before.total + charge.amount as nat,
                },
                _ => before,
            }
        } else {
            before
        }
    }
}

/// Some subscription listed in `ids` exists and cannot be charged.
pub open spec fn charge_fails(
    subscriptions: Map<u64, SubscriptionView>,
    ids: Seq<u64>,
    base_fee: u64,
    now: u64,
    max_ttl: u32,
) -> bool {
    exists|i: int|
        0 <= i < ids.len() && subscriptions.contains_key(#[trigger] ids[i]) && charge_due(
            subscriptions[ids[i]],
            base_fee,
            now,
            max_ttl,
        ) is Err
}

impl Ledger {
    /// The ledger before it is configured.
    pub open spec fn initial() -> Ledger {
        Ledger { config: None, last_id: 0, subscriptions: Map::empty() }
    }

    /// Nothing exists before the ledger is configured; every subscription
    /// has an identifier that was given out, and parameters within their ranges.
    pub open spec fn wf(self) -> bool {
        &&& self.config is None ==> self.last_id == 0 && self.subscriptions == Map::<
            u64,
            SubscriptionView,
        >::empty()
        &&& forall|id: u64| #[trigger]
            self.subscriptions.contains_key(id) ==> 1 <= id <= self.last_id && valid_subscription(
                self.subscriptions[id],
            )
    }

    /// Why `caller` may not act as the administrator, if so.
    pub open spec fn admin_error(self, caller: Seq<char>) -> Option<Error> {
        match self.config {
            None => Some(Error::NotInitialized),
            Some(config) => if caller != config.admin {
                Some(Error::Unauthorized)
            } else {
                None
            },
        }
    }

    /// Configures the ledger, once, on behalf of its administrator.
    pub open spec fn config(self, caller: Seq<char>, config: ContractConfigView) -> Result<
        Step,
        Error,
    > {
        if caller != config.admin {
            Err(Error::Unauthorized)
        } else if self.config is Some {
            Err(Error::AlreadyInitialized)
        } else {
            Ok(
                Step {
                    ledger: Ledger { config: Some(config), last_id: 0, ..self },
                    effects: seq![EffectView::ConfigUpdated { config }],
                },
            )
        }
    }

    /// Changes the base fee.
    pub open spec fn set_fee(self, caller: Seq<char>, fee: u64) -> Result<Step, Error> {
        match self.admin_error(caller) {
            Some(error) => Err(error),
            None => Ok(
                Step {
                    ledger: Ledger {
                        config: Some(ContractConfigView { fee, ..self.config.unwrap() }),
                        ..self
                    },
                    effects: seq![EffectView::FeeUpdated { fee }],
                },
            ),
        }
    }

    /// Announces the notifications generated at `timestamp`.
    pub open spec fn trigger(self, caller: Seq<char>, timestamp: u64, trigger_hash: Seq<u8>)
        -> Result<Step, Error> {
        match self.admin_error(caller) {
            Some(error) => Err(error),
            None => Ok(
                Step {
                    ledger: self,
                    effects: seq![EffectView::Triggered { timestamp, trigger_hash }],
                },
            ),
        }
    }

    /// Replaces the executable of the service.
    pub open spec fn update_contract(self, caller: Seq<char>, wasm_hash: Seq<u8>) -> Result<
        Step,
        Error,
    > {
        match self.admin_error(caller) {
            Some(error) => Err(error),
            None => Ok(
                Step {
                    ledger: self,
                    effects: seq![
                        EffectView::UpgradeCode { wasm_hash },
                        EffectView::CodeUpdated { wasm_hash },
                    ],
                },
            ),
        }
    }

    /// Charges the subscriptions listed, in order, then destroys in one go
    /// all that was taken. Nothing happens at all where one of them cannot
    /// be charged.
    pub open spec fn charge(self, caller: Seq<char>, ids: Seq<u64>, now: u64, max_ttl: u32)
        -> Result<Step, Error> {
        match self.admin_error(caller) {
            Some(error) => Err(error),
            None => {
                let base_fee = self.config.unwrap().fee;
                if charge_fails(self.subscriptions, ids, base_fee, now, max_ttl) {
                    Err(Error::InvalidAmount)
                } else {
                    let batch = charge_batch(self.subscriptions, ids, base_fee, now, max_ttl);
                    Ok(
                        Step {
                            ledger: Ledger { subscriptions: batch.subscriptions, ..self },
                            effects: if batch.total > 0 {
                                batch.effects.push(
                                    EffectView::Burn { amount: batch.total as u128 },
                                )
                            } else {
                                batch.effects
                            },
                        },
                    )
                }
            },
        }
    }

    /// The subscription that `create_subscription` stores, given its fee.
    pub open spec fn new_subscription(
        params: SubscriptionInitParamsView,
        amount: u64,
        fee: u64,
        now: u64,
    ) -> SubscriptionView {
        SubscriptionView {
            owner: params.owner,
            base: params.base,
            quote: params.quote,
            threshold: params.threshold,
            heartbeat: params.heartbeat,
            webhook: params.webhook,
            balance: (amount - 2 * fee) as u64,
            status: SubscriptionStatus::Active,
            updated: now,
        }
    }

    /// Opens a subscription for its owner, against a deposit that covers
    /// the creation fee: twice the retention fee.
    pub open spec fn create_subscription(
        self,
        caller: Seq<char>,
        params: SubscriptionInitParamsView,
        amount: u64,
        now: u64,
        max_ttl: u32,
    ) -> Result<Step, Error>
        recommends
            self.last_id < u64::MAX,
    {
        if self.config is None {
            Err(Error::NotInitialized)
        } else if caller != params.owner {
            Err(Error::Unauthorized)
        } else if params.heartbeat == 0 {
            Err(Error::InvalidHeartbeat)
        } else {
            match checked_retention_fee(
                self.config.unwrap().fee,
                params.base,
                params.quote,
                params.heartbeat,
            ) {
                None => Err(Error::InvalidAmount),
                Some(fee) => if amount < 2 * fee {
                    Err(Error::InvalidAmount)
                } else if params.heartbeat < MIN_HEARTBEAT {
                    Err(Error::InvalidHeartbeat)
                } else if params.threshold == 0 || params.threshold > MAX_THRESHOLD {
                    Err(Error::InvalidThreshold)
                } else if params.webhook.len() > MAX_WEBHOOK_SIZE {
                    Err(Error::WebhookTooLong)
                } else {
                    match checked_ledgers_to_live(max_ttl, fee, (amount - 2 * fee) as u64) {
                        Err(error) => Err(error),
                        Ok(ledgers) => {
                            let id = (self.last_id + 1) as u64;
                            let subscription = Self::new_subscription(params, amount, fee, now);
                            Ok(
                                Step {
                                    ledger: Ledger {
                                        last_id: id,
                                        subscriptions: self.subscriptions.insert(id, subscription),
                                        ..self
                                    },
                                    effects: seq![
                                        EffectView::TransferIn {
                                            from: params.owner,
                                            amount: amount as u128,
                                        },
                                        EffectView::Burn { amount: (2 * fee) as u128 },
                                        EffectView::ExtendTtl { subscription_id: id, ledgers },
                                        EffectView::Created { subscription_id: id, subscription },
                                    ],
                                },
                            )
                        },
                    }
                },
            }
        }
    }

    /// Adds `amount`, paid by `from`, to the balance of a subscription. A
    /// suspended subscription becomes active again, for the fee of one period.
    pub open spec fn deposit(self, from: Seq<char>, id: u64, amount: u64, max_ttl: u32) -> Result<
        Step,
        Error,
    > {
        if self.config is None {
            Err(Error::NotInitialized)
        } else if amount == 0 {
            Err(Error::InvalidAmount)
        } else if !self.subscriptions.contains_key(id) {
            Err(Error::SubscriptionNotFound)
        } else {
            let subscription = self.subscriptions[id];
            match checked_retention_fee(
                self.config.unwrap().fee,
                subscription.base,
                subscription.quote,
                subscription.heartbeat,
            ) {
                None => Err(Error::InvalidAmount),
                Some(fee) => {
                    let suspended = subscription.status is Suspended;
                    let cost = if suspended {
                        fee
                    } else {
                        0
                    };
                    if subscription.balance + amount > u64::MAX || cost > amount {
                        Err(Error::InvalidAmount)
                    } else {
                        let balance = (subscription.balance + amount - cost) as u64;
                        match checked_ledgers_to_live(max_ttl, fee, balance) {
                            Err(error) => Err(error),
                            Ok(ledgers) => {
                                let topped_up = SubscriptionView {
                                    balance,
                                    status: SubscriptionStatus::Active,
                                    ..subscription
                                };
                                let transfer = EffectView::TransferIn {
                                    from,
                                    amount: amount as u128,
                                };
                                let retain = EffectView::ExtendTtl { subscription_id: id, ledgers };
                                let notice = EffectView::Deposited {
                                    subscription_id: id,
                                    subscription: topped_up,
                                    amount,
                                };
                                Ok(
                                    Step {
                                        ledger: Ledger {
                                            subscriptions: self.subscriptions.insert(id, topped_up),
                                            ..self
                                        },
                                        effects: if suspended {
                                            seq![
                                                transfer,
                                                EffectView::Burn { amount: fee as u128 },
                                                retain,
                                                notice,
                                            ]
                                        } else {
                                            seq![transfer, retain, notice]
                                        },
                                    },
                                )
                            },
                        }
                    }
                },
            }
        }
    }

    /// Ends an active subscription on behalf of its owner, who gets the
    /// balance back.
    pub open spec fn cancel(self, caller: Seq<char>, id: u64) -> Result<Step, Error> {
        if self.config is None {
            Err(Error::NotInitialized)
        } else if !self.subscriptions.contains_key(id) {
            Err(Error::SubscriptionNotFound)
        } else {
            let subscription = self.subscriptions[id];
            if caller != subscription.owner {
                Err(Error::Unauthorized)
            } else if !(subscription.status is Active) {
                Err(Error::InvalidSubscriptionStatusError)
            } else {
                Ok(
                    Step {
                        ledger: Ledger { subscriptions: self.subscriptions.remove(id), ..self },
                        effects: seq![
                            EffectView::TransferOut {
                                to: subscription.owner,
                                amount: subscription.balance as u128,
                            },
                            EffectView::Cancelled { subscription_id: id, owner: subscription.owner },
                        ],
                    },
                )
            }
        }
    }

    /// The subscription with this identifier.
    pub open spec fn get_subscription(self, id: u64) -> Result<SubscriptionView, Error> {
        if self.config is None {
            Err(Error::NotInitialized)
        } else if !self.subscriptions.contains_key(id) {
            Err(Error::SubscriptionNotFound)
        } else {
            Ok(self.subscriptions[id])
        }
    }

    /// The retention fee of the subscription with this identifier.
    pub open spec fn get_retention_fee(self, id: u64) -> Result<u64, Error> {
        match self.get_subscription(id) {
            Err(error) => Err(error),
            Ok(subscription) => match checked_retention_fee(
                self.config.unwrap().fee,
                subscription.base,
                subscription.quote,
                subscription.heartbeat,
            ) {
                None => Err(Error::InvalidAmount),
                Some(fee) => Ok(fee),
            },
        }
    }

    /// The identifier given to the subscription created last, 0 before the first.
    pub open spec fn last_id(self) -> Result<u64, Error> {
        if self.config is None {
            Err(Error::NotInitialized)
        } else {
            Ok(self.last_id)
        }
    }

    /// The administrator, once the ledger is configured.
    pub open spec fn admin(self) -> Option<Seq<char>> {
        match self.config {
            None => None,
            Some(config) => Some(config.admin),
        }
    }

    /// The base fee.
    pub open spec fn fee(self) -> Result<u64, Error> {
        match self.config {
            None => Err(Error::NotInitialized),
            Some(config) => Ok(config.fee),
        }
    }

    /// The token in which fees are paid.
    pub open spec fn token(self) -> Result<Seq<char>, Error> {
        match self.config {
            None => Err(Error::NotInitialized),
            Some(config) => Ok(config.token),
        }
    }
}

} // verus!
