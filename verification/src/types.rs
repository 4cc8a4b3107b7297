//! The data that the ledger keeps and exchanges, each with its mathematical view.

use vstd::prelude::*;

verus! {

/// An identity: an account or a contract, named by its textual key.
#[derive(Debug, PartialEq, Eq)]
pub struct Address {
    pub key: String,
}

impl View for Address {
    type V = Seq<char>;

    open spec fn view(&self) -> Seq<char> {
        self.key@
    }
}

impl Clone for Address {
    fn clone(&self) -> (copy: Self)
        ensures
            copy@ == self@,
    {
        Address { key: self.key.clone() }
    }
}

impl Address {
    /// Whether both name the same identity.
    pub fn same_as(&self, other: &Address) -> (same: bool)
        ensures
            same == (self@ == other@),
    {
        self.key == other.key
    }
}

/// One leg of a priced pair.
#[derive(Debug, PartialEq, Eq)]
pub struct TickerAsset {
    /// Asset identifier
    pub asset: String,
    /// Price feed source
    pub source: String,
}

/// A leg of a priced pair, as mathematical values.
pub struct TickerAssetView {
    pub asset: Seq<char>,
    pub source: Seq<char>,
}

impl View for TickerAsset {
    type V = TickerAssetView;

    open spec fn view(&self) -> TickerAssetView {
        TickerAssetView { asset: self.asset@, source: self.source@ }
    }
}

impl Clone for TickerAsset {
    fn clone(&self) -> (copy: Self)
        ensures
            copy@ == self@,
    {
        TickerAsset { asset: self.asset.clone(), source: self.source.clone() }
    }
}

/// Whether a subscription is served.
#[derive(Clone, Copy, Debug, PartialEq, Eq, Structural)]
pub enum SubscriptionStatus {
    /// Subscription tracks price feeds and triggers notifications
    Active,
    /// Subscription won't receive updates nor trigger notifications
    Suspended,
}

/// The ways in which an operation of the ledger fails.
#[derive(Clone, Copy, Debug, PartialEq, Eq, Structural)]
pub enum Error {
    /// The ledger has been configured already
    AlreadyInitialized,
    /// The caller is not the principal that the operation requires
    Unauthorized,
    /// No subscription has this identifier
    SubscriptionNotFound,
    /// The ledger has not been configured
    NotInitialized,
    /// An amount is zero, insufficient, or beyond what can be represented or retained
    InvalidAmount,
    /// The heartbeat is below the minimum
    InvalidHeartbeat,
    /// The threshold is outside its range
    InvalidThreshold,
    /// The webhook is too long
    WebhookTooLong,
    /// The subscription's status does not admit the operation
    InvalidSubscriptionStatusError,
}

impl Error {
    /// The numeric code of the error.
    pub fn code(&self) -> (code: u32)
        ensures
            code == match *self {
                Error::AlreadyInitialized => 0u32,
                Error::Unauthorized => 1u32,
                Error::SubscriptionNotFound => 2u32,
                Error::NotInitialized => 3u32,
                Error::InvalidAmount => 4u32,
                Error::InvalidHeartbeat => 5u32,
                Error::InvalidThreshold => 6u32,
                Error::WebhookTooLong => 7u32,
                Error::InvalidSubscriptionStatusError => 8u32,
            },
    {
        match self {
            Error::AlreadyInitialized => 0,
            Error::Unauthorized => 1,
            Error::SubscriptionNotFound => 2,
            Error::NotInitialized => 3,
            Error::InvalidAmount => 4,
            Error::InvalidHeartbeat => 5,
            Error::InvalidThreshold => 6,
            Error::WebhookTooLong => 7,
            Error::InvalidSubscriptionStatusError => 8,
        }
    }
}

/// Initial configuration of the ledger.
#[derive(Debug, PartialEq, Eq)]
pub struct ContractConfig {
    /// Administrator
    pub admin: Address,
    /// Token in which fees are paid
    pub token: Address,
    /// Base fee amount
    pub fee: u64,
}

/// A configuration, as mathematical values.
pub struct ContractConfigView {
    pub admin: Seq<char>,
    pub token: Seq<char>,
    pub fee: u64,
}

impl View for ContractConfig {
    type V = ContractConfigView;

    open spec fn view(&self) -> ContractConfigView {
        ContractConfigView { admin: self.admin@, token: self.token@, fee: self.fee }
    }
}

impl Clone for ContractConfig {
    fn clone(&self) -> (copy: Self)
        ensures
            copy@ == self@,
    {
        ContractConfig { admin: self.admin.clone(), token: self.token.clone(), fee: self.fee }
    }
}

/// Parameters of a new subscription.
#[derive(Debug, PartialEq, Eq)]
pub struct SubscriptionInitParams {
    /// Account that owns the subscription
    pub owner: Address,
    /// Base symbol
    pub base: TickerAsset,
    /// Quote symbol
    pub quote: TickerAsset,
    /// Price movement threshold that triggers the subscription, in per mille
    pub threshold: u32,
    /// Interval of periodic invocations, in minutes
    pub heartbeat: u32,
    /// Encrypted webhook URL where notifications get posted
    pub webhook: Vec<u8>,
}

/// The parameters of a new subscription, as mathematical values.
pub struct SubscriptionInitParamsView {
    pub owner: Seq<char>,
    pub base: TickerAssetView,
    pub quote: TickerAssetView,
    pub threshold: u32,
    pub heartbeat: u32,
    pub webhook: Seq<u8>,
}

impl View for SubscriptionInitParams {
    type V = SubscriptionInitParamsView;

    open spec fn view(&self) -> SubscriptionInitParamsView {
        SubscriptionInitParamsView {
            owner: self.owner@,
            base: self.base@,
            quote: self.quote@,
            threshold: self.threshold,
            heartbeat: self.heartbeat,
            webhook: self.webhook@,
        }
    }
}

/// A subscription record.
#[derive(Debug, PartialEq, Eq)]
pub struct Subscription {
    /// Account that owns the subscription
    pub owner: Address,
    /// Base symbol
    pub base: TickerAsset,
    /// Quote symbol
    pub quote: TickerAsset,
    /// Price movement threshold that triggers the subscription, in per mille
    pub threshold: u32,
    /// Interval of periodic invocations, in minutes
    pub heartbeat: u32,
    /// Encrypted webhook URL where notifications get posted
    pub webhook: Vec<u8>,
    /// Current outstanding balance
    pub balance: u64,
    /// Current status
    pub status: SubscriptionStatus,
    /// Time of the last update, in milliseconds
    pub updated: u64,
}

/// A subscription record, as mathematical values.
pub struct SubscriptionView {
    pub owner: Seq<char>,
    pub base: TickerAssetView,
    pub quote: TickerAssetView,
    pub threshold: u32,
    pub heartbeat: u32,
    pub webhook: Seq<u8>,
    pub balance: u64,
    pub status: SubscriptionStatus,
    pub updated: u64,
}

impl View for Subscription {
    type V = SubscriptionView;

    open spec fn view(&self) -> SubscriptionView {
        SubscriptionView {
            owner: self.owner@,
            base: self.base@,
            quote: self.quote@,
            threshold: self.threshold,
            heartbeat: self.heartbeat,
            webhook: self.webhook@,
            balance: self.balance,
            status: self.status,
            updated: self.updated,
        }
    }
}

impl Clone for Subscription {
    fn clone(&self) -> (copy: Self)
        ensures
            copy@ == self@,
    {
        let webhook = self.webhook.clone();
        assert(webhook@ =~= self.webhook@);
        Subscription {
            owner: self.owner.clone(),
            base: self.base.clone(),
            quote: self.quote.clone(),
            threshold: self.threshold,
            heartbeat: self.heartbeat,
            webhook,
            balance: self.balance,
            status: self.status,
            updated: self.updated,
        }
    }
}

/// What an operation asks of the ledger's surroundings, in the order in which
/// it is to happen: custody of tokens, retention of records, and notifications.
#[derive(Debug, PartialEq, Eq)]
#[allow(inconsistent_fields)]
pub enum Effect {
    /// Move tokens from an account into custody
    TransferIn { from: Address, amount: u128 },
    /// Move tokens from custody to an account
    TransferOut { to: Address, amount: u128 },
    /// Destroy tokens held in custody
    Burn { amount: u128 },
    /// Retain the record of a subscription for this many ledgers
    ExtendTtl { subscription_id: u64, ledgers: u32 },
    /// Replace the executable of the service
    UpgradeCode { wasm_hash: [u8; 32] },
    /// The ledger was configured
    ConfigUpdated { config: ContractConfig },
    /// The base fee was changed
    FeeUpdated { fee: u64 },
    /// The executable was replaced
    CodeUpdated { wasm_hash: [u8; 32] },
    /// Notifications were generated
    Triggered { timestamp: u64, trigger_hash: [u8; 32] },
    /// Retention fees were taken from a subscription
    Charged { subscription_id: u64, owner: Address, amount: u64, timestamp: u64 },
    /// A subscription ran out of funds
    Suspended { subscription_id: u64, owner: Address, timestamp: u64 },
    /// A subscription was created
    Created { subscription_id: u64, subscription: Subscription },
    /// A subscription was topped up
    Deposited { subscription_id: u64, subscription: Subscription, amount: u64 },
    /// A subscription was cancelled
    Cancelled { subscription_id: u64, owner: Address },
}

/// An effect, as mathematical values.
#[allow(inconsistent_fields)]
pub enum EffectView {
    TransferIn { from: Seq<char>, amount: u128 },
    TransferOut { to: Seq<char>, amount: u128 },
    Burn { amount: u128 },
    ExtendTtl { subscription_id: u64, ledgers: u32 },
    UpgradeCode { wasm_hash: Seq<u8> },
    ConfigUpdated { config: ContractConfigView },
    FeeUpdated { fee: u64 },
    CodeUpdated { wasm_hash: Seq<u8> },
    Triggered { timestamp: u64, trigger_hash: Seq<u8> },
    Charged { subscription_id: u64, owner: Seq<char>, amount: u64, timestamp: u64 },
    Suspended { subscription_id: u64, owner: Seq<char>, timestamp: u64 },
    Created { subscription_id: u64, subscription: SubscriptionView },
    Deposited { subscription_id: u64, subscription: SubscriptionView, amount: u64 },
    Cancelled { subscription_id: u64, owner: Seq<char> },
}

impl View for Effect {
    type V = EffectView;

    open spec fn view(&self) -> EffectView {
        match *self {
            Effect::TransferIn { from, amount } => EffectView::TransferIn { from: from@, amount },
            Effect::TransferOut { to, amount } => EffectView::TransferOut { to: to@, amount },
            Effect::Burn { amount } => EffectView::Burn { amount },
            Effect::ExtendTtl { subscription_id, ledgers } => EffectView::ExtendTtl {
                subscription_id,
                ledgers,
            },
            Effect::UpgradeCode { wasm_hash } => EffectView::UpgradeCode { wasm_hash: wasm_hash@ },
            Effect::ConfigUpdated { config } => EffectView::ConfigUpdated { config: config@ },
            Effect::FeeUpdated { fee } => EffectView::FeeUpdated { fee },
            Effect::CodeUpdated { wasm_hash } => EffectView::CodeUpdated { wasm_hash: wasm_hash@ },
            Effect::Triggered { timestamp, trigger_hash } => EffectView::Triggered {
                timestamp,
                trigger_hash: trigger_hash@,
            },
            Effect::Charged { subscription_id, owner, amount, timestamp } => EffectView::Charged {
                subscription_id,
                owner: owner@,
                amount,
                timestamp,
            },
            Effect::Suspended { subscription_id, owner, timestamp } => EffectView::Suspended {
                subscription_id,
                owner: owner@,
                timestamp,
            },
            Effect::Created { subscription_id, subscription } => EffectView::Created {
                subscription_id,
                subscription: subscription@,
            },
            Effect::Deposited { subscription_id, subscription, amount } => EffectView::Deposited {
                subscription_id,
                subscription: subscription@,
                amount,
            },
            Effect::Cancelled { subscription_id, owner } => EffectView::Cancelled {
                subscription_id,
                owner: owner@,
            },
        }
    }
}

/// The views of a list of effects, in order.
pub open spec fn effect_views(effects: Seq<Effect>) -> Seq<EffectView> {
    effects.map_values(|effect: Effect| effect@)
}

} // verus!
