//! Metered subscriptions: fee pricing, storage-retention budgeting and the
//! subscription ledger with its charging state machine.

pub mod budget;
pub mod contract;
pub mod custody;
pub mod fee;
pub mod laws;
pub mod model;
pub mod sqrt;
pub mod types;
pub mod version;

pub use contract::SubscriptionContract;
pub use fee::{calc_fee, calc_hearbeat_fee};
pub use sqrt::U128Extensions;
pub use types::{
    Address, ContractConfig, Effect, Error, Subscription, SubscriptionInitParams,
    SubscriptionStatus, TickerAsset,
};
