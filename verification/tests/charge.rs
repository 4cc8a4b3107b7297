use reflector_subscriptions::contract::SubscriptionContract;
use reflector_subscriptions::model::{Charge, DAY};
use reflector_subscriptions::types::{
    Address, ContractConfig, Effect, Error, Subscription, SubscriptionInitParams,
    SubscriptionStatus, TickerAsset,
};

const MAX_TTL: u32 = 6312000;

/// The fee of a cross-source subscription with a heartbeat of 5 at the base fee of 100000000.
const FEE: u64 = 979795896;

/// The fee of a same-source subscription with a heartbeat of 120 at the base fee of 100000000.
const BASE_FEE: u64 = 100000000;

fn address(key: &str) -> Address {
    Address { key: key.to_string() }
}

fn asset(asset: &str, source: &str) -> TickerAsset {
    TickerAsset { asset: asset.to_string(), source: source.to_string() }
}

fn cross(owner: &Address) -> SubscriptionInitParams {
    SubscriptionInitParams {
        owner: owner.clone(),
        base: asset("BTC", "source1"),
        quote: asset("ETH", "source2"),
        threshold: 10,
        heartbeat: 5,
        webhook: vec![1, 2, 3],
    }
}

fn same(owner: &Address) -> SubscriptionInitParams {
    SubscriptionInitParams {
        owner: owner.clone(),
        base: asset("BTC", "source1"),
        quote: asset("ETH", "source1"),
        threshold: 10,
        heartbeat: 120,
        webhook: vec![],
    }
}

fn record(balance: u64, updated: u64) -> Subscription {
    Subscription {
        owner: address("owner"),
        base: asset("BTC", "source1"),
        quote: asset("ETH", "source2"),
        threshold: 10,
        heartbeat: 5,
        webhook: vec![],
        balance,
        status: SubscriptionStatus::Active,
        updated,
    }
}

fn configured() -> (SubscriptionContract, Address) {
    let admin = address("admin");
    let config = ContractConfig { admin: admin.clone(), token: address("token"), fee: BASE_FEE };
    let mut contract = SubscriptionContract::new();
    contract.config(&admin, config).unwrap();
    (contract, admin)
}

#[test]
fn a_period_is_a_day_in_milliseconds() {
    assert_eq!(DAY, 86400000);
}

#[test]
fn nothing_is_due_within_a_period() {
    let subscription = record(5 * FEE, 1000);
    assert_eq!(subscription.charge_due(BASE_FEE, 1000, MAX_TTL), Ok(None));
    assert_eq!(subscription.charge_due(BASE_FEE, 1000 + DAY - 1, MAX_TTL), Ok(None));
    // nor before the last update
    assert_eq!(subscription.charge_due(BASE_FEE, 999, MAX_TTL), Ok(None));
    assert_eq!(subscription.charge_due(BASE_FEE, 0, MAX_TTL), Ok(None));
    // whatever the base fee, and whatever is granted
    assert_eq!(subscription.charge_due(u64::MAX, 1000 + DAY - 1, 0), Ok(None));
}

#[test]
fn each_whole_period_is_due() {
    let subscription = record(5 * FEE + 1, 1000);
    assert_eq!(
        subscription.charge_due(BASE_FEE, 1000 + DAY, MAX_TTL),
        Ok(Some(Charge { amount: FEE, balance: 4 * FEE + 1, suspended: false, ledgers: 5 * 17280 }))
    );
    assert_eq!(
        subscription.charge_due(BASE_FEE, 1000 + 2 * DAY - 1, MAX_TTL),
        Ok(Some(Charge { amount: FEE, balance: 4 * FEE + 1, suspended: false, ledgers: 5 * 17280 }))
    );
    assert_eq!(
        subscription.charge_due(BASE_FEE, 1000 + 3 * DAY, MAX_TTL),
        Ok(Some(Charge {
            amount: 3 * FEE,
            balance: 2 * FEE + 1,
            suspended: false,
            ledgers: 3 * 17280
        }))
    );
    assert_eq!(
        subscription.charge_due(BASE_FEE, 1000 + 4 * DAY, MAX_TTL),
        Ok(Some(Charge { amount: 4 * FEE, balance: FEE + 1, suspended: false, ledgers: 2 * 17280 }))
    );
}

#[test]
fn a_charge_takes_no_more_than_the_balance() {
    let subscription = record(5 * FEE + 1, 1000);
    // exactly one fee is left: the subscription stays active
    let exact = record(5 * FEE, 1000);
    assert_eq!(
        exact.charge_due(BASE_FEE, 1000 + 4 * DAY, MAX_TTL),
        Ok(Some(Charge { amount: 4 * FEE, balance: FEE, suspended: false, ledgers: 17280 }))
    );
    // less than one fee is left
    assert_eq!(
        subscription.charge_due(BASE_FEE, 1000 + 5 * DAY, MAX_TTL),
        Ok(Some(Charge { amount: 5 * FEE, balance: 1, suspended: true, ledgers: 17280 }))
    );
    // more is wanted than there is
    assert_eq!(
        subscription.charge_due(BASE_FEE, 1000 + 6 * DAY, MAX_TTL),
        Ok(Some(Charge { amount: 5 * FEE + 1, balance: 0, suspended: true, ledgers: 17280 }))
    );
    assert_eq!(
        subscription.charge_due(BASE_FEE, u64::MAX, MAX_TTL),
        Ok(Some(Charge { amount: 5 * FEE + 1, balance: 0, suspended: true, ledgers: 17280 }))
    );
    let empty = record(0, 0);
    assert_eq!(
        empty.charge_due(BASE_FEE, DAY, MAX_TTL),
        Ok(Some(Charge { amount: 0, balance: 0, suspended: true, ledgers: 17280 }))
    );
}

#[test]
fn a_charge_fails_where_fee_or_retention_cannot_be_had() {
    let subscription = record(5 * FEE, 0);
    // the fee cannot be computed
    assert_eq!(subscription.charge_due(u64::MAX, DAY, MAX_TTL), Err(Error::InvalidAmount));
    // four periods are left, three are granted
    assert_eq!(subscription.charge_due(BASE_FEE, DAY, 3 * 17280), Err(Error::InvalidAmount));
    assert_eq!(
        subscription.charge_due(BASE_FEE, DAY, 4 * 17280),
        Ok(Some(Charge { amount: FEE, balance: 4 * FEE, suspended: false, ledgers: 4 * 17280 }))
    );
    // nothing is charged a period
    assert_eq!(subscription.charge_due(0, DAY, MAX_TTL), Err(Error::InvalidAmount));
}

#[test]
fn charge_is_for_the_admin() {
    let (mut contract, admin) = configured();
    let owner = address("owner");
    contract.create_subscription(&owner, cross(&owner), 5 * FEE, 0, MAX_TTL).unwrap();
    assert_eq!(contract.charge(&owner, &vec![1], 10 * DAY, MAX_TTL), Err(Error::Unauthorized));
    assert_eq!(contract.get_subscription(1).map(|found| found.balance), Ok(3 * FEE));
    let mut fresh = SubscriptionContract::new();
    assert_eq!(fresh.charge(&admin, &vec![1], 10 * DAY, MAX_TTL), Err(Error::NotInitialized));
}

#[test]
fn charge_within_a_period_changes_nothing() {
    let (mut contract, admin) = configured();
    let owner = address("owner");
    contract.create_subscription(&owner, cross(&owner), 5 * FEE, 1000, MAX_TTL).unwrap();
    contract.create_subscription(&owner, same(&owner), 5 * BASE_FEE, 2000, MAX_TTL).unwrap();
    let first = contract.get_subscription(1).unwrap();
    let second = contract.get_subscription(2).unwrap();
    for now in [0, 999, 1000, 2000, DAY, DAY + 999] {
        assert_eq!(contract.charge(&admin, &vec![1, 2, 1], now, MAX_TTL), Ok(vec![]));
        assert_eq!(contract.get_subscription(1), Ok(first.clone()));
        assert_eq!(contract.get_subscription(2), Ok(second.clone()));
    }
    // the first has a whole period behind it, the second not yet
    let effects = contract.charge(&admin, &vec![1, 2], DAY + 1000, MAX_TTL).unwrap();
    assert_eq!(effects.len(), 3);
    assert_eq!(contract.get_subscription(1).map(|found| found.balance), Ok(2 * FEE));
    assert_eq!(contract.get_subscription(2), Ok(second));
}

#[test]
fn charge_of_nothing_changes_nothing() {
    let (mut contract, admin) = configured();
    let owner = address("owner");
    contract.create_subscription(&owner, cross(&owner), 5 * FEE, 0, MAX_TTL).unwrap();
    assert_eq!(contract.charge(&admin, &vec![], 10 * DAY, MAX_TTL), Ok(vec![]));
    assert_eq!(contract.charge(&admin, &vec![0, 2, 3, u64::MAX], 10 * DAY, MAX_TTL), Ok(vec![]));
    assert_eq!(contract.get_subscription(1).map(|found| found.balance), Ok(3 * FEE));
    assert_eq!(contract.get_subscription(1).map(|found| found.updated), Ok(0));
}

#[test]
fn charge_catches_up_on_periods_missed() {
    let (mut contract, admin) = configured();
    let owner = address("owner");
    contract.create_subscription(&owner, cross(&owner), 12 * FEE, 500, MAX_TTL).unwrap();
    let now = 500 + 3 * DAY + 17;
    let effects = contract.charge(&admin, &vec![1], now, MAX_TTL).unwrap();
    assert_eq!(
        effects,
        vec![
            Effect::Charged { subscription_id: 1, owner: owner.clone(), amount: 3 * FEE, timestamp: now },
            Effect::ExtendTtl { subscription_id: 1, ledgers: 7 * 17280 },
            Effect::Burn { amount: 3 * FEE as u128 },
        ]
    );
    let found = contract.get_subscription(1).unwrap();
    assert_eq!(found.balance, 7 * FEE);
    assert_eq!(found.status, SubscriptionStatus::Active);
    assert_eq!(found.updated, now);
}

#[test]
fn charge_beyond_the_balance_empties_and_suspends() {
    let (mut contract, admin) = configured();
    let owner = address("owner");
    contract.create_subscription(&owner, cross(&owner), 4 * FEE + 9, 0, MAX_TTL).unwrap();
    let effects = contract.charge(&admin, &vec![1], 30 * DAY, MAX_TTL).unwrap();
    assert_eq!(
        effects,
        vec![
            Effect::Charged {
                subscription_id: 1,
                owner: owner.clone(),
                amount: 2 * FEE + 9,
                timestamp: 30 * DAY,
            },
            Effect::Suspended { subscription_id: 1, owner: owner.clone(), timestamp: 30 * DAY },
            Effect::ExtendTtl { subscription_id: 1, ledgers: 17280 },
            Effect::Burn { amount: 2 * FEE as u128 + 9 },
        ]
    );
    let found = contract.get_subscription(1).unwrap();
    assert_eq!(found.balance, 0);
    assert_eq!(found.status, SubscriptionStatus::Suspended);
    assert_eq!(found.updated, 30 * DAY);
}

#[test]
fn charge_suspends_below_one_fee() {
    let (mut contract, admin) = configured();
    let owner = address("owner");
    // one fee is left after one period: still active
    contract.create_subscription(&owner, cross(&owner), 4 * FEE, 0, MAX_TTL).unwrap();
    // one less than a fee is left after one period: suspended
    contract.create_subscription(&owner, cross(&owner), 4 * FEE - 1, 0, MAX_TTL).unwrap();
    contract.charge(&admin, &vec![1, 2], DAY, MAX_TTL).unwrap();
    let first = contract.get_subscription(1).unwrap();
    assert_eq!((first.balance, first.status), (FEE, SubscriptionStatus::Active));
    let second = contract.get_subscription(2).unwrap();
    assert_eq!((second.balance, second.status), (FEE - 1, SubscriptionStatus::Suspended));
}

#[test]
fn charge_of_a_suspended_subscription_goes_on() {
    let (mut contract, admin) = configured();
    let owner = address("owner");
    contract.create_subscription(&owner, cross(&owner), 3 * FEE + 5, 0, MAX_TTL).unwrap();
    contract.charge(&admin, &vec![1], DAY, MAX_TTL).unwrap();
    let found = contract.get_subscription(1).unwrap();
    assert_eq!((found.balance, found.status), (5, SubscriptionStatus::Suspended));
    let effects = contract.charge(&admin, &vec![1], 2 * DAY, MAX_TTL).unwrap();
    assert_eq!(
        effects,
        vec![
            Effect::Charged { subscription_id: 1, owner: owner.clone(), amount: 5, timestamp: 2 * DAY },
            Effect::Suspended { subscription_id: 1, owner: owner.clone(), timestamp: 2 * DAY },
            Effect::ExtendTtl { subscription_id: 1, ledgers: 17280 },
            Effect::Burn { amount: 5 },
        ]
    );
    // with nothing left, nothing is destroyed
    let effects = contract.charge(&admin, &vec![1], 3 * DAY, MAX_TTL).unwrap();
    assert_eq!(
        effects,
        vec![
            Effect::Charged { subscription_id: 1, owner: owner.clone(), amount: 0, timestamp: 3 * DAY },
            Effect::Suspended { subscription_id: 1, owner: owner.clone(), timestamp: 3 * DAY },
            Effect::ExtendTtl { subscription_id: 1, ledgers: 17280 },
        ]
    );
    assert_eq!(contract.get_subscription(1).map(|found| found.updated), Ok(3 * DAY));
}

#[test]
fn charge_destroys_the_sum_once_at_the_end() {
    let (mut contract, admin) = configured();
    let owner = address("owner");
    let other = address("other");
    contract.create_subscription(&owner, cross(&owner), 5 * FEE, 0, MAX_TTL).unwrap();
    contract.create_subscription(&other, same(&other), 3 * BASE_FEE + 1, 0, MAX_TTL).unwrap();
    contract.create_subscription(&owner, same(&owner), 9 * BASE_FEE, DAY, MAX_TTL).unwrap();
    // the second is listed twice, the fourth does not exist, the third is not yet due
    let effects = contract.charge(&admin, &vec![2, 4, 1, 2, 3], DAY, MAX_TTL).unwrap();
    assert_eq!(
        effects,
        vec![
            Effect::Charged { subscription_id: 2, owner: other.clone(), amount: BASE_FEE, timestamp: DAY },
            Effect::Suspended { subscription_id: 2, owner: other.clone(), timestamp: DAY },
            Effect::ExtendTtl { subscription_id: 2, ledgers: 17280 },
            Effect::Charged { subscription_id: 1, owner: owner.clone(), amount: FEE, timestamp: DAY },
            Effect::ExtendTtl { subscription_id: 1, ledgers: 2 * 17280 },
            Effect::Burn { amount: (BASE_FEE + FEE) as u128 },
        ]
    );
    assert_eq!(contract.get_subscription(1).map(|found| found.balance), Ok(2 * FEE));
    assert_eq!(contract.get_subscription(2).map(|found| found.balance), Ok(1));
    assert_eq!(contract.get_subscription(3).map(|found| found.balance), Ok(7 * BASE_FEE));
    assert_eq!(contract.get_subscription(3).map(|found| found.updated), Ok(DAY));
}

#[test]
fn charge_is_all_or_nothing() {
    let (mut contract, admin) = configured();
    let owner = address("owner");
    contract.create_subscription(&owner, cross(&owner), 4 * FEE, 0, MAX_TTL).unwrap();
    contract.create_subscription(&owner, cross(&owner), 9 * FEE, 0, MAX_TTL).unwrap();
    let first = contract.get_subscription(1).unwrap();
    let second = contract.get_subscription(2).unwrap();
    // after a period the second has six periods left, of which five are granted
    assert_eq!(contract.charge(&admin, &vec![1, 2], DAY, 5 * 17280), Err(Error::InvalidAmount));
    assert_eq!(contract.get_subscription(1), Ok(first.clone()));
    assert_eq!(contract.get_subscription(2), Ok(second.clone()));
    assert_eq!(contract.charge(&admin, &vec![2, 1], DAY, 5 * 17280), Err(Error::InvalidAmount));
    assert_eq!(contract.get_subscription(1), Ok(first));
    assert_eq!(contract.get_subscription(2), Ok(second));
    // the first alone can be charged
    assert_eq!(contract.charge(&admin, &vec![1, 3], DAY, 5 * 17280).map(|effects| effects.len()), Ok(3));
    // and both, where six periods are granted
    assert_eq!(contract.charge(&admin, &vec![1, 2], DAY, 6 * 17280).map(|effects| effects.len()), Ok(3));
    assert_eq!(contract.get_subscription(2).map(|found| found.balance), Ok(6 * FEE));
}

#[test]
fn charge_fails_where_the_fee_cannot_be_computed() {
    let (mut contract, admin) = configured();
    let owner = address("owner");
    contract.create_subscription(&owner, cross(&owner), 4 * FEE, 0, MAX_TTL).unwrap();
    contract.set_fee(&admin, u64::MAX).unwrap();
    let found = contract.get_subscription(1).unwrap();
    assert_eq!(contract.charge(&admin, &vec![1], DAY, MAX_TTL), Err(Error::InvalidAmount));
    assert_eq!(contract.get_subscription(1), Ok(found));
    // within the period no fee is needed
    assert_eq!(contract.charge(&admin, &vec![1], DAY - 1, MAX_TTL), Ok(vec![]));
}

#[test]
fn charge_follows_the_base_fee() {
    let (mut contract, admin) = configured();
    let owner = address("owner");
    contract.create_subscription(&owner, same(&owner), 12 * BASE_FEE, 0, MAX_TTL).unwrap();
    contract.set_fee(&admin, 3 * BASE_FEE).unwrap();
    let effects = contract.charge(&admin, &vec![1], 2 * DAY, MAX_TTL).unwrap();
    assert_eq!(effects[0], Effect::Charged {
        subscription_id: 1,
        owner: owner.clone(),
        amount: 6 * BASE_FEE,
        timestamp: 2 * DAY,
    });
    assert_eq!(effects[1], Effect::ExtendTtl { subscription_id: 1, ledgers: 2 * 17280 });
    assert_eq!(contract.get_subscription(1).map(|found| found.balance), Ok(4 * BASE_FEE));
}
