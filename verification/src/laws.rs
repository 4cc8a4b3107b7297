//! What holds of the ledger whatever its state and whatever is asked of it.

use crate::budget::{lemma_minimum_retention, LEDGERS_PER_DAY};
use crate::fee::checked_retention_fee;
use crate::model::{
    charge_batch, charge_due, charge_fails, charged, elapsed_periods, valid_subscription, Charge,
    Ledger, Step, MAX_THRESHOLD, MAX_WEBHOOK_SIZE, MIN_HEARTBEAT,
};
use crate::types::{
    ContractConfigView, EffectView, Error, SubscriptionInitParamsView, SubscriptionStatus,
    SubscriptionView,
};
use vstd::prelude::*;

verus! {

/// Both have the same owner, pair, threshold, heartbeat and webhook.
pub open spec fn same_parameters(before: SubscriptionView, after: SubscriptionView) -> bool {
    &&& after.owner == before.owner
    &&& after.base == before.base
    &&& after.quote == before.quote
    &&& after.threshold == before.threshold
    &&& after.heartbeat == before.heartbeat
    &&& after.webhook == before.webhook
}

/// The retention fee of a subscription at this base fee.
pub open spec fn fee_of(base_fee: u64, subscription: SubscriptionView) -> Option<u64> {
    checked_retention_fee(
        base_fee,
        subscription.base,
        subscription.quote,
        subscription.heartbeat,
    )
}

/// A deposit of exactly the creation fee, twice the retention fee, opens a
/// subscription with nothing on its balance, wherever the owner asks with
/// parameters in range and the platform grants the retention of one period.
pub proof fn lemma_create_with_exact_deposit(
    ledger: Ledger,
    caller: Seq<char>,
    params: SubscriptionInitParamsView,
    now: u64,
    max_ttl: u32,
    fee: u64,
)
    requires
        ledger.last_id < u64::MAX,
        ledger.config is Some,
        caller == params.owner,
        params.heartbeat >= MIN_HEARTBEAT,
        1 <= params.threshold <= MAX_THRESHOLD,
        params.webhook.len() <= MAX_WEBHOOK_SIZE,
        checked_retention_fee(ledger.config.unwrap().fee, params.base, params.quote, params.heartbeat)
            == Some(fee),
        0 < fee,
        2 * fee <= u64::MAX,
        max_ttl >= LEDGERS_PER_DAY,
    ensures
        ledger.create_subscription(caller, params, (2 * fee) as u64, now, max_ttl) is Ok,
        ({
            let after = ledger.create_subscription(
                caller,
                params,
                (2 * fee) as u64,
                now,
                max_ttl,
            ).unwrap().ledger;
            &&& after.last_id == ledger.last_id + 1
            &&& after.subscriptions.contains_key(after.last_id)
            &&& after.subscriptions[after.last_id].balance == 0
            &&& after.subscriptions[after.last_id].status is Active
        }),
{
    lemma_minimum_retention(fee as nat, 0);
}

/// A deposit below the creation fee opens nothing: it is refused as an
/// invalid amount.
pub proof fn lemma_create_with_insufficient_deposit(
    ledger: Ledger,
    caller: Seq<char>,
    params: SubscriptionInitParamsView,
    amount: u64,
    now: u64,
    max_ttl: u32,
    fee: u64,
)
    requires
        ledger.config is Some,
        caller == params.owner,
        checked_retention_fee(ledger.config.unwrap().fee, params.base, params.quote, params.heartbeat)
            == Some(fee),
        amount < 2 * fee,
    ensures
        ledger.create_subscription(caller, params, amount, now, max_ttl) == Err::<Step, Error>(
            Error::InvalidAmount,
        ),
{
}

/// Before a whole period has passed since a subscription was charged,
/// nothing is due from it.
pub proof fn lemma_nothing_due_within_period(
    subscription: SubscriptionView,
    base_fee: u64,
    now: u64,
    max_ttl: u32,
)
    requires
        elapsed_periods(subscription.updated, now) == 0,
    ensures
        charge_due(subscription, base_fee, now, max_ttl) == Ok::<Option<Charge>, Error>(None),
{
}

proof fn lemma_batch_of_none_due(
    subscriptions: Map<u64, SubscriptionView>,
    ids: Seq<u64>,
    base_fee: u64,
    now: u64,
    max_ttl: u32,
)
    requires
        forall|i: int|
            0 <= i < ids.len() && subscriptions.contains_key(#[trigger] ids[i]) ==> elapsed_periods(
                subscriptions[ids[i]].updated,
                now,
            ) == 0,
    ensures
        charge_batch(subscriptions, ids, base_fee, now, max_ttl).subscriptions == subscriptions,
        charge_batch(subscriptions, ids, base_fee, now, max_ttl).effects == Seq::<
            EffectView,
        >::empty(),
        charge_batch(subscriptions, ids, base_fee, now, max_ttl).total == 0,
        !charge_fails(subscriptions, ids, base_fee, now, max_ttl),
    decreases ids.len(),
{
    if ids.len() > 0 {
        let earlier = ids.drop_last();
        assert forall|i: int|
            0 <= i < earlier.len() && subscriptions.contains_key(
                #[trigger] earlier[i],
            ) implies elapsed_periods(subscriptions[earlier[i]].updated, now) == 0 by {
            assert(earlier[i] == ids[i]);
        }
        lemma_batch_of_none_due(subscriptions, earlier, base_fee, now, max_ttl);
        assert(ids.last() == ids[ids.len() - 1]);
    }
}

/// A charge of subscriptions of which none has a whole period behind it
/// changes nothing and asks for nothing.
pub proof fn lemma_charge_within_period_is_noop(
    ledger: Ledger,
    caller: Seq<char>,
    ids: Seq<u64>,
    now: u64,
    max_ttl: u32,
)
    requires
        ledger.admin_error(caller) is None,
        forall|i: int|
            0 <= i < ids.len() && ledger.subscriptions.contains_key(#[trigger] ids[i])
                ==> elapsed_periods(ledger.subscriptions[ids[i]].updated, now) == 0,
    ensures
        ledger.charge(caller, ids, now, max_ttl) == Ok::<Step, Error>(
            Step { ledger, effects: Seq::empty() },
        ),
{
    lemma_batch_of_none_due(ledger.subscriptions, ids, ledger.config.unwrap().fee, now, max_ttl);
    let step = ledger.charge(caller, ids, now, max_ttl).unwrap();
    assert(step.ledger == ledger);
}

/// A charge takes the fee of each period passed, and no more than the
/// balance holds; the subscription is suspended exactly where less than the
/// fee of one period is left; and the time of its last update moves on.
pub proof fn lemma_charge_is_clamped(
    subscription: SubscriptionView,
    base_fee: u64,
    now: u64,
    max_ttl: u32,
    charge: Charge,
)
    requires
        charge_due(subscription, base_fee, now, max_ttl) == Ok::<Option<Charge>, Error>(
            Some(charge),
        ),
    ensures
        ({
            let periods = elapsed_periods(subscription.updated, now);
            let fee = fee_of(base_fee, subscription).unwrap();
            let after = charged(subscription, charge, now);
            &&& periods >= 1
            &&& charge.amount == if periods * fee > subscription.balance {
                subscription.balance as int
            } else {
                periods * fee
            }
            &&& after.balance == subscription.balance - charge.amount
            &&& periods * fee >= subscription.balance ==> after.balance == 0
            &&& after.balance < fee ==> after.status is Suspended
            &&& after.balance >= fee ==> after.status == subscription.status
            &&& after.updated == now
            &&& after.updated > subscription.updated
        }),
{
}

/// A run through subscriptions to charge neither adds nor removes one; it
/// leaves each as it was or as a charge at `now` leaves it, with its
/// parameters unchanged, no more on its balance and no earlier time of update.
pub proof fn lemma_batch_touches_once(
    subscriptions: Map<u64, SubscriptionView>,
    ids: Seq<u64>,
    base_fee: u64,
    now: u64,
    max_ttl: u32,
)
    ensures
        forall|id: u64|
            subscriptions.contains_key(id) <==> #[trigger] charge_batch(
                subscriptions,
                ids,
                base_fee,
                now,
                max_ttl,
            ).subscriptions.contains_key(id),
        forall|id: u64| #[trigger]
            subscriptions.contains_key(id) ==> {
                let after = charge_batch(subscriptions, ids, base_fee, now, max_ttl).subscriptions[id];
                &&& after == subscriptions[id] || after.updated == now
                &&& same_parameters(subscriptions[id], after)
                &&& after.balance <= subscriptions[id].balance
                &&& after.updated >= subscriptions[id].updated
            },
    decreases ids.len(),
{
    if ids.len() > 0 {
        lemma_batch_touches_once(subscriptions, ids.drop_last(), base_fee, now, max_ttl);
        let earlier = charge_batch(subscriptions, ids.drop_last(), base_fee, now, max_ttl);
        assert forall|id: u64| #[trigger] subscriptions.contains_key(id) implies {
            let after = charge_batch(subscriptions, ids, base_fee, now, max_ttl).subscriptions[id];
            &&& after == subscriptions[id] || after.updated == now
            &&& same_parameters(subscriptions[id], after)
            &&& after.balance <= subscriptions[id].balance
            &&& after.updated >= subscriptions[id].updated
        } by {
            assert(earlier.subscriptions.contains_key(id));
        }
    }
}

/// A charge neither adds nor removes a subscription, leaves the parameters
/// of each as they were, adds to no balance and moves no time of update back.
pub proof fn lemma_charge_keeps_subscriptions(
    ledger: Ledger,
    caller: Seq<char>,
    ids: Seq<u64>,
    now: u64,
    max_ttl: u32,
)
    requires
        ledger.charge(caller, ids, now, max_ttl) is Ok,
    ensures
        ({
            let after = ledger.charge(caller, ids, now, max_ttl).unwrap().ledger;
            &&& after.config == ledger.config
            &&& after.last_id == ledger.last_id
            &&& forall|id: u64|
                ledger.subscriptions.contains_key(id) <==> #[trigger] after.subscriptions.contains_key(
                    id,
                )
            &&& forall|id: u64| #[trigger]
                ledger.subscriptions.contains_key(id) ==> {
                    &&& same_parameters(ledger.subscriptions[id], after.subscriptions[id])
                    &&& after.subscriptions[id].balance <= ledger.subscriptions[id].balance
                    &&& after.subscriptions[id].updated >= ledger.subscriptions[id].updated
                }
        }),
{
    lemma_batch_touches_once(ledger.subscriptions, ids, ledger.config.unwrap().fee, now, max_ttl);
}

/// In a run that was found free of failure beforehand, each subscription
/// met can indeed be charged: a subscription met again has just been
/// charged, and nothing more is due from it.
pub proof fn lemma_batch_never_meets_failure(
    subscriptions: Map<u64, SubscriptionView>,
    ids: Seq<u64>,
    base_fee: u64,
    now: u64,
    max_ttl: u32,
    met: int,
)
    requires
        !charge_fails(subscriptions, ids, base_fee, now, max_ttl),
        0 <= met < ids.len(),
        subscriptions.contains_key(ids[met]),
    ensures
        ({
            let earlier = charge_batch(subscriptions, ids.take(met), base_fee, now, max_ttl);
            &&& earlier.subscriptions.contains_key(ids[met])
            &&& charge_due(earlier.subscriptions[ids[met]], base_fee, now, max_ttl) is Ok
        }),
{
    lemma_batch_touches_once(subscriptions, ids.take(met), base_fee, now, max_ttl);
    let earlier = charge_batch(subscriptions, ids.take(met), base_fee, now, max_ttl);
    let id = ids[met];
    assert(earlier.subscriptions.contains_key(id));
    if earlier.subscriptions[id] != subscriptions[id] {
        assert(elapsed_periods(now, now) == 0);
    }
}

/// A deposit on a suspended subscription makes it active again, and takes
/// the retention fee of exactly one period from the new total.
pub proof fn lemma_deposit_reactivates(
    ledger: Ledger,
    from: Seq<char>,
    id: u64,
    amount: u64,
    max_ttl: u32,
)
    requires
        ledger.deposit(from, id, amount, max_ttl) is Ok,
    ensures
        ({
            let before = ledger.subscriptions[id];
            let after = ledger.deposit(from, id, amount, max_ttl).unwrap().ledger.subscriptions[id];
            let fee = fee_of(ledger.config.unwrap().fee, before).unwrap();
            &&& after.status is Active
            &&& before.status is Suspended ==> after.balance == before.balance + amount - fee
            &&& before.status is Active ==> after.balance == before.balance + amount
            &&& after.updated == before.updated
        }),
{
}

/// Cancelling an active subscription gives its owner the whole balance
/// back and removes the record, so that it is found no more; the counter of
/// identifiers stays where it was.
pub proof fn lemma_cancel_refunds_and_deletes(ledger: Ledger, caller: Seq<char>, id: u64)
    requires
        ledger.cancel(caller, id) is Ok,
    ensures
        ({
            let step = ledger.cancel(caller, id).unwrap();
            let subscription = ledger.subscriptions[id];
            &&& subscription.status is Active
            &&& step.effects[0] == EffectView::TransferOut {
                to: subscription.owner,
                amount: subscription.balance as u128,
            }
            &&& step.ledger.get_subscription(id) == Err::<SubscriptionView, Error>(
                Error::SubscriptionNotFound,
            )
            &&& step.ledger.last_id == ledger.last_id
        }),
{
}

/// A suspended subscription cannot be cancelled.
pub proof fn lemma_cancel_of_suspended_fails(ledger: Ledger, caller: Seq<char>, id: u64)
    requires
        ledger.config is Some,
        ledger.subscriptions.contains_key(id),
        ledger.subscriptions[id].owner == caller,
        ledger.subscriptions[id].status == SubscriptionStatus::Suspended,
    ensures
        ledger.cancel(caller, id) == Err::<Step, Error>(Error::InvalidSubscriptionStatusError),
{
}

/// A new subscription gets the identifier after the one given out last,
/// which is above that of every subscription that exists.
pub proof fn lemma_identifiers_increase(
    ledger: Ledger,
    caller: Seq<char>,
    params: SubscriptionInitParamsView,
    amount: u64,
    now: u64,
    max_ttl: u32,
)
    requires
        ledger.wf(),
        ledger.last_id < u64::MAX,
        ledger.create_subscription(caller, params, amount, now, max_ttl) is Ok,
    ensures
        ({
            let after = ledger.create_subscription(caller, params, amount, now, max_ttl).unwrap().ledger;
            &&& after.last_id == ledger.last_id + 1
            &&& !ledger.subscriptions.contains_key(after.last_id)
            &&& after.subscriptions.contains_key(after.last_id)
            &&& forall|id: u64| #[trigger]
                ledger.subscriptions.contains_key(id) ==> id < after.last_id
        }),
{
}

/// The identifier of a subscription that was cancelled is not given out
/// again: the subscription created next gets the one after it, also where
/// the one cancelled was the one created last.
pub proof fn lemma_identifier_not_reused(
    ledger: Ledger,
    caller: Seq<char>,
    cancelled: u64,
    creator: Seq<char>,
    params: SubscriptionInitParamsView,
    amount: u64,
    now: u64,
    max_ttl: u32,
)
    requires
        ledger.wf(),
        ledger.last_id < u64::MAX,
        ledger.cancel(caller, cancelled) is Ok,
        ledger.cancel(caller, cancelled).unwrap().ledger.create_subscription(
            creator,
            params,
            amount,
            now,
            max_ttl,
        ) is Ok,
    ensures
        ({
            let after = ledger.cancel(caller, cancelled).unwrap().ledger.create_subscription(
                creator,
                params,
                amount,
                now,
                max_ttl,
            ).unwrap().ledger;
            &&& cancelled <= ledger.last_id < after.last_id
            &&& !after.subscriptions.contains_key(cancelled)
        }),
{
}

/// The counter of identifiers never goes back, whatever is done.
pub proof fn lemma_counter_never_decreases(
    ledger: Ledger,
    caller: Seq<char>,
    config: ContractConfigView,
    fee: u64,
    ids: Seq<u64>,
    params: SubscriptionInitParamsView,
    id: u64,
    amount: u64,
    now: u64,
    max_ttl: u32,
)
    requires
        ledger.wf(),
        ledger.last_id < u64::MAX,
    ensures
        ledger.config(caller, config) is Ok ==> ledger.config(caller, config).unwrap().ledger.last_id
            == ledger.last_id,
        ledger.set_fee(caller, fee) is Ok ==> ledger.set_fee(caller, fee).unwrap().ledger.last_id
            == ledger.last_id,
        ledger.charge(caller, ids, now, max_ttl) is Ok ==> ledger.charge(
            caller,
            ids,
            now,
            max_ttl,
        ).unwrap().ledger.last_id == ledger.last_id,
        ledger.create_subscription(caller, params, amount, now, max_ttl) is Ok
            ==> ledger.create_subscription(caller, params, amount, now, max_ttl).unwrap().ledger.last_id
            == ledger.last_id + 1,
        ledger.deposit(caller, id, amount, max_ttl) is Ok ==> ledger.deposit(
            caller,
            id,
            amount,
            max_ttl,
        ).unwrap().ledger.last_id == ledger.last_id,
        ledger.cancel(caller, id) is Ok ==> ledger.cancel(caller, id).unwrap().ledger.last_id
            == ledger.last_id,
{
}

/// Whatever is done, every subscription in the ledger keeps an identifier
/// that was given out and parameters within their ranges, and nothing
/// exists before the ledger is configured.
pub proof fn lemma_operations_preserve_wf(
    ledger: Ledger,
    caller: Seq<char>,
    config: ContractConfigView,
    fee: u64,
    ids: Seq<u64>,
    params: SubscriptionInitParamsView,
    id: u64,
    amount: u64,
    now: u64,
    max_ttl: u32,
)
    requires
        ledger.wf(),
        ledger.last_id < u64::MAX,
    ensures
        Ledger::initial().wf(),
        ledger.config(caller, config) is Ok ==> ledger.config(caller, config).unwrap().ledger.wf(),
        ledger.set_fee(caller, fee) is Ok ==> ledger.set_fee(caller, fee).unwrap().ledger.wf(),
        ledger.charge(caller, ids, now, max_ttl) is Ok ==> ledger.charge(
            caller,
            ids,
            now,
            max_ttl,
        ).unwrap().ledger.wf(),
        ledger.create_subscription(caller, params, amount, now, max_ttl) is Ok
            ==> ledger.create_subscription(caller, params, amount, now, max_ttl).unwrap().ledger.wf(),
        ledger.deposit(caller, id, amount, max_ttl) is Ok ==> ledger.deposit(
            caller,
            id,
            amount,
            max_ttl,
        ).unwrap().ledger.wf(),
        ledger.cancel(caller, id) is Ok ==> ledger.cancel(caller, id).unwrap().ledger.wf(),
{
    if ledger.charge(caller, ids, now, max_ttl) is Ok {
        lemma_charge_keeps_subscriptions(ledger, caller, ids, now, max_ttl);
        let after = ledger.charge(caller, ids, now, max_ttl).unwrap().ledger;
        assert forall|other: u64| #[trigger] after.subscriptions.contains_key(other) implies 1
            <= other <= after.last_id && valid_subscription(after.subscriptions[other]) by {
            assert(ledger.subscriptions.contains_key(other));
        }
    }
    if ledger.create_subscription(caller, params, amount, now, max_ttl) is Ok {
        let after = ledger.create_subscription(caller, params, amount, now, max_ttl).unwrap().ledger;
        assert forall|other: u64| #[trigger] after.subscriptions.contains_key(other) implies 1
            <= other <= after.last_id && valid_subscription(after.subscriptions[other]) by {
            if other != after.last_id {
                assert(ledger.subscriptions.contains_key(other));
            }
        }
    }
    if ledger.deposit(caller, id, amount, max_ttl) is Ok {
        let after = ledger.deposit(caller, id, amount, max_ttl).unwrap().ledger;
        assert forall|other: u64| #[trigger] after.subscriptions.contains_key(other) implies 1
            <= other <= after.last_id && valid_subscription(after.subscriptions[other]) by {
            assert(ledger.subscriptions.contains_key(other));
        }
    }
    if ledger.cancel(caller, id) is Ok {
        let after = ledger.cancel(caller, id).unwrap().ledger;
        assert forall|other: u64| #[trigger] after.subscriptions.contains_key(other) implies 1
            <= other <= after.last_id && valid_subscription(after.subscriptions[other]) by {
            assert(ledger.subscriptions.contains_key(other));
        }
    }
}

} // verus!
