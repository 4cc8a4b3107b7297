//! Solvency: the tokens that the operations ask to take into custody, give
//! back or destroy are exactly what they add to or take from the balances,
//! so that custody always matches the balances on the books.

use crate::laws::lemma_batch_touches_once;
use crate::model::{charge_batch, Ledger};
use crate::types::{EffectView, SubscriptionInitParamsView, SubscriptionView};
use vstd::prelude::*;

verus! {

/// What an effect moves into custody, negative for what it moves out.
pub open spec fn custody_flow(effect: EffectView) -> int {
    match effect {
        EffectView::TransferIn { amount, .. } => amount as int,
        EffectView::TransferOut { amount, .. } => -(amount as int),
        EffectView::Burn { amount } => -(amount as int),
        _ => 0,
    }
}

/// What a list of effects moves into custody in all.
pub open spec fn custody_change(effects: Seq<EffectView>) -> int
    decreases effects.len(),
{
    if effects.len() == 0 {
        0
    } else {
        custody_change(effects.drop_last()) + custody_flow(effects.last())
    }
}

/// The balance of the subscription with this identifier, 0 where there is none.
pub open spec fn balance_of(subscriptions: Map<u64, SubscriptionView>, id: nat) -> nat {
    if id <= u64::MAX && subscriptions.contains_key(id as u64) {
        subscriptions[id as u64].balance as nat
    } else {
        0
    }
}

/// The sum of the balances of the subscriptions with identifiers up to `last`.
pub open spec fn balances_upto(subscriptions: Map<u64, SubscriptionView>, last: nat) -> nat
    decreases last,
{
    if last == 0 {
        0
    } else {
        balances_upto(subscriptions, (last - 1) as nat) + balance_of(subscriptions, last)
    }
}

/// The sum of all balances in the ledger.
pub open spec fn total_balance(ledger: Ledger) -> nat {
    balances_upto(ledger.subscriptions, ledger.last_id as nat)
}

proof fn lemma_change_after_push(effects: Seq<EffectView>, effect: EffectView)
    ensures
        custody_change(effects.push(effect)) == custody_change(effects) + custody_flow(effect),
{
    assert(effects.push(effect).drop_last() =~= effects);
}

proof fn lemma_change_of_sum(first: Seq<EffectView>, second: Seq<EffectView>)
    ensures
        custody_change(first + second) == custody_change(first) + custody_change(second),
    decreases second.len(),
{
    if second.len() == 0 {
        assert(first + second =~= first);
    } else {
        lemma_change_of_sum(first, second.drop_last());
        assert((first + second).drop_last() =~= first + second.drop_last());
    }
}

proof fn lemma_change_of_two(first: EffectView, second: EffectView)
    ensures
        custody_change(seq![first, second]) == custody_flow(first) + custody_flow(second),
{
    let none = Seq::<EffectView>::empty();
    lemma_change_after_push(none, first);
    lemma_change_after_push(none.push(first), second);
    assert(seq![first, second] =~= none.push(first).push(second));
}

proof fn lemma_change_of_three(first: EffectView, second: EffectView, third: EffectView)
    ensures
        custody_change(seq![first, second, third]) == custody_flow(first) + custody_flow(second)
            + custody_flow(third),
{
    lemma_change_of_two(first, second);
    lemma_change_after_push(seq![first, second], third);
    assert(seq![first, second, third] =~= seq![first, second].push(third));
}

proof fn lemma_change_of_four(
    first: EffectView,
    second: EffectView,
    third: EffectView,
    fourth: EffectView,
)
    ensures
        custody_change(seq![first, second, third, fourth]) == custody_flow(first) + custody_flow(
            second,
        ) + custody_flow(third) + custody_flow(fourth),
{
    lemma_change_of_three(first, second, third);
    lemma_change_after_push(seq![first, second, third], fourth);
    assert(seq![first, second, third, fourth] =~= seq![first, second, third].push(fourth));
}

/// Subscriptions that agree up to `last` have the same sum up to there.
proof fn lemma_balances_agree(
    before: Map<u64, SubscriptionView>,
    after: Map<u64, SubscriptionView>,
    last: nat,
)
    requires
        forall|id: nat| 1 <= id <= last ==> balance_of(before, id) == #[trigger] balance_of(after, id),
    ensures
        balances_upto(after, last) == balances_upto(before, last),
    decreases last,
{
    if last > 0 {
        lemma_balances_agree(before, after, (last - 1) as nat);
        assert(balance_of(before, last) == balance_of(after, last));
    }
}

/// Where one balance changes, the sum changes by as much.
proof fn lemma_balances_differ_at(
    before: Map<u64, SubscriptionView>,
    after: Map<u64, SubscriptionView>,
    changed: nat,
    last: nat,
)
    requires
        1 <= changed <= last,
        forall|id: nat|
            1 <= id <= last && id != changed ==> balance_of(before, id) == #[trigger] balance_of(
                after,
                id,
            ),
    ensures
        balances_upto(after, last) - balance_of(after, changed) == balances_upto(before, last)
            - balance_of(before, changed),
    decreases last,
{
    if last == changed {
        lemma_balances_agree(before, after, (last - 1) as nat);
    } else {
        lemma_balances_differ_at(before, after, changed, (last - 1) as nat);
        assert(balance_of(before, last) == balance_of(after, last));
    }
}

proof fn lemma_balances_bounded(subscriptions: Map<u64, SubscriptionView>, last: nat)
    ensures
        balances_upto(subscriptions, last) <= last * u64::MAX,
    decreases last,
{
    if last > 0 {
        lemma_balances_bounded(subscriptions, (last - 1) as nat);
        assert(last * u64::MAX == (last - 1) * u64::MAX + u64::MAX) by (nonlinear_arith);
    } else {
        assert(0 * u64::MAX == 0) by (nonlinear_arith);
    }
}

/// A run through subscriptions to charge moves nothing by itself, and
/// takes from the balances what it counts as taken.
proof fn lemma_batch_takes_its_total(
    subscriptions: Map<u64, SubscriptionView>,
    ids: Seq<u64>,
    base_fee: u64,
    now: u64,
    max_ttl: u32,
    last: nat,
)
    requires
        forall|id: u64| #[trigger] subscriptions.contains_key(id) ==> 1 <= id <= last,
    ensures
        ({
            let batch = charge_batch(subscriptions, ids, base_fee, now, max_ttl);
            &&& custody_change(batch.effects) == 0
            &&& balances_upto(batch.subscriptions, last) + batch.total == balances_upto(
                subscriptions,
                last,
            )
        }),
    decreases ids.len(),
{
    if ids.len() > 0 {
        lemma_batch_takes_its_total(subscriptions, ids.drop_last(), base_fee, now, max_ttl, last);
        lemma_batch_touches_once(subscriptions, ids.drop_last(), base_fee, now, max_ttl);
        let earlier = charge_batch(subscriptions, ids.drop_last(), base_fee, now, max_ttl);
        let batch = charge_batch(subscriptions, ids, base_fee, now, max_ttl);
        let id = ids.last();
        if batch != earlier {
            let effects = batch.effects.subrange(earlier.effects.len() as int, batch.effects.len() as int);
            assert(batch.effects =~= earlier.effects + effects);
            lemma_change_of_sum(earlier.effects, effects);
            if effects.len() == 3 {
                lemma_change_of_three(effects[0], effects[1], effects[2]);
                assert(effects =~= seq![effects[0], effects[1], effects[2]]);
            } else {
                lemma_change_of_two(effects[0], effects[1]);
                assert(effects =~= seq![effects[0], effects[1]]);
            }
            assert(subscriptions.contains_key(id));
            lemma_balances_differ_at(earlier.subscriptions, batch.subscriptions, id as nat, last);
        }
    }
}

/// Creating a subscription takes in the deposit and destroys the creation
/// fee: what stays in custody is the balance of the new subscription.
pub proof fn lemma_create_is_solvent(
    ledger: Ledger,
    caller: Seq<char>,
    params: SubscriptionInitParamsView,
    amount: u64,
    now: u64,
    max_ttl: u32,
)
    requires
        ledger.wf(),
        ledger.last_id < u64::MAX,
        ledger.create_subscription(caller, params, amount, now, max_ttl) is Ok,
    ensures
        ({
            let step = ledger.create_subscription(caller, params, amount, now, max_ttl).unwrap();
            custody_change(step.effects) == total_balance(step.ledger) - total_balance(ledger)
        }),
{
    let step = ledger.create_subscription(caller, params, amount, now, max_ttl).unwrap();
    lemma_change_of_four(step.effects[0], step.effects[1], step.effects[2], step.effects[3]);
    assert(step.effects =~= seq![
        step.effects[0],
        step.effects[1],
        step.effects[2],
        step.effects[3],
    ]);
    assert forall|id: nat| 1 <= id <= ledger.last_id implies balance_of(ledger.subscriptions, id)
        == #[trigger] balance_of(step.ledger.subscriptions, id) by {}
    lemma_balances_agree(ledger.subscriptions, step.ledger.subscriptions, ledger.last_id as nat);
}

/// A deposit takes in its amount and destroys the cost of a reactivation:
/// what stays in custody is what the balance has grown by.
pub proof fn lemma_deposit_is_solvent(
    ledger: Ledger,
    from: Seq<char>,
    id: u64,
    amount: u64,
    max_ttl: u32,
)
    requires
        ledger.wf(),
        ledger.deposit(from, id, amount, max_ttl) is Ok,
    ensures
        ({
            let step = ledger.deposit(from, id, amount, max_ttl).unwrap();
            custody_change(step.effects) == total_balance(step.ledger) - total_balance(ledger)
        }),
{
    let step = ledger.deposit(from, id, amount, max_ttl).unwrap();
    if step.effects.len() == 4 {
        lemma_change_of_four(step.effects[0], step.effects[1], step.effects[2], step.effects[3]);
        assert(step.effects =~= seq![
            step.effects[0],
            step.effects[1],
            step.effects[2],
            step.effects[3],
        ]);
    } else {
        lemma_change_of_three(step.effects[0], step.effects[1], step.effects[2]);
        assert(step.effects =~= seq![step.effects[0], step.effects[1], step.effects[2]]);
    }
    assert(ledger.subscriptions.contains_key(id));
    lemma_balances_differ_at(
        ledger.subscriptions,
        step.ledger.subscriptions,
        id as nat,
        ledger.last_id as nat,
    );
}

/// Cancelling gives back out of custody exactly the balance that leaves
/// the books.
pub proof fn lemma_cancel_is_solvent(ledger: Ledger, caller: Seq<char>, id: u64)
    requires
        ledger.wf(),
        ledger.cancel(caller, id) is Ok,
    ensures
        ({
            let step = ledger.cancel(caller, id).unwrap();
            custody_change(step.effects) == total_balance(step.ledger) - total_balance(ledger)
        }),
{
    let step = ledger.cancel(caller, id).unwrap();
    lemma_change_of_two(step.effects[0], step.effects[1]);
    assert(step.effects =~= seq![step.effects[0], step.effects[1]]);
    assert(ledger.subscriptions.contains_key(id));
    lemma_balances_differ_at(
        ledger.subscriptions,
        step.ledger.subscriptions,
        id as nat,
        ledger.last_id as nat,
    );
}

/// A charge destroys exactly what it takes from the balances.
pub proof fn lemma_charge_is_solvent(
    ledger: Ledger,
    caller: Seq<char>,
    ids: Seq<u64>,
    now: u64,
    max_ttl: u32,
)
    requires
        ledger.wf(),
        ledger.charge(caller, ids, now, max_ttl) is Ok,
    ensures
        ({
            let step = ledger.charge(caller, ids, now, max_ttl).unwrap();
            custody_change(step.effects) == total_balance(step.ledger) - total_balance(ledger)
        }),
{
    let base_fee = ledger.config.unwrap().fee;
    let batch = charge_batch(ledger.subscriptions, ids, base_fee, now, max_ttl);
    lemma_batch_takes_its_total(
        ledger.subscriptions,
        ids,
        base_fee,
        now,
        max_ttl,
        ledger.last_id as nat,
    );
    lemma_balances_bounded(ledger.subscriptions, ledger.last_id as nat);
    assert(ledger.last_id * u64::MAX <= u64::MAX * u64::MAX) by (nonlinear_arith)
        requires
            ledger.last_id <= u64::MAX,
    ;
    if batch.total > 0 {
        lemma_change_after_push(batch.effects, EffectView::Burn { amount: batch.total as u128 });
    }
}

/// The operations that touch no balance move nothing into or out of custody.
pub proof fn lemma_administration_moves_nothing(
    ledger: Ledger,
    caller: Seq<char>,
    fee: u64,
    timestamp: u64,
    hash: Seq<u8>,
)
    ensures
        ledger.set_fee(caller, fee) is Ok ==> custody_change(
            ledger.set_fee(caller, fee).unwrap().effects,
        ) == 0,
        ledger.trigger(caller, timestamp, hash) is Ok ==> custody_change(
            ledger.trigger(caller, timestamp, hash).unwrap().effects,
        ) == 0,
        ledger.update_contract(caller, hash) is Ok ==> custody_change(
            ledger.update_contract(caller, hash).unwrap().effects,
        ) == 0,
{
    let none = Seq::<EffectView>::empty();
    if ledger.set_fee(caller, fee) is Ok {
        let effects = ledger.set_fee(caller, fee).unwrap().effects;
        lemma_change_after_push(none, effects[0]);
        assert(effects =~= none.push(effects[0]));
    }
    if ledger.trigger(caller, timestamp, hash) is Ok {
        let effects = ledger.trigger(caller, timestamp, hash).unwrap().effects;
        lemma_change_after_push(none, effects[0]);
        assert(effects =~= none.push(effects[0]));
    }
    if ledger.update_contract(caller, hash) is Ok {
        let effects = ledger.update_contract(caller, hash).unwrap().effects;
        lemma_change_of_two(effects[0], effects[1]);
        assert(effects =~= seq![effects[0], effects[1]]);
    }
}

} // verus!
