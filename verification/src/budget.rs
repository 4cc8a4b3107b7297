//! Retention budget: for how long the balance of a subscription pays for
//! keeping its record.

use crate::types::Error;
use vstd::prelude::*;

verus! {

/// The number of ledgers that close in one charging period (a day).
pub const LEDGERS_PER_DAY: u32 = 17280;

/// The number of periods that `balance` pays for at `fee` a period, rounded
/// up, and at least one.
pub open spec fn periods(fee: nat, balance: nat) -> nat
    recommends
        fee > 0,
{
    let covered = (balance + fee - 1) / (fee as int);
    if covered <= 0 {
        1
    } else {
        covered as nat
    }
}

/// The retention that `balance` pays for, in ledgers.
pub open spec fn ledgers_to_live(fee: nat, balance: nat) -> nat
    recommends
        fee > 0,
{
    periods(fee, balance) * LEDGERS_PER_DAY as nat
}

/// The retention in ledgers, where the fee is positive and the platform's
/// ceiling admits it.
pub open spec fn checked_ledgers_to_live(max_ttl: u32, fee: u64, balance: u64) -> Result<
    u32,
    Error,
> {
    if fee > 0 && ledgers_to_live(fee as nat, balance as nat) <= max_ttl {
        Ok(ledgers_to_live(fee as nat, balance as nat) as u32)
    } else {
        Err(Error::InvalidAmount)
    }
}

/// The number of ledgers for which a subscription with `amount` left is
/// retained, or `InvalidAmount` where that exceeds `max_ttl`, the longest
/// retention that the platform grants, or where nothing is charged a period.
pub fn calc_ledgers_to_live(max_ttl: u32, fee: u64, amount: u64) -> (ledgers: Result<u32, Error>)
    ensures
        ledgers == checked_ledgers_to_live(max_ttl, fee, amount),
{
    if fee == 0 {
        return Err(Error::InvalidAmount);
    }
    let mut days: u128 = (amount as u128 + fee as u128 - 1) / (fee as u128);
    if days == 0 {
        days = 1;
    }
    assert(days <= 0x1_0000_0000_0000_0000) by (nonlinear_arith)
        requires
            days == 1 || days == (amount + fee - 1) / (fee as int),
            amount <= 0xffff_ffff_ffff_ffff,
            fee >= 1,
    ;
    let ledgers: u128 = days * (LEDGERS_PER_DAY as u128);
    if ledgers > max_ttl as u128 {
        return Err(Error::InvalidAmount);
    }
    Ok(ledgers as u32)
}

/// A balance of at most one fee is retained for exactly one period.
pub proof fn lemma_minimum_retention(fee: nat, balance: nat)
    requires
        fee > 0,
        balance <= fee,
    ensures
        periods(fee, balance) == 1,
        ledgers_to_live(fee, balance) == LEDGERS_PER_DAY,
{
    assert((balance + fee - 1) / (fee as int) <= 1) by (nonlinear_arith)
        requires
            fee > 0,
            balance <= fee,
    ;
    if balance >= 1 {
        assert((balance + fee - 1) / (fee as int) >= 1) by (nonlinear_arith)
            requires
                fee > 0,
                balance >= 1,
        ;
    }
}

/// The periods paid for are the least number of fees that cover the balance.
pub proof fn lemma_periods_cover_balance(fee: nat, balance: nat)
    requires
        fee > 0,
        balance > 0,
    ensures
        (periods(fee, balance) - 1) * fee < balance <= periods(fee, balance) * fee,
{
    let d = (balance + fee - 1) / (fee as int);
    assert((d - 1) * fee < balance <= d * fee && d >= 1) by (nonlinear_arith)
        requires
            fee > 0,
            balance > 0,
            d == (balance + fee - 1) / (fee as int),
    ;
}

} // verus!
