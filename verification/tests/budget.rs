use reflector_subscriptions::budget::{calc_ledgers_to_live, LEDGERS_PER_DAY};
use reflector_subscriptions::types::Error;

const MAX_TTL: u32 = 6312000;

#[test]
fn one_period_is_the_least_retention() {
    assert_eq!(LEDGERS_PER_DAY, 17280);
    assert_eq!(calc_ledgers_to_live(MAX_TTL, 10, 0), Ok(17280));
    assert_eq!(calc_ledgers_to_live(MAX_TTL, 10, 1), Ok(17280));
    assert_eq!(calc_ledgers_to_live(MAX_TTL, 10, 9), Ok(17280));
    assert_eq!(calc_ledgers_to_live(MAX_TTL, 10, 10), Ok(17280));
}

#[test]
fn periods_are_rounded_up() {
    assert_eq!(calc_ledgers_to_live(MAX_TTL, 10, 11), Ok(2 * 17280));
    assert_eq!(calc_ledgers_to_live(MAX_TTL, 10, 20), Ok(2 * 17280));
    assert_eq!(calc_ledgers_to_live(MAX_TTL, 10, 21), Ok(3 * 17280));
    assert_eq!(calc_ledgers_to_live(MAX_TTL, 979795896, 979795896 * 7), Ok(7 * 17280));
    assert_eq!(calc_ledgers_to_live(MAX_TTL, 979795896, 979795896 * 7 + 1), Ok(8 * 17280));
    assert_eq!(calc_ledgers_to_live(MAX_TTL, 1, 365), Ok(365 * 17280));
}

#[test]
fn retention_beyond_the_ceiling_is_refused() {
    // 365 periods are 6307200 ledgers, 366 are 6324480
    assert_eq!(calc_ledgers_to_live(MAX_TTL, 1, 365), Ok(6307200));
    assert_eq!(calc_ledgers_to_live(MAX_TTL, 1, 366), Err(Error::InvalidAmount));
    assert_eq!(calc_ledgers_to_live(6324480, 1, 366), Ok(6324480));
    assert_eq!(calc_ledgers_to_live(6324479, 1, 366), Err(Error::InvalidAmount));
    assert_eq!(calc_ledgers_to_live(17279, 10, 0), Err(Error::InvalidAmount));
    assert_eq!(calc_ledgers_to_live(0, 10, 0), Err(Error::InvalidAmount));
}

#[test]
fn retention_of_huge_balances_is_refused() {
    assert_eq!(calc_ledgers_to_live(u32::MAX, 1, u64::MAX), Err(Error::InvalidAmount));
    assert_eq!(calc_ledgers_to_live(u32::MAX, 2, u64::MAX), Err(Error::InvalidAmount));
    assert_eq!(calc_ledgers_to_live(u32::MAX, u64::MAX, u64::MAX), Ok(17280));
    assert_eq!(calc_ledgers_to_live(u32::MAX, u64::MAX, u64::MAX - 1), Ok(17280));
    // 248551 periods fit under the largest ceiling, 248552 do not
    assert_eq!(calc_ledgers_to_live(u32::MAX, 1, 248551), Ok(248551 * 17280));
    assert_eq!(calc_ledgers_to_live(u32::MAX, 1, 248552), Err(Error::InvalidAmount));
}

#[test]
fn retention_without_a_fee_is_refused() {
    assert_eq!(calc_ledgers_to_live(MAX_TTL, 0, 0), Err(Error::InvalidAmount));
    assert_eq!(calc_ledgers_to_live(MAX_TTL, 0, 100), Err(Error::InvalidAmount));
}
