//! Pricing: the retention fee of a subscription, from the base fee, the
//! heartbeat and the sources of the priced pair.

use crate::sqrt::{isqrt, lemma_isqrt_monotonic, lemma_isqrt_of_square, U128Extensions};
use crate::types::{TickerAsset, TickerAssetView};
use vstd::arithmetic::div_mod::lemma_div_is_ordered_by_denominator;
use vstd::prelude::*;

verus! {

/// The heartbeat, in minutes, at which the heartbeat fee equals the base fee.
pub const REFERENCE_HEARTBEAT: u32 = 120;

/// The fee for a heartbeat: the base fee scaled by the square root of the
/// ratio of the reference heartbeat to the heartbeat, and never below the base fee.
pub open spec fn heartbeat_fee(base_fee: nat, heartbeat: nat) -> nat
    recommends
        heartbeat > 0,
{
    let root = isqrt(REFERENCE_HEARTBEAT as nat * (base_fee * base_fee) / heartbeat);
    if root < base_fee {
        base_fee
    } else {
        root
    }
}

/// 2 for a pair priced across two sources, 1 for a pair of one source.
pub open spec fn complexity_factor(base: TickerAssetView, quote: TickerAssetView) -> nat {
    if base.source != quote.source {
        2
    } else {
        1
    }
}

/// The retention fee of one period.
pub open spec fn retention_fee(
    base_fee: nat,
    base: TickerAssetView,
    quote: TickerAssetView,
    heartbeat: nat,
) -> nat
    recommends
        heartbeat > 0,
{
    heartbeat_fee(base_fee, heartbeat) * complexity_factor(base, quote)
}

/// The heartbeat fee is defined, and its intermediate product fits in 128 bits.
pub open spec fn heartbeat_fee_computable(base_fee: u64, heartbeat: u32) -> bool {
    heartbeat > 0 && REFERENCE_HEARTBEAT * (base_fee * base_fee) <= u128::MAX
}

/// The retention fee is defined, and it can be computed and held in 64 bits.
pub open spec fn fee_computable(
    base_fee: u64,
    base: TickerAssetView,
    quote: TickerAssetView,
    heartbeat: u32,
) -> bool {
    &&& heartbeat_fee_computable(base_fee, heartbeat)
    &&& retention_fee(base_fee as nat, base, quote, heartbeat as nat) <= u64::MAX
}

/// The retention fee where it can be computed, and nothing where it cannot.
pub open spec fn checked_retention_fee(
    base_fee: u64,
    base: TickerAssetView,
    quote: TickerAssetView,
    heartbeat: u32,
) -> Option<u64> {
    if fee_computable(base_fee, base, quote, heartbeat) {
        Some(retention_fee(base_fee as nat, base, quote, heartbeat as nat) as u64)
    } else {
        None
    }
}

proof fn lemma_square_fits(base_fee: u64)
    by (nonlinear_arith)
    ensures
        base_fee * base_fee <= 0xffff_ffff_ffff_ffff * 0xffff_ffff_ffff_ffff,
{
}

/// The fee for a heartbeat. There must be a heartbeat, and the product of
/// the reference heartbeat and the square of the base fee must fit in 128
/// bits; `checked_fee` tests both.
pub fn calc_hearbeat_fee(base_fee: u64, heartbeat: u32) -> (fee: u64)
    requires
        heartbeat_fee_computable(base_fee, heartbeat),
    ensures
        fee == heartbeat_fee(base_fee as nat, heartbeat as nat),
{
    proof {
        lemma_square_fits(base_fee);
    }
    let wide = base_fee as u128;
    let root = ((REFERENCE_HEARTBEAT as u128) * (wide * wide) / (heartbeat as u128)).sqrt();
    let hearbeat_fee = root as u64;
    if hearbeat_fee < base_fee {
        // Minimum fee is the base fee
        return base_fee;
    }
    hearbeat_fee
}

/// 2 for a pair priced across two sources, 1 for a pair of one source.
pub fn calc_complexity_factor(base_symbol: &TickerAsset, quote_symbol: &TickerAsset) -> (factor:
    u64)
    ensures
        factor == complexity_factor(base_symbol@, quote_symbol@),
{
    if base_symbol.source != quote_symbol.source {
        return 2;  // cross-price
    }
    1
}

/// The retention fee of one period: the fee for the heartbeat, twice for
/// a pair priced across two sources. The fee must be within what
/// `calc_hearbeat_fee` computes and 64 bits hold; `checked_fee` tests that.
pub fn calc_fee(
    base_fee: u64,
    base_symbol: &TickerAsset,
    quote_symbol: &TickerAsset,
    heartbeat: u32,
) -> (fee: u64)
    requires
        fee_computable(base_fee, base_symbol@, quote_symbol@, heartbeat),
    ensures
        fee == retention_fee(base_fee as nat, base_symbol@, quote_symbol@, heartbeat as nat),
{
    let heartbeat_fee = calc_hearbeat_fee(base_fee, heartbeat);
    let complexity_factor = calc_complexity_factor(base_symbol, quote_symbol);
    heartbeat_fee * complexity_factor
}

/// The retention fee, with every limit of the machine arithmetic tested.
pub fn checked_fee(
    base_fee: u64,
    base_symbol: &TickerAsset,
    quote_symbol: &TickerAsset,
    heartbeat: u32,
) -> (fee: Option<u64>)
    ensures
        fee == checked_retention_fee(base_fee, base_symbol@, quote_symbol@, heartbeat),
{
    if heartbeat == 0 {
        return None;
    }
    proof {
        lemma_square_fits(base_fee);
    }
    let wide = base_fee as u128;
    if wide * wide > u128::MAX / (REFERENCE_HEARTBEAT as u128) {
        return None;
    }
    let heartbeat_fee = calc_hearbeat_fee(base_fee, heartbeat);
    let complexity_factor = calc_complexity_factor(base_symbol, quote_symbol);
    heartbeat_fee.checked_mul(complexity_factor)
}

/// At the reference heartbeat a pair of one source pays the base fee exactly.
pub proof fn lemma_fee_at_reference_heartbeat(
    base_fee: nat,
    base: TickerAssetView,
    quote: TickerAssetView,
)
    requires
        base.source == quote.source,
    ensures
        retention_fee(base_fee, base, quote, REFERENCE_HEARTBEAT as nat) == base_fee,
{
    lemma_isqrt_of_square(base_fee);
    let fee = heartbeat_fee(base_fee, REFERENCE_HEARTBEAT as nat);
    assert(fee * 1 == fee) by (nonlinear_arith);
}

/// The fee never falls below the base fee, however long the heartbeat.
pub proof fn lemma_fee_floor(
    base_fee: nat,
    base: TickerAssetView,
    quote: TickerAssetView,
    heartbeat: nat,
)
    requires
        heartbeat > 0,
    ensures
        heartbeat_fee(base_fee, heartbeat) >= base_fee,
        retention_fee(base_fee, base, quote, heartbeat) >= base_fee,
{
    let fee = heartbeat_fee(base_fee, heartbeat);
    let factor = complexity_factor(base, quote);
    assert(fee * factor >= fee) by (nonlinear_arith)
        requires
            factor >= 1,
    ;
}

/// From the reference heartbeat on, the fee for the heartbeat is the base fee.
pub proof fn lemma_fee_beyond_reference_heartbeat(base_fee: nat, heartbeat: nat)
    requires
        heartbeat >= REFERENCE_HEARTBEAT,
    ensures
        heartbeat_fee(base_fee, heartbeat) == base_fee,
{
    let square = base_fee * base_fee;
    let product = REFERENCE_HEARTBEAT as nat * square;
    assert(product / heartbeat <= square) by (nonlinear_arith)
        requires
            product == 120 * square,
            heartbeat >= 120,
            square >= 0,
    ;
    lemma_isqrt_monotonic(product / heartbeat, square);
    lemma_isqrt_of_square(base_fee);
}

/// A longer heartbeat never costs more.
pub proof fn lemma_fee_non_increasing(
    base_fee: nat,
    base: TickerAssetView,
    quote: TickerAssetView,
    shorter: nat,
    longer: nat,
)
    requires
        0 < shorter <= longer,
    ensures
        heartbeat_fee(base_fee, longer) <= heartbeat_fee(base_fee, shorter),
        retention_fee(base_fee, base, quote, longer) <= retention_fee(
            base_fee,
            base,
            quote,
            shorter,
        ),
{
    let product = REFERENCE_HEARTBEAT as nat * (base_fee * base_fee);
    assert(product >= 0) by (nonlinear_arith);
    lemma_div_is_ordered_by_denominator(product as int, shorter as int, longer as int);
    lemma_isqrt_monotonic(product / longer, product / shorter);
    let low = heartbeat_fee(base_fee, longer);
    let high = heartbeat_fee(base_fee, shorter);
    let factor = complexity_factor(base, quote);
    assert(low * factor <= high * factor) by (nonlinear_arith)
        requires
            low <= high,
    ;
}

/// A pair priced across two sources pays twice what a pair of one source pays.
pub proof fn lemma_cross_source_fee_doubles(
    base_fee: nat,
    heartbeat: nat,
    cross_base: TickerAssetView,
    cross_quote: TickerAssetView,
    same_base: TickerAssetView,
    same_quote: TickerAssetView,
)
    requires
        cross_base.source != cross_quote.source,
        same_base.source == same_quote.source,
    ensures
        retention_fee(base_fee, cross_base, cross_quote, heartbeat) == 2 * retention_fee(
            base_fee,
            same_base,
            same_quote,
            heartbeat,
        ),
{
    let fee = heartbeat_fee(base_fee, heartbeat);
    assert(fee * 2 == 2 * (fee * 1)) by (nonlinear_arith);
}

} // verus!
