//! The arithmetic of the swap: the margin ratio of a balance, the funding
//! payment for a span of time, and the bounty of a liquidation.

use crate::arithmetic::difference;
use crate::arithmetic::product;
use crate::arithmetic::quotient;
use crate::double::integer;
use crate::double::Double;
use crate::double::ONE_BITS;
use vstd::prelude::*;

verus! {

/// The bits of `86_400_000.0`, the milliseconds of one day.
pub const MILLIS_PER_DAY_BITS: u64 = 0x4194_9970_0000_0000;

/// The margin ratio `1 - balance / mark_price`.
pub open spec fn margin_ratio_of(balance: u128, mark_price: Double) -> Double {
    difference(Double { bits: ONE_BITS }, quotient(integer(balance as nat), mark_price))
}

/// Whether the margin ratio of `balance` is under the minimum.
pub open spec fn margin_under(balance: u128, mark_price: Double, minimum_margin: Double) -> bool {
    margin_ratio_of(balance, mark_price).less(minimum_margin)
}

/// Whether the margin ratio of `balance` is over the minimum.
pub open spec fn margin_over(balance: u128, mark_price: Double, minimum_margin: Double) -> bool {
    minimum_margin.less(margin_ratio_of(balance, mark_price))
}

/// The funding factor `funding_rate * (elapsed / milliseconds per day)`.
pub open spec fn funding_factor_of(funding_rate: Double, elapsed: u128) -> Double {
    product(funding_rate, quotient(integer(elapsed as nat), Double { bits: MILLIS_PER_DAY_BITS }))
}

/// Whether the long side pays the funding: the mark price is over the index
/// price.
pub open spec fn long_pays(index_price: Double, mark_price: Double) -> bool {
    index_price.less(mark_price)
}

/// The funding payment `|mark_price - index_price| * funding factor`, cut to
/// whole tokens.
pub open spec fn funding_payment_of(
    index_price: Double,
    mark_price: Double,
    funding_rate: Double,
    elapsed: u128,
) -> u64 {
    let factor = funding_factor_of(funding_rate, elapsed);
    if long_pays(index_price, mark_price) {
        product(difference(mark_price, index_price), factor).whole()
    } else {
        product(difference(index_price, mark_price), factor).whole()
    }
}

/// The bounty `liquidation_bounty * balance`, cut to whole tokens.
pub open spec fn bounty_of(liquidation_bounty: Double, balance: u64) -> u64 {
    product(liquidation_bounty, integer(balance as nat)).whole()
}

/// Computes the margin ratio of a balance.
pub fn margin_ratio(balance: u128, mark_price: &Double) -> (r: Double)
    ensures
        r == margin_ratio_of(balance, *mark_price),
{
    let share = Double::from_integer(balance).over(mark_price);
    Double::one().minus(&share)
}

/// Computes the funding factor for a span of `elapsed` milliseconds.
pub fn funding_factor(funding_rate: &Double, elapsed: u128) -> (r: Double)
    ensures
        r == funding_factor_of(*funding_rate, elapsed),
{
    let day = Double::from_bits(MILLIS_PER_DAY_BITS);
    let interval = Double::from_integer(elapsed).over(&day);
    funding_rate.times(&interval)
}

/// Computes the funding payment for a span of `elapsed` milliseconds.
pub fn funding_payment(
    index_price: &Double,
    mark_price: &Double,
    funding_rate: &Double,
    elapsed: u128,
) -> (r: u64)
    ensures
        r == funding_payment_of(*index_price, *mark_price, *funding_rate, elapsed),
{
    let factor = funding_factor(funding_rate, elapsed);
    if index_price.lt(mark_price) {
        mark_price.minus(index_price).times(&factor).truncate()
    } else {
        index_price.minus(mark_price).times(&factor).truncate()
    }
}

/// Computes the bounty of a liquidation.
pub fn liquidation_bounty(share: &Double, balance: u64) -> (r: u64)
    ensures
        r == bounty_of(*share, balance),
{
    share.times(&Double::from_integer(balance as u128)).truncate()
}

} // verus!
