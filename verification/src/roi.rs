//! The prices that a return on investment is taken from: what a trade is
//! entered at never counts as less than a floor, and what it is left at
//! counts for nothing at or below that floor.

use crate::binary64::{lemma_zero_value, zero, Binary64, ZERO_BITS};
use vstd::arithmetic::power2::{lemma2_to64, lemma_pow2_adds, lemma_pow2_pos, pow2};
use vstd::prelude::*;

verus! {

/// The bits of the floor of the return on investment: of all binary numbers
/// of 64 bits the one nearest to a hundred-thousandth.
pub const ROI_FLOOR_THRESHOLD_BITS: u64 = 0x3EE4_F8B5_88E3_68F1;

/// The floor of the return on investment.
pub open spec fn roi_floor() -> Binary64 {
    Binary64 { bits: ROI_FLOOR_THRESHOLD_BITS }
}

/// The entry price that the return is taken over: `entry`, or the floor
/// where `entry` is below it or is no number.
pub open spec fn floored(entry: Binary64) -> Binary64 {
    if entry.is_nan() || entry.less_than(roi_floor()) {
        roi_floor()
    } else {
        entry
    }
}

/// The exit price that the return is taken from: `exit`, or zero where
/// `exit` is at or below the floor.
pub open spec fn snapped(exit: Binary64) -> Binary64 {
    if exit.at_most(roi_floor()) {
        zero()
    } else {
        exit
    }
}

/// The floor is the number `5902958103587057 / 2^69`, which differs from a
/// hundred-thousandth by no more than half of `1 / 2^69`: no binary number
/// of 64 bits is nearer to a hundred-thousandth.
pub proof fn lemma_roi_floor_value()
    ensures
        !roi_floor().is_nan(),
        roi_floor().value() * pow2(69) == 5902958103587057 * pow2(1074),
        (2 * 5902958103587057 - 1) * 100000 <= 2 * pow2(69) <= (2 * 5902958103587057 + 1)
            * 100000,
{
    lemma2_to64();
    lemma_pow2_adds(64, 5);
    lemma_pow2_adds(1005, 69);
    let lower = pow2(1005) as int;
    let upper = pow2(69) as int;
    assert((5902958103587057 * lower) * upper == 5902958103587057 * (lower * upper))
        by (nonlinear_arith);
}

/// The floor is above zero.
pub proof fn lemma_floor_is_positive()
    ensures
        zero().less_than(roi_floor()),
{
    lemma_zero_value();
    lemma_pow2_pos(1005);
    let p = pow2(1005) as int;
    assert(0 < 5902958103587057 * p) by (nonlinear_arith)
        requires
            0 < p,
    ;
}

/// The prices that the return on investment is taken over and from: the
/// entry price, never below the floor, and the exit price, which counts for
/// nothing at or below the floor. The first is never zero, and always a
/// number.
pub fn floored_prices(entry: Binary64, exit: Binary64) -> (prices: (Binary64, Binary64))
    ensures
        prices.0 == floored(entry),
        prices.1 == snapped(exit),
        entry.less_than(roi_floor()) ==> prices.0 == roi_floor(),
        exit.at_most(roi_floor()) ==> prices.1 == zero(),
        roi_floor().at_most(prices.0),
        zero().less_than(prices.0),
{
    let floor = Binary64::from_bits(ROI_FLOOR_THRESHOLD_BITS);
    proof {
        lemma_floor_is_positive();
    }
    let entry = if entry.nan() || entry.lt(floor) {
        floor
    } else {
        entry
    };
    let exit = if exit.le(floor) {
        Binary64::from_bits(ZERO_BITS)
    } else {
        exit
    };
    (entry, exit)
}

} // verus!
