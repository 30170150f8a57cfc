//! From theoretical prices to prices that can be traded: whole cents, rounded
//! against the trader on either side.
//!
//! A buyer pays the price rounded up, and never less than one cent. A seller
//! gets the price rounded down, and never less than nothing. A price that is
//! missing, because it could not be written as a decimal, counts as the
//! least price of its side.

use crate::decimal::{value_of, Decimal, DecimalValue, MAX_COEFFICIENT, MAX_SCALE};
use vstd::prelude::*;

verus! {

/// Ten to the power of `n`.
pub open spec fn pow10(n: nat) -> nat
    decreases n,
{
    if n == 0 {
        1
    } else {
        10 * pow10((n - 1) as nat)
    }
}

/// The magnitude of `v` in cents, rounded down to a whole number.
pub open spec fn floor_cents(v: DecimalValue) -> nat {
    (v.coefficient * 100) / pow10(v.scale)
}

/// The magnitude of `v` in cents, rounded up to a whole number.
pub open spec fn ceil_cents(v: DecimalValue) -> nat {
    ((v.coefficient * 100 + pow10(v.scale) - 1) / (pow10(v.scale) as int)) as nat
}

/// Whether `v` is less than a thousandth.
pub open spec fn below_buy_floor(v: DecimalValue) -> bool {
    v.negative || v.coefficient * 1000 < pow10(v.scale)
}

/// The price in cents at which `x` can be bought: `x`, or a thousandth where
/// `x` is less, rounded up to whole cents; one cent where `x` is missing.
pub open spec fn buy_cents(x: Option<DecimalValue>) -> nat {
    match x {
        None => 1,
        Some(v) => if below_buy_floor(v) {
            1
        } else {
            ceil_cents(v)
        },
    }
}

/// The price in cents at which `x` can be sold: `x`, or nothing where `x` is
/// negative, rounded down to whole cents; nothing where `x` is missing.
pub open spec fn sell_cents(x: Option<DecimalValue>) -> nat {
    match x {
        None => 0,
        Some(v) => if v.negative {
            0
        } else {
            floor_cents(v)
        },
    }
}

/// The quotient `numerator / denominator` of two whole numbers.
#[derive(Debug, Clone, Copy, PartialEq, Eq)]
pub struct Ratio {
    pub numerator: u128,
    pub denominator: u128,
}

/// Powers of ten are positive and grow with the exponent.
pub proof fn lemma_pow10_grows(m: nat, n: nat)
    requires
        m <= n,
    ensures
        0 < pow10(m) <= pow10(n),
    decreases n,
{
    if n == 0 {
    } else if m == n {
        lemma_pow10_grows((m - 1) as nat, (n - 1) as nat);
    } else {
        lemma_pow10_grows(m, (n - 1) as nat);
    }
}

/// Rounding down gives the greatest whole number of cents that is not above
/// the magnitude of `v`.
pub proof fn lemma_floor_cents_is_greatest(v: DecimalValue)
    ensures
        floor_cents(v) * pow10(v.scale) <= v.coefficient * 100,
        v.coefficient * 100 < (floor_cents(v) + 1) * pow10(v.scale),
{
    lemma_pow10_grows(0, v.scale);
    let n = (v.coefficient * 100) as int;
    let d = pow10(v.scale) as int;
    assert((n / d) * d <= n < (n / d + 1) * d) by (nonlinear_arith)
        requires
            0 <= n,
            0 < d,
    ;
}

/// Rounding up gives the least whole number of cents that is not below the
/// magnitude of `v`.
pub proof fn lemma_ceil_cents_is_least(v: DecimalValue)
    ensures
        v.coefficient * 100 <= ceil_cents(v) * pow10(v.scale),
        (ceil_cents(v) - 1) * pow10(v.scale) < v.coefficient * 100,
{
    lemma_pow10_grows(0, v.scale);
    let n = (v.coefficient * 100) as int;
    let d = pow10(v.scale) as int;
    assert(n <= ((n + d - 1) / d) * d && ((n + d - 1) / d - 1) * d < n && (n + d - 1) / d >= 0)
        by (nonlinear_arith)
        requires
            0 <= n,
            0 < d,
    ;
}

/// Rounding up and rounding down differ by at most one cent, and agree
/// exactly where the magnitude of `v` is a whole number of cents.
pub proof fn lemma_ceil_floor_cents(v: DecimalValue)
    ensures
        floor_cents(v) <= ceil_cents(v) <= floor_cents(v) + 1,
        ceil_cents(v) == floor_cents(v) <==> floor_cents(v) * pow10(v.scale) == v.coefficient
            * 100,
{
    lemma_floor_cents_is_greatest(v);
    lemma_ceil_cents_is_least(v);
    let n = (v.coefficient * 100) as int;
    let d = pow10(v.scale) as int;
    let f = floor_cents(v) as int;
    let c = ceil_cents(v) as int;
    assert(f <= c <= f + 1) by (nonlinear_arith)
        requires
            0 < d,
            f * d <= n < (f + 1) * d,
            (c - 1) * d < n <= c * d,
    ;
}

/// No price is sold above what it is bought at, and the two differ by at
/// most one cent; nothing is bought for less than one cent.
pub proof fn lemma_spread(x: Option<DecimalValue>)
    ensures
        sell_cents(x) <= buy_cents(x) <= sell_cents(x) + 1,
        buy_cents(x) >= 1,
{
    match x {
        None => {},
        Some(v) => {
            lemma_pow10_grows(0, v.scale);
            lemma_ceil_floor_cents(v);
            lemma_floor_cents_is_greatest(v);
            lemma_ceil_cents_is_least(v);
            let n = v.coefficient as int;
            let d = pow10(v.scale) as int;
            let f = floor_cents(v) as int;
            let c = ceil_cents(v) as int;
            if !v.negative {
                if n * 1000 < d {
                    assert(f == 0) by (nonlinear_arith)
                        requires
                            0 <= f,
                            0 <= n,
                            n * 1000 < d,
                            f * d <= n * 100,
                    ;
                } else {
                    assert(c >= 1) by (nonlinear_arith)
                        requires
                            0 < d,
                            n * 1000 >= d,
                            n * 100 <= c * d,
                    ;
                }
            }
        },
    }
}

/// Whether the magnitude of `a` is not above that of `b`.
pub open spec fn magnitude_at_most(a: DecimalValue, b: DecimalValue) -> bool {
    a.coefficient * pow10(b.scale) <= b.coefficient * pow10(a.scale)
}

/// Of two prices that are not negative, the greater is neither bought nor
/// sold for less than the smaller.
pub proof fn lemma_rounding_keeps_order(a: DecimalValue, b: DecimalValue)
    requires
        !a.negative,
        !b.negative,
        magnitude_at_most(a, b),
    ensures
        sell_cents(Some(a)) <= sell_cents(Some(b)),
        buy_cents(Some(a)) <= buy_cents(Some(b)),
{
    lemma_pow10_grows(0, a.scale);
    lemma_pow10_grows(0, b.scale);
    lemma_floor_cents_is_greatest(a);
    lemma_floor_cents_is_greatest(b);
    lemma_ceil_cents_is_least(a);
    lemma_ceil_cents_is_least(b);
    lemma_spread(Some(b));
    let ca = a.coefficient as int;
    let cb = b.coefficient as int;
    let pa = pow10(a.scale) as int;
    let pb = pow10(b.scale) as int;
    let fa = floor_cents(a) as int;
    let fb = floor_cents(b) as int;
    let ua = ceil_cents(a) as int;
    let ub = ceil_cents(b) as int;
    assert(fa < fb + 1) by (nonlinear_arith)
        requires
            0 < pa,
            0 < pb,
            0 <= fa,
            0 <= fb,
            fa * pa <= ca * 100,
            cb * 100 < (fb + 1) * pb,
            ca * pb <= cb * pa,
    {
        assert((fa * pa) * pb <= (ca * 100) * pb);
        assert((cb * 100) * pa < ((fb + 1) * pb) * pa);
        assert((ca * 100) * pb == (ca * pb) * 100);
        assert((cb * 100) * pa == (cb * pa) * 100);
        assert((fa * pa) * pb == fa * (pa * pb));
        assert(((fb + 1) * pb) * pa == (fb + 1) * (pa * pb));
    }
    if below_buy_floor(b) && !below_buy_floor(a) {
        assert(false) by (nonlinear_arith)
            requires
                0 < pa,
                0 < pb,
                ca * 1000 >= pa,
                cb * 1000 < pb,
                ca * pb <= cb * pa,
        {
            assert((ca * 1000) * pb >= pa * pb);
            assert((cb * 1000) * pa < pb * pa);
            assert((ca * 1000) * pb == (ca * pb) * 1000);
            assert((cb * 1000) * pa == (cb * pa) * 1000);
        }
    }
    assert(ua - 1 < ub) by (nonlinear_arith)
        requires
            0 < pa,
            0 < pb,
            (ua - 1) * pa < ca * 100,
            cb * 100 <= ub * pb,
            ca * pb <= cb * pa,
    {
        assert(((ua - 1) * pa) * pb < (ca * 100) * pb);
        assert((cb * 100) * pa <= (ub * pb) * pa);
        assert((ca * 100) * pb == (ca * pb) * 100);
        assert((cb * 100) * pa == (cb * pa) * 100);
        assert(((ua - 1) * pa) * pb == (ua - 1) * (pa * pb));
        assert((ub * pb) * pa == ub * (pa * pb));
    }
}

/// Ten to the power of 36, written out.
proof fn lemma_pow10_36()
    ensures
        pow10(36) == 1_000_000_000_000_000_000_000_000_000_000_000_000,
{
    reveal_with_fuel(pow10, 37);
}

/// Ten to the power of `n`, for `n` up to 36.
fn power_of_ten(n: u32) -> (p: u128)
    requires
        n <= MAX_SCALE,
    ensures
        p == pow10(n as nat),
        0 < p <= 1_000_000_000_000_000_000_000_000_000_000_000_000,
{
    let mut p: u128 = 1;
    let mut i: u32 = 0;
    while i < n
        invariant
            i <= n <= MAX_SCALE,
            p == pow10(i as nat),
        decreases n - i,
    {
        proof {
            lemma_pow10_grows((i + 1) as nat, 36);
            lemma_pow10_36();
        }
        p = p * 10;
        i += 1;
    }
    proof {
        lemma_pow10_grows(n as nat, 36);
        lemma_pow10_36();
    }
    p
}

/// The price at which the theoretical price `x` can be bought, in cents.
pub fn round_as_buy_price(x: Option<Decimal>) -> (cents: u128)
    ensures
        cents == buy_cents(value_of(x)),
        cents >= 1,
{
    match x {
        None => 1,
        Some(d) => {
            if d.is_negative() {
                return 1;
            }
            let p = power_of_ten(d.scale());
            let hundredfold = d.coefficient() * 100;
            let up = (hundredfold + (p - 1)) / p;
            proof {
                let c = d@.coefficient as int;
                let q = p as int;
                if c * 1000 < q {
                    assert((c * 100 + q - 1) / q <= 1) by (nonlinear_arith)
                        requires
                            0 <= c,
                            c * 1000 < q,
                    ;
                } else {
                    assert((c * 100 + q - 1) / q >= 1) by (nonlinear_arith)
                        requires
                            0 < q,
                            c * 1000 >= q,
                    ;
                }
            }
            if up < 1 {
                1
            } else {
                up
            }
        },
    }
}

/// The price at which the theoretical price `x` can be sold, in cents.
pub fn round_as_sell_price(x: Option<Decimal>) -> (cents: u128)
    ensures
        cents == sell_cents(value_of(x)),
{
    match x {
        None => 0,
        Some(d) => {
            if d.is_negative() {
                return 0;
            }
            let p = power_of_ten(d.scale());
            (d.coefficient() * 100) / p
        },
    }
}

/// The prices in cents at which a trade can be made that enters at the
/// theoretical price `entry` and leaves at the theoretical price `exit`:
/// what the buyer pays, and what the seller gets later.
pub fn buy_sell_prices_practical(entry: Option<Decimal>, exit: Option<Decimal>) -> (prices: (
    u128,
    u128,
))
    ensures
        prices.0 == buy_cents(value_of(entry)),
        prices.1 == sell_cents(value_of(exit)),
        prices.0 >= 1,
{
    (round_as_buy_price(entry), round_as_sell_price(exit))
}

/// The return on a trade that enters at the theoretical price `entry` and
/// leaves at the theoretical price `exit`, as a trader gets it: the selling
/// price over the buying price. The buying price is never zero.
pub fn roi_practical(entry: Option<Decimal>, exit: Option<Decimal>) -> (roi: Ratio)
    ensures
        roi.numerator == sell_cents(value_of(exit)),
        roi.denominator == buy_cents(value_of(entry)),
        roi.denominator >= 1,
{
    let (buy, sell) = buy_sell_prices_practical(entry, exit);
    Ratio { numerator: sell, denominator: buy }
}

} // verus!
