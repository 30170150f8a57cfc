//! The records that a price is computed from: the market, the contract, and
//! a predicted movement of the market.

use crate::binary64::{lemma_zero_value, zero, Binary64, ZERO_BITS};
use vstd::prelude::*;

verus! {

/// The expiry that is left of a contract where its expiry less the time that
/// has passed is `difference`: the difference where it is above zero, and
/// zero otherwise.
pub open spec fn clamped(difference: Binary64) -> Binary64 {
    if zero().less_than(difference) {
        difference
    } else {
        zero()
    }
}

/// The expiry that is left of a contract where its expiry less the time that
/// has passed is `difference`. It is a number, and never below zero.
pub fn remaining_expiry(difference: Binary64) -> (expiry: Binary64)
    ensures
        expiry == clamped(difference),
        !expiry.is_nan(),
        !expiry.less_than(zero()),
{
    let zero = Binary64::from_bits(ZERO_BITS);
    proof {
        lemma_zero_value();
    }
    if zero.lt(difference) {
        difference
    } else {
        zero
    }
}

/// The state of the market. No field should be negative.
#[derive(Debug, Default, Clone, Copy)]
pub struct Environment {
    /// Current stock price
    pub stock: Binary64,
    /// Constant risk-free rate
    pub risk_free: Binary64,
    /// Constant volatility of the stock price, as a fraction: 0.04 for 4%
    pub vol: Binary64,
    /// Constant dividend yield of the stock, as a fraction: 0.16 for 16%
    pub div_yield: Binary64,
}

/// The terms of an option contract. No field should be negative.
#[derive(Debug, Default, Clone, Copy)]
pub struct Contract {
    /// Strike price of the option
    pub strike: Binary64,
    /// Time left to expiry of the option
    pub expiry: Binary64,
}

/// A prediction of where the stock price will be, and when. No field should
/// be negative.
#[derive(Debug, Default, Clone, Copy)]
pub struct Movement {
    /// Predicted stock price after the movement
    pub stock: Binary64,
    /// How long the movement takes
    pub time: Binary64,
}

impl Movement {
    /// Whether the movement predicts a price that is not below the price in
    /// `environ`: then a call is the option to trade it with, and a put
    /// otherwise.
    pub fn favours_call(&self, environ: &Environment) -> (call: bool)
        ensures
            call == environ.stock.at_most(self.stock),
    {
        environ.stock.le(self.stock)
    }

    /// The market and the contract as they are once the movement has taken
    /// place: the stock stands at the predicted price, and of the expiry of
    /// the contract there is left what `difference` leaves, which is never
    /// below zero. Everything else is as it was.
    ///
    /// `difference` is the expiry of the contract less the time of the
    /// movement.
    pub fn apply(&self, environ: Environment, con: Contract, difference: Binary64) -> (moved: (
        Environment,
        Contract,
    ))
        ensures
            moved.0 == (Environment { stock: self.stock, ..environ }),
            moved.1 == (Contract { expiry: clamped(difference), ..con }),
            !moved.1.expiry.is_nan(),
            !moved.1.expiry.less_than(zero()),
    {
        (
            Environment { stock: self.stock, ..environ },
            Contract { expiry: remaining_expiry(difference), ..con },
        )
    }
}

} // verus!
