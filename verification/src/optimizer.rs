//! The search for the contract with the best return, as far as it decides
//! rather than computes: where it starts, how large a step may be, and when
//! it is over.
//!
//! The search climbs the return along its slope in the strike. It takes a
//! fixed number of steps and never stops before: it does not ask whether it
//! has arrived. Whoever runs it asks the search what to do, computes the
//! next strike where the search wants one, and hands it back:
//!
//! - `Search::start` gives the first state,
//! - `Search::action` says what a state asks for,
//! - `Search::advance` takes the next strike and gives the next state.

use crate::binary64::Binary64;
use crate::market::{Contract, Movement};
use vstd::arithmetic::power2::{lemma2_to64_rest, lemma_pow2_adds, pow2};
use vstd::prelude::*;

verus! {

/// How many steps the search takes, whatever it finds on the way.
pub const SEARCH_STEPS: usize = 5000;

/// The bits of the base rate of the search: of all binary numbers of 64 bits
/// the one nearest to a tenth.
pub const BASE_STEP_BITS: u64 = 0x3FB9_9999_9999_999A;

/// The base rate of the search.
pub open spec fn base_step() -> Binary64 {
    Binary64 { bits: BASE_STEP_BITS }
}

/// The rate of a step whose rate may not exceed `bound`: the base rate, or
/// `bound` where `bound` is below it.
pub open spec fn bounded_step(bound: Binary64) -> Binary64 {
    if bound.less_than(base_step()) {
        bound
    } else {
        base_step()
    }
}

/// The base rate is the number `7205759403792794 / 2^56`, which differs from
/// a tenth by no more than half of `1 / 2^56`: no binary number of 64 bits is
/// nearer to a tenth.
pub proof fn lemma_base_step_value()
    ensures
        !base_step().is_nan(),
        base_step().value() * pow2(56) == 7205759403792794 * pow2(1074),
        (2 * 7205759403792794 - 1) * 10 <= 2 * pow2(56) <= (2 * 7205759403792794 + 1) * 10,
{
    lemma2_to64_rest();
    lemma_pow2_adds(1018, 56);
    let lower = pow2(1018) as int;
    let upper = pow2(56) as int;
    assert((7205759403792794 * lower) * upper == 7205759403792794 * (lower * upper))
        by (nonlinear_arith);
}

/// The rate of a step of the search whose rate may not exceed `bound`. It
/// is a number, and never above the base rate.
pub fn step_multiplier(bound: Binary64) -> (rate: Binary64)
    ensures
        rate == bounded_step(bound),
        !rate.is_nan(),
        rate.at_most(base_step()),
{
    let base = Binary64::from_bits(BASE_STEP_BITS);
    if bound.lt(base) {
        bound
    } else {
        base
    }
}

/// Where a search stands: at which contract, and with how many steps to go.
#[derive(Debug, Clone, Copy)]
pub struct Search {
    pub candidate: Contract,
    pub steps_left: usize,
}

/// What a search asks of whoever runs it.
#[derive(Debug, Clone, Copy)]
pub enum SearchAction {
    /// Take one step from this contract: find the strike that the step leads
    /// to, and advance the search to it.
    Step(Contract),
    /// Stop: this contract is what the search has found.
    Finish(Contract),
}

impl Search {
    /// Where the search stands once it has taken the steps to the strikes
    /// `strikes`, one after the other, as far as it had steps to go.
    pub open spec fn after(self, strikes: Seq<Binary64>) -> Search
        decreases strikes.len(),
    {
        if strikes.len() == 0 {
            self
        } else {
            self.after(strikes.drop_last()).advanced(strikes.last())
        }
    }

    /// Where the search stands once it has taken a step to `strike`: there,
    /// with one step less to go; where it was, if it had no step to go.
    pub open spec fn advanced(self, strike: Binary64) -> Search {
        if self.steps_left == 0 {
            self
        } else {
            Search {
                candidate: Contract { strike, expiry: self.candidate.expiry },
                steps_left: (self.steps_left - 1) as usize,
            }
        }
    }

    /// What the search asks for: a step while it has steps to go, and to
    /// stop when it has none.
    pub open spec fn asks(self) -> SearchAction {
        if self.steps_left == 0 {
            SearchAction::Finish(self.candidate)
        } else {
            SearchAction::Step(self.candidate)
        }
    }

    /// The search for the best contract for `predict`: it starts at the
    /// predicted price as the strike, keeps `expiry` as the expiry
    /// throughout, and has all its steps to go.
    pub fn start(predict: &Movement, expiry: Binary64) -> (search: Search)
        ensures
            search.candidate.strike == predict.stock,
            search.candidate.expiry == expiry,
            search.steps_left == SEARCH_STEPS,
    {
        Search {
            candidate: Contract { strike: predict.stock, expiry },
            steps_left: SEARCH_STEPS,
        }
    }

    /// What the search asks for.
    pub fn action(&self) -> (action: SearchAction)
        ensures
            action == self.asks(),
    {
        if self.steps_left == 0 {
            SearchAction::Finish(self.candidate)
        } else {
            SearchAction::Step(self.candidate)
        }
    }

    /// The search after a step to `strike`.
    pub fn advance(self, strike: Binary64) -> (search: Search)
        ensures
            search == self.advanced(strike),
    {
        if self.steps_left == 0 {
            self
        } else {
            Search {
                candidate: Contract { strike, expiry: self.candidate.expiry },
                steps_left: self.steps_left - 1,
            }
        }
    }
}

/// A search that is advanced whenever it asks for a step stops after
/// `SEARCH_STEPS` steps and not before, wherever the steps lead: the number
/// of steps it has to go falls by one with every step, it asks for a step
/// until then and asks to stop from then on, its expiry is never changed,
/// and what it has found is where the last step led.
pub proof fn lemma_search_takes_every_step(search: Search, strikes: Seq<Binary64>)
    requires
        search.steps_left == SEARCH_STEPS,
        strikes.len() <= SEARCH_STEPS,
    ensures
        search.after(strikes).steps_left == SEARCH_STEPS - strikes.len(),
        search.after(strikes).candidate.expiry == search.candidate.expiry,
        strikes.len() > 0 ==> search.after(strikes).candidate.strike == strikes.last(),
        strikes.len() < SEARCH_STEPS ==> search.after(strikes).asks() is Step,
        strikes.len() == SEARCH_STEPS ==> search.after(strikes).asks() == SearchAction::Finish(
            search.after(strikes).candidate,
        ),
    decreases strikes.len(),
{
    if strikes.len() > 0 {
        lemma_search_takes_every_step(search, strikes.drop_last());
    }
}

} // verus!
