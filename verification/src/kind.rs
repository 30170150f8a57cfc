//! The two kinds of vanilla option.

use vstd::prelude::*;

verus! {

/// A call option: the right to buy the underlying at the strike.
#[derive(Debug, Clone, Copy, Default)]
pub struct Call;

/// A put option: the right to sell the underlying at the strike.
#[derive(Debug, Clone, Copy, Default)]
pub struct Put;

} // verus!
