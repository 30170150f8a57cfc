//! Verified core of an option calculator: what surrounds the pricing of an
//! option and can be decided exactly.
//!
//! - `market` holds the records that a price is computed from, `roi` the
//!   floor under the prices of a return, and `optimizer` the bounds of the
//!   search for the best contract: they compare by the ordering of
//!   `binary64`.
//! - `rounding` turns theoretical prices into whole cents, over the exact
//!   numbers of `decimal`.
//! - `number_text` is the grammar of number literals, and `number_input` the
//!   text of an entry field that takes nothing else.
//! - `deletable_list`, `adjustables`, `payoff` and `kind` are what the
//!   calculator lists and chooses from.

pub mod adjustables;
pub mod binary64;
pub mod decimal;
pub mod deletable_list;
pub mod kind;
pub mod market;
pub mod number_input;
pub mod number_text;
pub mod optimizer;
pub mod payoff;
pub mod roi;
pub mod rounding;
