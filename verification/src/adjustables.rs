//! The quantities of a scenario that a user may vary, and the two kinds of
//! payoff axis a chart can show.

use vstd::prelude::*;
use vstd::std_specs::cmp::PartialEqSpecImpl;

verus! {

/// A quantity of the scenario that a slider or a chart axis can vary.
#[derive(Clone, Copy, Debug)]
pub enum Adjustables {
    Strike,
    Expiry,
    EndPrice,
    EndTime,
    EndVol,
}

impl PartialEq for Adjustables {
    fn eq(&self, other: &Self) -> (equal: bool) {
        self.index() == other.index()
    }
}

impl PartialEqSpecImpl for Adjustables {
    open spec fn obeys_eq_spec() -> bool {
        true
    }

    open spec fn eq_spec(&self, other: &Self) -> bool {
        *self == *other
    }
}

impl Adjustables {
    /// How many adjustable quantities there are.
    pub const COUNT: usize = 5;

    /// The adjustable quantities in their display order.
    pub open spec fn all() -> Seq<Adjustables> {
        seq![
            Adjustables::Strike,
            Adjustables::Expiry,
            Adjustables::EndPrice,
            Adjustables::EndTime,
            Adjustables::EndVol,
        ]
    }

    /// The place of this quantity in `all()`.
    pub open spec fn position(self) -> nat {
        match self {
            Adjustables::Strike => 0,
            Adjustables::Expiry => 1,
            Adjustables::EndPrice => 2,
            Adjustables::EndTime => 3,
            Adjustables::EndVol => 4,
        }
    }

    /// The text shown for this quantity.
    pub open spec fn label_text(self) -> Seq<char> {
        match self {
            Adjustables::Strike => "Strike"@,
            Adjustables::Expiry => "Expiry"@,
            Adjustables::EndPrice => "Stock End Price"@,
            Adjustables::EndTime => "End Time"@,
            Adjustables::EndVol => "End Volatility"@,
        }
    }

    /// Every adjustable quantity, once each, in display order.
    pub fn everything() -> (list: [Adjustables; 5])
        ensures
            list@ == Self::all(),
    {
        let list = [
            Adjustables::Strike,
            Adjustables::Expiry,
            Adjustables::EndPrice,
            Adjustables::EndTime,
            Adjustables::EndVol,
        ];
        assert(list@ =~= Self::all());
        list
    }

    /// The index of this quantity in `everything()`, for tables keyed by it.
    pub fn index(&self) -> (i: usize)
        ensures
            i == self.position(),
            i < Self::COUNT,
    {
        match self {
            Adjustables::Strike => 0,
            Adjustables::Expiry => 1,
            Adjustables::EndPrice => 2,
            Adjustables::EndTime => 3,
            Adjustables::EndVol => 4,
        }
    }

    /// The text shown for this quantity.
    pub fn label(&self) -> (text: &'static str)
        ensures
            text@ == self.label_text(),
    {
        match self {
            Adjustables::Strike => "Strike",
            Adjustables::Expiry => "Expiry",
            Adjustables::EndPrice => "Stock End Price",
            Adjustables::EndTime => "End Time",
            Adjustables::EndVol => "End Volatility",
        }
    }
}

/// `position` numbers the quantities as `all()` lists them: each quantity
/// stands in `all()` at its own position, and nowhere else.
pub proof fn lemma_adjustables_position(a: Adjustables)
    ensures
        a.position() < Adjustables::all().len(),
        Adjustables::all().len() == Adjustables::COUNT,
        Adjustables::all()[a.position() as int] == a,
        forall|i: int| 0 <= i < Adjustables::all().len() && Adjustables::all()[i] == a
            ==> i == a.position(),
{
}

} // verus!
