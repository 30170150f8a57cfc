//! What a payoff chart can plot on its vertical axis, and the messages it
//! takes: none.

use vstd::prelude::*;
use vstd::std_specs::cmp::PartialEqSpecImpl;

verus! {

/// The quantity on the vertical axis of a payoff chart.
#[derive(Clone, Copy, Debug)]
pub enum PayoffYAxis {
    /// Exit price divided by entry price.
    ROI,
    /// The exit price itself.
    Nominal,
}

impl PartialEq for PayoffYAxis {
    fn eq(&self, other: &Self) -> (equal: bool) {
        self.index() == other.index()
    }
}

impl PartialEqSpecImpl for PayoffYAxis {
    open spec fn obeys_eq_spec() -> bool {
        true
    }

    open spec fn eq_spec(&self, other: &Self) -> bool {
        *self == *other
    }
}

impl PayoffYAxis {
    /// How many kinds of vertical axis there are.
    pub const COUNT: usize = 2;

    /// The kinds of vertical axis in their display order.
    pub open spec fn all() -> Seq<PayoffYAxis> {
        seq![PayoffYAxis::ROI, PayoffYAxis::Nominal]
    }

    /// The place of this kind in `all()`.
    pub open spec fn position(self) -> nat {
        match self {
            PayoffYAxis::ROI => 0,
            PayoffYAxis::Nominal => 1,
        }
    }

    /// The text shown for this kind of axis.
    pub open spec fn label_text(self) -> Seq<char> {
        match self {
            PayoffYAxis::ROI => "ROI"@,
            PayoffYAxis::Nominal => "Nominal"@,
        }
    }

    /// Every kind of vertical axis, once each, in display order.
    pub fn everything() -> (list: [PayoffYAxis; 2])
        ensures
            list@ == Self::all(),
    {
        let list = [PayoffYAxis::ROI, PayoffYAxis::Nominal];
        assert(list@ =~= Self::all());
        list
    }

    /// The index of this kind in `everything()`.
    pub fn index(&self) -> (i: usize)
        ensures
            i == self.position(),
            i < Self::COUNT,
    {
        match self {
            PayoffYAxis::ROI => 0,
            PayoffYAxis::Nominal => 1,
        }
    }

    /// The text shown for this kind of axis.
    pub fn label(&self) -> (text: &'static str)
        ensures
            text@ == self.label_text(),
    {
        match self {
            PayoffYAxis::ROI => "ROI",
            PayoffYAxis::Nominal => "Nominal",
        }
    }
}

/// `position` numbers the kinds of axis as `all()` lists them: each kind
/// stands in `all()` at its own position, and nowhere else.
pub proof fn lemma_payoff_axis_position(y: PayoffYAxis)
    ensures
        y.position() < PayoffYAxis::all().len(),
        PayoffYAxis::all().len() == PayoffYAxis::COUNT,
        PayoffYAxis::all()[y.position() as int] == y,
        forall|i: int| 0 <= i < PayoffYAxis::all().len() && PayoffYAxis::all()[i] == y
            ==> i == y.position(),
{
}

/// What can happen to a payoff chart: nothing. The one variant holds a
/// value of a type that has none, so no message can be made.
#[derive(Debug, Clone, Copy)]
pub enum PayoffChartMessage {
    Never(core::convert::Infallible),
}

} // verus!
