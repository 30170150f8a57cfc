use option_calculator::adjustables::Adjustables;
use option_calculator::payoff::{PayoffChartMessage, PayoffYAxis};

#[test]
fn every_adjustable_is_listed_once_in_display_order() {
    let all = Adjustables::everything();
    assert_eq!(all.len(), Adjustables::COUNT);
    assert!(matches!(all[0], Adjustables::Strike));
    assert!(matches!(all[1], Adjustables::Expiry));
    assert!(matches!(all[2], Adjustables::EndPrice));
    assert!(matches!(all[3], Adjustables::EndTime));
    assert!(matches!(all[4], Adjustables::EndVol));
}

#[test]
fn adjustable_index_is_its_place_in_everything() {
    let all = Adjustables::everything();
    for (i, a) in all.iter().enumerate() {
        assert_eq!(a.index(), i);
        assert!(all[a.index()] == *a);
    }
}

#[test]
fn adjustable_labels() {
    assert_eq!(Adjustables::Strike.label(), "Strike");
    assert_eq!(Adjustables::Expiry.label(), "Expiry");
    assert_eq!(Adjustables::EndPrice.label(), "Stock End Price");
    assert_eq!(Adjustables::EndTime.label(), "End Time");
    assert_eq!(Adjustables::EndVol.label(), "End Volatility");
}

#[test]
fn adjustables_are_equal_only_to_themselves() {
    let all = Adjustables::everything();
    for (i, a) in all.iter().enumerate() {
        for (j, b) in all.iter().enumerate() {
            assert_eq!(a == b, i == j);
        }
    }
}

#[test]
fn every_payoff_axis_is_listed_once_in_display_order() {
    let all = PayoffYAxis::everything();
    assert_eq!(all.len(), PayoffYAxis::COUNT);
    assert!(matches!(all[0], PayoffYAxis::ROI));
    assert!(matches!(all[1], PayoffYAxis::Nominal));
}

#[test]
fn payoff_axis_index_is_its_place_in_everything() {
    let all = PayoffYAxis::everything();
    for (i, y) in all.iter().enumerate() {
        assert_eq!(y.index(), i);
    }
}

#[test]
fn payoff_axis_labels() {
    assert_eq!(PayoffYAxis::ROI.label(), "ROI");
    assert_eq!(PayoffYAxis::Nominal.label(), "Nominal");
}

#[test]
fn payoff_axes_are_equal_only_to_themselves() {
    assert!(PayoffYAxis::ROI == PayoffYAxis::ROI);
    assert!(PayoffYAxis::Nominal == PayoffYAxis::Nominal);
    assert!(PayoffYAxis::ROI != PayoffYAxis::Nominal);
    assert!(PayoffYAxis::Nominal != PayoffYAxis::ROI);
}

#[test]
fn a_payoff_chart_takes_no_message() {
    assert_eq!(std::mem::size_of::<PayoffChartMessage>(), 0);
    let none: Option<PayoffChartMessage> = None;
    assert!(none.is_none());
    assert_eq!(std::mem::size_of::<Option<PayoffChartMessage>>(), 0);
}
