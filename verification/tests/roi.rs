use option_calculator::binary64::Binary64;
use option_calculator::roi::{floored_prices, ROI_FLOOR_THRESHOLD_BITS};

fn number(x: f64) -> Binary64 {
    Binary64::from_bits(x.to_bits())
}

fn float(x: Binary64) -> f64 {
    f64::from_bits(x.to_bits())
}

/// The return on a trade from `entry` to `exit`.
fn roi(entry: f64, exit: f64) -> f64 {
    let (entry, exit) = floored_prices(number(entry), number(exit));
    float(exit) / float(entry)
}

#[test]
fn the_floor_is_a_hundred_thousandth() {
    assert_eq!(ROI_FLOOR_THRESHOLD_BITS, 0.00001f64.to_bits());
}

#[test]
fn an_entry_price_below_the_floor_counts_as_the_floor() {
    for entry in [0.0, -0.0, 1e-9, 0.000009999999999999999, -5.0, f64::NEG_INFINITY, -1e-300] {
        let (floored, _) = floored_prices(number(entry), number(1.0));
        assert_eq!(floored.to_bits(), 0.00001f64.to_bits(), "{entry}");
        assert_eq!(roi(entry, 1.0), 1.0 / 0.00001);
        assert_eq!(roi(entry, 2.5), 2.5 / 0.00001);
    }
}

#[test]
fn an_entry_price_that_is_no_number_counts_as_the_floor() {
    let (floored, _) = floored_prices(number(f64::NAN), number(1.0));
    assert_eq!(floored.to_bits(), 0.00001f64.to_bits());
}

#[test]
fn an_entry_price_from_the_floor_up_is_kept() {
    for entry in [0.00001, 0.000010000000000000003, 0.01, 1.0, 10.45, 1e300, f64::INFINITY] {
        let (floored, _) = floored_prices(number(entry), number(1.0));
        assert_eq!(floored.to_bits(), entry.to_bits(), "{entry}");
    }
}

#[test]
fn an_exit_price_at_or_below_the_floor_counts_for_nothing() {
    for exit in [0.00001, 0.000009999999999999999, 1e-9, 0.0, -0.0, -5.0, f64::NEG_INFINITY] {
        let (_, snapped) = floored_prices(number(1.0), number(exit));
        assert_eq!(snapped.to_bits(), 0, "{exit}");
        assert_eq!(roi(1.0, exit), 0.0);
        assert_eq!(roi(1e-9, exit), 0.0);
    }
}

#[test]
fn an_exit_price_above_the_floor_is_kept() {
    for exit in [0.000010000000000000003, 0.01, 1.0, 10.45, 1e300, f64::INFINITY] {
        let (_, snapped) = floored_prices(number(1.0), number(exit));
        assert_eq!(snapped.to_bits(), exit.to_bits(), "{exit}");
    }
}

#[test]
fn an_exit_price_that_is_no_number_stays_no_number() {
    let (_, snapped) = floored_prices(number(1.0), number(f64::NAN));
    assert!(float(snapped).is_nan());
    assert!(roi(1.0, f64::NAN).is_nan());
}

#[test]
fn the_floored_prices_are_those_of_the_float_rule() {
    let prices = [
        f64::NEG_INFINITY,
        -1.0,
        -0.0,
        0.0,
        1e-300,
        0.000009999999999999999,
        0.00001,
        0.000010000000000000003,
        0.5,
        10.45,
        f64::INFINITY,
        f64::NAN,
    ];
    for entry in prices {
        for exit in prices {
            let (floored, snapped) = floored_prices(number(entry), number(exit));
            let expected_entry = f64::max(0.00001, entry);
            let expected_exit = if exit <= 0.00001 { 0.0 } else { exit };
            assert_eq!(floored.to_bits(), expected_entry.to_bits(), "{entry}");
            assert_eq!(snapped.to_bits(), expected_exit.to_bits(), "{exit}");
        }
    }
}

#[test]
fn the_return_is_the_exit_price_over_the_entry_price() {
    assert_eq!(roi(2.0, 3.0), 1.5);
    assert_eq!(roi(10.45, 10.45), 1.0);
    assert_eq!(roi(4.0, 1.0), 0.25);
}

#[test]
fn the_return_on_a_nearly_worthless_entry_is_taken_over_the_floor() {
    // Far out of the money an option is worth next to nothing.
    let entry = 3.2e-17;
    assert_eq!(roi(entry, 0.5), 0.5 / 0.00001);
    assert!(roi(entry, 0.5) < 0.5 / entry);
}
