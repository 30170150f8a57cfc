use option_calculator::binary64::Binary64;
use option_calculator::market::{remaining_expiry, Contract, Environment, Movement};

fn number(x: f64) -> Binary64 {
    Binary64::from_bits(x.to_bits())
}

fn float(x: Binary64) -> f64 {
    f64::from_bits(x.to_bits())
}

/// The market and the contract once `movement` has taken place.
fn apply(movement: &Movement, environ: Environment, con: Contract) -> (Environment, Contract) {
    let difference = float(con.expiry) - float(movement.time);
    movement.apply(environ, con, number(difference))
}

fn environment() -> Environment {
    Environment {
        stock: number(100.0),
        risk_free: number(0.05),
        vol: number(0.2),
        div_yield: number(0.01),
    }
}

fn contract(expiry: f64) -> Contract {
    Contract { strike: number(105.0), expiry: number(expiry) }
}

#[test]
fn a_movement_longer_than_the_expiry_leaves_no_expiry() {
    let movement = Movement { stock: number(110.0), time: number(1.5) };
    let (_, moved) = apply(&movement, environment(), contract(1.0));
    assert_eq!(float(moved.expiry), 0.0);
    assert!(float(moved.expiry).is_sign_positive());
}

#[test]
fn a_movement_shorter_than_the_expiry_leaves_the_difference() {
    let movement = Movement { stock: number(110.0), time: number(0.5) };
    let (_, moved) = apply(&movement, environment(), contract(1.0));
    assert_eq!(float(moved.expiry), 0.5);
}

#[test]
fn a_movement_as_long_as_the_expiry_leaves_no_expiry() {
    let movement = Movement { stock: number(110.0), time: number(1.0) };
    let (_, moved) = apply(&movement, environment(), contract(1.0));
    assert_eq!(moved.expiry.to_bits(), 0);
}

#[test]
fn a_movement_sets_the_stock_to_the_predicted_price() {
    let movement = Movement { stock: number(110.0), time: number(0.5) };
    let (moved, _) = apply(&movement, environment(), contract(1.0));
    assert_eq!(float(moved.stock), 110.0);
}

#[test]
fn a_movement_changes_nothing_else() {
    let movement = Movement { stock: number(110.0), time: number(0.5) };
    let (env, con) = apply(&movement, environment(), contract(1.0));
    assert_eq!(float(env.risk_free), 0.05);
    assert_eq!(float(env.vol), 0.2);
    assert_eq!(float(env.div_yield), 0.01);
    assert_eq!(float(con.strike), 105.0);
    assert_eq!(float(movement.stock), 110.0);
    assert_eq!(float(movement.time), 0.5);
}

#[test]
fn a_second_movement_after_the_expiry_changes_no_expiry() {
    let movement = Movement { stock: number(110.0), time: number(0.75) };
    let (env, con) = apply(&movement, environment(), contract(1.0));
    assert_eq!(float(con.expiry), 0.25);
    let (env, con) = apply(&movement, env, con);
    assert_eq!(float(con.expiry), 0.0);
    let (_, con) = apply(&movement, env, con);
    assert_eq!(float(con.expiry), 0.0);
}

#[test]
fn an_expiry_that_is_no_number_counts_as_none_left() {
    let movement = Movement { stock: number(110.0), time: number(0.5) };
    let (_, con) = apply(&movement, environment(), contract(f64::NAN));
    assert_eq!(con.expiry.to_bits(), 0);
}

#[test]
fn the_expiry_left_is_what_the_difference_leaves() {
    let movement = Movement { stock: number(110.0), time: number(3.0) };
    let (_, con) = movement.apply(environment(), contract(7.0), number(42.0));
    assert_eq!(float(con.expiry), 42.0);
    let (_, con) = movement.apply(environment(), contract(7.0), number(-42.0));
    assert_eq!(con.expiry.to_bits(), 0);
}

#[test]
fn the_records_start_at_zero() {
    let env = Environment::default();
    let con = Contract::default();
    let movement = Movement::default();
    for field in [env.stock, env.risk_free, env.vol, env.div_yield, con.strike, con.expiry, movement.stock, movement.time] {
        assert_eq!(field.to_bits(), 0.0f64.to_bits());
    }
}

#[test]
fn the_records_can_be_cloned() {
    let env = environment().clone();
    assert_eq!(float(env.stock), 100.0);
    let con = contract(2.0).clone();
    assert_eq!(float(con.expiry), 2.0);
    let movement = Movement { stock: number(1.0), time: number(2.0) }.clone();
    assert_eq!(float(movement.time), 2.0);
}

#[test]
fn the_expiry_left_is_the_greater_of_the_difference_and_zero() {
    for difference in [
        -1e300,
        -1.0,
        -f64::MIN_POSITIVE,
        -0.0,
        0.0,
        f64::from_bits(1),
        0.0001,
        1.0,
        1e300,
        f64::INFINITY,
        f64::NEG_INFINITY,
        f64::NAN,
    ] {
        let left = float(remaining_expiry(number(difference)));
        assert_eq!(left, f64::max(difference, 0.0), "{difference}");
        assert!(left >= 0.0);
        assert!(left.is_sign_positive());
    }
}

#[test]
fn the_least_difference_above_zero_is_left() {
    let least = f64::from_bits(1);
    assert_eq!(remaining_expiry(number(least)).to_bits(), 1);
    assert_eq!(remaining_expiry(number(-least)).to_bits(), 0);
}

#[test]
fn a_rising_price_favours_a_call() {
    let movement = Movement { stock: number(110.0), time: number(0.5) };
    assert!(movement.favours_call(&environment()));
}

#[test]
fn a_standing_price_favours_a_call() {
    let movement = Movement { stock: number(100.0), time: number(0.5) };
    assert!(movement.favours_call(&environment()));
}

#[test]
fn a_falling_price_favours_a_put() {
    let movement = Movement { stock: number(99.99), time: number(0.5) };
    assert!(!movement.favours_call(&environment()));
}

#[test]
fn a_call_is_favoured_as_the_floats_compare() {
    let prices = [0.0, -0.0, 1e-300, 99.99, 100.0, 100.00000000000001, 1e300, f64::INFINITY, f64::NAN];
    for predicted in prices {
        for current in prices {
            let movement = Movement { stock: number(predicted), time: number(0.5) };
            let env = Environment { stock: number(current), ..environment() };
            assert_eq!(movement.favours_call(&env), predicted >= current, "{predicted} {current}");
        }
    }
}
