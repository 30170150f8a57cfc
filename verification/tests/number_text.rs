use option_calculator::number_text::{is_decimal_literal_text, is_float_literal_text};

#[test]
fn plain_numbers_are_floats() {
    for text in ["0", "7", "42", "3.14", "5.", ".5", "0.0", "000", "00.100", "1234567890"] {
        assert!(is_float_literal_text(text), "{text}");
    }
}

#[test]
fn signed_numbers_are_floats() {
    for text in ["-3.14", "+3.14", "-0", "+.5", "-5.", "+1e5", "-1E-5"] {
        assert!(is_float_literal_text(text), "{text}");
    }
}

#[test]
fn numbers_with_an_exponent_are_floats() {
    for text in ["2.5E10", "2.5e10", "2.5E-10", "1e0", "1e+0", ".5e3", "5.e3", "1e0000000000000001"] {
        assert!(is_float_literal_text(text), "{text}");
    }
}

#[test]
fn special_values_are_floats_in_any_case() {
    for text in [
        "inf", "-inf", "+inf", "INF", "Inf", "iNf", "infinity", "+infinity", "-Infinity",
        "INFINITY", "nan", "NaN", "NAN", "-nan", "+NaN",
    ] {
        assert!(is_float_literal_text(text), "{text}");
    }
}

#[test]
fn other_texts_are_no_floats() {
    for text in [
        "", "+", "-", ".", "+.", "-.", "e", "e5", ".e5", "1e", "1e+", "1e-", "1e5.", "1e5.0",
        "1e5e5", "1..0", "1.0.0", "--1", "+-1", "1-", "1+1", " 1", "1 ", "1 000", "1,5", "1_000",
        "0x10", "1f", "1.0f", "in", "infi", "infinit", "infinityy", "na", "nana", "n", "i",
        "inf1", "1inf", "nan.", ".nan", "++inf",
    ] {
        assert!(!is_float_literal_text(text), "{text:?}");
    }
}

#[test]
fn texts_beyond_ascii_are_no_floats() {
    for text in ["１", "١٢٣", "1\u{0660}", "İnf", "ınf", "½", "−1", "1．5", "naｎ", "\u{212A}"] {
        assert!(!is_float_literal_text(text), "{text:?}");
        assert!(!is_decimal_literal_text(text), "{text:?}");
    }
}

#[test]
fn decimals_are_plain_numbers_with_an_optional_sign() {
    for text in ["0", "-0", "+7", "3.14", "-3.14", "5.", ".5", "+.5", "000.000"] {
        assert!(is_decimal_literal_text(text), "{text}");
    }
    for text in ["", "+", "-", ".", "-.", "1e5", "inf", "nan", "NaN", "1.0.0", " 1", "1 ", "--1"] {
        assert!(!is_decimal_literal_text(text), "{text:?}");
    }
}

/// Every text of up to `length` characters over `alphabet`.
fn texts(alphabet: &[char], length: usize) -> Vec<String> {
    let mut all = vec![String::new()];
    let mut last = vec![String::new()];
    for _ in 0..length {
        let mut next = Vec::new();
        for text in &last {
            for c in alphabet {
                let mut longer = text.clone();
                longer.push(*c);
                next.push(longer);
            }
        }
        all.extend(next.iter().cloned());
        last = next;
    }
    all
}

#[test]
fn the_float_grammar_is_that_of_the_standard_library_on_numbers() {
    let alphabet = ['+', '-', '.', 'e', 'E', '0', '7', ' ', 'x'];
    for text in texts(&alphabet, 5) {
        assert_eq!(is_float_literal_text(&text), text.parse::<f64>().is_ok(), "{text:?}");
    }
}

#[test]
fn the_float_grammar_is_that_of_the_standard_library_on_words() {
    let alphabet = ['-', 'i', 'N', 'f', 'a', 'n', 't', 'y', '1'];
    for text in texts(&alphabet, 5) {
        assert_eq!(is_float_literal_text(&text), text.parse::<f64>().is_ok(), "{text:?}");
    }
    for head in ["", "+", "-", "1", "x"] {
        for word in ["infinity", "INFINITY", "Infinity", "infinit", "infinityy", "infinite"] {
            let text = format!("{head}{word}");
            assert_eq!(is_float_literal_text(&text), text.parse::<f64>().is_ok(), "{text:?}");
        }
    }
}

#[test]
fn what_a_float_displays_as_is_a_float() {
    for x in [
        0.0,
        -0.0,
        1.0,
        -1.5,
        0.1 + 0.2,
        1e21,
        1e-7,
        1e300,
        -1e-300,
        f64::MAX,
        f64::MIN,
        f64::MIN_POSITIVE,
        f64::EPSILON,
        f64::INFINITY,
        f64::NEG_INFINITY,
        f64::NAN,
    ] {
        assert!(is_float_literal_text(&x.to_string()), "{x}");
    }
}

#[test]
fn a_decimal_is_what_a_finite_float_displays_as() {
    for x in [0.0, -0.0, 1.0, -1.5, 0.1 + 0.2, 1e21, 1e-7, 1e300, f64::MAX, f64::MIN_POSITIVE] {
        assert!(is_decimal_literal_text(&x.to_string()), "{x}");
    }
    for x in [f64::INFINITY, f64::NEG_INFINITY, f64::NAN] {
        assert!(!is_decimal_literal_text(&x.to_string()), "{x}");
    }
}
