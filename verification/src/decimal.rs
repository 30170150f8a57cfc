//! Exact decimal numbers of bounded size, read from their text.

use crate::number_text::{
    body_start, char_at, digits_in, digits_value, first_point_at, fraction_len, is_decimal_literal,
    is_decimal_literal_text, is_digit, is_sign, lemma_decimal_is_float, lemma_digits_value_grows,
    lemma_float_literal_ascii, lemma_fraction_len_at, lemma_fraction_len_without_point,
    point_splits,
};
use vstd::prelude::*;
use vstd::string::*;

verus! {

/// The number `coefficient / 10^scale`, negated where `negative` is set.
pub struct DecimalValue {
    pub negative: bool,
    pub coefficient: nat,
    pub scale: nat,
}

/// An exact decimal number of at most 36 digits, at most 36 of them behind
/// the point.
#[derive(Debug, Clone, Copy, PartialEq, Eq)]
pub struct Decimal {
    negative: bool,
    coefficient: u128,
    scale: u32,
}

/// The largest coefficient that a `Decimal` holds: 36 nines.
pub const MAX_COEFFICIENT: u128 = 999_999_999_999_999_999_999_999_999_999_999_999;

/// The largest number of digits behind the point that a `Decimal` holds.
pub const MAX_SCALE: u32 = 36;

impl DecimalValue {
    /// Whether the number is small enough for a `Decimal` to hold.
    pub open spec fn in_range(self) -> bool {
        self.coefficient <= MAX_COEFFICIENT && self.scale <= MAX_SCALE
    }
}

impl View for Decimal {
    type V = DecimalValue;

    closed spec fn view(&self) -> DecimalValue {
        DecimalValue {
            negative: self.negative,
            coefficient: self.coefficient as nat,
            scale: self.scale as nat,
        }
    }
}

/// The number that the text `s` stands for: its digits are the coefficient,
/// and the scale counts those behind the point. Texts that are no decimal
/// literal, and numbers too large for a `Decimal`, stand for none.
pub open spec fn decimal_value_of(s: Seq<char>) -> Option<DecimalValue> {
    let value = DecimalValue {
        negative: s.len() > 0 && s[0] == '-',
        coefficient: digits_value(s, 0, s.len() as int),
        scale: fraction_len(s),
    };
    if is_decimal_literal(s) && value.in_range() {
        Some(value)
    } else {
        None
    }
}

/// The value of a decimal that may be missing.
pub open spec fn value_of(x: Option<Decimal>) -> Option<DecimalValue> {
    match x {
        Some(d) => Some(d@),
        None => None,
    }
}

impl Decimal {
    #[verifier::type_invariant]
    spec fn in_range(self) -> bool {
        self.coefficient <= MAX_COEFFICIENT && self.scale <= MAX_SCALE
    }

    /// The decimal `coefficient / 10^scale`, negated where `negative` is set,
    /// unless it is out of range.
    pub fn new(negative: bool, coefficient: u128, scale: u32) -> (made: Option<Decimal>)
        ensures
            value_of(made) == if coefficient <= MAX_COEFFICIENT && scale <= MAX_SCALE {
                Some(DecimalValue { negative, coefficient: coefficient as nat, scale: scale as nat })
            } else {
                None
            },
    {
        if coefficient <= MAX_COEFFICIENT && scale <= MAX_SCALE {
            Some(Decimal { negative, coefficient, scale })
        } else {
            None
        }
    }

    /// Whether the number carries a minus sign.
    pub fn is_negative(&self) -> (negative: bool)
        ensures
            negative == self@.negative,
    {
        self.negative
    }

    /// The digits of the number, as one whole number.
    pub fn coefficient(&self) -> (coefficient: u128)
        ensures
            coefficient == self@.coefficient,
            coefficient <= MAX_COEFFICIENT,
    {
        proof {
            use_type_invariant(self);
        }
        self.coefficient
    }

    /// How many of the digits stand behind the point.
    pub fn scale(&self) -> (scale: u32)
        ensures
            scale == self@.scale,
            scale <= MAX_SCALE,
    {
        proof {
            use_type_invariant(self);
        }
        self.scale
    }

    /// Reads a decimal from its text: an optional sign, then digits with at
    /// most one point among them. Returns `None` for any other text, and for
    /// a number out of range.
    pub fn parse(text: &str) -> (parsed: Option<Decimal>)
        ensures
            value_of(parsed) == decimal_value_of(text@),
    {
        if !is_decimal_literal_text(text) {
            return None;
        }
        proof {
            lemma_decimal_is_float(text@);
            lemma_float_literal_ascii(text@);
        }
        let n = text.as_bytes().len();
        proof {
            is_ascii_spec_bytes(text);
        }
        let ghost s = text@;
        let mut negative = false;
        let mut coefficient: u128 = 0;
        let mut fraction: Option<u32> = None;
        let mut i: usize = 0;
        while i < n
            invariant
                text.is_ascii(),
                s == text@,
                n == s.len(),
                i <= n,
                is_decimal_literal(s),
                negative == (i > 0 && s[0] == '-'),
                coefficient == digits_value(s, 0, i as int),
                coefficient <= MAX_COEFFICIENT,
                match fraction {
                    Some(f) => f <= MAX_SCALE && first_point_at(s, i - 1 - f),
                    None => forall|j: int| 0 <= j < i ==> #[trigger] s[j] != '.',
                },
            decreases n - i,
        {
            let c = char_at(text, i);
            if c == '-' {
                negative = i == 0;
                proof {
                    lemma_literal_shape(s, i as int);
                }
            } else if c == '.' {
                proof {
                    lemma_literal_shape(s, i as int);
                }
                fraction = Some(0);
            } else if c >= '0' && c <= '9' {
                let digit: u128 = (c as u8 - '0' as u8) as u128;
                if coefficient > (MAX_COEFFICIENT - digit) / 10 {
                    proof {
                        lemma_digits_value_grows(s, 0, i + 1, n as int);
                    }
                    return None;
                }
                coefficient = coefficient * 10 + digit;
                match fraction {
                    Some(f) => {
                        if f >= MAX_SCALE {
                            proof {
                                lemma_fraction_len_at(s, i - 1 - f);
                            }
                            return None;
                        }
                        fraction = Some(f + 1);
                    },
                    None => {},
                }
            } else {
                proof {
                    lemma_literal_shape(s, i as int);
                }
            }
            i += 1;
        }
        let scale = match fraction {
            Some(f) => {
                proof {
                    lemma_fraction_len_at(s, n - 1 - f);
                }
                f
            },
            None => {
                proof {
                    lemma_fraction_len_without_point(s);
                }
                0
            },
        };
        Some(Decimal { negative, coefficient, scale })
    }
}

/// In a decimal literal a sign stands only at the front, every point is the
/// first point, and every other character is a digit.
proof fn lemma_literal_shape(s: Seq<char>, i: int)
    requires
        is_decimal_literal(s),
        0 <= i < s.len(),
    ensures
        is_sign(s[i]) ==> i == 0,
        s[i] == '.' ==> first_point_at(s, i),
        is_sign(s[i]) || s[i] == '.' || is_digit(s[i]),
{
    let from = body_start(s);
    let to = s.len() as int;
    if from < to && digits_in(s, from, to) {
        if i >= from {
            assert(is_digit(s[i]));
        }
    } else {
        let k = choose|k: int| #[trigger] point_splits(s, from, k, to);
        if from <= i < k {
            assert(is_digit(s[i]));
        }
        if i > k {
            assert(is_digit(s[i]));
        }
        assert forall|j: int| 0 <= j < k implies #[trigger] s[j] != '.' by {
            if j >= from {
                assert(is_digit(s[j]));
            }
        }
    }
}

} // verus!
