//! The text of a numeric entry field: it takes only what can still become a
//! number, and no more digits behind the point than its precision allows.

use crate::number_text::{
    ascii_len, char_at, first_point_at, fraction_len, fraction_len_of, is_float_literal,
    is_float_literal_text, lemma_float_literal_ascii, lemma_fraction_len_at,
};
use vstd::prelude::*;
use vstd::string::*;
use vstd::utf8::is_ascii_chars;

verus! {

/// What can happen to a numeric entry field.
#[derive(Debug, Clone)]
pub enum NumberInputMessage {
    /// The user has changed the text to this.
    Edit(String),
}

/// What a numeric entry field holds: its text, and the greatest number of
/// characters that it keeps behind the point, if there is a limit.
pub struct NumberInputView {
    pub text: Seq<char>,
    pub precision: Option<usize>,
}

/// The text of a numeric entry field.
#[derive(Debug)]
pub struct NumberInput {
    value_str: String,
    dp_precision: Option<usize>,
}

impl View for NumberInput {
    type V = NumberInputView;

    closed spec fn view(&self) -> NumberInputView {
        NumberInputView { text: self.value_str@, precision: self.dp_precision }
    }
}

/// Whether a field takes `s` as its text: the empty text, a lone minus sign,
/// and whatever reads as a floating-point number.
pub open spec fn is_acceptable(s: Seq<char>) -> bool {
    s.len() == 0 || s == seq!['-'] || is_float_literal(s)
}

/// How many characters at the end of `s` a field drops that keeps at most
/// `precision` characters behind the point.
pub open spec fn excess(s: Seq<char>, precision: Option<usize>) -> nat {
    match precision {
        Some(p) => if fraction_len(s) > p {
            (fraction_len(s) - p) as nat
        } else {
            0
        },
        None => 0,
    }
}

/// The text `s` without the characters that exceed `precision`.
pub open spec fn limited(s: Seq<char>, precision: Option<usize>) -> Seq<char> {
    s.take(s.len() - excess(s, precision))
}

/// A text cut to a precision keeps no more characters behind the point than
/// the precision allows, and is the text itself where it kept no more before.
pub proof fn lemma_limited_fraction(s: Seq<char>, p: usize)
    ensures
        fraction_len(limited(s, Some(p))) <= p,
        fraction_len(s) <= p ==> limited(s, Some(p)) == s,
        excess(s, Some(p)) <= fraction_len(s) <= s.len(),
{
    if exists|k: int| first_point_at(s, k) {
        let k = choose|k: int| first_point_at(s, k);
        lemma_fraction_len_at(s, k);
        if fraction_len(s) > p {
            let cut = limited(s, Some(p));
            assert(first_point_at(cut, k));
            lemma_fraction_len_at(cut, k);
        }
    }
    if fraction_len(s) <= p {
        assert(limited(s, Some(p)) =~= s);
    }
}

impl Clone for NumberInput {
    fn clone(&self) -> (copy: Self)
        ensures
            copy@ == self@,
    {
        proof {
            use_type_invariant(self);
        }
        NumberInput { value_str: self.value_str.clone(), dp_precision: self.dp_precision }
    }
}

impl Default for NumberInput {
    /// An empty field without a limit on its precision.
    fn default() -> (input: Self)
        ensures
            input@.text == Seq::<char>::empty(),
            input@.precision == None::<usize>,
    {
        NumberInput { value_str: String::new(), dp_precision: None }
    }
}

impl NumberInput {
    #[verifier::type_invariant]
    spec fn text_is_ascii(self) -> bool {
        is_ascii_chars(self.value_str@)
    }

    /// Carries out `message`: where the edited text is acceptable, it becomes
    /// the field's text, cut to the field's precision; where it is not, the
    /// field stays as it was.
    pub fn update(&mut self, message: NumberInputMessage)
        ensures
            final(self)@.precision == old(self)@.precision,
            match message {
                NumberInputMessage::Edit(new_val) => final(self)@.text == if is_acceptable(
                    new_val@,
                ) {
                    limited(new_val@, old(self)@.precision)
                } else {
                    old(self)@.text
                },
            },
    {
        match message {
            NumberInputMessage::Edit(new_val) => {
                if accepts(new_val.as_str()) {
                    proof {
                        if is_float_literal(new_val@) {
                            lemma_float_literal_ascii(new_val@);
                        }
                    }
                    self.value_str = new_val;
                    self.apply_precision();
                }
            },
        }
    }

    /// The same field, from now on keeping at most `precision` characters
    /// behind the point. The text it holds already stays as it is.
    pub fn set_precision(self, precision: usize) -> (input: Self)
        ensures
            input@.text == self@.text,
            input@.precision == Some(precision),
    {
        proof {
            use_type_invariant(&self);
        }
        NumberInput { value_str: self.value_str, dp_precision: Some(precision) }
    }

    /// Drops from the end of the text what exceeds the precision.
    fn apply_precision(&mut self)
        ensures
            final(self)@.precision == old(self)@.precision,
            final(self)@.text == limited(old(self)@.text, old(self)@.precision),
    {
        proof {
            use_type_invariant(&*self);
        }
        if let Some(precision) = self.dp_precision {
            let held = fraction_len_of(self.value_str.as_str());
            if held > precision {
                proof {
                    lemma_limited_fraction(self.value_str@, precision);
                }
                let n = ascii_len(self.value_str.as_str());
                let kept = self.value_str.as_str().substring_ascii(0, n - (held - precision));
                let cut = kept.to_owned();
                self.value_str = cut;
                return ;
            }
        }
        assert(self.value_str@.take(self.value_str@.len() as int) =~= self.value_str@);
    }

    /// How many characters the text holds behind its first point; none where
    /// it has no point.
    pub fn get_precision(&self) -> (count: usize)
        ensures
            count == fraction_len(self@.text),
    {
        proof {
            use_type_invariant(self);
        }
        fraction_len_of(self.value_str.as_str())
    }

    /// The text of the field.
    pub fn text(&self) -> (text: &str)
        ensures
            text@ == self@.text,
            text.is_ascii(),
    {
        proof {
            use_type_invariant(self);
        }
        self.value_str.as_str()
    }
}

/// Whether a field takes `text`.
pub fn accepts(text: &str) -> (ok: bool)
    ensures
        ok == is_acceptable(text@),
{
    if text.is_empty() {
        return true;
    }
    if text.is_ascii() && ascii_len(text) == 1 && char_at(text, 0) == '-' {
        assert(text@ =~= seq!['-']);
        return true;
    }
    is_float_literal_text(text)
}

} // verus!
