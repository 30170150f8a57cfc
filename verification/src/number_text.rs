//! The grammar of number literals: which texts read as a decimal number, and
//! which as a floating-point number.
//!
//! ```text
//! Float   ::= Sign? ( 'inf' | 'infinity' | 'nan' | Number )
//! Number  ::= Plain Exp?
//! Decimal ::= Sign? Plain
//! Plain   ::= Digit+ | Digit+ '.' Digit* | Digit* '.' Digit+
//! Exp     ::= 'e' Sign? Digit+
//! Sign    ::= [+-]
//! Digit   ::= [0-9]
//! ```
//!
//! Letters match in either case. The grammar of `Float` is the one by which
//! the standard library reads a floating-point number from a string.

use vstd::prelude::*;
use vstd::string::*;
use vstd::utf8::is_ascii_chars;

verus! {

/// Whether `c` is one of the ten decimal digits.
pub open spec fn is_digit(c: char) -> bool {
    '0' <= c && c <= '9'
}

/// Whether `c` is a plus or a minus sign.
pub open spec fn is_sign(c: char) -> bool {
    c == '+' || c == '-'
}

/// Whether `c` is the lower-case letter `letter` in either case.
pub open spec fn is_letter(c: char, letter: char) -> bool {
    c == letter || ('A' <= c && c <= 'Z' && c as int + 32 == letter as int)
}

/// Whether every character of `s` from `from` up to, not including, `to` is a digit.
pub open spec fn digits_in(s: Seq<char>, from: int, to: int) -> bool {
    forall|i: int| from <= i < to ==> is_digit(#[trigger] s[i])
}

/// Whether `s[from..to)` is two runs of digits, at least one digit in all,
/// with a point between them at `k`.
pub open spec fn point_splits(s: Seq<char>, from: int, k: int, to: int) -> bool {
    &&& from <= k < to
    &&& to - from >= 2
    &&& s[k] == '.'
    &&& digits_in(s, from, k)
    &&& digits_in(s, k + 1, to)
}

/// Whether `s[from..to)` is a `Plain` number: digits with at most one point
/// among them, and at least one digit.
pub open spec fn plain_number_in(s: Seq<char>, from: int, to: int) -> bool {
    ||| from < to && digits_in(s, from, to)
    ||| exists|k: int| #[trigger] point_splits(s, from, k, to)
}

/// Where the digits of an exponent start whose letter stands at `from`:
/// behind the letter, or behind the sign that follows it.
pub open spec fn exponent_digits_start(s: Seq<char>, from: int, to: int) -> int {
    if from + 1 < to && is_sign(s[from + 1]) {
        from + 2
    } else {
        from + 1
    }
}

/// Whether `s[from..to)` is an `Exp`: the letter `e`, an optional sign, and
/// at least one digit.
pub open spec fn exponent_in(s: Seq<char>, from: int, to: int) -> bool {
    &&& from < to
    &&& is_letter(s[from], 'e')
    &&& exponent_digits_start(s, from, to) < to
    &&& digits_in(s, exponent_digits_start(s, from, to), to)
}

/// Whether `s[from..to)` is a `Plain` number up to `k` and an `Exp` from there.
pub open spec fn exponent_splits(s: Seq<char>, from: int, k: int, to: int) -> bool {
    &&& from < k < to
    &&& plain_number_in(s, from, k)
    &&& exponent_in(s, k, to)
}

/// Whether `s[from..to)` is a `Number`: a `Plain` number with an optional `Exp`.
pub open spec fn number_in(s: Seq<char>, from: int, to: int) -> bool {
    ||| plain_number_in(s, from, to)
    ||| exists|k: int| #[trigger] exponent_splits(s, from, k, to)
}

/// Whether `s[from..to)` spells the lower-case `word`, in any mix of cases.
pub open spec fn word_in(s: Seq<char>, from: int, to: int, word: Seq<char>) -> bool {
    &&& to - from == word.len()
    &&& forall|i: int| 0 <= i < word.len() ==> is_letter(#[trigger] s[from + i], word[i])
}

/// Whether `s[from..to)` names an infinity or a not-a-number.
pub open spec fn special_in(s: Seq<char>, from: int, to: int) -> bool {
    ||| word_in(s, from, to, "inf"@)
    ||| word_in(s, from, to, "infinity"@)
    ||| word_in(s, from, to, "nan"@)
}

/// Where the text behind an optional leading sign starts.
pub open spec fn body_start(s: Seq<char>) -> int {
    if s.len() > 0 && is_sign(s[0]) {
        1
    } else {
        0
    }
}

/// Whether `s` is a `Float`.
pub open spec fn is_float_literal(s: Seq<char>) -> bool {
    ||| number_in(s, body_start(s), s.len() as int)
    ||| special_in(s, body_start(s), s.len() as int)
}

/// Whether `s` is a `Decimal`.
pub open spec fn is_decimal_literal(s: Seq<char>) -> bool {
    plain_number_in(s, body_start(s), s.len() as int)
}

/// Whether the first point of `s` stands at `k`.
pub open spec fn first_point_at(s: Seq<char>, k: int) -> bool {
    &&& 0 <= k < s.len()
    &&& s[k] == '.'
    &&& forall|j: int| 0 <= j < k ==> #[trigger] s[j] != '.'
}

/// How many characters follow the first point of `s`; none where `s` has no point.
pub open spec fn fraction_len(s: Seq<char>) -> nat {
    if exists|k: int| first_point_at(s, k) {
        (s.len() - 1 - choose|k: int| first_point_at(s, k)) as nat
    } else {
        0
    }
}

/// The number that the digits of `s[from..to)` spell, read without regard to
/// any other character among them.
pub open spec fn digits_value(s: Seq<char>, from: int, to: int) -> nat
    decreases to - from,
{
    if to <= from {
        0
    } else if is_digit(s[to - 1]) {
        digits_value(s, from, to - 1) * 10 + (s[to - 1] as int - '0' as int) as nat
    } else {
        digits_value(s, from, to - 1)
    }
}

/// Where the first point stands, `fraction_len` counts from there.
pub proof fn lemma_fraction_len_at(s: Seq<char>, k: int)
    requires
        first_point_at(s, k),
    ensures
        fraction_len(s) == s.len() - 1 - k,
{
    let c = choose|c: int| first_point_at(s, c);
    if c < k {
        assert(s[c] != '.');
    }
    if k < c {
        assert(s[k] != '.');
    }
}

/// A text without a point has no fraction.
pub proof fn lemma_fraction_len_without_point(s: Seq<char>)
    requires
        forall|j: int| 0 <= j < s.len() ==> #[trigger] s[j] != '.',
    ensures
        fraction_len(s) == 0,
{
    if exists|k: int| first_point_at(s, k) {
        let c = choose|c: int| first_point_at(s, c);
        assert(s[c] != '.');
    }
}

/// The digits of a longer stretch spell no smaller a number.
pub proof fn lemma_digits_value_grows(s: Seq<char>, from: int, mid: int, to: int)
    requires
        from <= mid <= to,
    ensures
        digits_value(s, from, mid) <= digits_value(s, from, to),
    decreases to - mid,
{
    if mid < to {
        lemma_digits_value_grows(s, from, mid, to - 1);
    }
}

/// Every `Decimal` is a `Float`.
pub proof fn lemma_decimal_is_float(s: Seq<char>)
    requires
        is_decimal_literal(s),
    ensures
        is_float_literal(s),
{
}

/// A `Plain` number is made of ASCII characters.
proof fn lemma_plain_number_ascii(s: Seq<char>, from: int, to: int)
    requires
        0 <= from,
        to <= s.len(),
        plain_number_in(s, from, to),
    ensures
        forall|i: int| from <= i < to ==> '\0' <= #[trigger] s[i] <= '\u{7f}',
{
    if from < to && digits_in(s, from, to) {
    } else {
        let k = choose|k: int| #[trigger] point_splits(s, from, k, to);
        assert forall|i: int| from <= i < to implies '\0' <= #[trigger] s[i] <= '\u{7f}' by {
            if i < k {
                assert(is_digit(s[i]));
            } else if i > k {
                assert(is_digit(s[i]));
            }
        }
    }
}

/// A spelling of an ASCII word is made of ASCII characters.
proof fn lemma_word_ascii(s: Seq<char>, from: int, to: int, word: Seq<char>)
    requires
        0 <= from,
        to <= s.len(),
        word_in(s, from, to, word),
        is_ascii_chars(word),
    ensures
        forall|i: int| from <= i < to ==> '\0' <= #[trigger] s[i] <= '\u{7f}',
{
    assert forall|i: int| from <= i < to implies '\0' <= #[trigger] s[i] <= '\u{7f}' by {
        assert(is_letter(s[from + (i - from)], word[i - from]));
    }
}

/// The three words for special values are made of ASCII characters.
proof fn lemma_special_words()
    ensures
        is_ascii_chars("inf"@),
        is_ascii_chars("infinity"@),
        is_ascii_chars("nan"@),
{
    reveal_strlit("inf");
    reveal_strlit("infinity");
    reveal_strlit("nan");
}

/// A `Float` is made of ASCII characters.
pub proof fn lemma_float_literal_ascii(s: Seq<char>)
    requires
        is_float_literal(s),
    ensures
        is_ascii_chars(s),
{
    let from = body_start(s);
    let to = s.len() as int;
    lemma_special_words();
    assert forall|i: int| from <= i < to implies '\0' <= #[trigger] s[i] <= '\u{7f}' by {
        if plain_number_in(s, from, to) {
            lemma_plain_number_ascii(s, from, to);
        } else if number_in(s, from, to) {
            let k = choose|k: int| #[trigger] exponent_splits(s, from, k, to);
            lemma_plain_number_ascii(s, from, k);
            if i >= exponent_digits_start(s, k, to) {
                assert(is_digit(s[i]));
            }
        } else if word_in(s, from, to, "inf"@) {
            lemma_word_ascii(s, from, to, "inf"@);
        } else if word_in(s, from, to, "infinity"@) {
            lemma_word_ascii(s, from, to, "infinity"@);
        } else {
            lemma_word_ascii(s, from, to, "nan"@);
        }
    }
    assert forall|i: int| 0 <= i < s.len() implies '\0' <= #[trigger] s[i] <= '\u{7f}' by {
        if i < from {
            assert(is_sign(s[0]));
        }
    }
}

/// The character of an ASCII text at `i`.
pub(crate) fn char_at(text: &str, i: usize) -> (c: char)
    requires
        text.is_ascii(),
        i < text@.len(),
    ensures
        c == text@[i as int],
{
    let b = text.get_ascii(i);
    b as char
}

/// The length in characters of an ASCII text.
pub(crate) fn ascii_len(text: &str) -> (n: usize)
    requires
        text.is_ascii(),
    ensures
        n == text@.len(),
{
    proof {
        is_ascii_spec_bytes(text);
    }
    text.as_bytes().len()
}

/// The end of the longest run of digits that starts at `from`.
fn skip_digits(text: &str, from: usize) -> (to: usize)
    requires
        text.is_ascii(),
        from <= text@.len(),
    ensures
        from <= to <= text@.len(),
        digits_in(text@, from as int, to as int),
        to < text@.len() ==> !is_digit(text@[to as int]),
{
    let n = ascii_len(text);
    let mut i = from;
    while i < n
        invariant
            text.is_ascii(),
            n == text@.len(),
            from <= i <= n,
            digits_in(text@, from as int, i as int),
        decreases n - i,
    {
        let c = char_at(text, i);
        if !(c >= '0' && c <= '9') {
            return i;
        }
        i += 1;
    }
    i
}

/// Whether `s[from..end)` is the longest stretch from `from` that is a run
/// of digits up to `point`, then a point if `has_point`, then a run of digits.
pub open spec fn is_stretch(s: Seq<char>, from: int, point: int, end: int, has_point: bool) -> bool {
    &&& 0 <= from <= point <= end <= s.len()
    &&& digits_in(s, from, point)
    &&& point < s.len() ==> !is_digit(s[point])
    &&& has_point <==> point < s.len() && s[point] == '.'
    &&& has_point ==> point < end && digits_in(s, point + 1, end)
    &&& has_point && end < s.len() ==> !is_digit(s[end])
    &&& !has_point ==> end == point
}

/// How many digits a stretch holds.
pub open spec fn stretch_digits(from: int, point: int, end: int, has_point: bool) -> int {
    if has_point {
        end - from - 1
    } else {
        end - from
    }
}

/// A `Plain` number that starts where a stretch starts ends inside the
/// stretch, before a digit or the point unless it ends where the stretch
/// ends; and the stretch then holds a digit.
proof fn lemma_plain_in_stretch(
    s: Seq<char>,
    from: int,
    point: int,
    end: int,
    has_point: bool,
    to: int,
)
    requires
        is_stretch(s, from, point, end, has_point),
        from <= to <= s.len(),
        plain_number_in(s, from, to),
    ensures
        to <= end,
        to < end ==> is_digit(s[to]) || s[to] == '.',
        stretch_digits(from, point, end, has_point) > 0,
{
    if from < to && digits_in(s, from, to) {
        if to > point {
            assert(is_digit(s[point]));
        }
    } else {
        let k = choose|k: int| #[trigger] point_splits(s, from, k, to);
        if k > point {
            assert(is_digit(s[point]));
        }
        if k < point {
            assert(is_digit(s[k]));
        }
        if to > end {
            assert(is_digit(s[end]));
        }
    }
}

/// A stretch that holds a digit is a `Plain` number.
proof fn lemma_stretch_is_plain(s: Seq<char>, from: int, point: int, end: int, has_point: bool)
    requires
        is_stretch(s, from, point, end, has_point),
        stretch_digits(from, point, end, has_point) > 0,
    ensures
        plain_number_in(s, from, end),
{
    if has_point {
        assert(point_splits(s, from, point, end));
    }
}

/// The longest stretch of digits, point, digits from `from`: where its point
/// stands or would stand, where it ends, and whether it has a point.
pub(crate) fn scan_stretch(text: &str, from: usize) -> (found: (usize, usize, bool))
    requires
        text.is_ascii(),
        from <= text@.len(),
    ensures
        is_stretch(text@, from as int, found.0 as int, found.1 as int, found.2),
{
    let n = ascii_len(text);
    let point = skip_digits(text, from);
    if point < n && char_at(text, point) == '.' {
        let end = skip_digits(text, point + 1);
        (point, end, true)
    } else {
        (point, point, false)
    }
}

/// Where the text behind an optional leading sign starts.
pub(crate) fn skip_sign(text: &str) -> (from: usize)
    requires
        text.is_ascii(),
    ensures
        from == body_start(text@),
{
    let n = ascii_len(text);
    if n == 0 {
        return 0;
    }
    let c = char_at(text, 0);
    if c == '+' || c == '-' {
        1
    } else {
        0
    }
}

/// Whether the text from `from` to its end spells `word`, in any mix of cases.
fn spells(text: &str, from: usize, word: &str) -> (ok: bool)
    requires
        text.is_ascii(),
        word.is_ascii(),
        from <= text@.len(),
    ensures
        ok == word_in(text@, from as int, text@.len() as int, word@),
{
    let n = ascii_len(text);
    let m = ascii_len(word);
    if n - from != m {
        return false;
    }
    let mut i: usize = 0;
    while i < m
        invariant
            text.is_ascii(),
            word.is_ascii(),
            n == text@.len(),
            m == word@.len(),
            from <= n,
            n - from == m,
            i <= m,
            forall|j: int| 0 <= j < i ==> is_letter(#[trigger] text@[from + j], word@[j]),
        decreases m - i,
    {
        let c = char_at(text, from + i);
        let letter = char_at(word, i);
        if !(c == letter || (c >= 'A' && c <= 'Z' && c as u8 + 32 == letter as u8)) {
            return false;
        }
        i += 1;
    }
    true
}

/// Whether `text` reads as a floating-point number: whether it is a `Float`.
pub fn is_float_literal_text(text: &str) -> (ok: bool)
    ensures
        ok == is_float_literal(text@),
{
    if !text.is_ascii() {
        proof {
            if is_float_literal(text@) {
                lemma_float_literal_ascii(text@);
            }
        }
        return false;
    }
    let n = ascii_len(text);
    let from = skip_sign(text);
    proof {
        lemma_special_words();
    }
    if spells(text, from, "inf") || spells(text, from, "infinity") || spells(text, from, "nan") {
        return true;
    }
    let (point, end, has_point) = scan_stretch(text, from);
    let ghost s = text@;
    let ghost digits = stretch_digits(from as int, point as int, end as int, has_point);
    proof {
        if plain_number_in(s, from as int, n as int) {
            lemma_plain_in_stretch(s, from as int, point as int, end as int, has_point, n as int);
        }
        assert forall|k: int| !#[trigger] exponent_splits(s, from as int, k, n as int) || (k == end
            && digits > 0) by {
            if exponent_splits(s, from as int, k, n as int) {
                lemma_plain_in_stretch(s, from as int, point as int, end as int, has_point, k);
            }
        }
        if digits > 0 {
            lemma_stretch_is_plain(s, from as int, point as int, end as int, has_point);
        }
    }
    if (has_point && end - from == 1) || (!has_point && end == from) {
        return false;
    }
    if end == n {
        return true;
    }
    let letter = char_at(text, end);
    if !(letter == 'e' || letter == 'E') {
        return false;
    }
    let mut start = end + 1;
    if start < n {
        let c = char_at(text, start);
        if c == '+' || c == '-' {
            start += 1;
        }
    }
    let stop = skip_digits(text, start);
    proof {
        assert(start == exponent_digits_start(s, end as int, n as int));
        if stop == n && start < stop {
            assert(exponent_splits(s, from as int, end as int, n as int));
        } else if exponent_in(s, end as int, n as int) {
            assert(is_digit(s[stop as int]));
        }
    }
    stop == n && start < stop
}

/// Whether `text` reads as a decimal number: whether it is a `Decimal`.
pub fn is_decimal_literal_text(text: &str) -> (ok: bool)
    ensures
        ok == is_decimal_literal(text@),
{
    if !text.is_ascii() {
        proof {
            if is_decimal_literal(text@) {
                lemma_float_literal_ascii(text@);
            }
        }
        return false;
    }
    let n = ascii_len(text);
    let from = skip_sign(text);
    let (point, end, has_point) = scan_stretch(text, from);
    proof {
        if plain_number_in(text@, from as int, n as int) {
            lemma_plain_in_stretch(text@, from as int, point as int, end as int, has_point, n as int);
        }
        if stretch_digits(from as int, point as int, end as int, has_point) > 0 {
            lemma_stretch_is_plain(text@, from as int, point as int, end as int, has_point);
        }
    }
    end == n && !(has_point && end - from == 1) && !(!has_point && end == from)
}

/// How many characters follow the first point of an ASCII text; none where
/// it has no point.
pub(crate) fn fraction_len_of(text: &str) -> (count: usize)
    requires
        text.is_ascii(),
    ensures
        count == fraction_len(text@),
{
    let n = ascii_len(text);
    let mut i: usize = 0;
    while i < n
        invariant
            text.is_ascii(),
            n == text@.len(),
            i <= n,
            forall|j: int| 0 <= j < i ==> #[trigger] text@[j] != '.',
        decreases n - i,
    {
        if char_at(text, i) == '.' {
            proof {
                lemma_fraction_len_at(text@, i as int);
            }
            return n - 1 - i;
        }
        i += 1;
    }
    proof {
        lemma_fraction_len_without_point(text@);
    }
    0
}

} // verus!
