//! Reading the sign, the width and the precision out of a format
//! specification.

use crate::text::chars_of;
use std::str::FromStr;
use vstd::prelude::*;

verus! {

/// The sign asked for.
#[derive(Debug, PartialEq, Eq, Clone, Copy, Structural)]
pub enum Sign {
    Plus,
    Minus,
}

/// The precision asked for: a number, the number of the argument that holds
/// it, or an asterisk.
#[derive(Debug, PartialEq, Eq, Clone, Copy, Structural)]
pub enum Precision {
    Integer(usize),
    Argument(usize),
    Asterisk,
}

/// The error for a text that is not what was to be read.
#[derive(Debug)]
pub struct ParseError;

/// Whether `c` is one of the three alignment marks.
pub open spec fn is_align(c: char) -> bool {
    c == '<' || c == '^' || c == '>'
}

/// Whether `c` is a decimal digit.
pub open spec fn is_digit(c: char) -> bool {
    '0' <= c && c <= '9'
}

/// Whether `c` can start an identifier: an unaccented Latin letter or an
/// underscore.
pub open spec fn is_letter(c: char) -> bool {
    ('a' <= c && c <= 'z') || ('A' <= c && c <= 'Z') || c == '_'
}

/// What the digit `c` counts.
pub open spec fn digit_value(c: char) -> nat {
    if is_digit(c) {
        (c as nat - '0' as nat) as nat
    } else {
        0
    }
}

/// The number that a sequence of digits writes in decimal.
pub open spec fn value(digits: Seq<char>) -> nat
    decreases digits.len(),
{
    if digits.len() == 0 {
        0
    } else {
        value(digits.drop_last()) * 10 + digit_value(digits.last())
    }
}

/// Whether `text` consists of digits only.
pub open spec fn all_digits(text: Seq<char>) -> bool {
    forall|i: int| 0 <= i < text.len() ==> is_digit(#[trigger] text[i])
}

/// The number that `text` writes, as the standard library reads an unsigned
/// integer: an optional plus sign and then at least one digit, nothing
/// else, and a value that the machine's integers can hold.
pub open spec fn unsigned(text: Seq<char>) -> Option<usize> {
    let digits = if text.len() > 0 && text[0] == '+' {
        text.drop_first()
    } else {
        text
    };
    if digits.len() > 0 && all_digits(digits) && value(digits) <= usize::MAX {
        Some(value(digits) as usize)
    } else {
        None
    }
}

/// The sign that `text` writes: a lone plus or a lone minus.
pub open spec fn sign_of(text: Seq<char>) -> Option<Sign> {
    if text == seq!['+'] {
        Some(Sign::Plus)
    } else if text == seq!['-'] {
        Some(Sign::Minus)
    } else {
        None
    }
}

/// The precision that `text` writes: a lone asterisk, a number followed by
/// a dollar sign (the number of an argument), or a number.
pub open spec fn precision_of(text: Seq<char>) -> Option<Precision> {
    if text == seq!['*'] {
        Some(Precision::Asterisk)
    } else if text.len() > 0 && text.last() == '$' {
        match unsigned(text.drop_last()) {
            Some(n) => Some(Precision::Argument(n)),
            None => None,
        }
    } else {
        match unsigned(text) {
            Some(n) => Some(Precision::Integer(n)),
            None => None,
        }
    }
}

/// Where the digits that start at `from` end.
pub open spec fn digits_end(s: Seq<char>, from: int) -> int
    decreases s.len() - from,
{
    if 0 <= from < s.len() && is_digit(s[from]) {
        digits_end(s, from + 1)
    } else {
        from
    }
}

/// Where the letters and digits that start at `from` end.
pub open spec fn word_end(s: Seq<char>, from: int) -> int
    decreases s.len() - from,
{
    if 0 <= from < s.len() && (is_letter(s[from]) || is_digit(s[from])) {
        word_end(s, from + 1)
    } else {
        from
    }
}

/// Where the identifier that starts at `from` ends; `from` itself if none
/// starts there. An identifier is a letter followed by letters and digits.
pub open spec fn identifier_end(s: Seq<char>, from: int) -> int {
    if 0 <= from < s.len() && is_letter(s[from]) {
        word_end(s, from + 1)
    } else {
        from
    }
}

/// Whether `s` has the character `c` at position `at`.
pub open spec fn holds(s: Seq<char>, at: int, c: char) -> bool {
    0 <= at < s.len() && s[at] == c
}

/// Where the fill and the alignment end. An alignment mark in second place
/// makes the first character the fill.
pub open spec fn fill_align_end(s: Seq<char>) -> int {
    if s.len() >= 2 && is_align(s[1]) {
        2
    } else if s.len() >= 1 && is_align(s[0]) {
        1
    } else {
        0
    }
}

/// Where the sign that may stand at `from` ends.
pub open spec fn sign_end(s: Seq<char>, from: int) -> int {
    if holds(s, from, '+') || holds(s, from, '-') {
        from + 1
    } else {
        from
    }
}

/// Where the hash that may stand at `from` ends.
pub open spec fn hash_end(s: Seq<char>, from: int) -> int {
    if holds(s, from, '#') {
        from + 1
    } else {
        from
    }
}

/// Where the zero flag that may stand at `from` ends. A zero before a
/// dollar sign is no flag: it is the number of the argument that holds the
/// width.
pub open spec fn zero_end(s: Seq<char>, from: int) -> int {
    if holds(s, from, '0') && !holds(s, from + 1, '$') {
        from + 1
    } else {
        from
    }
}

/// Where the count that may stand at `from` ends: a number, or a number or
/// an identifier followed by a dollar sign. With no count, `from` itself.
pub open spec fn count_end(s: Seq<char>, from: int) -> int {
    let digits = digits_end(s, from);
    let name = identifier_end(s, from);
    if digits > from {
        if holds(s, digits, '$') {
            digits + 1
        } else {
            digits
        }
    } else if name > from && holds(s, name, '$') {
        name + 1
    } else {
        from
    }
}

/// Where the precision that may stand at `from` ends: a dot followed by an
/// asterisk or a count. `None` for a dot with neither behind it.
pub open spec fn precision_end(s: Seq<char>, from: int) -> Option<int> {
    if holds(s, from, '.') {
        if holds(s, from + 1, '*') {
            Some(from + 2)
        } else if count_end(s, from + 1) > from + 1 {
            Some(count_end(s, from + 1))
        } else {
            None
        }
    } else {
        Some(from)
    }
}

/// Where the type that may stand at `from` ends: a question mark, an `x` or
/// `X` with a question mark, or an identifier.
pub open spec fn type_end(s: Seq<char>, from: int) -> int {
    if holds(s, from, '?') {
        from + 1
    } else if (holds(s, from, 'x') || holds(s, from, 'X')) && holds(s, from + 1, '?') {
        from + 2
    } else {
        identifier_end(s, from)
    }
}

/// What a format specification asks for. A text that is no format
/// specification as a whole asks for nothing.
///
/// A format specification is, in this order and each part optional: a fill
/// character with an alignment mark or the mark alone, a sign, a hash, a
/// zero, the width, a dot with the precision, and the type. The sign is
/// read from the sign, the width from the width's text and the precision
/// from the text behind the dot; a width or precision that is no plain
/// number in the machine's range (an argument's name, say) reads as none.
pub open spec fn parsed(s: Seq<char>) -> (Option<Sign>, Option<usize>, Option<Precision>) {
    let sign_from = fill_align_end(s);
    let sign_to = sign_end(s, sign_from);
    let width_from = zero_end(s, hash_end(s, sign_to));
    let width_to = count_end(s, width_from);
    match precision_end(s, width_to) {
        Some(precision_to) if type_end(s, precision_to) == s.len() => (
            sign_of(s.subrange(sign_from, sign_to)),
            unsigned(s.subrange(width_from, width_to)),
            if precision_to > width_to {
                precision_of(s.subrange(width_to + 1, precision_to))
            } else {
                None
            },
        ),
        _ => (None, None, None),
    }
}

/// A number is at least the number that any of its beginnings writes.
pub proof fn lemma_value_prefix(digits: Seq<char>, len: int)
    requires
        0 <= len <= digits.len(),
    ensures
        value(digits.take(len)) <= value(digits),
    decreases digits.len(),
{
    if len < digits.len() {
        lemma_value_prefix(digits.drop_last(), len);
        assert(digits.drop_last().take(len) =~= digits.take(len));
    } else {
        assert(digits.take(len) =~= digits);
    }
}

fn is_align_char(c: char) -> (yes: bool)
    ensures
        yes == is_align(c),
{
    c == '<' || c == '^' || c == '>'
}

fn is_digit_char(c: char) -> (yes: bool)
    ensures
        yes == is_digit(c),
{
    '0' <= c && c <= '9'
}

fn is_letter_char(c: char) -> (yes: bool)
    ensures
        yes == is_letter(c),
{
    ('a' <= c && c <= 'z') || ('A' <= c && c <= 'Z') || c == '_'
}

fn digit_of(c: char) -> (d: usize)
    requires
        is_digit(c),
    ensures
        d as nat == digit_value(c),
        d <= 9,
{
    (c as u32 - '0' as u32) as usize
}

fn holds_at(chars: &Vec<char>, at: usize, c: char) -> (yes: bool)
    ensures
        yes == holds(chars@, at as int, c),
{
    at < chars.len() && chars[at] == c
}

fn scan_digits(chars: &Vec<char>, from: usize) -> (to: usize)
    requires
        from <= chars@.len(),
    ensures
        to as int == digits_end(chars@, from as int),
        from <= to <= chars@.len(),
{
    let mut to = from;
    while to < chars.len() && is_digit_char(chars[to])
        invariant
            from <= to <= chars@.len(),
            digits_end(chars@, from as int) == digits_end(chars@, to as int),
        decreases chars@.len() - to,
    {
        to += 1;
    }
    to
}

fn scan_word(chars: &Vec<char>, from: usize) -> (to: usize)
    requires
        from <= chars@.len(),
    ensures
        to as int == word_end(chars@, from as int),
        from <= to <= chars@.len(),
{
    let mut to = from;
    while to < chars.len() && (is_letter_char(chars[to]) || is_digit_char(chars[to]))
        invariant
            from <= to <= chars@.len(),
            word_end(chars@, from as int) == word_end(chars@, to as int),
        decreases chars@.len() - to,
    {
        to += 1;
    }
    to
}

fn scan_identifier(chars: &Vec<char>, from: usize) -> (to: usize)
    requires
        from <= chars@.len(),
    ensures
        to as int == identifier_end(chars@, from as int),
        from <= to <= chars@.len(),
{
    if from < chars.len() && is_letter_char(chars[from]) {
        scan_word(chars, from + 1)
    } else {
        from
    }
}

fn scan_count(chars: &Vec<char>, from: usize) -> (to: usize)
    requires
        from <= chars@.len(),
    ensures
        to as int == count_end(chars@, from as int),
        from <= to <= chars@.len(),
{
    let len = chars.len();
    let digits = scan_digits(chars, from);
    if digits > from {
        if holds_at(chars, digits, '$') {
            digits + 1
        } else {
            digits
        }
    } else {
        let name = scan_identifier(chars, from);
        if name > from && holds_at(chars, name, '$') {
            name + 1
        } else {
            from
        }
    }
}

fn scan_precision(chars: &Vec<char>, from: usize) -> (to: Option<usize>)
    requires
        from <= chars@.len(),
    ensures
        to is Some <==> precision_end(chars@, from as int) is Some,
        to matches Some(t) ==> t as int == precision_end(chars@, from as int)->Some_0 && from <= t
            <= chars@.len(),
{
    let len = chars.len();
    if holds_at(chars, from, '.') {
        if holds_at(chars, from + 1, '*') {
            Some(from + 2)
        } else {
            let count = scan_count(chars, from + 1);
            if count > from + 1 {
                Some(count)
            } else {
                None
            }
        }
    } else {
        Some(from)
    }
}

fn scan_type(chars: &Vec<char>, from: usize) -> (to: usize)
    requires
        from <= chars@.len(),
    ensures
        to as int == type_end(chars@, from as int),
        from <= to <= chars@.len(),
{
    let len = chars.len();
    if holds_at(chars, from, '?') {
        from + 1
    } else if (holds_at(chars, from, 'x') || holds_at(chars, from, 'X')) && holds_at(
        chars,
        from + 1,
        '?',
    ) {
        from + 2
    } else {
        scan_identifier(chars, from)
    }
}

fn read_unsigned(chars: &Vec<char>, from: usize, to: usize) -> (number: Option<usize>)
    requires
        from <= to <= chars@.len(),
    ensures
        number == unsigned(chars@.subrange(from as int, to as int)),
{
    let ghost text = chars@.subrange(from as int, to as int);
    let start = if from < to && chars[from] == '+' {
        from + 1
    } else {
        from
    };
    let ghost digits = chars@.subrange(start as int, to as int);
    assert(digits =~= if text.len() > 0 && text[0] == '+' {
        text.drop_first()
    } else {
        text
    });
    let ghost goal = unsigned(text);
    if start == to {
        return None;
    }
    let mut number: usize = 0;
    let mut i = start;
    assert(chars@.subrange(start as int, i as int) =~= Seq::<char>::empty());
    while i < to
        invariant
            start <= i <= to <= chars@.len(),
            digits == chars@.subrange(start as int, to as int),
            goal == unsigned(chars@.subrange(from as int, to as int)),
            goal == if digits.len() > 0 && all_digits(digits) && value(digits) <= usize::MAX {
                Some(value(digits) as usize)
            } else {
                None
            },
            number as nat == value(chars@.subrange(start as int, i as int)),
            all_digits(chars@.subrange(start as int, i as int)),
        decreases to - i,
    {
        let c = chars[i];
        let ghost read = chars@.subrange(start as int, i as int);
        let ghost next = chars@.subrange(start as int, i as int + 1);
        proof {
            assert(next.drop_last() =~= read);
            assert(next.last() == c);
            assert(digits[i - start] == c);
            assert(digits.take(i - start + 1) =~= next);
            lemma_value_prefix(digits, i - start + 1);
        }
        if !is_digit_char(c) {
            return None;
        }
        let shifted = match number.checked_mul(10) {
            Some(n) => n,
            None => {
                return None;
            },
        };
        number = match shifted.checked_add(digit_of(c)) {
            Some(n) => n,
            None => {
                return None;
            },
        };
        i += 1;
    }
    assert(chars@.subrange(start as int, i as int) =~= digits);
    Some(number)
}

fn read_sign(chars: &Vec<char>, from: usize, to: usize) -> (sign: Option<Sign>)
    requires
        from <= to <= chars@.len(),
    ensures
        sign == sign_of(chars@.subrange(from as int, to as int)),
{
    let ghost text = chars@.subrange(from as int, to as int);
    if to - from == 1 && chars[from] == '+' {
        assert(text =~= seq!['+']);
        Some(Sign::Plus)
    } else if to - from == 1 && chars[from] == '-' {
        assert(text =~= seq!['-']);
        assert(text[0] == '-' && seq!['+'][0] == '+');
        Some(Sign::Minus)
    } else {
        assert(text != seq!['+'] && text != seq!['-']) by {
            if text.len() == 1 {
                assert(text[0] == chars@[from as int]);
                assert(seq!['+'][0] == '+' && seq!['-'][0] == '-');
            } else {
                assert(seq!['+'].len() == 1 && seq!['-'].len() == 1);
            }
        }
        None
    }
}

fn read_precision(chars: &Vec<char>, from: usize, to: usize) -> (precision: Option<Precision>)
    requires
        from <= to <= chars@.len(),
    ensures
        precision == precision_of(chars@.subrange(from as int, to as int)),
{
    let ghost text = chars@.subrange(from as int, to as int);
    if to - from == 1 && chars[from] == '*' {
        assert(text =~= seq!['*']);
        Some(Precision::Asterisk)
    } else {
        assert(text != seq!['*']) by {
            if text.len() == 1 {
                assert(text[0] == chars@[from as int]);
                assert(seq!['*'][0] == '*');
            } else {
                assert(seq!['*'].len() == 1);
            }
        }
        if from < to && chars[to - 1] == '$' {
            assert(text.last() == '$');
            assert(text.drop_last() =~= chars@.subrange(from as int, to as int - 1));
            match read_unsigned(chars, from, to - 1) {
                Some(n) => Some(Precision::Argument(n)),
                None => None,
            }
        } else {
            assert(!(text.len() > 0 && text.last() == '$'));
            match read_unsigned(chars, from, to) {
                Some(n) => Some(Precision::Integer(n)),
                None => None,
            }
        }
    }
}

fn scan_fill_align(chars: &Vec<char>) -> (to: usize)
    ensures
        to as int == fill_align_end(chars@),
        to <= chars@.len(),
{
    if chars.len() >= 2 && is_align_char(chars[1]) {
        2
    } else if chars.len() >= 1 && is_align_char(chars[0]) {
        1
    } else {
        0
    }
}

fn scan_sign(chars: &Vec<char>, from: usize) -> (to: usize)
    requires
        from <= chars@.len(),
    ensures
        to as int == sign_end(chars@, from as int),
        from <= to <= chars@.len(),
{
    let len = chars.len();
    if holds_at(chars, from, '+') || holds_at(chars, from, '-') {
        from + 1
    } else {
        from
    }
}

fn scan_hash(chars: &Vec<char>, from: usize) -> (to: usize)
    requires
        from <= chars@.len(),
    ensures
        to as int == hash_end(chars@, from as int),
        from <= to <= chars@.len(),
{
    let len = chars.len();
    if holds_at(chars, from, '#') {
        from + 1
    } else {
        from
    }
}

fn scan_zero(chars: &Vec<char>, from: usize) -> (to: usize)
    requires
        from <= chars@.len(),
    ensures
        to as int == zero_end(chars@, from as int),
        from <= to <= chars@.len(),
{
    let len = chars.len();
    if holds_at(chars, from, '0') && !holds_at(chars, from + 1, '$') {
        from + 1
    } else {
        from
    }
}

/// Reads the sign, the width and the precision out of the format
/// specification `input`. All three are `None` if `input` as a whole is no
/// format specification.
pub fn parse(input: &str) -> (asked: (Option<Sign>, Option<usize>, Option<Precision>))
    ensures
        asked == parsed(input@),
{
    let chars = chars_of(input);
    let sign_from = scan_fill_align(&chars);
    let sign_to = scan_sign(&chars, sign_from);
    let width_from = scan_zero(&chars, scan_hash(&chars, sign_to));
    let width_to = scan_count(&chars, width_from);
    match scan_precision(&chars, width_to) {
        Some(precision_to) => {
            if scan_type(&chars, precision_to) == chars.len() {
                let sign = read_sign(&chars, sign_from, sign_to);
                let width = read_unsigned(&chars, width_from, width_to);
                let precision = if precision_to > width_to {
                    read_precision(&chars, width_to + 1, precision_to)
                } else {
                    None
                };
                (sign, width, precision)
            } else {
                (None, None, None)
            }
        },
        None => (None, None, None),
    }
}

/// Reads a sign: a lone plus or a lone minus.
pub fn sign_from_text(text: &str) -> (sign: Result<Sign, ParseError>)
    ensures
        sign is Ok <==> sign_of(text@) is Some,
        sign matches Ok(s) ==> sign_of(text@) == Some(s),
{
    let chars = chars_of(text);
    assert(chars@.subrange(0, chars@.len() as int) =~= text@);
    match read_sign(&chars, 0, chars.len()) {
        Some(sign) => Ok(sign),
        None => Err(ParseError),
    }
}

/// Reads a precision: a lone asterisk, a number followed by a dollar sign,
/// or a number.
pub fn precision_from_text(text: &str) -> (precision: Result<Precision, ParseError>)
    ensures
        precision is Ok <==> precision_of(text@) is Some,
        precision matches Ok(p) ==> precision_of(text@) == Some(p),
{
    let chars = chars_of(text);
    assert(chars@.subrange(0, chars@.len() as int) =~= text@);
    match read_precision(&chars, 0, chars.len()) {
        Some(precision) => Ok(precision),
        None => Err(ParseError),
    }
}

impl FromStr for Sign {
    type Err = ParseError;

    /// Reads a sign: a lone plus or a lone minus.
    fn from_str(s: &str) -> (sign: Result<Self, ParseError>)
        ensures
            sign is Ok <==> sign_of(s@) is Some,
            sign matches Ok(read) ==> sign_of(s@) == Some(read),
    {
        sign_from_text(s)
    }
}

impl FromStr for Precision {
    type Err = ParseError;

    /// Reads a precision: a lone asterisk, a number followed by a dollar
    /// sign, or a number.
    fn from_str(s: &str) -> (precision: Result<Self, ParseError>)
        ensures
            precision is Ok <==> precision_of(s@) is Some,
            precision matches Ok(read) ==> precision_of(s@) == Some(read),
    {
        precision_from_text(s)
    }
}

impl ParseError {
    /// The words that describe the error.
    pub fn message(&self) -> (text: &'static str)
        ensures
            text@ == "parse error"@,
    {
        "parse error"
    }
}

} // verus!
