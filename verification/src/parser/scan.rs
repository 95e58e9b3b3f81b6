//! The lexical layer: white space, words, quoted strings, numbers and `$N`
//! positions, each read at a position of the input.

use vstd::prelude::*;
use crate::ast::{Number, NumberView};
use crate::parser::number::{
    count_value, digit_run, digit_run_bounds, number_syntax, number_wf, parse_number, saturated,
    scale_of, scan_digits,
};
use crate::rows::{replace_text, replaced};
use crate::text::{
    all_digits, char_is_digit, decimal_value, digit_value, is_digit, join2, substring,
};

verus! {

/// What reading a construct at a position gives: the construct and the
/// position behind it; or that no such construct stands there; or a failure
/// with a message of its own, which ends the parse.
pub enum Parsed<T> {
    Done(T, int),
    Reject,
    Fail(Seq<char>),
}

/// What a reading function returns: as `Parsed`, with the message as a
/// string.
pub enum Outcome<T> {
    Done(T, usize),
    Reject,
    Fail(String),
}

/// A position behind `pos` for a parse to go on from: `next` when it lies
/// behind `pos` and within the input, else the end of the input.
pub open spec fn beyond(s: Seq<char>, pos: int, next: int) -> int {
    if pos < next <= s.len() {
        next
    } else {
        s.len() as int
    }
}

/// Whether `c` separates tokens: a space, a tab, a line feed or a carriage
/// return.
pub open spec fn is_ws(c: char) -> bool {
    c == ' ' || c == '\t' || c == '\n' || c == '\r'
}

/// The position of the first character at or behind `pos` that is not white
/// space.
pub open spec fn skip_ws(s: Seq<char>, pos: int) -> int
    decreases s.len() - pos,
{
    if 0 <= pos < s.len() && is_ws(s[pos]) {
        skip_ws(s, pos + 1)
    } else {
        pos
    }
}

/// Whether `c` stands at `pos`.
pub open spec fn char_at(s: Seq<char>, pos: int, c: char) -> bool {
    0 <= pos < s.len() && s[pos] == c
}

/// The position behind `c`, when `c` is the next character behind white
/// space.
pub open spec fn after_char(s: Seq<char>, pos: int, c: char) -> Option<int> {
    if char_at(s, skip_ws(s, pos), c) {
        Some(skip_ws(s, pos) + 1)
    } else {
        None
    }
}

/// The position behind a `=` that is the next character behind white space
/// and is not the start of `==`.
pub open spec fn after_assign(s: Seq<char>, pos: int) -> Option<int> {
    if char_at(s, skip_ws(s, pos), '=') && !char_at(s, skip_ws(s, pos) + 1, '=') {
        Some(skip_ws(s, pos) + 1)
    } else {
        None
    }
}

/// Whether a word can start with `c`: an ASCII letter or an underscore.
pub open spec fn is_word_start(c: char) -> bool {
    ('a' <= c <= 'z') || ('A' <= c <= 'Z') || c == '_'
}

/// Whether a word can go on with `c`: an ASCII letter, a digit or an
/// underscore.
pub open spec fn is_word_char(c: char) -> bool {
    is_word_start(c) || is_digit(c)
}

/// The position behind the run of word characters that starts at `pos`.
pub open spec fn word_end(s: Seq<char>, pos: int) -> int
    decreases s.len() - pos,
{
    if 0 <= pos < s.len() && is_word_char(s[pos]) {
        word_end(s, pos + 1)
    } else {
        pos
    }
}

/// The word that starts at `pos`, and the position behind it.
pub open spec fn word_at(s: Seq<char>, pos: int) -> Option<(Seq<char>, int)> {
    if 0 <= pos < s.len() && is_word_start(s[pos]) {
        Some((s.subrange(pos, word_end(s, pos + 1)), word_end(s, pos + 1)))
    } else {
        None
    }
}

/// The position behind the word `word`, when it is the next word behind
/// white space.
pub open spec fn after_word(s: Seq<char>, pos: int, word: Seq<char>) -> Option<int> {
    match word_at(s, skip_ws(s, pos)) {
        Some((w, end)) => if w == word {
            Some(end)
        } else {
            None
        },
        None => None,
    }
}

/// The position of the quote that closes a string whose content starts at
/// `pos`. A backslash takes the character behind it along.
pub open spec fn closing_quote(s: Seq<char>, pos: int, quote: char) -> Option<int>
    decreases s.len() - pos,
{
    if pos < 0 || pos >= s.len() {
        None
    } else if s[pos] == quote {
        Some(pos)
    } else if s[pos] == '\\' {
        if pos + 1 < s.len() {
            closing_quote(s, pos + 2, quote)
        } else {
            None
        }
    } else {
        closing_quote(s, pos + 1, quote)
    }
}

/// The content of a string literal with its escapes resolved, one kind after
/// the other: `\n`, `\r`, `\t`, `\"`, `\'`, `\\`.
pub open spec fn unescaped(raw: Seq<char>) -> Seq<char> {
    replaced(
        replaced(
            replaced(
                replaced(replaced(replaced(raw, "\\n"@, "\n"@), "\\r"@, "\r"@), "\\t"@, "\t"@),
                "\\\""@,
                "\""@,
            ),
            "\\'"@,
            "'"@,
        ),
        "\\\\"@,
        "\\"@,
    )
}

/// The string literal that starts at `pos`, in single or double quotes: its
/// content unescaped, and the position behind the closing quote.
pub open spec fn string_at(s: Seq<char>, pos: int) -> Option<(Seq<char>, int)> {
    if char_at(s, pos, '\'') || char_at(s, pos, '"') {
        match closing_quote(s, pos + 1, s[pos]) {
            Some(end) => Some((unescaped(s.subrange(pos + 1, end)), end + 1)),
            None => None,
        }
    } else {
        None
    }
}

/// The position behind the numeric literal that starts at `pos`: an optional
/// `-`, digits, an optional fraction, an optional suffix letter. It is `pos`
/// when no digit stands there.
pub open spec fn number_end(s: Seq<char>, pos: int) -> int {
    let start = if char_at(s, pos, '-') {
        pos + 1
    } else {
        pos
    };
    let whole = digit_run(s, start);
    if pos < 0 || whole == start {
        pos
    } else {
        let digits = if char_at(s, whole, '.') && whole + 1 < s.len() && is_digit(s[whole + 1]) {
            digit_run(s, whole + 1)
        } else {
            whole
        };
        if 0 <= digits < s.len() && scale_of(s[digits]) is Some {
            digits + 1
        } else {
            digits
        }
    }
}

/// The numeric literal that starts at `pos`, with its text as written and
/// the position behind it.
pub open spec fn number_at(s: Seq<char>, pos: int) -> Option<(NumberView, Seq<char>, int)> {
    let end = number_end(s, pos);
    if 0 <= pos < end <= s.len() {
        match number_syntax(s.subrange(pos, end)) {
            Some(n) => Some((n, s.subrange(pos, end), end)),
            None => None,
        }
    } else {
        None
    }
}

/// The message for a number that is no count.
pub open spec fn count_message(text: Seq<char>) -> Seq<char> {
    "Expected positive integer, got: "@ + text
}

/// The count that starts at `pos`: a numeric literal that is whole and not
/// negative, cut off at the largest `usize`.
pub open spec fn count_at(s: Seq<char>, pos: int) -> Parsed<usize> {
    match number_at(s, pos) {
        None => Parsed::Reject,
        Some((n, text, end)) => match count_value(n) {
            Some(v) => Parsed::Done(saturated(v), end),
            None => Parsed::Fail(count_message(text)),
        },
    }
}

/// The `$N` that starts at `pos`: the number `N`, cut off at the largest
/// `usize`, and the position behind it.
pub open spec fn position_at(s: Seq<char>, pos: int) -> Option<(usize, int)> {
    if char_at(s, pos, '$') && digit_run(s, pos + 1) > pos + 1 && digit_run(s, pos + 1) <= s.len() {
        Some(
            (
                saturated(decimal_value(s.subrange(pos + 1, digit_run(s, pos + 1)))),
                digit_run(s, pos + 1),
            ),
        )
    } else {
        None
    }
}

/// The position of the first character at or behind `pos` that is not white
/// space.
pub fn skip_spaces(s: &Vec<char>, pos: usize) -> (r: usize)
    requires
        pos <= s.len(),
    ensures
        r == skip_ws(s@, pos as int),
        pos <= r <= s.len(),
{
    let mut i: usize = pos;
    while i < s.len() && (s[i] == ' ' || s[i] == '\t' || s[i] == '\n' || s[i] == '\r')
        invariant
            pos <= i <= s.len(),
            skip_ws(s@, pos as int) == skip_ws(s@, i as int),
        decreases s.len() - i,
    {
        i += 1;
    }
    i
}

/// The position behind `c`, when `c` is the next character behind white
/// space.
pub fn expect_char(s: &Vec<char>, pos: usize, c: char) -> (r: Option<usize>)
    requires
        pos <= s.len(),
    ensures
        match after_char(s@, pos as int, c) {
            Some(p) => r == Some(p as usize) && pos < p <= s.len(),
            None => r is None,
        },
{
    let p = skip_spaces(s, pos);
    if p < s.len() && s[p] == c {
        Some(p + 1)
    } else {
        None
    }
}

/// The position behind a `=` that is not the start of `==`, when it is the
/// next character behind white space.
pub fn expect_assign(s: &Vec<char>, pos: usize) -> (r: Option<usize>)
    requires
        pos <= s.len(),
    ensures
        match after_assign(s@, pos as int) {
            Some(p) => r == Some(p as usize) && pos < p <= s.len(),
            None => r is None,
        },
{
    let p = skip_spaces(s, pos);
    if p < s.len() && s[p] == '=' && !(p + 1 < s.len() && s[p + 1] == '=') {
        Some(p + 1)
    } else {
        None
    }
}

/// Whether a word can start with `c`.
pub fn starts_word(c: char) -> (r: bool)
    ensures
        r == is_word_start(c),
{
    ('a' <= c && c <= 'z') || ('A' <= c && c <= 'Z') || c == '_'
}

/// The word that starts at `pos`, and the position behind it.
pub fn read_word(s: &Vec<char>, pos: usize) -> (r: Option<(String, usize)>)
    requires
        pos <= s.len(),
    ensures
        match word_at(s@, pos as int) {
            Some((w, end)) => r matches Some(found) && found.0@ == w && found.1 == end && pos < end
                <= s.len(),
            None => r is None,
        },
{
    if pos < s.len() && starts_word(s[pos]) {
        let mut i: usize = pos + 1;
        while i < s.len() && (starts_word(s[i]) || char_is_digit(s[i]))
            invariant
                pos < i <= s.len(),
                word_end(s@, pos + 1) == word_end(s@, i as int),
            decreases s.len() - i,
        {
            i += 1;
        }
        Some((substring(s, pos, i), i))
    } else {
        None
    }
}

/// The position behind the word `word`, when it is the next word behind
/// white space.
pub fn expect_word(s: &Vec<char>, pos: usize, word: &str) -> (r: Option<usize>)
    requires
        pos <= s.len(),
    ensures
        match after_word(s@, pos as int, word@) {
            Some(p) => r == Some(p as usize) && pos < p <= s.len(),
            None => r is None,
        },
{
    let p = skip_spaces(s, pos);
    match read_word(s, p) {
        Some(found) => {
            if crate::text::same_text(found.0.as_str(), word) {
                Some(found.1)
            } else {
                None
            }
        },
        None => None,
    }
}

/// The content of a string literal with its escapes resolved.
pub fn unescape(raw: &str) -> (r: String)
    ensures
        r@ == unescaped(raw@),
{
    let a = replace_text(raw, "\\n", "\n");
    let b = replace_text(a.as_str(), "\\r", "\r");
    let c = replace_text(b.as_str(), "\\t", "\t");
    let d = replace_text(c.as_str(), "\\\"", "\"");
    let e = replace_text(d.as_str(), "\\'", "'");
    replace_text(e.as_str(), "\\\\", "\\")
}

/// The string literal that starts at `pos`: its content unescaped, and the
/// position behind the closing quote.
pub fn parse_string(s: &Vec<char>, pos: usize) -> (r: Option<(String, usize)>)
    requires
        pos <= s.len(),
    ensures
        match string_at(s@, pos as int) {
            Some((text, end)) => r matches Some(found) && found.0@ == text && found.1 == end && pos
                < end <= s.len(),
            None => r is None,
        },
{
    if pos >= s.len() || !(s[pos] == '\'' || s[pos] == '"') {
        return None;
    }
    let quote = s[pos];
    let mut i: usize = pos + 1;
    while i < s.len() && s[i] != quote
        invariant
            pos < i <= s.len(),
            quote == s@[pos as int],
            quote == '\'' || quote == '"',
            closing_quote(s@, pos + 1, quote) == closing_quote(s@, i as int, quote),
        decreases s.len() - i,
    {
        if s[i] == '\\' {
            if i + 1 < s.len() {
                i += 2;
            } else {
                return None;
            }
        } else {
            i += 1;
        }
    }
    if i >= s.len() {
        return None;
    }
    let raw = substring(s, pos + 1, i);
    Some((unescape(raw.as_str()), i + 1))
}

/// The position behind the numeric literal that starts at `pos`.
pub fn scan_number(s: &Vec<char>, pos: usize) -> (r: usize)
    requires
        pos <= s.len(),
    ensures
        r == number_end(s@, pos as int),
        pos <= r <= s.len(),
{
    assert(s@.take(s.len() as int) =~= s@);
    let start = if pos < s.len() && s[pos] == '-' {
        pos + 1
    } else {
        pos
    };
    let whole = scan_digits(s, start, s.len());
    if whole == start {
        return pos;
    }
    let digits = if whole < s.len() && s[whole] == '.' && whole + 1 < s.len() && char_is_digit(
        s[whole + 1],
    ) {
        scan_digits(s, whole + 1, s.len())
    } else {
        whole
    };
    if digits < s.len() && (s[digits] == 'k' || s[digits] == 'K' || s[digits] == 'm' || s[digits]
        == 'M' || s[digits] == 'b' || s[digits] == 'B') {
        digits + 1
    } else {
        digits
    }
}

/// The numeric literal that starts at `pos`, with its text as written and
/// the position behind it.
pub fn read_number(s: &Vec<char>, pos: usize) -> (r: Option<(Number, String, usize)>)
    requires
        pos <= s.len(),
    ensures
        match number_at(s@, pos as int) {
            Some((n, text, end)) => r matches Some(found) && found.0@ == n && found.1@ == text
                && found.2 == end && pos < end <= s.len() && number_wf(n),
            None => r is None,
        },
{
    let end = scan_number(s, pos);
    if end <= pos {
        return None;
    }
    let text = substring(s, pos, end);
    match parse_number(text.as_str()) {
        Ok(n) => Some((n, text, end)),
        Err(_) => None,
    }
}

/// The count that starts at `pos`.
pub fn read_count(s: &Vec<char>, pos: usize) -> (r: Outcome<usize>)
    requires
        pos <= s.len(),
    ensures
        match count_at(s@, pos as int) {
            Parsed::Done(v, end) => r matches Outcome::Done(x, n) && x == v && n == end && pos < n
                <= s.len(),
            Parsed::Reject => r is Reject,
            Parsed::Fail(m) => r matches Outcome::Fail(t) && t@ == m,
        },
{
    match read_number(s, pos) {
        None => Outcome::Reject,
        Some(found) => match found.0.as_count() {
            Some(v) => Outcome::Done(v, found.2),
            None => Outcome::Fail(join2("Expected positive integer, got: ", found.1.as_str())),
        },
    }
}

/// The `$N` that starts at `pos`.
pub fn read_position(s: &Vec<char>, pos: usize) -> (r: Option<(usize, usize)>)
    requires
        pos <= s.len(),
    ensures
        match position_at(s@, pos as int) {
            Some((n, end)) => r == Some((n, end as usize)) && pos < end <= s.len(),
            None => r is None,
        },
{
    if pos >= s.len() || s[pos] != '$' {
        return None;
    }
    assert(s@.take(s.len() as int) =~= s@);
    let end = scan_digits(s, pos + 1, s.len());
    if end == pos + 1 {
        return None;
    }
    proof {
        digit_run_bounds(s@, pos + 1);
    }
    let mut acc: usize = 0;
    let mut i: usize = pos + 1;
    let ghost digits = s@.subrange(pos + 1, end as int);
    assert(digits.take(0) =~= Seq::<char>::empty());
    while i < end
        invariant
            pos + 1 <= i <= end <= s.len(),
            digits == s@.subrange(pos + 1, end as int),
            all_digits(digits),
            acc == saturated(decimal_value(digits.take(i - pos - 1))),
        decreases end - i,
    {
        let c = s[i];
        proof {
            let next = digits.take(i - pos);
            assert(next.drop_last() =~= digits.take(i - pos - 1));
            assert(next.last() == c);
            assert(is_digit(digits[i - pos - 1]));
        }
        let d: usize = (c as u32 - '0' as u32) as usize;
        acc = if acc > (usize::MAX - d) / 10 {
            usize::MAX
        } else {
            acc * 10 + d
        };
        i += 1;
    }
    assert(digits.take(end - pos - 1) =~= digits);
    Some((acc, end))
}

} // verus!
