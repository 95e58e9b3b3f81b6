//! Character-level helpers shared by the parser, the executor and the session.

use vstd::prelude::*;

verus! {

/// The characters of a string slice, in order.
pub fn to_chars(s: &str) -> (r: Vec<char>)
    ensures
        r@ == s@,
{
    let mut out: Vec<char> = Vec::new();
    for c in it: s.chars()
        invariant
            out.len() == it.index(),
            forall|i: int| 0 <= i < out.len() ==> out@[i] == it.seq()[i],
    {
        out.push(c);
    }
    assert(out@ =~= s@);
    out
}

/// Collects characters into a `String` with `String::from_iter`; the string's
/// characters are exactly the given ones.
#[verifier::external_body]
pub(crate) fn collect_chars(chars: &Vec<char>) -> (r: String)
    ensures
        r@ == chars@,
{
    String::from_iter(chars.iter())
}

/// Decodes bytes as UTF-8 with `String::from_utf8`: the text when the bytes
/// are valid UTF-8, and nothing otherwise.
#[verifier::external_body]
pub(crate) fn decode_text(bytes: &Vec<u8>) -> (r: Option<String>)
    ensures
        r is Some <==> vstd::utf8::valid_utf8(bytes@),
        r matches Some(s) ==> s@ == vstd::utf8::decode_utf8(bytes@),
{
    String::from_utf8(bytes.clone()).ok()
}

/// The `Debug` rendering of a character: in single quotes, escaped where it
/// needs to be.
pub uninterp spec fn char_debug(c: char) -> Seq<char>;

/// Formats a character with `{:?}`.
#[verifier::external_body]
pub(crate) fn char_debug_text(c: char) -> (r: String)
    ensures
        r@ == char_debug(c),
{
    format!("{:?}", c)
}

/// The string made of the characters `chars[from..to]`.
pub fn substring(chars: &Vec<char>, from: usize, to: usize) -> (r: String)
    requires
        from <= to <= chars.len(),
    ensures
        r@ == chars@.subrange(from as int, to as int),
{
    let mut part: Vec<char> = Vec::new();
    let mut i: usize = from;
    while i < to
        invariant
            from <= i <= to <= chars.len(),
            part@ == chars@.subrange(from as int, i as int),
        decreases to - i,
    {
        part.push(chars[i]);
        i += 1;
        assert(part@ =~= chars@.subrange(from as int, i as int));
    }
    collect_chars(&part)
}

/// Whether two strings hold the same characters.
pub fn same_text(a: &str, b: &str) -> (r: bool)
    ensures
        r == (a@ == b@),
{
    let x = to_chars(a);
    let y = to_chars(b);
    same_chars(&x, &y)
}

/// Whether two character vectors are equal.
pub fn same_chars(a: &Vec<char>, b: &Vec<char>) -> (r: bool)
    ensures
        r == (a@ == b@),
{
    if a.len() != b.len() {
        return false;
    }
    let mut i: usize = 0;
    while i < a.len()
        invariant
            a.len() == b.len(),
            i <= a.len(),
            forall|j: int| 0 <= j < i ==> a@[j] == b@[j],
        decreases a.len() - i,
    {
        if a[i] != b[i] {
            return false;
        }
        i += 1;
    }
    assert(a@ =~= b@);
    true
}

/// Whether `c` is one of the ten ASCII digits.
pub open spec fn is_digit(c: char) -> bool {
    '0' <= c <= '9'
}

/// The value of an ASCII digit.
pub open spec fn digit_value(c: char) -> nat
    recommends
        is_digit(c),
{
    (c as int - '0' as int) as nat
}

/// The character of a digit value below ten.
pub open spec fn digit_char(d: nat) -> char
    recommends
        d < 10,
{
    (d + '0' as nat) as char
}

/// The decimal digits of `n`, most significant first, without leading zeros
/// (`0` is written `"0"`).
pub open spec fn decimal_text(n: nat) -> Seq<char>
    decreases n,
{
    if n < 10 {
        seq![digit_char(n)]
    } else {
        decimal_text(n / 10).push(digit_char(n % 10))
    }
}

/// The value written by a run of decimal digits, read most significant first.
pub open spec fn decimal_value(digits: Seq<char>) -> nat
    decreases digits.len(),
{
    if digits.len() == 0 {
        0
    } else {
        decimal_value(digits.drop_last()) * 10 + digit_value(digits.last())
    }
}

/// Whether every character of `s` is an ASCII digit.
pub open spec fn all_digits(s: Seq<char>) -> bool {
    forall|i: int| 0 <= i < s.len() ==> is_digit(#[trigger] s[i])
}

/// Whether `c` is an ASCII digit.
pub fn char_is_digit(c: char) -> (r: bool)
    ensures
        r == is_digit(c),
{
    '0' <= c && c <= '9'
}

/// The character for one decimal digit.
fn char_of_digit(d: u128) -> (c: char)
    requires
        d < 10,
    ensures
        c == digit_char(d as nat),
        is_digit(c),
{
    if d == 0 {
        '0'
    } else if d == 1 {
        '1'
    } else if d == 2 {
        '2'
    } else if d == 3 {
        '3'
    } else if d == 4 {
        '4'
    } else if d == 5 {
        '5'
    } else if d == 6 {
        '6'
    } else if d == 7 {
        '7'
    } else if d == 8 {
        '8'
    } else {
        '9'
    }
}

/// Writing a number in decimal and reading it back gives the number.
pub proof fn decimal_text_round_trip(n: nat)
    ensures
        all_digits(decimal_text(n)),
        decimal_text(n).len() >= 1,
        decimal_value(decimal_text(n)) == n,
    decreases n,
{
    if n < 10 {
        let t = decimal_text(n);
        assert(t.drop_last() =~= Seq::<char>::empty());
        assert(decimal_value(t.drop_last()) == 0);
    } else {
        decimal_text_round_trip(n / 10);
        let t = decimal_text(n);
        assert(t.drop_last() =~= decimal_text(n / 10));
    }
}

/// The decimal text of `n`.
pub fn number_text(n: usize) -> (r: String)
    ensures
        r@ == decimal_text(n as nat),
{
    wide_number_text(n as u128)
}

/// The decimal text of a number that may not fit a `usize`.
pub fn wide_number_text(n: u128) -> (r: String)
    ensures
        r@ == decimal_text(n as nat),
{
    let mut rev: Vec<char> = Vec::new();
    let mut rest: u128 = n;
    // digits of n from least significant; `tail` is what they spell, in order
    let ghost mut tail: Seq<char> = Seq::empty();
    while rest >= 10
        invariant
            rev@.len() == tail.len(),
            forall|j: int| 0 <= j < tail.len() ==> rev@[j] == tail[tail.len() - 1 - j],
            decimal_text(n as nat) == decimal_text(rest as nat) + tail,
        decreases rest,
    {
        let d = rest % 10;
        let c = char_of_digit(d);
        proof {
            let next = seq![c] + tail;
            assert(decimal_text(rest as nat) == decimal_text((rest / 10) as nat).push(c));
            assert(decimal_text((rest / 10) as nat).push(c) + tail =~= decimal_text(
                (rest / 10) as nat,
            ) + next);
            assert forall|j: int| 0 <= j < next.len() implies rev@.push(c)[j] == next[next.len()
                - 1 - j] by {
                if j < tail.len() {
                    assert(next[next.len() - 1 - j] == tail[tail.len() - 1 - j]);
                }
            }
            tail = next;
        }
        rev.push(c);
        rest = rest / 10;
    }
    let first = char_of_digit(rest);
    let mut out: Vec<char> = Vec::new();
    out.push(first);
    let mut k: usize = rev.len();
    while k > 0
        invariant
            k <= rev.len(),
            rev@.len() == tail.len(),
            forall|j: int| 0 <= j < tail.len() ==> rev@[j] == tail[tail.len() - 1 - j],
            out@ == seq![first] + tail.subrange(0, rev.len() - k),
        decreases k,
    {
        k -= 1;
        out.push(rev[k]);
        assert(out@ =~= seq![first] + tail.subrange(0, rev.len() - k));
    }
    assert(tail.subrange(0, tail.len() as int) =~= tail);
    assert(decimal_text(rest as nat) =~= seq![first]);
    collect_chars(&out)
}

/// The concatenation of two strings.
pub fn join2(a: &str, b: &str) -> (r: String)
    ensures
        r@ == a@ + b@,
{
    let mut out = String::from_str(a);
    out.append(b);
    out
}

/// The concatenation of three strings.
pub fn join3(a: &str, b: &str, c: &str) -> (r: String)
    ensures
        r@ == a@ + b@ + c@,
{
    let mut out = String::from_str(a);
    out.append(b);
    out.append(c);
    out
}

} // verus!
