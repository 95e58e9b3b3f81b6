//! Numeric literals: `-?digits(.digits)?` with an optional suffix letter
//! (`k`, `m`, `b`, in either case) that scales by a thousand, a million or a
//! billion. A literal is kept as written and stands for an exact decimal value.

use vstd::prelude::*;
use crate::ast::{Number, NumberView, Scale};
use crate::error::{DtransformError, ErrorView};
use crate::text::{all_digits, char_is_digit, decimal_value, digit_value, is_digit, join2, substring, to_chars};

verus! {

/// The scale that a suffix letter stands for.
pub open spec fn scale_of(c: char) -> Option<Scale> {
    if c == 'k' || c == 'K' {
        Some(Scale::Thousand)
    } else if c == 'm' || c == 'M' {
        Some(Scale::Million)
    } else if c == 'b' || c == 'B' {
        Some(Scale::Billion)
    } else {
        None
    }
}

/// The index just behind the run of digits that starts at `from`.
pub open spec fn digit_run(s: Seq<char>, from: int) -> int
    decreases s.len() - from,
{
    if 0 <= from < s.len() && is_digit(s[from]) {
        digit_run(s, from + 1)
    } else {
        from
    }
}

/// What a digit run is: it stays inside the text, holds digits only, and
/// stops at the first character that is none.
pub proof fn digit_run_bounds(s: Seq<char>, from: int)
    requires
        0 <= from <= s.len(),
    ensures
        from <= digit_run(s, from) <= s.len(),
        all_digits(s.subrange(from, digit_run(s, from))),
        digit_run(s, from) < s.len() ==> !is_digit(s[digit_run(s, from)]),
    decreases s.len() - from,
{
    if from < s.len() && is_digit(s[from]) {
        digit_run_bounds(s, from + 1);
        let end = digit_run(s, from);
        assert forall|i: int| 0 <= i < end - from implies is_digit(
            #[trigger] s.subrange(from, end)[i],
        ) by {
            if i > 0 {
                assert(s.subrange(from, end)[i] == s.subrange(from + 1, end)[i - 1]);
            }
        }
    }
}

/// The literal that a text writes, if it writes one: an optional `-`, one or
/// more digits, an optional `.` with one or more digits, an optional suffix.
pub open spec fn number_syntax(s: Seq<char>) -> Option<NumberView> {
    let scale = if s.len() > 0 {
        scale_of(s.last())
    } else {
        None
    };
    let body = if scale is Some {
        s.drop_last()
    } else {
        s
    };
    let negative = body.len() > 0 && body[0] == '-';
    let start: int = if negative {
        1
    } else {
        0
    };
    let whole_end = digit_run(body, start);
    if whole_end == start {
        None
    } else if whole_end == body.len() {
        Some(
            NumberView {
                negative,
                whole: body.subrange(start, whole_end),
                fraction: Seq::empty(),
                scale: match scale {
                    Some(k) => k,
                    None => Scale::One,
                },
            },
        )
    } else if body[whole_end] == '.' && digit_run(body, whole_end + 1) == body.len()
        && whole_end + 1 < body.len() {
        Some(
            NumberView {
                negative,
                whole: body.subrange(start, whole_end),
                fraction: body.subrange(whole_end + 1, body.len() as int),
                scale: match scale {
                    Some(k) => k,
                    None => Scale::One,
                },
            },
        )
    } else {
        None
    }
}

/// Whether a literal is well formed: digits only, and at least one whole
/// digit.
pub open spec fn number_wf(n: NumberView) -> bool {
    &&& n.whole.len() >= 1
    &&& all_digits(n.whole)
    &&& all_digits(n.fraction)
}

/// `m` zeros.
pub open spec fn zeros(m: nat) -> Seq<char> {
    Seq::new(m, |i: int| '0')
}

/// Whether every character is the digit zero.
pub open spec fn all_zero(s: Seq<char>) -> bool {
    forall|i: int| 0 <= i < s.len() ==> #[trigger] s[i] == '0'
}

/// The number of fraction digits that the scale absorbs.
pub open spec fn absorbed(n: NumberView) -> nat {
    if n.fraction.len() <= n.scale.places() {
        n.fraction.len()
    } else {
        n.scale.places()
    }
}

/// The digits in front of the decimal point once the scale has been applied:
/// the whole digits, then the fraction digits that the scale absorbs, then
/// zeros for the places that are left.
pub open spec fn scaled_digits(n: NumberView) -> Seq<char> {
    n.whole + n.fraction.take(absorbed(n) as int) + zeros((n.scale.places() - absorbed(n)) as nat)
}

/// The fraction digits that remain behind the decimal point once the scale
/// has been applied.
pub open spec fn remaining_fraction(n: NumberView) -> Seq<char> {
    n.fraction.skip(absorbed(n) as int)
}

/// The value of a literal when it is a whole number that is not negative:
/// nothing but zeros remains behind the point, and the sign is `-` only on
/// zero. `None` for every other literal.
pub open spec fn count_value(n: NumberView) -> Option<nat> {
    if !all_zero(remaining_fraction(n)) {
        None
    } else if n.negative && decimal_value(scaled_digits(n)) != 0 {
        None
    } else {
        Some(decimal_value(scaled_digits(n)))
    }
}

/// A count cut off at the largest `usize`.
pub open spec fn saturated(v: nat) -> usize {
    if v <= usize::MAX {
        v as usize
    } else {
        usize::MAX
    }
}

/// The failure for a text that writes no number.
pub open spec fn invalid_number(s: Seq<char>) -> ErrorView {
    ErrorView::ParseError("Invalid number: "@ + s)
}

/// The failure for a number that is no count.
pub open spec fn not_a_count(s: Seq<char>) -> ErrorView {
    ErrorView::ParseError("Expected positive integer, got: "@ + s)
}

/// The scale of a suffix letter.
fn suffix_scale(c: char) -> (r: Option<Scale>)
    ensures
        r == scale_of(c),
{
    if c == 'k' || c == 'K' {
        Some(Scale::Thousand)
    } else if c == 'm' || c == 'M' {
        Some(Scale::Million)
    } else if c == 'b' || c == 'B' {
        Some(Scale::Billion)
    } else {
        None
    }
}

/// The end of the run of digits in `chars[..limit]` that starts at `from`.
pub fn scan_digits(chars: &Vec<char>, from: usize, limit: usize) -> (end: usize)
    requires
        from <= limit <= chars.len(),
    ensures
        from <= end <= limit,
        end == digit_run(chars@.take(limit as int), from as int),
{
    let ghost s = chars@.take(limit as int);
    let mut i: usize = from;
    while i < limit && char_is_digit(chars[i])
        invariant
            from <= i <= limit <= chars.len(),
            s == chars@.take(limit as int),
            digit_run(s, from as int) == digit_run(s, i as int),
        decreases limit - i,
    {
        i += 1;
    }
    i
}

/// Reads a numeric literal.
pub fn parse_number(s: &str) -> (r: Result<Number, DtransformError>)
    ensures
        match number_syntax(s@) {
            Some(n) => r matches Ok(v) && v@ == n && number_wf(n),
            None => r matches Err(e) && e@ == invalid_number(s@),
        },
{
    let chars = to_chars(s);
    let len = chars.len();
    let suffix = if len > 0 {
        suffix_scale(chars[len - 1])
    } else {
        None
    };
    let limit = if suffix.is_some() {
        len - 1
    } else {
        len
    };
    let ghost body = chars@.take(limit as int);
    assert(body == if suffix is Some {
        s@.drop_last()
    } else {
        s@
    }) by {
        assert(chars@.take(len as int) =~= chars@);
        assert(chars@.take(len - 1) =~= chars@.drop_last());
    }
    let negative = limit > 0 && chars[0] == '-';
    let start: usize = if negative {
        1
    } else {
        0
    };
    let whole_end = scan_digits(&chars, start, limit);
    let scale = match suffix {
        Some(k) => k,
        None => Scale::One,
    };
    proof {
        digit_run_bounds(body, start as int);
    }
    if whole_end == start {
        return Err(DtransformError::ParseError(join2("Invalid number: ", s)));
    }
    if whole_end == limit {
        let whole = substring(&chars, start, whole_end);
        assert(whole@ =~= body.subrange(start as int, whole_end as int));
        return Ok(Number { negative, whole, fraction: String::new(), scale });
    }
    if chars[whole_end] == '.' && whole_end + 1 < limit {
        let frac_end = scan_digits(&chars, whole_end + 1, limit);
        if frac_end == limit {
            let whole = substring(&chars, start, whole_end);
            let fraction = substring(&chars, whole_end + 1, limit);
            proof {
                digit_run_bounds(body, whole_end + 1);
                assert(whole@ =~= body.subrange(start as int, whole_end as int));
                assert(fraction@ =~= body.subrange(whole_end + 1, body.len() as int));
            }
            return Ok(Number { negative, whole, fraction, scale });
        }
    }
    Err(DtransformError::ParseError(join2("Invalid number: ", s)))
}

/// Appending a digit multiplies by ten and adds it.
pub proof fn decimal_value_push(digits: Seq<char>, c: char)
    ensures
        decimal_value(digits.push(c)) == decimal_value(digits) * 10 + digit_value(c),
{
    assert(digits.push(c).drop_last() =~= digits);
}

/// One step of reading digits into a count that stops at the largest `usize`.
fn push_digit(acc: usize, c: char, Ghost(read): Ghost<Seq<char>>) -> (r: usize)
    requires
        is_digit(c),
        acc == saturated(decimal_value(read)),
    ensures
        r == saturated(decimal_value(read.push(c))),
{
    proof {
        decimal_value_push(read, c);
    }
    let d: usize = (c as u32 - '0' as u32) as usize;
    if acc > (usize::MAX - d) / 10 {
        usize::MAX
    } else {
        acc * 10 + d
    }
}

impl Number {
    /// The literal as a count, cut off at the largest `usize`; `None` when
    /// it is negative or not a whole number.
    pub fn as_count(&self) -> (r: Option<usize>)
        requires
            number_wf(self@),
        ensures
            match count_value(self@) {
                Some(v) => r == Some(saturated(v)),
                None => r is None,
            },
    {
        let whole = to_chars(self.whole.as_str());
        let fraction = to_chars(self.fraction.as_str());
        let places: usize = match self.scale {
            Scale::One => 0,
            Scale::Thousand => 3,
            Scale::Million => 6,
            Scale::Billion => 9,
        };
        let taken: usize = if fraction.len() <= places {
            fraction.len()
        } else {
            places
        };
        let ghost n = self@;
        assert(taken == absorbed(n));
        // what remains behind the point must be zeros
        let mut j: usize = taken;
        while j < fraction.len()
            invariant
                taken <= j <= fraction.len(),
                taken == absorbed(n),
                n == self@,
                fraction@ == n.fraction,
                forall|i: int| taken <= i < j ==> fraction@[i] == '0',
            decreases fraction.len() - j,
        {
            if fraction[j] != '0' {
                assert(remaining_fraction(n)[j - taken] != '0');
                return None;
            }
            j += 1;
        }
        assert(all_zero(remaining_fraction(n)));
        let mut acc: usize = 0;
        let ghost mut read: Seq<char> = Seq::empty();
        let mut i: usize = 0;
        while i < whole.len()
            invariant
                i <= whole.len(),
                whole@ == n.whole,
                all_digits(n.whole),
                read == n.whole.take(i as int),
                acc == saturated(decimal_value(read)),
            decreases whole.len() - i,
        {
            acc = push_digit(acc, whole[i], Ghost(read));
            proof {
                read = read.push(whole@[i as int]);
            }
            i += 1;
            assert(read =~= n.whole.take(i as int));
        }
        assert(n.whole.take(whole.len() as int) =~= n.whole);
        i = 0;
        while i < taken
            invariant
                i <= taken <= fraction.len(),
                fraction@ == n.fraction,
                all_digits(n.fraction),
                read == n.whole + n.fraction.take(i as int),
                acc == saturated(decimal_value(read)),
            decreases taken - i,
        {
            acc = push_digit(acc, fraction[i], Ghost(read));
            proof {
                read = read.push(fraction@[i as int]);
            }
            i += 1;
            assert(read =~= n.whole + n.fraction.take(i as int));
        }
        i = taken;
        while i < places
            invariant
                taken <= i <= places,
                read == n.whole + n.fraction.take(taken as int) + zeros((i - taken) as nat),
                acc == saturated(decimal_value(read)),
            decreases places - i,
        {
            acc = push_digit(acc, '0', Ghost(read));
            proof {
                read = read.push('0');
            }
            i += 1;
            assert(read =~= n.whole + n.fraction.take(taken as int) + zeros((i - taken) as nat));
        }
        assert(read == scaled_digits(n));
        if self.negative && acc != 0 {
            None
        } else {
            Some(acc)
        }
    }
}

/// Reads a numeric literal that must be a count: not negative and whole. A
/// count beyond the largest `usize` is cut off there.
pub fn parse_number_as_usize(s: &str) -> (r: Result<usize, DtransformError>)
    ensures
        match number_syntax(s@) {
            None => r matches Err(e) && e@ == invalid_number(s@),
            Some(n) => match count_value(n) {
                Some(v) => r == Ok::<usize, DtransformError>(saturated(v)),
                None => r matches Err(e) && e@ == not_a_count(s@),
            },
        },
{
    match parse_number(s) {
        Err(e) => Err(e),
        Ok(n) => match n.as_count() {
            Some(v) => Ok(v),
            None => Err(DtransformError::ParseError(join2("Expected positive integer, got: ", s))),
        },
    }
}

} // verus!
