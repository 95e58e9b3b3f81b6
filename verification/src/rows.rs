//! Row-wise text operations of the expression language: splitting, literal
//! replacement, concatenation, membership and the single-key lookup. They work
//! on the rows of string columns, where `None` is a null.

use vstd::prelude::*;
use crate::frame::row_views;
use crate::text::{collect_chars, substring, to_chars};

verus! {

/// Whether `pat` stands in `text` at index `at`.
pub open spec fn occurs_at(text: Seq<char>, at: int, pat: Seq<char>) -> bool {
    0 <= at && at + pat.len() <= text.len() && text.subrange(at, at + pat.len()) == pat
}

/// Whether `pat` stands somewhere in `text`.
pub open spec fn contains_text(text: Seq<char>, pat: Seq<char>) -> bool {
    exists|at: int| occurs_at(text, at, pat)
}

/// Whether `pat` stands in `text` at index `at`.
pub fn matches_at(text: &Vec<char>, at: usize, pat: &Vec<char>) -> (r: bool)
    ensures
        r == occurs_at(text@, at as int, pat@),
{
    if pat.len() > text.len() || at > text.len() - pat.len() {
        return false;
    }
    let mut i: usize = 0;
    while i < pat.len()
        invariant
            i <= pat.len(),
            at + pat.len() <= text.len(),
            forall|j: int| 0 <= j < i ==> text@[at + j] == pat@[j],
        decreases pat.len() - i,
    {
        if text[at + i] != pat[i] {
            assert(text@.subrange(at as int, at + pat.len())[i as int] != pat@[i as int]);
            return false;
        }
        i += 1;
    }
    assert(text@.subrange(at as int, at + pat.len()) =~= pat@);
    true
}

/// Whether `pat` stands somewhere in `text`.
pub fn text_contains(text: &str, pat: &str) -> (r: bool)
    ensures
        r == contains_text(text@, pat@),
{
    let t = to_chars(text);
    let p = to_chars(pat);
    let mut at: usize = 0;
    while at < t.len()
        invariant
            at <= t.len(),
            t@ == text@,
            p@ == pat@,
            forall|k: int| 0 <= k < at ==> !occurs_at(t@, k, p@),
        decreases t.len() - at,
    {
        if matches_at(&t, at, &p) {
            return true;
        }
        at += 1;
    }
    matches_at(&t, at, &p)
}

/// The parts that a delimiter which is not empty cuts `text` into, from the
/// part that starts at `start`, with the search for the next delimiter at `at`.
/// Delimiters are found left to right and do not overlap.
pub open spec fn parts_from(text: Seq<char>, delim: Seq<char>, start: int, at: int) -> Seq<
    Seq<char>,
>
    recommends
        delim.len() > 0,
        0 <= start <= at,
    decreases text.len() - at,
{
    if delim.len() == 0 || at < 0 || at + delim.len() > text.len() {
        seq![text.subrange(start, text.len() as int)]
    } else if occurs_at(text, at, delim) {
        seq![text.subrange(start, at)] + parts_from(
            text,
            delim,
            at + delim.len(),
            at + delim.len(),
        )
    } else {
        parts_from(text, delim, start, at + 1)
    }
}

/// The parts that splitting `text` at `delim` gives. An empty delimiter cuts
/// at every boundary: an empty part, each character, and an empty part.
pub open spec fn split_parts(text: Seq<char>, delim: Seq<char>) -> Seq<Seq<char>> {
    if delim.len() == 0 {
        seq![Seq::<char>::empty()] + Seq::new(text.len(), |i: int| seq![text[i]]) + seq![
            Seq::<char>::empty(),
        ]
    } else {
        parts_from(text, delim, 0, 0)
    }
}

/// The part of the given index, or nothing when there are fewer parts.
pub open spec fn split_part(text: Seq<char>, delim: Seq<char>, index: nat) -> Option<Seq<char>> {
    let parts = split_parts(text, delim);
    if index < parts.len() {
        Some(parts[index as int])
    } else {
        None
    }
}

/// The part of the given index, or nothing when there are fewer parts.
pub open spec fn nth_part(parts: Seq<Seq<char>>, index: int) -> Option<Seq<char>> {
    if 0 <= index < parts.len() {
        Some(parts[index])
    } else {
        None
    }
}

/// The `index`-th part of `text` split at `delim`.
pub fn split_text(text: &str, delim: &str, index: usize) -> (r: Option<String>)
    ensures
        match split_part(text@, delim@, index as nat) {
            Some(part) => r matches Some(p) && p@ == part,
            None => r is None,
        },
{
    let t = to_chars(text);
    let d = to_chars(delim);
    if d.len() == 0 {
        if index == 0 || (t.len() < usize::MAX && index == t.len() + 1) {
            return Some(String::new());
        }
        if index <= t.len() {
            let part = substring(&t, index - 1, index);
            assert(part@ =~= seq![t@[index - 1]]);
            return Some(part);
        }
        return None;
    }
    let mut start: usize = 0;
    let mut at: usize = 0;
    let mut left: usize = index;
    while d.len() <= t.len() && at <= t.len() - d.len()
        invariant
            0 <= start <= at,
            start <= t.len(),
            d.len() > 0,
            t@ == text@,
            d@ == delim@,
            nth_part(parts_from(t@, d@, 0, 0), index as int) == nth_part(
                parts_from(t@, d@, start as int, at as int),
                left as int,
            ),
        decreases t.len() - at,
    {
        if matches_at(&t, at, &d) {
            if left == 0 {
                return Some(substring(&t, start, at));
            }
            let ghost rest = parts_from(t@, d@, at + d.len(), at + d.len());
            assert(parts_from(t@, d@, start as int, at as int) == seq![
                t@.subrange(start as int, at as int),
            ] + rest);
            assert(nth_part(seq![t@.subrange(start as int, at as int)] + rest, left as int)
                == nth_part(rest, left - 1));
            left -= 1;
            at = at + d.len();
            start = at;
        } else {
            at += 1;
        }
    }
    if left == 0 {
        Some(substring(&t, start, t.len()))
    } else {
        None
    }
}

/// `text` with every occurrence of `old`, which is not empty, replaced by
/// `new`, from index `at` on. Occurrences are found left to right and do not
/// overlap.
pub open spec fn replaced_from(text: Seq<char>, old: Seq<char>, new: Seq<char>, at: int) -> Seq<
    char,
>
    recommends
        old.len() > 0,
        0 <= at,
    decreases text.len() - at,
{
    if old.len() == 0 || at < 0 || at >= text.len() {
        Seq::empty()
    } else if occurs_at(text, at, old) {
        new + replaced_from(text, old, new, at + old.len())
    } else {
        seq![text[at]] + replaced_from(text, old, new, at + 1)
    }
}

/// `new` in front of every character of `text` from index `at` on.
pub open spec fn interleaved_from(text: Seq<char>, new: Seq<char>, at: int) -> Seq<char>
    decreases text.len() - at,
{
    if at < 0 || at >= text.len() {
        Seq::empty()
    } else {
        new + seq![text[at]] + interleaved_from(text, new, at + 1)
    }
}

/// `text` with every occurrence of `old` replaced by `new`. An empty `old`
/// occurs at every boundary, so `new` then stands before every character and
/// at the end.
pub open spec fn replaced(text: Seq<char>, old: Seq<char>, new: Seq<char>) -> Seq<char> {
    if old.len() == 0 {
        interleaved_from(text, new, 0) + new
    } else {
        replaced_from(text, old, new, 0)
    }
}

/// Appends all of `part` to `out`.
fn push_all(out: &mut Vec<char>, part: &Vec<char>)
    ensures
        final(out)@ == old(out)@ + part@,
{
    let mut i: usize = 0;
    while i < part.len()
        invariant
            i <= part.len(),
            out@ == old(out)@ + part@.take(i as int),
        decreases part.len() - i,
    {
        out.push(part[i]);
        i += 1;
        assert(out@ =~= old(out)@ + part@.take(i as int));
    }
    assert(part@.take(part.len() as int) =~= part@);
}

/// `text` with every occurrence of `old` replaced by `new`.
pub fn replace_text(text: &str, old: &str, new: &str) -> (r: String)
    ensures
        r@ == replaced(text@, old@, new@),
{
    let t = to_chars(text);
    let o = to_chars(old);
    let n = to_chars(new);
    let mut out: Vec<char> = Vec::new();
    let mut at: usize = 0;
    if o.len() == 0 {
        while at < t.len()
            invariant
                at <= t.len(),
                interleaved_from(t@, n@, 0) == out@ + interleaved_from(t@, n@, at as int),
            decreases t.len() - at,
        {
            let ghost before = out@;
            push_all(&mut out, &n);
            out.push(t[at]);
            assert(out@ + interleaved_from(t@, n@, at + 1) =~= before + interleaved_from(
                t@,
                n@,
                at as int,
            ));
            at += 1;
        }
        push_all(&mut out, &n);
        assert(out@ =~= interleaved_from(t@, n@, 0) + n@);
        return collect_chars(&out);
    }
    while at < t.len()
        invariant
            at <= t.len(),
            o.len() > 0,
            replaced_from(t@, o@, n@, 0) == out@ + replaced_from(t@, o@, n@, at as int),
        decreases t.len() - at,
    {
        let ghost before = out@;
        if matches_at(&t, at, &o) {
            push_all(&mut out, &n);
            assert(out@ + replaced_from(t@, o@, n@, at + o.len()) =~= before + replaced_from(
                t@,
                o@,
                n@,
                at as int,
            ));
            at = at + o.len();
        } else {
            out.push(t[at]);
            assert(out@ + replaced_from(t@, o@, n@, at + 1) =~= before + replaced_from(
                t@,
                o@,
                n@,
                at as int,
            ));
            at += 1;
        }
    }
    assert(out@ =~= replaced_from(t@, o@, n@, 0));
    collect_chars(&out)
}

/// The view of an optional text.
pub open spec fn row_view(o: Option<String>) -> Option<Seq<char>> {
    match o {
        Some(s) => Some(s@),
        None => None,
    }
}

/// One row of a split: a null stays null, a text gives its part.
pub open spec fn split_row(row: Option<Seq<char>>, delim: Seq<char>, index: nat) -> Option<
    Seq<char>,
> {
    match row {
        Some(t) => split_part(t, delim, index),
        None => None,
    }
}

/// Splits every row at `delim` and keeps the part of the given index; a row
/// with fewer parts, or a null row, gives a null.
pub fn split_rows(rows: &Vec<Option<String>>, delim: &str, index: usize) -> (r: Vec<
    Option<String>,
>)
    ensures
        r.len() == rows.len(),
        forall|i: int|
            0 <= i < rows.len() ==> row_view(#[trigger] r@[i]) == split_row(
                row_view(rows@[i]),
                delim@,
                index as nat,
            ),
{
    let mut out: Vec<Option<String>> = Vec::new();
    let mut i: usize = 0;
    while i < rows.len()
        invariant
            i <= rows.len(),
            out.len() == i,
            forall|j: int|
                0 <= j < i ==> row_view(#[trigger] out@[j]) == split_row(
                    row_view(rows@[j]),
                    delim@,
                    index as nat,
                ),
        decreases rows.len() - i,
    {
        let part = match &rows[i] {
            Some(t) => split_text(t.as_str(), delim, index),
            None => None,
        };
        out.push(part);
        i += 1;
    }
    out
}

/// One row of a literal replacement: a null stays null.
pub open spec fn replace_row(row: Option<Seq<char>>, old: Seq<char>, new: Seq<char>) -> Option<
    Seq<char>,
> {
    match row {
        Some(t) => Some(replaced(t, old, new)),
        None => None,
    }
}

/// Replaces every occurrence of `old` by `new` in every row; nulls stay.
pub fn replace_rows(rows: &Vec<Option<String>>, old: &str, new: &str) -> (r: Vec<Option<String>>)
    ensures
        r.len() == rows.len(),
        forall|i: int|
            0 <= i < rows.len() ==> row_view(#[trigger] r@[i]) == replace_row(
                row_view(rows@[i]),
                old@,
                new@,
            ),
{
    let mut out: Vec<Option<String>> = Vec::new();
    let mut i: usize = 0;
    while i < rows.len()
        invariant
            i <= rows.len(),
            out.len() == i,
            forall|j: int|
                0 <= j < i ==> row_view(#[trigger] out@[j]) == replace_row(
                    row_view(rows@[j]),
                    old@,
                    new@,
                ),
        decreases rows.len() - i,
    {
        let row = match &rows[i] {
            Some(t) => Some(replace_text(t.as_str(), old, new)),
            None => None,
        };
        out.push(row);
        i += 1;
    }
    out
}

/// One row of a concatenation: null with anything is null.
pub open spec fn concat_row(left: Option<Seq<char>>, right: Option<Seq<char>>) -> Option<
    Seq<char>,
> {
    match (left, right) {
        (Some(l), Some(r)) => Some(l + r),
        _ => None,
    }
}

/// Joins two string columns row by row, over the rows that both have.
pub fn concat_rows(left: &Vec<Option<String>>, right: &Vec<Option<String>>) -> (r: Vec<
    Option<String>,
>)
    ensures
        r.len() == if left.len() <= right.len() {
            left.len()
        } else {
            right.len()
        },
        forall|i: int|
            0 <= i < r.len() ==> row_view(#[trigger] r@[i]) == concat_row(
                row_view(left@[i]),
                row_view(right@[i]),
            ),
{
    let n = if left.len() <= right.len() {
        left.len()
    } else {
        right.len()
    };
    let mut out: Vec<Option<String>> = Vec::new();
    let mut i: usize = 0;
    while i < n
        invariant
            i <= n,
            n <= left.len(),
            n <= right.len(),
            out.len() == i,
            forall|j: int|
                0 <= j < i ==> row_view(#[trigger] out@[j]) == concat_row(
                    row_view(left@[j]),
                    row_view(right@[j]),
                ),
        decreases n - i,
    {
        let row = match (&left[i], &right[i]) {
            (Some(l), Some(r)) => {
                let mut joined = l.clone();
                joined.append(r.as_str());
                Some(joined)
            },
            _ => None,
        };
        out.push(row);
        i += 1;
    }
    out
}

/// Whether two optional texts are equal; a null equals only a null.
pub fn same_row(a: &Option<String>, b: &Option<String>) -> (r: bool)
    ensures
        r == (row_view(*a) == row_view(*b)),
{
    match (a, b) {
        (Some(x), Some(y)) => *x == *y,
        (None, None) => true,
        _ => false,
    }
}

/// Whether `value` is one of `items`; a null is found only by a null.
pub open spec fn is_member(value: Option<Seq<char>>, items: Seq<Option<Seq<char>>>) -> bool {
    items.contains(value)
}

/// For every row of `left`, whether its value is among the rows of `right`.
pub fn membership_rows(left: &Vec<Option<String>>, right: &Vec<Option<String>>) -> (r: Vec<bool>)
    ensures
        r.len() == left.len(),
        forall|i: int| 0 <= i < left.len() ==> #[trigger] r@[i] == is_member(
            row_view(left@[i]),
            row_views(right@),
        ),
{
    let ghost items = row_views(right@);
    let mut out: Vec<bool> = Vec::new();
    let mut i: usize = 0;
    while i < left.len()
        invariant
            i <= left.len(),
            out.len() == i,
            items == row_views(right@),
            forall|k: int| 0 <= k < i ==> #[trigger] out@[k] == is_member(
                row_view(left@[k]),
                items,
            ),
        decreases left.len() - i,
    {
        let mut found = false;
        let mut j: usize = 0;
        while j < right.len() && !found
            invariant
                j <= right.len(),
                i < left.len(),
                items == row_views(right@),
                found ==> is_member(row_view(left@[i as int]), items),
                !found ==> forall|k: int| 0 <= k < j ==> #[trigger] items[k] != row_view(
                    left@[i as int],
                ),
            decreases right.len() - j + if found { 0int } else { 1int },
        {
            if same_row(&left[i], &right[j]) {
                assert(items[j as int] == row_view(left@[i as int]));
                found = true;
            } else {
                assert(items[j as int] == row_view(right@[j as int]));
                j += 1;
            }
        }
        out.push(found);
        i += 1;
    }
    out
}

/// The last row of a lookup table whose key is `key` and whose value is not
/// null, among the first `upto` rows.
pub open spec fn last_match(
    keys: Seq<Option<Seq<char>>>,
    value_nulls: Seq<bool>,
    key: Seq<char>,
    upto: int,
) -> Option<int>
    decreases upto,
{
    if upto <= 0 {
        None
    } else if upto <= keys.len() && upto <= value_nulls.len() && keys[upto - 1] == Some(key)
        && !value_nulls[upto - 1] {
        Some(upto - 1)
    } else {
        last_match(keys, value_nulls, key, upto - 1)
    }
}

/// The row that a lookup key finds: a null key finds none; on duplicate keys
/// the later row wins.
pub open spec fn lookup_row(
    keys: Seq<Option<Seq<char>>>,
    value_nulls: Seq<bool>,
    key: Option<Seq<char>>,
) -> Option<int> {
    match key {
        Some(k) => last_match(keys, value_nulls, k, keys.len() as int),
        None => None,
    }
}

/// The row of the result of a lookup, as the row number found or none.
pub open spec fn found_row(found: Option<int>) -> Option<usize> {
    match found {
        Some(row) => Some(row as usize),
        None => None,
    }
}

/// For every input key, the row of the lookup table that it finds. A row of
/// the table counts when its key and its value are both not null.
pub fn lookup_rows(
    inputs: &Vec<Option<String>>,
    keys: &Vec<Option<String>>,
    value_nulls: &Vec<bool>,
) -> (r: Vec<Option<usize>>)
    requires
        keys.len() == value_nulls.len(),
    ensures
        r.len() == inputs.len(),
        forall|i: int|
            0 <= i < inputs.len() ==> #[trigger] r@[i] == found_row(
                lookup_row(row_views(keys@), value_nulls@, row_view(inputs@[i])),
            ),
        forall|i: int|
            0 <= i < inputs.len() ==> (#[trigger] r@[i] matches Some(row) ==> row < keys.len()),
        forall|i: int|
            0 <= i < inputs.len() ==> (#[trigger] lookup_row(
                row_views(keys@),
                value_nulls@,
                row_view(inputs@[i]),
            ) matches Some(row) ==> 0 <= row < keys.len()),
{
    let ghost table = row_views(keys@);
    let mut out: Vec<Option<usize>> = Vec::new();
    let mut i: usize = 0;
    while i < inputs.len()
        invariant
            i <= inputs.len(),
            out.len() == i,
            keys.len() == value_nulls.len(),
            table == row_views(keys@),
            forall|k: int|
                0 <= k < i ==> #[trigger] out@[k] == found_row(
                    lookup_row(table, value_nulls@, row_view(inputs@[k])),
                ),
            forall|k: int| 0 <= k < i ==> (#[trigger] out@[k] matches Some(row) ==> row < keys.len()),
            forall|k: int|
                0 <= k < i ==> (#[trigger] lookup_row(table, value_nulls@, row_view(inputs@[k]))
                    matches Some(row) ==> 0 <= row < keys.len()),
        decreases inputs.len() - i,
    {
        let mut found: Option<usize> = None;
        if inputs[i].is_some() {
            let ghost key = row_view(inputs@[i as int])->0;
            let mut j: usize = keys.len();
            while j > 0 && found.is_none()
                invariant
                    j <= keys.len(),
                    keys.len() == value_nulls.len(),
                    table == row_views(keys@),
                    i < inputs.len(),
                    row_view(inputs@[i as int]) == Some(key),
                    match found {
                        Some(row) => last_match(table, value_nulls@, key, keys.len() as int)
                            == Some(row as int) && row < keys.len(),
                        None => last_match(table, value_nulls@, key, keys.len() as int)
                            == last_match(table, value_nulls@, key, j as int),
                    },
                decreases j,
            {
                assert(table[j - 1] == row_view(keys@[j - 1]));
                if same_row(&keys[j - 1], &inputs[i]) && !value_nulls[j - 1] {
                    found = Some(j - 1);
                }
                j -= 1;
            }
        }
        out.push(found);
        i += 1;
    }
    out
}

} // verus!
