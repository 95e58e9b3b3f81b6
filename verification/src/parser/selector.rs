//! Column references and column selectors.

use vstd::prelude::*;
use crate::ast::{
    aliased_views, ColumnRef, ColumnRefView, ColumnSelector, DataType, SelectorView,
};
use crate::parser::scan::{
    after_assign, after_char, after_word, beyond, char_at, expect_assign, expect_char,
    expect_word, parse_string, position_at, read_position, read_word, skip_spaces, skip_ws,
    string_at, word_at, Outcome, Parsed,
};
use crate::text::same_text;

verus! {

/// The message for `$0` where a column is meant.
pub open spec fn zero_column_message() -> Seq<char> {
    "Positional columns start at $1, not $0"@
}

/// The message for `$0` as an end of a range.
pub open spec fn zero_range_message() -> Seq<char> {
    "Positional ranges start at $1, not $0"@
}

/// The message for a type name that is none.
pub open spec fn invalid_type_message() -> Seq<char> {
    "Invalid data type"@
}

/// The column reference that starts at `pos`: `$N` with `N` at least 1, or a
/// name.
pub open spec fn column_ref_at(s: Seq<char>, pos: int) -> Parsed<ColumnRefView> {
    match position_at(s, pos) {
        Some((n, end)) => if n == 0 {
            Parsed::Fail(zero_column_message())
        } else {
            Parsed::Done(ColumnRefView::Position(n), end)
        },
        None => match word_at(s, pos) {
            Some((w, end)) => Parsed::Done(ColumnRefView::Name(w), end),
            None => Parsed::Reject,
        },
    }
}

/// The abstract type that a word names.
pub open spec fn data_type_of(word: Seq<char>) -> Option<DataType> {
    if word == "Number"@ {
        Some(DataType::Number)
    } else if word == "String"@ {
        Some(DataType::String)
    } else if word == "Boolean"@ {
        Some(DataType::Boolean)
    } else if word == "Date"@ {
        Some(DataType::Date)
    } else if word == "DateTime"@ {
        Some(DataType::DateTime)
    } else {
        None
    }
}

/// The type names from `pos` up to the closing bracket, behind `acc`; they
/// are separated by commas, and there is at least one.
pub open spec fn types_from(s: Seq<char>, pos: int, acc: Seq<DataType>) -> Parsed<Seq<DataType>>
    decreases s.len() - pos,
{
    if !(0 <= pos < s.len()) {
        Parsed::Reject
    } else {
        match word_at(s, skip_ws(s, pos)) {
            None => Parsed::Reject,
            Some((w, end)) => match data_type_of(w) {
                None => Parsed::Fail(invalid_type_message()),
                Some(t) => match after_char(s, end, ',') {
                    Some(p) => types_from(s, beyond(s, pos, p), acc.push(t)),
                    None => match after_char(s, end, ')') {
                        Some(q) => Parsed::Done(acc.push(t), q),
                        None => Parsed::Reject,
                    },
                },
            },
        }
    }
}

/// The selector that starts at `pos`.
///
/// `$N` is the column at position `N`, kept as the index `N - 1`;
/// `$N..$M` is the range of positions from `N` to `M`, kept as indices;
/// `re('pattern')` selects by pattern, `types(T, ...)` by type, and
/// `except(selector)` everything but; any other word is a column name.
pub open spec fn selector_at(s: Seq<char>, pos: int) -> Parsed<SelectorView>
    decreases s.len() - pos,
{
    if !(0 <= pos < s.len()) {
        Parsed::Reject
    } else {
        match position_at(s, pos) {
            Some((n, end)) => if char_at(s, end, '.') && char_at(s, end + 1, '.') {
                match position_at(s, end + 2) {
                    Some((m, end2)) => if n == 0 || m == 0 {
                        Parsed::Fail(zero_range_message())
                    } else {
                        Parsed::Done(
                            SelectorView::Range((n - 1) as usize, (m - 1) as usize),
                            end2,
                        )
                    },
                    None => Parsed::Reject,
                }
            } else if n == 0 {
                Parsed::Fail(zero_column_message())
            } else {
                Parsed::Done(SelectorView::Index((n - 1) as usize), end)
            },
            None => match word_at(s, pos) {
                None => Parsed::Reject,
                Some((w, end)) => match after_char(s, end, '(') {
                    None => Parsed::Done(SelectorView::Name(w), end),
                    Some(p) => if w == "re"@ {
                        match string_at(s, skip_ws(s, p)) {
                            Some((pattern, e)) => match after_char(s, e, ')') {
                                Some(q) => Parsed::Done(SelectorView::Regex(pattern), q),
                                None => Parsed::Reject,
                            },
                            None => Parsed::Reject,
                        }
                    } else if w == "types"@ {
                        match types_from(s, p, Seq::empty()) {
                            Parsed::Done(ts, q) => Parsed::Done(SelectorView::Type(ts), q),
                            Parsed::Reject => Parsed::Reject,
                            Parsed::Fail(m) => Parsed::Fail(m),
                        }
                    } else if w == "except"@ {
                        match selector_at(s, beyond(s, pos, skip_ws(s, p))) {
                            Parsed::Done(inner, e) => match after_char(s, e, ')') {
                                Some(q) => Parsed::Done(SelectorView::Except(Box::new(inner)), q),
                                None => Parsed::Reject,
                            },
                            Parsed::Reject => Parsed::Reject,
                            Parsed::Fail(m) => Parsed::Fail(m),
                        }
                    } else {
                        Parsed::Reject
                    },
                },
            },
        }
    }
}

/// The selector with its optional alias that starts at `pos`: either
/// `name = selector`, or a selector that `as name` may follow.
pub open spec fn selector_item_at(s: Seq<char>, pos: int) -> Parsed<
    (SelectorView, Option<Seq<char>>),
> {
    match alias_before(s, pos) {
        Some((alias, p)) => match selector_at(s, skip_ws(s, p)) {
            Parsed::Done(sel, e) => Parsed::Done((sel, Some(alias)), e),
            Parsed::Reject => Parsed::Reject,
            Parsed::Fail(m) => Parsed::Fail(m),
        },
        None => match selector_at(s, pos) {
            Parsed::Done(sel, e) => match after_word(s, e, "as"@) {
                Some(p) => match word_at(s, skip_ws(s, p)) {
                    Some((alias, e2)) => Parsed::Done((sel, Some(alias)), e2),
                    None => Parsed::Reject,
                },
                None => Parsed::Done((sel, None), e),
            },
            Parsed::Reject => Parsed::Reject,
            Parsed::Fail(m) => Parsed::Fail(m),
        },
    }
}

/// The alias and the position behind the `=` of an item that starts with
/// `name =`.
pub open spec fn alias_before(s: Seq<char>, pos: int) -> Option<(Seq<char>, int)> {
    match word_at(s, pos) {
        Some((w, end)) => match after_assign(s, end) {
            Some(p) => Some((w, p)),
            None => None,
        },
        None => None,
    }
}

/// The selector items from `pos` up to the closing bracket, behind `acc`;
/// they are separated by commas, and there is at least one.
pub open spec fn items_from(
    s: Seq<char>,
    pos: int,
    acc: Seq<(SelectorView, Option<Seq<char>>)>,
) -> Parsed<Seq<(SelectorView, Option<Seq<char>>)>>
    decreases s.len() - pos,
{
    if !(0 <= pos < s.len()) {
        Parsed::Reject
    } else {
        match selector_item_at(s, skip_ws(s, pos)) {
            Parsed::Done(item, e) => match after_char(s, e, ',') {
                Some(p) => items_from(s, beyond(s, pos, p), acc.push(item)),
                None => match after_char(s, e, ')') {
                    Some(q) => Parsed::Done(acc.push(item), q),
                    None => Parsed::Reject,
                },
            },
            Parsed::Reject => Parsed::Reject,
            Parsed::Fail(m) => Parsed::Fail(m),
        }
    }
}

/// The selector list from `pos`, behind an opening bracket, up to the
/// closing bracket; it may be empty.
pub open spec fn selector_list_at(s: Seq<char>, pos: int) -> Parsed<
    Seq<(SelectorView, Option<Seq<char>>)>,
> {
    match after_char(s, pos, ')') {
        Some(q) => Parsed::Done(Seq::empty(), q),
        None => items_from(s, pos, Seq::empty()),
    }
}

/// The column reference that starts at `pos`.
pub fn parse_column_ref(s: &Vec<char>, pos: usize) -> (r: Outcome<ColumnRef>)
    requires
        pos <= s.len(),
    ensures
        match column_ref_at(s@, pos as int) {
            Parsed::Done(v, end) => r matches Outcome::Done(x, n) && x@ == v && n == end && pos < n
                <= s.len(),
            Parsed::Reject => r is Reject,
            Parsed::Fail(m) => r matches Outcome::Fail(t) && t@ == m,
        },
{
    match read_position(s, pos) {
        Some(found) => {
            if found.0 == 0 {
                Outcome::Fail(String::from_str("Positional columns start at $1, not $0"))
            } else {
                Outcome::Done(ColumnRef::Position(found.0), found.1)
            }
        },
        None => match read_word(s, pos) {
            Some(found) => Outcome::Done(ColumnRef::Name(found.0), found.1),
            None => Outcome::Reject,
        },
    }
}

/// The abstract type that a word names.
pub fn parse_data_type(word: &str) -> (r: Option<DataType>)
    ensures
        r == data_type_of(word@),
{
    if same_text(word, "Number") {
        Some(DataType::Number)
    } else if same_text(word, "String") {
        Some(DataType::String)
    } else if same_text(word, "Boolean") {
        Some(DataType::Boolean)
    } else if same_text(word, "Date") {
        Some(DataType::Date)
    } else if same_text(word, "DateTime") {
        Some(DataType::DateTime)
    } else {
        None
    }
}

/// The type names from `pos` up to the closing bracket, behind `acc`.
pub fn parse_type_list(s: &Vec<char>, pos: usize, acc: Vec<DataType>) -> (r: Outcome<
    Vec<DataType>,
>)
    requires
        pos <= s.len(),
    ensures
        match types_from(s@, pos as int, acc@) {
            Parsed::Done(v, end) => r matches Outcome::Done(x, n) && x@ == v && n == end && pos < n
                <= s.len(),
            Parsed::Reject => r is Reject,
            Parsed::Fail(m) => r matches Outcome::Fail(t) && t@ == m,
        },
    decreases s.len() - pos,
{
    if pos >= s.len() {
        return Outcome::Reject;
    }
    let start = skip_spaces(s, pos);
    let found = match read_word(s, start) {
        Some(found) => found,
        None => {
            return Outcome::Reject;
        },
    };
    let t = match parse_data_type(found.0.as_str()) {
        Some(t) => t,
        None => {
            return Outcome::Fail(String::from_str("Invalid data type"));
        },
    };
    let mut acc = acc;
    acc.push(t);
    match expect_char(s, found.1, ',') {
        Some(p) => parse_type_list(s, p, acc),
        None => match expect_char(s, found.1, ')') {
            Some(q) => Outcome::Done(acc, q),
            None => Outcome::Reject,
        },
    }
}

/// The selector that starts at `pos`.
pub fn parse_selector(s: &Vec<char>, pos: usize) -> (r: Outcome<ColumnSelector>)
    requires
        pos <= s.len(),
    ensures
        match selector_at(s@, pos as int) {
            Parsed::Done(v, end) => r matches Outcome::Done(x, n) && x@ == v && n == end && pos < n
                <= s.len(),
            Parsed::Reject => r is Reject,
            Parsed::Fail(m) => r matches Outcome::Fail(t) && t@ == m,
        },
    decreases s.len() - pos,
{
    if pos >= s.len() {
        return Outcome::Reject;
    }
    match read_position(s, pos) {
        Some(first) => {
            let end = first.1;
            if end < s.len() && s[end] == '.' && end + 1 < s.len() && s[end + 1] == '.' {
                match read_position(s, end + 2) {
                    Some(second) => {
                        if first.0 == 0 || second.0 == 0 {
                            Outcome::Fail(
                                String::from_str("Positional ranges start at $1, not $0"),
                            )
                        } else {
                            Outcome::Done(
                                ColumnSelector::Range(first.0 - 1, second.0 - 1),
                                second.1,
                            )
                        }
                    },
                    None => Outcome::Reject,
                }
            } else if first.0 == 0 {
                Outcome::Fail(String::from_str("Positional columns start at $1, not $0"))
            } else {
                Outcome::Done(ColumnSelector::Index(first.0 - 1), end)
            }
        },
        None => {
            let found = match read_word(s, pos) {
                Some(found) => found,
                None => {
                    return Outcome::Reject;
                },
            };
            let p = match expect_char(s, found.1, '(') {
                Some(p) => p,
                None => {
                    return Outcome::Done(ColumnSelector::Name(found.0), found.1);
                },
            };
            if same_text(found.0.as_str(), "re") {
                match parse_string(s, skip_spaces(s, p)) {
                    Some(pattern) => match expect_char(s, pattern.1, ')') {
                        Some(q) => Outcome::Done(ColumnSelector::Regex(pattern.0), q),
                        None => Outcome::Reject,
                    },
                    None => Outcome::Reject,
                }
            } else if same_text(found.0.as_str(), "types") {
                match parse_type_list(s, p, Vec::new()) {
                    Outcome::Done(ts, q) => Outcome::Done(ColumnSelector::Type(ts), q),
                    Outcome::Reject => Outcome::Reject,
                    Outcome::Fail(m) => Outcome::Fail(m),
                }
            } else if same_text(found.0.as_str(), "except") {
                match parse_selector(s, skip_spaces(s, p)) {
                    Outcome::Done(inner, e) => match expect_char(s, e, ')') {
                        Some(q) => Outcome::Done(ColumnSelector::Except(Box::new(inner)), q),
                        None => Outcome::Reject,
                    },
                    Outcome::Reject => Outcome::Reject,
                    Outcome::Fail(m) => Outcome::Fail(m),
                }
            } else {
                Outcome::Reject
            }
        },
    }
}

/// The view of a selector with its optional alias.
pub open spec fn item_view(item: (ColumnSelector, Option<String>)) -> (
    SelectorView,
    Option<Seq<char>>,
) {
    (
        item.0@,
        match item.1 {
            Some(a) => Some(a@),
            None => None,
        },
    )
}

/// The selector with its optional alias that starts at `pos`.
pub fn parse_selector_item(s: &Vec<char>, pos: usize) -> (r: Outcome<
    (ColumnSelector, Option<String>),
>)
    requires
        pos <= s.len(),
    ensures
        match selector_item_at(s@, pos as int) {
            Parsed::Done(v, end) => r matches Outcome::Done(x, n) && item_view(x) == v && n == end
                && pos < n <= s.len(),
            Parsed::Reject => r is Reject,
            Parsed::Fail(m) => r matches Outcome::Fail(t) && t@ == m,
        },
{
    match read_word(s, pos) {
        Some(found) => {
            match expect_assign(s, found.1) {
                Some(p) => {
                    return match parse_selector(s, skip_spaces(s, p)) {
                        Outcome::Done(sel, e) => Outcome::Done((sel, Some(found.0)), e),
                        Outcome::Reject => Outcome::Reject,
                        Outcome::Fail(m) => Outcome::Fail(m),
                    };
                },
                None => {},
            }
        },
        None => {},
    }
    match parse_selector(s, pos) {
        Outcome::Done(sel, e) => match expect_word(s, e, "as") {
            Some(p) => match read_word(s, skip_spaces(s, p)) {
                Some(alias) => Outcome::Done((sel, Some(alias.0)), alias.1),
                None => Outcome::Reject,
            },
            None => Outcome::Done((sel, None), e),
        },
        Outcome::Reject => Outcome::Reject,
        Outcome::Fail(m) => Outcome::Fail(m),
    }
}

/// The selector items from `pos` up to the closing bracket, behind `acc`.
pub fn parse_items(s: &Vec<char>, pos: usize, acc: Vec<(ColumnSelector, Option<String>)>) -> (r:
    Outcome<Vec<(ColumnSelector, Option<String>)>>)
    requires
        pos <= s.len(),
    ensures
        match items_from(s@, pos as int, aliased_views(acc@)) {
            Parsed::Done(v, end) => r matches Outcome::Done(x, n) && aliased_views(x@) == v && n
                == end && pos < n <= s.len(),
            Parsed::Reject => r is Reject,
            Parsed::Fail(m) => r matches Outcome::Fail(t) && t@ == m,
        },
    decreases s.len() - pos,
{
    if pos >= s.len() {
        return Outcome::Reject;
    }
    match parse_selector_item(s, skip_spaces(s, pos)) {
        Outcome::Done(item, e) => {
            let ghost before = acc@;
            let ghost added = item_view(item);
            let mut acc = acc;
            acc.push(item);
            assert(aliased_views(acc@) =~= aliased_views(before).push(added));
            match expect_char(s, e, ',') {
                Some(p) => parse_items(s, p, acc),
                None => match expect_char(s, e, ')') {
                    Some(q) => Outcome::Done(acc, q),
                    None => Outcome::Reject,
                },
            }
        },
        Outcome::Reject => Outcome::Reject,
        Outcome::Fail(m) => Outcome::Fail(m),
    }
}

/// The selector list from `pos`, behind an opening bracket, up to the
/// closing bracket.
pub fn parse_selector_list(s: &Vec<char>, pos: usize) -> (r: Outcome<
    Vec<(ColumnSelector, Option<String>)>,
>)
    requires
        pos <= s.len(),
    ensures
        match selector_list_at(s@, pos as int) {
            Parsed::Done(v, end) => r matches Outcome::Done(x, n) && aliased_views(x@) == v && n
                == end && pos < n <= s.len(),
            Parsed::Reject => r is Reject,
            Parsed::Fail(m) => r matches Outcome::Fail(t) && t@ == m,
        },
{
    match expect_char(s, pos, ')') {
        Some(q) => {
            let out: Vec<(ColumnSelector, Option<String>)> = Vec::new();
            assert(aliased_views(out@) =~= Seq::empty());
            Outcome::Done(out, q)
        },
        None => {
            let acc: Vec<(ColumnSelector, Option<String>)> = Vec::new();
            assert(aliased_views(acc@) =~= Seq::empty());
            parse_items(s, pos, acc)
        },
    }
}

} // verus!
