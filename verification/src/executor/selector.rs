//! The selector algebra: a selector tree resolved to an ordered list of
//! column names against the names and element types of a table.

use vstd::prelude::*;
use polars::frame::DataFrame;
use crate::ast::{ColumnSelector, DataType, SelectorView};
use crate::error::{DtransformError, ErrorView};
use crate::executor::columns::{find_name, name_at_is_contained};
use crate::executor::Executor;
use crate::frame::{
    column_at, column_names, dtype_of, frame_dtypes, frame_names, is_number, number_type,
    text_views, Dtype,
};
use crate::pattern::{compile, is_match, pattern_matches, pattern_valid, regex_source};
use crate::text::{decimal_text, number_text, wide_number_text};
use regex::Regex;

verus! {

/// Whether a column of element type `d` carries the abstract tag. `Number`
/// covers every integer and floating-point width.
pub open spec fn matches_dtype(tag: DataType, d: Dtype) -> bool {
    match tag {
        DataType::Number => is_number(d),
        DataType::String => d == Dtype::String,
        DataType::Boolean => d == Dtype::Boolean,
        DataType::Date => d == Dtype::Date,
        DataType::DateTime => d == Dtype::Datetime,
    }
}

/// Whether a column of element type `d` carries one of the tags.
pub open spec fn matches_any(tags: Seq<DataType>, d: Dtype) -> bool {
    exists|i: int| 0 <= i < tags.len() && matches_dtype(#[trigger] tags[i], d)
}

/// What decides whether a name is kept.
pub enum Keep {
    /// The name matches the pattern.
    Matching(Seq<char>),
    /// The name is among these.
    Among(Seq<Seq<char>>),
    /// The name is not among these.
    NotAmong(Seq<Seq<char>>),
}

/// Whether a name is kept.
pub open spec fn keeps(k: Keep, name: Seq<char>) -> bool {
    match k {
        Keep::Matching(p) => pattern_matches(p, name),
        Keep::Among(others) => others.contains(name),
        Keep::NotAmong(others) => !others.contains(name),
    }
}

/// The names that are kept, in their order.
pub open spec fn keep_where(names: Seq<Seq<char>>, k: Keep) -> Seq<Seq<char>>
    decreases names.len(),
{
    if names.len() == 0 {
        Seq::empty()
    } else if keeps(k, names.last()) {
        keep_where(names.drop_last(), k).push(names.last())
    } else {
        keep_where(names.drop_last(), k)
    }
}

/// The names of the first `n` columns whose element type carries one of the
/// tags, in their order.
pub open spec fn names_of_types(
    names: Seq<Seq<char>>,
    dtypes: Seq<Dtype>,
    tags: Seq<DataType>,
    n: int,
) -> Seq<Seq<char>>
    decreases n,
{
    if n <= 0 || n > names.len() || n > dtypes.len() {
        Seq::empty()
    } else if matches_any(tags, dtypes[n - 1]) {
        names_of_types(names, dtypes, tags, n - 1).push(names[n - 1])
    } else {
        names_of_types(names, dtypes, tags, n - 1)
    }
}

/// The names at the positions `start..=end`, as far as there are columns.
pub open spec fn names_in_range(names: Seq<Seq<char>>, start: int, end: int) -> Seq<Seq<char>> {
    if 0 <= start <= end && start < names.len() {
        names.subrange(
            start,
            if end + 1 <= names.len() {
                end + 1
            } else {
                names.len() as int
            },
        )
    } else {
        Seq::empty()
    }
}

/// The message for a selector index that falls on no column.
pub open spec fn selector_index_message(index: nat) -> Seq<char> {
    "Column index "@ + decimal_text(index) + " out of bounds"@
}

/// The message for a range that holds no column; the bounds are written as
/// the user wrote them, counted from 1.
pub open spec fn range_message(start: nat, end: nat) -> Seq<char> {
    "Range $"@ + decimal_text(start + 1) + "..$"@ + decimal_text(end + 1)
        + " is out of bounds or invalid"@
}

/// The ordered list of column names that a selector stands for in a table
/// with the given column names and element types.
pub open spec fn resolved(sel: SelectorView, names: Seq<Seq<char>>, dtypes: Seq<Dtype>) -> Result<
    Seq<Seq<char>>,
    ErrorView,
>
    decreases sel,
{
    match sel {
        SelectorView::Name(n) => if names.contains(n) {
            Ok(seq![n])
        } else {
            Err(ErrorView::ColumnNotFound(n))
        },
        SelectorView::Index(i) => if i < names.len() {
            Ok(seq![names[i as int]])
        } else {
            Err(ErrorView::InvalidOperation(selector_index_message(i as nat)))
        },
        SelectorView::Range(start, end) => if names_in_range(names, start as int, end as int).len()
            == 0 {
            Err(ErrorView::InvalidOperation(range_message(start as nat, end as nat)))
        } else {
            Ok(names_in_range(names, start as int, end as int))
        },
        SelectorView::Regex(p) => if pattern_valid(p) {
            Ok(keep_where(names, Keep::Matching(p)))
        } else {
            Err(ErrorView::RegexError)
        },
        SelectorView::Type(tags) => Ok(names_of_types(names, dtypes, tags, names.len() as int)),
        SelectorView::All => Ok(names),
        SelectorView::Except(inner) => match resolved(*inner, names, dtypes) {
            Err(e) => Err(e),
            Ok(excluded) => Ok(keep_where(names, Keep::NotAmong(excluded))),
        },
        SelectorView::And(left, right) => match resolved(*left, names, dtypes) {
            Err(e) => Err(e),
            Ok(l) => match resolved(*right, names, dtypes) {
                Err(e) => Err(e),
                Ok(r) => Ok(keep_where(l, Keep::Among(r))),
            },
        },
    }
}

/// A name is among the kept ones exactly when it is among the names and is
/// kept.
pub proof fn kept_names(names: Seq<Seq<char>>, k: Keep, name: Seq<char>)
    ensures
        keep_where(names, k).contains(name) <==> names.contains(name) && keeps(k, name),
    decreases names.len(),
{
    if names.len() > 0 {
        let front = names.drop_last();
        kept_names(front, k, name);
        let out = keep_where(names, k);
        if names.contains(name) {
            let i = choose|i: int| 0 <= i < names.len() && names[i] == name;
            if i < names.len() - 1 {
                assert(front[i] == name);
            }
        }
        if front.contains(name) {
            let i = choose|i: int| 0 <= i < front.len() && front[i] == name;
            assert(names[i] == name);
        }
        if keeps(k, names.last()) {
            let kept = keep_where(front, k);
            assert(out == kept.push(names.last()));
            if kept.contains(name) {
                let i = choose|i: int| 0 <= i < kept.len() && kept[i] == name;
                assert(out[i] == name);
            }
            if out.contains(name) {
                let i = choose|i: int| 0 <= i < out.len() && out[i] == name;
                if i < kept.len() {
                    assert(kept[i] == name);
                } else {
                    assert(names[names.len() - 1] == name);
                }
            }
            if name == names.last() {
                assert(out[out.len() - 1] == name);
                assert(names[names.len() - 1] == name);
            }
        } else {
            if name == names.last() {
                assert(!keeps(k, name));
            }
        }
    }
}

/// The names picked by type are among the names.
pub proof fn typed_names_within(
    names: Seq<Seq<char>>,
    dtypes: Seq<Dtype>,
    tags: Seq<DataType>,
    n: int,
    name: Seq<char>,
)
    requires
        names_of_types(names, dtypes, tags, n).contains(name),
    ensures
        names.contains(name),
    decreases n,
{
    if n <= 0 || n > names.len() || n > dtypes.len() {
    } else {
        let front = names_of_types(names, dtypes, tags, n - 1);
        let out = names_of_types(names, dtypes, tags, n);
        let i = choose|i: int| 0 <= i < out.len() && out[i] == name;
        if matches_any(tags, dtypes[n - 1]) && i == front.len() {
            assert(names[n - 1] == name);
        } else {
            assert(front[i] == name);
            typed_names_within(names, dtypes, tags, n - 1, name);
        }
    }
}

/// Every name that a selector resolves to is a column of the table.
pub proof fn resolved_within_schema(
    sel: SelectorView,
    names: Seq<Seq<char>>,
    dtypes: Seq<Dtype>,
    name: Seq<char>,
)
    requires
        resolved(sel, names, dtypes) matches Ok(cols) && cols.contains(name),
    ensures
        names.contains(name),
    decreases sel,
{
    let cols = resolved(sel, names, dtypes)->Ok_0;
    let at = choose|i: int| 0 <= i < cols.len() && cols[i] == name;
    match sel {
        SelectorView::Name(n) => {},
        SelectorView::Index(i) => {
            assert(names[i as int] == name);
        },
        SelectorView::Range(start, end) => {
            assert(names[start + at] == name);
        },
        SelectorView::Regex(p) => {
            kept_names(names, Keep::Matching(p), name);
        },
        SelectorView::Type(tags) => {
            typed_names_within(names, dtypes, tags, names.len() as int, name);
        },
        SelectorView::All => {},
        SelectorView::Except(inner) => {
            kept_names(names, Keep::NotAmong(resolved(*inner, names, dtypes)->Ok_0), name);
        },
        SelectorView::And(left, right) => {
            let l = resolved(*left, names, dtypes)->Ok_0;
            let r = resolved(*right, names, dtypes)->Ok_0;
            kept_names(l, Keep::Among(r), name);
            resolved_within_schema(*left, names, dtypes, name);
        },
    }
}

/// `except(S)` is the complement of `S`: together they hold every column of
/// the table, and no column is in both.
pub proof fn except_is_complement(sel: SelectorView, names: Seq<Seq<char>>, dtypes: Seq<Dtype>)
    requires
        resolved(sel, names, dtypes) is Ok,
    ensures
        resolved(SelectorView::Except(Box::new(sel)), names, dtypes) is Ok,
        ({
            let inner = resolved(sel, names, dtypes)->Ok_0.to_set();
            let outer = resolved(SelectorView::Except(Box::new(sel)), names, dtypes)->Ok_0.to_set();
            outer.union(inner) == names.to_set() && outer.disjoint(inner)
        }),
{
    let cols = resolved(sel, names, dtypes)->Ok_0;
    let rest = resolved(SelectorView::Except(Box::new(sel)), names, dtypes)->Ok_0;
    assert(rest == keep_where(names, Keep::NotAmong(cols)));
    assert forall|n: Seq<char>| rest.to_set().union(cols.to_set()).contains(n)
        <==> names.to_set().contains(n) by {
        kept_names(names, Keep::NotAmong(cols), n);
        if cols.contains(n) {
            resolved_within_schema(sel, names, dtypes, n);
        }
    }
    assert(rest.to_set().union(cols.to_set()) =~= names.to_set());
    assert forall|n: Seq<char>| !(rest.to_set().contains(n) && cols.to_set().contains(n)) by {
        kept_names(names, Keep::NotAmong(cols), n);
    }
}

/// `A and B` keeps exactly the columns of `A` that are also in `B`, in the
/// order of `A`; as sets, `A and B` and `B and A` are the same.
pub proof fn and_is_intersection(
    a: SelectorView,
    b: SelectorView,
    names: Seq<Seq<char>>,
    dtypes: Seq<Dtype>,
)
    requires
        resolved(a, names, dtypes) is Ok,
        resolved(b, names, dtypes) is Ok,
    ensures
        resolved(SelectorView::And(Box::new(a), Box::new(b)), names, dtypes) is Ok,
        resolved(SelectorView::And(Box::new(b), Box::new(a)), names, dtypes) is Ok,
        ({
            let left = resolved(a, names, dtypes)->Ok_0;
            let right = resolved(b, names, dtypes)->Ok_0;
            let both = resolved(SelectorView::And(Box::new(a), Box::new(b)), names, dtypes)->Ok_0;
            let swapped = resolved(SelectorView::And(Box::new(b), Box::new(a)), names, dtypes)->Ok_0;
            &&& both == keep_where(left, Keep::Among(right))
            &&& both.to_set() == left.to_set().intersect(right.to_set())
            &&& both.to_set() == swapped.to_set()
        }),
{
    let left = resolved(a, names, dtypes)->Ok_0;
    let right = resolved(b, names, dtypes)->Ok_0;
    let both = resolved(SelectorView::And(Box::new(a), Box::new(b)), names, dtypes)->Ok_0;
    let swapped = resolved(SelectorView::And(Box::new(b), Box::new(a)), names, dtypes)->Ok_0;
    assert forall|n: Seq<char>| both.to_set().contains(n) <==> left.to_set().intersect(
        right.to_set(),
    ).contains(n) by {
        kept_names(left, Keep::Among(right), n);
    }
    assert forall|n: Seq<char>| both.to_set().contains(n) <==> swapped.to_set().contains(n) by {
        kept_names(left, Keep::Among(right), n);
        kept_names(right, Keep::Among(left), n);
    }
    assert(both.to_set() =~= left.to_set().intersect(right.to_set()));
    assert(both.to_set() =~= swapped.to_set());
}

/// Whether a column of element type `d` carries the abstract tag.
pub fn tag_matches(tag: &DataType, d: Dtype) -> (r: bool)
    ensures
        r == matches_dtype(*tag, d),
{
    match tag {
        DataType::Number => number_type(d),
        DataType::String => d == Dtype::String,
        DataType::Boolean => d == Dtype::Boolean,
        DataType::Date => d == Dtype::Date,
        DataType::DateTime => d == Dtype::Datetime,
    }
}

/// Whether a column of element type `d` carries one of the tags.
pub fn any_tag_matches(tags: &Vec<DataType>, d: Dtype) -> (r: bool)
    ensures
        r == matches_any(tags@, d),
{
    let mut i: usize = 0;
    while i < tags.len()
        invariant
            i <= tags.len(),
            forall|j: int| 0 <= j < i ==> !matches_dtype(#[trigger] tags@[j], d),
        decreases tags.len() - i,
    {
        if tag_matches(&tags[i], d) {
            return true;
        }
        i += 1;
    }
    false
}

/// The names among `names` that stand in `others` (`among`), or that do not.
fn keep_by_list(names: &Vec<String>, others: &Vec<String>, among: bool) -> (r: Vec<String>)
    ensures
        text_views(r@) == keep_where(
            text_views(names@),
            if among {
                Keep::Among(text_views(others@))
            } else {
                Keep::NotAmong(text_views(others@))
            },
        ),
{
    let ghost all = text_views(names@);
    let ghost k = if among {
        Keep::Among(text_views(others@))
    } else {
        Keep::NotAmong(text_views(others@))
    };
    let mut out: Vec<String> = Vec::new();
    let mut i: usize = 0;
    assert(all.take(0) =~= Seq::<Seq<char>>::empty());
    while i < names.len()
        invariant
            i <= names.len(),
            all == text_views(names@),
            k == if among {
                Keep::Among(text_views(others@))
            } else {
                Keep::NotAmong(text_views(others@))
            },
            text_views(out@) == keep_where(all.take(i as int), k),
        decreases names.len() - i,
    {
        let found = find_name(others, names[i].as_str());
        proof {
            if found is Some {
                name_at_is_contained(others@, found->0 as int);
            }
            assert(all.take(i + 1).drop_last() =~= all.take(i as int));
            assert(all.take(i + 1).last() == names@[i as int]@);
        }
        if found.is_some() == among {
            let ghost before = out@;
            out.push(names[i].clone());
            assert(text_views(out@) =~= text_views(before).push(names@[i as int]@));
        }
        i += 1;
    }
    assert(all.take(names.len() as int) =~= all);
    out
}

/// The names among `names` that the compiled pattern matches.
fn keep_by_pattern(names: &Vec<String>, re: &Regex) -> (r: Vec<String>)
    ensures
        text_views(r@) == keep_where(text_views(names@), Keep::Matching(regex_source(*re))),
{
    let ghost all = text_views(names@);
    let ghost k = Keep::Matching(regex_source(*re));
    let mut out: Vec<String> = Vec::new();
    let mut i: usize = 0;
    assert(all.take(0) =~= Seq::<Seq<char>>::empty());
    while i < names.len()
        invariant
            i <= names.len(),
            all == text_views(names@),
            k == Keep::Matching(regex_source(*re)),
            text_views(out@) == keep_where(all.take(i as int), k),
        decreases names.len() - i,
    {
        proof {
            assert(all.take(i + 1).drop_last() =~= all.take(i as int));
            assert(all.take(i + 1).last() == names@[i as int]@);
        }
        if is_match(re, names[i].as_str()) {
            let ghost before = out@;
            out.push(names[i].clone());
            assert(text_views(out@) =~= text_views(before).push(names@[i as int]@));
        }
        i += 1;
    }
    assert(all.take(names.len() as int) =~= all);
    out
}

/// The ordered list of column names that a selector stands for in a table
/// with the given column names and element types.
pub fn resolve_in(selector: &ColumnSelector, names: &Vec<String>, dtypes: &Vec<Dtype>) -> (r:
    Result<Vec<String>, DtransformError>)
    requires
        names.len() == dtypes.len(),
    ensures
        match resolved(selector@, text_views(names@), dtypes@) {
            Ok(cols) => r matches Ok(v) && text_views(v@) == cols,
            Err(e) => r matches Err(x) && x@ == e,
        },
    decreases selector,
{
    let ghost all = text_views(names@);
    match selector {
        ColumnSelector::Name(name) => {
            match find_name(names, name.as_str()) {
                Some(i) => {
                    proof {
                        name_at_is_contained(names@, i as int);
                    }
                    let mut out: Vec<String> = Vec::new();
                    out.push(name.clone());
                    assert(text_views(out@) =~= seq![name@]);
                    Ok(out)
                },
                None => Err(DtransformError::ColumnNotFound(name.clone())),
            }
        },
        ColumnSelector::Index(idx) => {
            if *idx < names.len() {
                let mut out: Vec<String> = Vec::new();
                out.push(names[*idx].clone());
                assert(text_views(out@) =~= seq![all[*idx as int]]);
                Ok(out)
            } else {
                let mut m = String::from_str("Column index ");
                m.append(number_text(*idx).as_str());
                m.append(" out of bounds");
                Err(DtransformError::InvalidOperation(m))
            }
        },
        ColumnSelector::Range(start, end) => {
            let mut out: Vec<String> = Vec::new();
            if *start <= *end && *start < names.len() {
                let stop = if *end < names.len() {
                    *end + 1
                } else {
                    names.len()
                };
                let mut i: usize = *start;
                while i < stop
                    invariant
                        *start <= i <= stop <= names.len(),
                        all == text_views(names@),
                        text_views(out@) == all.subrange(*start as int, i as int),
                    decreases stop - i,
                {
                    let ghost before = out@;
                    out.push(names[i].clone());
                    i += 1;
                    assert(text_views(out@) =~= text_views(before).push(names@[i - 1]@));
                    assert(all[i - 1] == names@[i - 1]@);
                    assert(text_views(out@) =~= all.subrange(*start as int, i as int));
                }
            }
            if out.len() == 0 {
                let mut m = String::from_str("Range $");
                m.append(wide_number_text(*start as u128 + 1).as_str());
                m.append("..$");
                m.append(wide_number_text(*end as u128 + 1).as_str());
                m.append(" is out of bounds or invalid");
                Err(DtransformError::InvalidOperation(m))
            } else {
                Ok(out)
            }
        },
        ColumnSelector::Regex(pattern) => {
            match compile(pattern.as_str()) {
                Ok(re) => Ok(keep_by_pattern(names, &re)),
                Err(e) => Err(DtransformError::RegexError(e)),
            }
        },
        ColumnSelector::Type(tags) => {
            let mut out: Vec<String> = Vec::new();
            let mut i: usize = 0;
            while i < names.len()
                invariant
                    i <= names.len(),
                    names.len() == dtypes.len(),
                    all == text_views(names@),
                    text_views(out@) == names_of_types(all, dtypes@, tags@, i as int),
                decreases names.len() - i,
            {
                if any_tag_matches(tags, dtypes[i]) {
                    let ghost before = out@;
                    out.push(names[i].clone());
                    assert(text_views(out@) =~= text_views(before).push(names@[i as int]@));
                }
                i += 1;
            }
            Ok(out)
        },
        ColumnSelector::All => {
            let out = keep_by_list(names, names, true);
            proof {
                all_kept(all);
            }
            Ok(out)
        },
        ColumnSelector::Except(inner) => {
            let excluded = resolve_in(inner, names, dtypes)?;
            Ok(keep_by_list(names, &excluded, false))
        },
        ColumnSelector::And(left, right) => {
            let l = resolve_in(left, names, dtypes)?;
            let r = resolve_in(right, names, dtypes)?;
            Ok(keep_by_list(&l, &r, true))
        },
    }
}

/// Keeping the names that are among the names keeps them all.
pub proof fn all_kept(names: Seq<Seq<char>>)
    ensures
        keep_where(names, Keep::Among(names)) == names,
{
    kept_prefix(names, names, names.len() as int);
    assert(names.take(names.len() as int) =~= names);
}

/// Keeping, among the first `n` names, those that are among all the names
/// keeps these `n`.
pub proof fn kept_prefix(names: Seq<Seq<char>>, all: Seq<Seq<char>>, n: int)
    requires
        0 <= n <= names.len(),
        forall|i: int| 0 <= i < names.len() ==> all.contains(#[trigger] names[i]),
    ensures
        keep_where(names.take(n), Keep::Among(all)) == names.take(n),
    decreases n,
{
    if n > 0 {
        kept_prefix(names, all, n - 1);
        assert(names.take(n).drop_last() =~= names.take(n - 1));
        assert(names.take(n).last() == names[n - 1]);
        assert(names.take(n) =~= names.take(n - 1).push(names[n - 1]));
    } else {
        assert(names.take(0) =~= Seq::<Seq<char>>::empty());
    }
}

/// The element type of every column of a table.
pub fn column_dtypes(df: &DataFrame) -> (r: Vec<Dtype>)
    ensures
        r@ == frame_dtypes(*df),
        r.len() == frame_names(*df).len(),
{
    let names = column_names(df);
    let mut out: Vec<Dtype> = Vec::new();
    let mut i: usize = 0;
    while i < names.len()
        invariant
            i <= names.len(),
            names.len() == frame_names(*df).len(),
            names.len() == frame_dtypes(*df).len(),
            out.len() == i,
            forall|j: int| 0 <= j < i ==> #[trigger] out@[j] == frame_dtypes(*df)[j],
        decreases names.len() - i,
    {
        let col = column_at(df, i);
        out.push(dtype_of(&col));
        i += 1;
    }
    assert(out@ =~= frame_dtypes(*df));
    out
}

impl Executor {
    /// The ordered list of column names that a selector stands for in a
    /// table. Select, drop and distinct all resolve their selectors with it.
    pub fn resolve_selector(&self, selector: &ColumnSelector, df: &DataFrame) -> (r: Result<
        Vec<String>,
        DtransformError,
    >)
        ensures
            match resolved(selector@, frame_names(*df), frame_dtypes(*df)) {
                Ok(cols) => r matches Ok(v) && text_views(v@) == cols,
                Err(e) => r matches Err(x) && x@ == e,
            },
    {
        let names = column_names(df);
        let dtypes = column_dtypes(df);
        resolve_in(selector, &names, &dtypes)
    }
}

} // verus!
