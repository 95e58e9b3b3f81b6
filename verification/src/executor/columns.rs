//! Column references resolved to names against the columns of a table.

use vstd::prelude::*;
use polars::frame::DataFrame;
use crate::ast::{ColumnRef, ColumnRefView};
use crate::error::{DtransformError, ErrorView};
use crate::executor::Executor;
use crate::frame::{column_names, frame_names, text_views};
use crate::text::{decimal_text, number_text};

verus! {

/// The message for a 0-based index beyond the last column.
pub open spec fn index_message(index: nat, width: nat) -> Seq<char> {
    "Column index "@ + decimal_text(index) + " out of bounds (table has "@ + decimal_text(width)
        + " columns)"@
}

/// The message for `$0`.
pub open spec fn zero_position_message() -> Seq<char> {
    "Positional columns start at $1, not $0"@
}

/// The message for a `$N` beyond the last column.
pub open spec fn position_message(position: nat, width: nat) -> Seq<char> {
    "Column $"@ + decimal_text(position) + " out of bounds (table has "@ + decimal_text(width)
        + " columns)"@
}

/// The name that a column reference stands for among `names`. A name stands
/// for itself, whether or not the table has it; an index or position must
/// fall on a column.
pub open spec fn resolved_column(col: ColumnRefView, names: Seq<Seq<char>>) -> Result<
    Seq<char>,
    ErrorView,
> {
    match col {
        ColumnRefView::Name(n) => Ok(n),
        ColumnRefView::Index(i) => if i < names.len() {
            Ok(names[i as int])
        } else {
            Err(ErrorView::InvalidOperation(index_message(i as nat, names.len())))
        },
        ColumnRefView::Position(p) => if p == 0 {
            Err(ErrorView::InvalidOperation(zero_position_message()))
        } else if p - 1 < names.len() {
            Ok(names[p - 1])
        } else {
            Err(ErrorView::InvalidOperation(position_message(p as nat, names.len())))
        },
    }
}

/// The index at or behind `from` at which `name` first stands among
/// `names`, or the number of names when it stands nowhere there.
pub open spec fn position_of(names: Seq<Seq<char>>, name: Seq<char>, from: int) -> int
    decreases names.len() - from,
{
    if from < 0 || from >= names.len() {
        names.len() as int
    } else if names[from] == name {
        from
    } else {
        position_of(names, name, from + 1)
    }
}

/// Where `name` first stands among `names`.
pub fn find_name(names: &Vec<String>, name: &str) -> (r: Option<usize>)
    ensures
        match r {
            Some(i) => i < names.len() && names@[i as int]@ == name@ && forall|j: int|
                0 <= j < i ==> (#[trigger] names@[j])@ != name@,
            None => !text_views(names@).contains(name@),
        },
        r matches Some(i) ==> i == position_of(text_views(names@), name@, 0),
{
    let wanted = name.to_owned();
    let mut i: usize = 0;
    while i < names.len()
        invariant
            i <= names.len(),
            wanted@ == name@,
            forall|j: int| 0 <= j < i ==> (#[trigger] names@[j])@ != name@,
            position_of(text_views(names@), name@, 0) == position_of(
                text_views(names@),
                name@,
                i as int,
            ),
        decreases names.len() - i,
    {
        assert(text_views(names@)[i as int] == names@[i as int]@);
        if names[i] == wanted {
            return Some(i);
        }
        i += 1;
    }
    assert(!text_views(names@).contains(name@)) by {
        if text_views(names@).contains(name@) {
            let j = choose|j: int|
                0 <= j < text_views(names@).len() && text_views(names@)[j] == name@;
            assert(names@[j]@ == name@);
        }
    }
    None
}

/// A name that stands at an index of `names` is among the views of `names`.
pub proof fn name_at_is_contained(names: Seq<String>, i: int)
    requires
        0 <= i < names.len(),
    ensures
        text_views(names).contains(names[i]@),
        text_views(names)[i] == names[i]@,
        text_views(names).len() == names.len(),
{
    assert(text_views(names)[i] == names[i]@);
}

/// The name that a column reference stands for among `names`.
pub fn resolve_among(col_ref: &ColumnRef, names: &Vec<String>) -> (r: Result<
    String,
    DtransformError,
>)
    ensures
        match resolved_column(col_ref@, text_views(names@)) {
            Ok(n) => r matches Ok(name) && name@ == n,
            Err(e) => r matches Err(err) && err@ == e,
        },
{
    match col_ref {
        ColumnRef::Name(name) => Ok(name.clone()),
        ColumnRef::Index(idx) => {
            if *idx < names.len() {
                Ok(names[*idx].clone())
            } else {
                let mut m = String::from_str("Column index ");
                m.append(number_text(*idx).as_str());
                m.append(" out of bounds (table has ");
                m.append(number_text(names.len()).as_str());
                m.append(" columns)");
                Err(DtransformError::InvalidOperation(m))
            }
        },
        ColumnRef::Position(pos) => {
            if *pos == 0 {
                return Err(
                    DtransformError::InvalidOperation(
                        String::from_str("Positional columns start at $1, not $0"),
                    ),
                );
            }
            if *pos - 1 < names.len() {
                Ok(names[*pos - 1].clone())
            } else {
                let mut m = String::from_str("Column $");
                m.append(number_text(*pos).as_str());
                m.append(" out of bounds (table has ");
                m.append(number_text(names.len()).as_str());
                m.append(" columns)");
                Err(DtransformError::InvalidOperation(m))
            }
        },
    }
}

impl Executor {
    /// The name that a column reference stands for in a table.
    pub fn resolve_column_name(&self, col_ref: &ColumnRef, df: &DataFrame) -> (r: Result<
        String,
        DtransformError,
    >)
        ensures
            match resolved_column(col_ref@, frame_names(*df)) {
                Ok(n) => r matches Ok(name) && name@ == n,
                Err(e) => r matches Err(err) && err@ == e,
            },
    {
        let names = column_names(df);
        resolve_among(col_ref, &names)
    }
}

} // verus!
