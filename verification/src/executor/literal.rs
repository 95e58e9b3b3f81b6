//! Literals and list literals as series.

use vstd::prelude::*;
use polars::series::Series;
use crate::ast::{literal_views, Literal, LiteralView, Number, NumberView, Scale};
use crate::error::{DtransformError, ErrorView};
use crate::executor::binary::same_result;
use crate::executor::Executor;
use crate::frame::{
    bool_series, bools_series, empty_series, no_rows_series, null_series, nulls_series,
    number_series, numbers_series, repeat_row, row_repeated, row_views, series_bools,
    series_dtype, series_len, series_name, series_nulls, series_texts, text_series, text_views,
    texts_series, Dtype,
};
use crate::rows::row_view;

verus! {

/// The exponent that writes a scale.
pub open spec fn exponent_text(scale: Scale) -> Seq<char> {
    match scale {
        Scale::One => Seq::empty(),
        Scale::Thousand => "e3"@,
        Scale::Million => "e6"@,
        Scale::Billion => "e9"@,
    }
}

/// A numeric literal in the decimal notation that the table engine reads:
/// sign, whole digits, the fraction behind a point if there is one, and the
/// scale as a power of ten.
pub open spec fn literal_text(n: NumberView) -> Seq<char> {
    (if n.negative {
        "-"@
    } else {
        Seq::<char>::empty()
    }) + n.whole + (if n.fraction.len() > 0 {
        "."@ + n.fraction
    } else {
        Seq::<char>::empty()
    }) + exponent_text(n.scale)
}

/// The decimal notation of a numeric literal.
pub fn number_notation(n: &Number) -> (r: String)
    ensures
        r@ == literal_text(n@),
{
    let mut out = String::new();
    if n.negative {
        out.append("-");
    }
    out.append(n.whole.as_str());
    if n.fraction.as_str().unicode_len() > 0 {
        let ghost before = out@;
        out.append(".");
        out.append(n.fraction.as_str());
        assert(out@ =~= before + ("."@ + n.fraction@));
    } else {
        assert(out@ =~= out@ + Seq::<char>::empty());
    }
    match n.scale {
        Scale::One => {
            assert(out@ =~= out@ + Seq::<char>::empty());
        },
        Scale::Thousand => {
            out.append("e3");
        },
        Scale::Million => {
            out.append("e6");
        },
        Scale::Billion => {
            out.append("e9");
        },
    }
    assert(out@ =~= literal_text(n@));
    out
}

/// The text that stands for an element of a list typed as numbers: the
/// literal's own notation, or zero for an element of another kind.
pub open spec fn number_element(l: LiteralView) -> Seq<char> {
    match l {
        LiteralView::Number(n) => literal_text(n),
        _ => "0"@,
    }
}

/// The text that stands for an element of a list typed as strings: the
/// string itself, or the empty string for an element of another kind.
pub open spec fn text_element(l: LiteralView) -> Seq<char> {
    match l {
        LiteralView::String(s) => s,
        _ => Seq::empty(),
    }
}

/// The value that stands for an element of a list typed as booleans: the
/// boolean itself, or false for an element of another kind.
pub open spec fn bool_element(l: LiteralView) -> bool {
    match l {
        LiteralView::Boolean(b) => b,
        _ => false,
    }
}

/// The elements of a list typed as numbers, each in decimal notation.
pub fn number_elements(items: &Vec<Literal>) -> (r: Vec<String>)
    ensures
        r.len() == items.len(),
        forall|i: int| 0 <= i < items.len() ==> (#[trigger] r@[i])@ == number_element(items@[i]@),
{
    let mut out: Vec<String> = Vec::new();
    let mut i: usize = 0;
    while i < items.len()
        invariant
            i <= items.len(),
            out.len() == i,
            forall|j: int| 0 <= j < i ==> (#[trigger] out@[j])@ == number_element(items@[j]@),
        decreases items.len() - i,
    {
        let t = match &items[i] {
            Literal::Number(n) => number_notation(n),
            _ => String::from_str("0"),
        };
        out.push(t);
        i += 1;
    }
    out
}

/// The elements of a list typed as strings.
pub fn text_elements(items: &Vec<Literal>) -> (r: Vec<Option<String>>)
    ensures
        r.len() == items.len(),
        forall|i: int|
            0 <= i < items.len() ==> row_view(#[trigger] r@[i]) == Some(
                text_element(items@[i]@),
            ),
{
    let mut out: Vec<Option<String>> = Vec::new();
    let mut i: usize = 0;
    while i < items.len()
        invariant
            i <= items.len(),
            out.len() == i,
            forall|j: int|
                0 <= j < i ==> row_view(#[trigger] out@[j]) == Some(
                    text_element(items@[j]@),
                ),
        decreases items.len() - i,
    {
        let t = match &items[i] {
            Literal::String(s) => s.clone(),
            _ => String::new(),
        };
        out.push(Some(t));
        i += 1;
    }
    out
}

/// The elements of a list typed as booleans.
pub fn bool_elements(items: &Vec<Literal>) -> (r: Vec<bool>)
    ensures
        r.len() == items.len(),
        forall|i: int| 0 <= i < items.len() ==> #[trigger] r@[i] == bool_element(items@[i]@),
{
    let mut out: Vec<bool> = Vec::new();
    let mut i: usize = 0;
    while i < items.len()
        invariant
            i <= items.len(),
            out.len() == i,
            forall|j: int| 0 <= j < i ==> #[trigger] out@[j] == bool_element(items@[j]@),
        decreases items.len() - i,
    {
        let b = match &items[i] {
            Literal::Boolean(b) => *b,
            _ => false,
        };
        out.push(b);
        i += 1;
    }
    out
}

/// The elements of a list typed as numbers, each in decimal notation.
pub open spec fn number_texts(items: Seq<LiteralView>) -> Seq<Seq<char>> {
    Seq::new(items.len(), |i: int| number_element(items[i]))
}

/// The elements of a list typed as strings.
pub open spec fn text_rows_of(items: Seq<LiteralView>) -> Seq<Option<Seq<char>>> {
    Seq::new(items.len(), |i: int| Some(text_element(items[i])))
}

/// The elements of a list typed as booleans.
pub open spec fn bool_rows_of(items: Seq<LiteralView>) -> Seq<bool> {
    Seq::new(items.len(), |i: int| bool_element(items[i]))
}

/// The column of a literal on `len` rows: one row made of the literal,
/// repeated; for a null, `len` nulls.
pub open spec fn literal_value(l: LiteralView, len: usize) -> Result<Series, ErrorView> {
    match l {
        LiteralView::Number(n) => match numbers_series("literal"@, seq![literal_text(n)]) {
            Some(one) => Ok(row_repeated(one, 0, len)),
            None => Err(ErrorView::PolarsError),
        },
        LiteralView::String(t) => Ok(
            row_repeated(texts_series("literal"@, seq![Some(t)]), 0, len),
        ),
        LiteralView::Boolean(b) => Ok(row_repeated(bools_series("literal"@, seq![b]), 0, len)),
        LiteralView::Null => Ok(nulls_series("literal"@, len)),
    }
}

/// The column of a list literal: typed by its first element.
pub open spec fn list_value(items: Seq<LiteralView>) -> Result<Series, ErrorView> {
    if items.len() == 0 {
        Ok(no_rows_series("list"@))
    } else {
        match items[0] {
            LiteralView::Number(_) => match numbers_series("list"@, number_texts(items)) {
                Some(s) => Ok(s),
                None => Err(ErrorView::PolarsError),
            },
            LiteralView::String(_) => Ok(texts_series("list"@, text_rows_of(items))),
            LiteralView::Boolean(_) => Ok(bools_series("list"@, bool_rows_of(items))),
            LiteralView::Null => Ok(nulls_series("list"@, items.len() as usize)),
        }
    }
}

/// What is known of the column of a literal on `len` rows: every row holds
/// the literal.
pub open spec fn is_literal_value(s: Series, l: LiteralView, len: nat) -> bool {
    &&& series_len(s) == len
    &&& series_name(s) == "literal"@
    &&& l matches LiteralView::String(t) ==> series_dtype(s) == Dtype::String && series_texts(s)
        == Seq::new(len, |i: int| Some(t)) && series_nulls(s) == Seq::new(len, |i: int| false)
    &&& l matches LiteralView::Boolean(b) ==> series_dtype(s) == Dtype::Boolean && series_bools(
        s,
    ) == Seq::new(len, |i: int| Some(b)) && series_nulls(s) == Seq::new(len, |i: int| false)
    &&& l is Number ==> series_dtype(s) == Dtype::Float64
    &&& l is Null ==> series_nulls(s) == Seq::new(len, |i: int| true)
}

/// What is known of the column of a list literal.
pub open spec fn is_list_value(s: Series, items: Seq<LiteralView>) -> bool {
    &&& series_len(s) == items.len()
    &&& series_name(s) == "list"@
    &&& items.len() > 0 && items[0] is String ==> series_dtype(s) == Dtype::String
        && series_texts(s) == text_rows_of(items)
    &&& items.len() > 0 && items[0] is Boolean ==> series_dtype(s) == Dtype::Boolean
        && series_bools(s) == bool_rows_of(items).map_values(|b: bool| Some(b))
    &&& items.len() > 0 && items[0] is Number ==> series_dtype(s) == Dtype::Float64
    &&& items.len() > 0 && items[0] is Null ==> series_nulls(s) == Seq::new(
        items.len(),
        |i: int| true,
    )
}

impl Executor {
    /// A literal repeated on `len` rows, under the name `literal`.
    pub fn literal_to_series(&self, lit: &Literal, len: usize) -> (r: Result<
        Series,
        DtransformError,
    >)
        ensures
            same_result(r, literal_value(lit@, len)),
            !(lit@ is Number) ==> r is Ok,
            r matches Ok(s) ==> is_literal_value(s, lit@, len as nat),
    {
        match lit {
            Literal::Number(n) => {
                let mut texts: Vec<String> = Vec::new();
                texts.push(number_notation(n));
                assert(text_views(texts@) =~= seq![literal_text(n@)]);
                match number_series("literal", &texts) {
                    Ok(one) => Ok(repeat_row(&one, 0, len)),
                    Err(e) => Err(DtransformError::PolarsError(e)),
                }
            },
            Literal::String(s) => {
                let mut rows: Vec<Option<String>> = Vec::new();
                rows.push(Some(s.clone()));
                assert(row_views(rows@) =~= seq![Some(s@)]);
                let one = text_series("literal", &rows);
                let out = repeat_row(&one, 0, len);
                assert(series_texts(out) =~= Seq::new(len as nat, |i: int| Some(s@)));
                assert(series_nulls(out) =~= Seq::new(len as nat, |i: int| false));
                Ok(out)
            },
            Literal::Boolean(b) => {
                let mut rows: Vec<bool> = Vec::new();
                rows.push(*b);
                assert(rows@ =~= seq![*b]);
                let one = bool_series("literal", &rows);
                let out = repeat_row(&one, 0, len);
                assert(series_bools(out) =~= Seq::new(len as nat, |i: int| Some(*b)));
                assert(series_nulls(out) =~= Seq::new(len as nat, |i: int| false));
                Ok(out)
            },
            Literal::Null => Ok(null_series("literal", len)),
        }
    }

    /// A list literal as a series named `list`, with one row for each
    /// element. The first element gives the type; an element of another kind
    /// becomes that type's default (zero, the empty string, false).
    pub fn list_to_series(&self, items: &Vec<Literal>) -> (r: Result<Series, DtransformError>)
        ensures
            same_result(r, list_value(literal_views(items@))),
            !(items.len() > 0 && items@[0]@ is Number) ==> r is Ok,
            r matches Ok(s) ==> is_list_value(s, literal_views(items@)),
    {
        let ghost views = literal_views(items@);
        assert(views.len() == items.len());
        assert(forall|i: int| 0 <= i < items.len() ==> #[trigger] views[i] == items@[i]@);
        if items.len() == 0 {
            return Ok(empty_series("list"));
        }
        match &items[0] {
            Literal::Number(_) => {
                let texts = number_elements(items);
                assert(text_views(texts@) =~= number_texts(views));
                match number_series("list", &texts) {
                    Ok(s) => Ok(s),
                    Err(e) => Err(DtransformError::PolarsError(e)),
                }
            },
            Literal::String(_) => {
                let rows = text_elements(items);
                assert(row_views(rows@) =~= text_rows_of(views)) by {
                    assert forall|i: int| 0 <= i < items.len() implies #[trigger] row_views(
                        rows@,
                    )[i] == Some(text_element(views[i])) by {
                        assert(row_views(rows@)[i] == row_view(rows@[i]));
                    }
                }
                Ok(text_series("list", &rows))
            },
            Literal::Boolean(_) => {
                let rows = bool_elements(items);
                assert(rows@ =~= bool_rows_of(views));
                Ok(bool_series("list", &rows))
            },
            Literal::Null => Ok(null_series("list", items.len())),
        }
    }
}

} // verus!
