//! The table engine: polars data frames and series, reached through a small
//! set of operations whose contracts are taken on trust. Everything the
//! executor knows about a table it knows through the names declared here.
//!
//! A result of the engine that its arguments decide has a name, and the
//! operation that makes the call says that its result is the named one. What
//! the arguments do not decide has no such name: the order in which `unique`
//! hands out the rows it keeps; the bytes of a Parquet file, which follow
//! settings of the process environment; the text with which a call fails,
//! which the process environment can extend (`engine_error` is the text of a
//! failure that is at hand). Of what the JSON and the Parquet reader make of
//! bytes nothing is claimed either.
//!
//! The contracts are those of the engine as it runs by default. With
//! `POLARS_PANIC_ON_ERR` set it panics where it would otherwise return a
//! failure, and a build with debug assertions refuses to read Parquet while
//! `POLARS_PANIC_IF_PARQUET_PARSED` is set; a program should clear both before
//! its first call.

use vstd::prelude::*;
use polars::frame::DataFrame;
use polars::series::Series;
use polars::error::PolarsError;
use polars::datatypes::DataType as D;
use polars::prelude::NamedFrom;
use polars::prelude::SerReader;
use polars::prelude::SerWriter;
use polars::prelude::IntoSeries;
use polars::prelude::ChunkCompareEq;
use polars::prelude::ChunkCompareIneq;

verus! {

#[verifier::external_type_specification]
#[verifier::external_body]
pub struct ExDataFrame(DataFrame);

#[verifier::external_type_specification]
#[verifier::external_body]
pub struct ExSeries(Series);

/// The column type of a frame. No contract of this library names it; it is
/// declared because the frame's `Index` impls hand out slices of it, and Verus
/// reads those impls together with the frame.
#[verifier::external_type_specification]
#[verifier::external_body]
pub struct ExColumn(polars::frame::column::Column);

#[verifier::external_type_specification]
#[verifier::external_body]
pub struct ExPolarsError(PolarsError);

/// The element types that the executor tells apart.
#[derive(Clone, Copy, Debug, PartialEq, Eq, Structural)]
pub enum Dtype {
    Int32,
    Int64,
    Float32,
    Float64,
    Int8,
    Int16,
    UInt8,
    UInt16,
    UInt32,
    UInt64,
    String,
    Boolean,
    Date,
    Datetime,
    Other,
}

/// Which row a distinct keeps of a group of rows that agree.
#[derive(Clone, Copy, Debug, PartialEq, Eq, Structural)]
pub enum Keep {
    First,
    Last,
}

/// Whether an element type is a number: an integer or a floating-point
/// number of any width.
pub open spec fn is_number(d: Dtype) -> bool {
    d == Dtype::Int8 || d == Dtype::Int16 || d == Dtype::Int32 || d == Dtype::Int64 || d
        == Dtype::UInt8 || d == Dtype::UInt16 || d == Dtype::UInt32 || d == Dtype::UInt64 || d
        == Dtype::Float32 || d == Dtype::Float64
}

/// Whether an element type is a number.
pub fn number_type(d: Dtype) -> (r: bool)
    ensures
        r == is_number(d),
{
    d == Dtype::Int8 || d == Dtype::Int16 || d == Dtype::Int32 || d == Dtype::Int64 || d
        == Dtype::UInt8 || d == Dtype::UInt16 || d == Dtype::UInt32 || d == Dtype::UInt64 || d
        == Dtype::Float32 || d == Dtype::Float64
}

/// The column names of a frame, in column order.
pub uninterp spec fn frame_names(df: DataFrame) -> Seq<Seq<char>>;

/// The element type of each column of a frame, in column order.
pub uninterp spec fn frame_dtypes(df: DataFrame) -> Seq<Dtype>;

/// The number of rows of a frame.
pub uninterp spec fn frame_height(df: DataFrame) -> nat;

/// The name of a series.
pub uninterp spec fn series_name(s: Series) -> Seq<char>;

/// The number of rows of a series.
pub uninterp spec fn series_len(s: Series) -> nat;

/// The element type of a series.
pub uninterp spec fn series_dtype(s: Series) -> Dtype;

/// The rows of a string series; `None` is a null.
pub uninterp spec fn series_texts(s: Series) -> Seq<Option<Seq<char>>>;

/// The rows of a boolean series; `None` is a null.
pub uninterp spec fn series_bools(s: Series) -> Seq<Option<bool>>;

/// For each row of a series, whether it is null.
pub uninterp spec fn series_nulls(s: Series) -> Seq<bool>;

/// The bytes that `CsvWriter` writes for a frame with the given separator,
/// with or without a header line; none where the writer fails.
pub uninterp spec fn csv_encoding(df: DataFrame, separator: u8, header: bool) -> Option<Seq<u8>>;

/// The bytes that `JsonWriter` writes for a frame; none where it fails.
pub uninterp spec fn json_encoding(df: DataFrame) -> Option<Seq<u8>>;

/// The column at position `i` of a frame.
pub uninterp spec fn frame_column(df: DataFrame, i: int) -> Series;

/// What `DataFrame::select` makes of a frame and a list of names; `None`
/// where it fails.
pub uninterp spec fn projected(df: DataFrame, names: Seq<Seq<char>>) -> Option<DataFrame>;

/// What `DataFrame::rename` makes of a frame; `None` where it fails.
pub uninterp spec fn renamed_frame(df: DataFrame, old_name: Seq<char>, new_name: Seq<char>) -> Option<
    DataFrame,
>;

/// What `Series::with_name` makes of a series.
pub uninterp spec fn renamed_series(s: Series, name: Seq<char>) -> Series;

/// What `DataFrame::with_column` makes of a frame and a column; `None` where
/// it fails.
pub uninterp spec fn frame_with(df: DataFrame, s: Series) -> Option<DataFrame>;

/// What `DataFrame::head` gives.
pub uninterp spec fn frame_head(df: DataFrame, n: usize) -> DataFrame;

/// What `DataFrame::slice` gives.
pub uninterp spec fn frame_window(df: DataFrame, offset: usize, len: usize) -> DataFrame;

/// What `DataFrame::drop` makes of a frame; `None` where it fails.
pub uninterp spec fn frame_without(df: DataFrame, name: Seq<char>) -> Option<DataFrame>;

/// The number of rows of a frame that differ from one another on the named
/// columns, or on all columns.
pub uninterp spec fn distinct_count(df: DataFrame, subset: Option<Seq<Seq<char>>>) -> nat;

/// What a stable `DataFrame::sort` makes of a frame, the names of the keys
/// and the direction of each; `None` where it fails.
pub uninterp spec fn sorted_frame(df: DataFrame, by: Seq<Seq<char>>, descending: Seq<bool>) -> Option<
    DataFrame,
>;

/// What `DataFrame::filter` makes of a frame and a mask; `None` where it
/// fails.
pub uninterp spec fn frame_kept(df: DataFrame, mask: Series) -> Option<DataFrame>;

/// The `Debug` text of the element type of a series.
pub uninterp spec fn dtype_debug(s: Series) -> Seq<char>;

/// The text of a table-engine failure.
pub uninterp spec fn engine_error(e: PolarsError) -> Seq<char>;

/// The string series that `Series::new` makes of a name and rows.
pub uninterp spec fn texts_series(name: Seq<char>, rows: Seq<Option<Seq<char>>>) -> Series;

/// The boolean series that `Series::new` makes of a name and rows.
pub uninterp spec fn bools_series(name: Seq<char>, rows: Seq<bool>) -> Series;

/// The series of nulls that `Series::new_null` makes.
pub uninterp spec fn nulls_series(name: Seq<char>, len: usize) -> Series;

/// The series without rows that `Series::new_empty` makes.
pub uninterp spec fn no_rows_series(name: Seq<char>) -> Series;

/// The series of 64-bit floats read from decimal texts; `None` where a text
/// is no number.
pub uninterp spec fn numbers_series(name: Seq<char>, texts: Seq<Seq<char>>) -> Option<Series>;

/// What `Series::cast` to 64-bit floats gives; `None` where it fails.
pub uninterp spec fn as_floats(s: Series) -> Option<Series>;

/// What `Series::new_from_index` gives.
pub uninterp spec fn row_repeated(s: Series, index: usize, len: usize) -> Series;

/// What `Series::take` gives for row numbers within the series; `None`
/// where it fails.
pub uninterp spec fn rows_gathered(values: Series, rows: Seq<Option<usize>>) -> Option<Series>;

/// What `+` gives on two series; `None` where it fails.
pub uninterp spec fn series_sum(left: Series, right: Series) -> Option<Series>;

/// What `-` gives on two series; `None` where it fails.
pub uninterp spec fn series_difference(left: Series, right: Series) -> Option<Series>;

/// What `*` gives on two series; `None` where it fails.
pub uninterp spec fn series_product(left: Series, right: Series) -> Option<Series>;

/// What `/` gives on two series; `None` where it fails.
pub uninterp spec fn series_quotient(left: Series, right: Series) -> Option<Series>;

/// What `gt` gives on two series; `None` where it fails.
pub uninterp spec fn series_greater(left: Series, right: Series) -> Option<Series>;

/// What `lt` gives on two series; `None` where it fails.
pub uninterp spec fn series_less(left: Series, right: Series) -> Option<Series>;

/// What `gt_eq` gives on two series; `None` where it fails.
pub uninterp spec fn series_at_least(left: Series, right: Series) -> Option<Series>;

/// What `lt_eq` gives on two series; `None` where it fails.
pub uninterp spec fn series_at_most(left: Series, right: Series) -> Option<Series>;

/// What `equal` gives on two series; `None` where it fails.
pub uninterp spec fn series_same(left: Series, right: Series) -> Option<Series>;

/// What `not_equal` gives on two series; `None` where it fails.
pub uninterp spec fn series_differing(left: Series, right: Series) -> Option<Series>;

/// What `&` gives on two boolean series; `None` where either is not boolean.
pub uninterp spec fn series_both(left: Series, right: Series) -> Option<Series>;

/// What `|` gives on two boolean series; `None` where either is not boolean.
pub uninterp spec fn series_either(left: Series, right: Series) -> Option<Series>;

/// The frame that the CSV reader makes of bytes with the given settings,
/// reading on one thread; `None` where it fails.
pub uninterp spec fn csv_decoded(
    content: Seq<u8>,
    separator: u8,
    has_header: bool,
    skip_rows: usize,
) -> Option<DataFrame>;

/// Whether a call that may fail came out as its named result says: with
/// that value, or with a failure where there is none.
pub open spec fn is_outcome<T>(r: Result<T, PolarsError>, named: Option<T>) -> bool {
    match named {
        Some(t) => r == Ok::<T, PolarsError>(t),
        None => r is Err,
    }
}

/// Whether a writer came out as its named result says: with those bytes, or
/// with a failure where there are none.
pub open spec fn is_encoded(r: Result<Vec<u8>, PolarsError>, named: Option<Seq<u8>>) -> bool {
    match named {
        Some(bytes) => r matches Ok(out) && out@ == bytes,
        None => r is Err,
    }
}

/// The names of an optional subset of columns.
pub open spec fn subset_view(subset: Option<&Vec<String>>) -> Option<Seq<Seq<char>>> {
    match subset {
        Some(v) => Some(text_views(v@)),
        None => None,
    }
}

/// Whether two series hold the same rows: as many, of the same element
/// type, with the same texts, booleans and nulls.
pub open spec fn same_rows(a: Series, b: Series) -> bool {
    &&& series_len(a) == series_len(b)
    &&& series_dtype(a) == series_dtype(b)
    &&& series_texts(a) == series_texts(b)
    &&& series_bools(a) == series_bools(b)
    &&& series_nulls(a) == series_nulls(b)
}

/// Whether the series `a` holds the rows of `b` from `from` up to `to`,
/// under the same name.
pub open spec fn rows_between(a: Series, b: Series, from: int, to: int) -> bool {
    &&& series_name(a) == series_name(b)
    &&& series_dtype(a) == series_dtype(b)
    &&& series_len(a) == to - from
    &&& series_nulls(a) == series_nulls(b).subrange(from, to)
    &&& series_dtype(b) == Dtype::String ==> series_texts(a) == series_texts(b).subrange(from, to)
    &&& series_dtype(b) == Dtype::Boolean ==> series_bools(a) == series_bools(b).subrange(from, to)
}

/// Whether every column of `out` holds the rows of the column of `df` at
/// its position from `from` up to `to`.
pub open spec fn columns_between(out: DataFrame, df: DataFrame, from: int, to: int) -> bool {
    forall|j: int|
        0 <= j < frame_names(df).len() ==> rows_between(
            #[trigger] frame_column(out, j),
            frame_column(df, j),
            from,
            to,
        )
}

/// Of `rows`, those on which the mask is true, in their order.
pub open spec fn kept<T>(rows: Seq<T>, mask: Seq<Option<bool>>) -> Seq<T>
    decreases rows.len(),
{
    if rows.len() == 0 || mask.len() != rows.len() {
        Seq::empty()
    } else if mask.last() == Some(true) {
        kept(rows.drop_last(), mask.drop_last()).push(rows.last())
    } else {
        kept(rows.drop_last(), mask.drop_last())
    }
}

/// Whether the series `a` holds the rows of `b` on which the mask is true,
/// under the same name.
pub open spec fn rows_kept(a: Series, b: Series, mask: Seq<Option<bool>>) -> bool {
    &&& series_name(a) == series_name(b)
    &&& series_dtype(a) == series_dtype(b)
    &&& series_len(a) == count_kept(mask)
    &&& series_nulls(a) == kept(series_nulls(b), mask)
    &&& series_dtype(b) == Dtype::String ==> series_texts(a) == kept(series_texts(b), mask)
    &&& series_dtype(b) == Dtype::Boolean ==> series_bools(a) == kept(series_bools(b), mask)
}

/// Whether every column of `out` holds the rows of the column of `df` at
/// its position on which the mask is true.
pub open spec fn columns_kept(out: DataFrame, df: DataFrame, mask: Seq<Option<bool>>) -> bool {
    forall|j: int|
        0 <= j < frame_names(df).len() ==> rows_kept(
            #[trigger] frame_column(out, j),
            frame_column(df, j),
            mask,
        )
}

/// The position at which a column called `name` is bound in a frame: that
/// of the column of this name, or the end.
pub open spec fn bound_at(df: DataFrame, name: Seq<char>) -> int {
    if frame_names(df).contains(name) {
        frame_names(df).index_of(name)
    } else {
        frame_names(df).len() as int
    }
}

/// Whether every row number is below `len`.
pub open spec fn rows_in_bounds(rows: Seq<Option<usize>>, len: nat) -> bool {
    forall|i: int| 0 <= i < rows.len() ==> (#[trigger] rows[i] matches Some(row) ==> row < len)
}

/// Whether every name is a column of the frame and none stands twice.
pub open spec fn can_project(names: Seq<Seq<char>>, columns: Seq<Seq<char>>) -> bool {
    &&& names.no_duplicates()
    &&& forall|k: int| 0 <= k < names.len() ==> columns.contains(#[trigger] names[k])
}

/// The views of a list of texts.
pub open spec fn text_views(items: Seq<String>) -> Seq<Seq<char>> {
    items.map_values(|s: String| s@)
}

/// The views of a list of optional texts.
pub open spec fn row_views(items: Seq<Option<String>>) -> Seq<Option<Seq<char>>> {
    items.map_values(
        |o: Option<String>|
            match o {
                Some(s) => Some(s@),
                None => None,
            },
    )
}

/// The number of rows that a mask keeps: those that are `Some(true)`.
pub open spec fn count_kept(mask: Seq<Option<bool>>) -> nat
    decreases mask.len(),
{
    if mask.len() == 0 {
        0
    } else {
        count_kept(mask.drop_last()) + if mask.last() == Some(true) {
            1nat
        } else {
            0nat
        }
    }
}

/// The text of a table-engine failure, from `PolarsError`'s `Display`.
#[verifier::external_body]
pub(crate) fn engine_error_text(e: &PolarsError) -> (r: String)
    ensures
        r@ == engine_error(*e),
{
    e.to_string()
}

/// `DataFrame::clone`: the same table.
#[verifier::external_body]
pub(crate) fn copy_frame(df: &DataFrame) -> (r: DataFrame)
    ensures
        r == *df,
{
    df.clone()
}

/// `DataFrame::get_column_names`, each name as an owned string.
#[verifier::external_body]
pub(crate) fn column_names(df: &DataFrame) -> (r: Vec<String>)
    ensures
        text_views(r@) == frame_names(*df),
        r.len() == frame_dtypes(*df).len(),
{
    df.get_column_names().iter().map(|n| n.to_string()).collect()
}

/// `DataFrame::height`.
#[verifier::external_body]
pub(crate) fn height(df: &DataFrame) -> (r: usize)
    ensures
        r == frame_height(*df),
{
    df.height()
}

/// The column at position `i` of `DataFrame::columns`, as a series: it has
/// the frame's height, and the name and element type listed for that position.
#[verifier::external_body]
pub(crate) fn column_at(df: &DataFrame, i: usize) -> (r: Series)
    requires
        i < frame_names(*df).len(),
    ensures
        r == frame_column(*df, i as int),
        series_name(r) == frame_names(*df)[i as int],
        series_dtype(r) == frame_dtypes(*df)[i as int],
        series_len(r) == frame_height(*df),
{
    df.columns()[i].as_materialized_series().clone()
}

/// `DataFrame::select`: on success the frame has exactly the named columns,
/// in the order given, and the same height.
#[verifier::external_body]
pub(crate) fn project(df: &DataFrame, names: &Vec<String>) -> (r: Result<DataFrame, PolarsError>)
    ensures
        is_outcome(r, projected(*df, text_views(names@))),
        r is Ok <==> can_project(text_views(names@), frame_names(*df)),
        r matches Ok(out) ==> frame_dtypes(out).len() == names.len() && forall|k: int|
            0 <= k < names.len() ==> #[trigger] frame_dtypes(out)[k] == frame_dtypes(
                *df,
            )[frame_names(*df).index_of(text_views(names@)[k])],
        r matches Ok(out) ==> frame_names(out) == text_views(names@) && frame_height(out)
            == frame_height(*df),
        r matches Ok(out) ==> forall|k: int|
            0 <= k < names.len() ==> #[trigger] frame_column(out, k) == frame_column(
                *df,
                frame_names(*df).index_of(text_views(names@)[k]),
            ),
{
    df.select(names.iter().map(|n| n.as_str()))
}

/// `DataFrame::rename`. It succeeds without change when the two names are
/// equal; otherwise it fails when `new` is already a column or `old` is not
/// one, and else renames the column called `old`.
#[verifier::external_body]
pub(crate) fn rename_column(df: DataFrame, old_name: &str, new_name: &str) -> (r: Result<
    DataFrame,
    PolarsError,
>)
    ensures
        is_outcome(r, renamed_frame(df, old_name@, new_name@)),
        r matches Ok(out) ==> frame_dtypes(out) == frame_dtypes(df),
        r is Ok <==> (old_name@ == new_name@ || (!frame_names(df).contains(new_name@)
            && frame_names(df).contains(old_name@))),
        r matches Ok(out) ==> forall|j: int|
            0 <= j < frame_names(df).len() ==> same_rows(
                #[trigger] frame_column(out, j),
                frame_column(df, j),
            ) && (old_name@ == new_name@ || j != frame_names(df).index_of(old_name@)
                ==> frame_column(out, j) == frame_column(df, j)),
        r matches Ok(out) ==> {
            &&& frame_height(out) == frame_height(df)
            &&& frame_names(out) == if old_name@ == new_name@ {
                frame_names(df)
            } else {
                frame_names(df).update(frame_names(df).index_of(old_name@), new_name@)
            }
        },
{
    let mut out = df;
    out.rename(old_name, new_name.into())?;
    Ok(out)
}

/// `Series::with_name`: the same rows under another name.
#[verifier::external_body]
pub(crate) fn named(s: Series, name: &str) -> (r: Series)
    ensures
        r == renamed_series(s, name@),
        series_name(r) == name@,
        series_len(r) == series_len(s),
        series_dtype(r) == series_dtype(s),
        series_texts(r) == series_texts(s),
        series_bools(r) == series_bools(s),
        series_nulls(r) == series_nulls(s),
{
    s.with_name(name.into())
}

/// `DataFrame::with_column`. A frame without columns and rows takes the
/// column's length as its height. The column must have the frame's height or a
/// single row (which is repeated). It replaces the column of its name, or is
/// appended when there is none; it then holds the rows of the series, and
/// the other columns are as they were.
#[verifier::external_body]
pub(crate) fn with_column(df: DataFrame, s: Series) -> (r: Result<DataFrame, PolarsError>)
    ensures
        is_outcome(r, frame_with(df, s)),
        r matches Ok(out) ==> frame_dtypes(out) == if frame_names(df).contains(series_name(s)) {
            frame_dtypes(df).update(frame_names(df).index_of(series_name(s)), series_dtype(s))
        } else {
            frame_dtypes(df).push(series_dtype(s))
        },
        r is Ok <==> (series_len(s) == height_with(df, s) || series_len(s) == 1),
        r matches Ok(out) ==> forall|j: int|
            0 <= j < frame_names(df).len() && j != bound_at(df, series_name(s))
                ==> #[trigger] frame_column(out, j) == frame_column(df, j),
        r matches Ok(out) ==> (series_len(s) == height_with(df, s) ==> same_rows(
            frame_column(out, bound_at(df, series_name(s))),
            s,
        )),
        r matches Ok(out) ==> {
            &&& frame_height(out) == height_with(df, s)
            &&& frame_names(out) == if frame_names(df).contains(series_name(s)) {
                frame_names(df)
            } else {
                frame_names(df).push(series_name(s))
            }
        },
{
    let mut out = df;
    out.with_column(s.into())?;
    Ok(out)
}

/// The height of a frame after a column is added to it.
pub open spec fn height_with(df: DataFrame, s: Series) -> nat {
    if frame_names(df).len() == 0 && frame_height(df) == 0 {
        series_len(s)
    } else {
        frame_height(df)
    }
}

/// `DataFrame::head`: the first `n` rows, or all when there are fewer; every
/// column is cut to them.
#[verifier::external_body]
pub(crate) fn first_rows(df: &DataFrame, n: usize) -> (r: DataFrame)
    ensures
        r == frame_head(*df, n),
        frame_names(r) == frame_names(*df),
        frame_dtypes(r) == frame_dtypes(*df),
        frame_height(r) == if n <= frame_height(*df) {
            n as nat
        } else {
            frame_height(*df)
        },
        columns_between(r, *df, 0, frame_height(r) as int),
{
    df.head(Some(n))
}

/// `DataFrame::slice` from a row offset within the frame: `len` rows from
/// `offset`, or as many as are left; every column is cut to them.
#[verifier::external_body]
pub(crate) fn row_window(df: &DataFrame, offset: usize, len: usize) -> (r: DataFrame)
    requires
        offset <= frame_height(*df),
    ensures
        r == frame_window(*df, offset, len),
        frame_names(r) == frame_names(*df),
        frame_dtypes(r) == frame_dtypes(*df),
        frame_height(r) == if len <= frame_height(*df) - offset {
            len as nat
        } else {
            (frame_height(*df) - offset) as nat
        },
        columns_between(r, *df, offset as int, offset + frame_height(r)),
{
    df.slice(offset as i64, len)
}

/// `DataFrame::drop`: fails when there is no column of that name, else
/// removes it.
#[verifier::external_body]
pub(crate) fn without_column(df: &DataFrame, name: &str) -> (r: Result<DataFrame, PolarsError>)
    ensures
        is_outcome(r, frame_without(*df, name@)),
        r matches Ok(out) ==> frame_dtypes(out) == frame_dtypes(*df).remove(
            frame_names(*df).index_of(name@),
        ),
        r is Ok <==> frame_names(*df).contains(name@),
        r matches Ok(out) ==> forall|j: int|
            0 <= j < frame_names(*df).len() - 1 ==> #[trigger] frame_column(out, j)
                == frame_column(
                *df,
                if j < frame_names(*df).index_of(name@) {
                    j
                } else {
                    j + 1
                },
            ),
        r matches Ok(out) ==> {
            &&& frame_height(out) == frame_height(*df)
            &&& frame_names(out) == frame_names(*df).remove(frame_names(*df).index_of(name@))
        },
{
    df.drop(name)
}

/// `DataFrame::unique` on all columns or on the named ones, keeping of each
/// group of rows that agree on them the row that `keep` says. The columns
/// stay; one row stays of every group.
#[verifier::external_body]
pub(crate) fn distinct_rows(df: &DataFrame, subset: Option<&Vec<String>>, keep: Keep) -> (r: Result<
    DataFrame,
    PolarsError,
>)
    ensures
        r matches Ok(out) ==> frame_dtypes(out) == frame_dtypes(*df) && frame_height(out)
            == distinct_count(*df, subset_view(subset)) && distinct_count(
            out,
            subset_view(subset),
        ) == frame_height(out),
        r matches Ok(out) ==> frame_names(out) == frame_names(*df) && frame_height(out)
            <= frame_height(*df),
{
    let keep = match keep {
        Keep::First => polars::prelude::UniqueKeepStrategy::First,
        Keep::Last => polars::prelude::UniqueKeepStrategy::Last,
    };
    df.unique::<Vec<String>, String>(subset.map(|v| v.as_slice()), keep, None)
}

/// `DataFrame::sort` by the named columns, each ascending or descending as
/// its flag says; with `stable`, the order of equal rows is kept
/// (`with_maintain_order`), and the frame, the keys and the flags decide the
/// result. There is one flag for every key. The columns and the number of
/// rows stay.
#[verifier::external_body]
pub(crate) fn sorted(df: &DataFrame, by: &Vec<String>, descending: &Vec<bool>, stable: bool) -> (r:
    Result<DataFrame, PolarsError>)
    requires
        descending.len() == by.len(),
    ensures
        stable ==> is_outcome(r, sorted_frame(*df, text_views(by@), descending@)),
        r matches Ok(out) ==> frame_dtypes(out) == frame_dtypes(*df),
        r matches Ok(out) ==> frame_names(out) == frame_names(*df) && frame_height(out)
            == frame_height(*df),
{
    let options = polars::prelude::SortMultipleOptions::default().with_maintain_order(stable);
    df.sort(by.iter().map(|n| n.as_str()), options.with_order_descending_multi(descending.clone()))
}

/// `DataFrame::filter` with a boolean series as mask. It fails when the
/// series is not boolean, and succeeds with a boolean mask that has one row
/// per table row: then the rows whose mask is true are kept, in every
/// column.
#[verifier::external_body]
pub(crate) fn keep_rows(df: &DataFrame, mask: &Series) -> (r: Result<DataFrame, PolarsError>)
    ensures
        is_outcome(r, frame_kept(*df, *mask)),
        r matches Ok(out) ==> frame_dtypes(out) == frame_dtypes(*df),
        r is Ok ==> series_dtype(*mask) == Dtype::Boolean,
        series_dtype(*mask) == Dtype::Boolean && series_len(*mask) == frame_height(*df) ==> r
            is Ok,
        r matches Ok(out) ==> {
            &&& frame_names(out) == frame_names(*df)
            &&& frame_height(out) <= frame_height(*df)
            &&& series_len(*mask) == frame_height(*df) ==> frame_height(out) == count_kept(
                series_bools(*mask),
            ) && columns_kept(out, *df, series_bools(*mask))
        },
{
    df.filter(mask.bool()?)
}

/// `Series::dtype`, as one of the element types that the executor tells
/// apart; every other type of the engine is `Other`.
#[verifier::external_body]
pub(crate) fn dtype_of(s: &Series) -> (r: Dtype)
    ensures
        r == series_dtype(*s),
{
    match s.dtype() {
        D::Int8 => Dtype::Int8, D::Int16 => Dtype::Int16,
        D::Int32 => Dtype::Int32, D::Int64 => Dtype::Int64,
        D::UInt8 => Dtype::UInt8, D::UInt16 => Dtype::UInt16,
        D::UInt32 => Dtype::UInt32, D::UInt64 => Dtype::UInt64,
        D::Float32 => Dtype::Float32, D::Float64 => Dtype::Float64,
        D::String => Dtype::String,
        D::Boolean => Dtype::Boolean,
        D::Date => Dtype::Date,
        D::Datetime(_, _) => Dtype::Datetime,
        _ => Dtype::Other,
    }
}

/// The `Debug` text of `Series::dtype`.
#[verifier::external_body]
pub(crate) fn dtype_text(s: &Series) -> (r: String)
    ensures
        r@ == dtype_debug(*s),
{
    format!("{:?}", s.dtype())
}

/// `Series::len`.
#[verifier::external_body]
pub(crate) fn length(s: &Series) -> (r: usize)
    ensures
        r == series_len(*s),
{
    s.len()
}

/// The rows of a string series (`Series::str`), each as an owned string. It
/// fails exactly when the series is not a string series.
#[verifier::external_body]
pub(crate) fn text_rows(s: &Series) -> (r: Result<Vec<Option<String>>, PolarsError>)
    ensures
        r is Ok <==> series_dtype(*s) == Dtype::String,
        r matches Ok(rows) ==> row_views(rows@) == series_texts(*s) && rows.len() == series_len(
            *s,
        ),
{
    Ok(s.str()?.iter().map(|o| o.map(|t| t.to_string())).collect())
}

/// The rows of a boolean series (`Series::bool`); `None` when the series is
/// not a boolean series.
#[verifier::external_body]
pub(crate) fn bool_rows(s: &Series) -> (r: Option<Vec<Option<bool>>>)
    ensures
        r is Some <==> series_dtype(*s) == Dtype::Boolean,
        r matches Some(rows) ==> rows@ == series_bools(*s) && rows.len() == series_len(*s),
{
    let rows = s.bool().ok()?;
    Some(rows.iter().collect())
}

/// `Series::is_null`, row by row.
#[verifier::external_body]
pub(crate) fn null_rows(s: &Series) -> (r: Vec<bool>)
    ensures
        r@ == series_nulls(*s),
        r.len() == series_len(*s),
{
    s.is_null().iter().flatten().collect()
}

/// `Series::new` from optional strings: a string series with those rows.
#[verifier::external_body]
pub(crate) fn text_series(name: &str, rows: &Vec<Option<String>>) -> (r: Series)
    ensures
        r == texts_series(name@, row_views(rows@)),
        series_nulls(r) == rows@.map_values(|o: Option<String>| o is None),
        series_name(r) == name@,
        series_dtype(r) == Dtype::String,
        series_texts(r) == row_views(rows@),
        series_len(r) == rows.len(),
{
    Series::new(name.into(), rows)
}

/// `Series::new` from booleans: a boolean series with those rows, none null.
#[verifier::external_body]
pub(crate) fn bool_series(name: &str, rows: &Vec<bool>) -> (r: Series)
    ensures
        r == bools_series(name@, rows@),
        series_nulls(r) == rows@.map_values(|b: bool| false),
        series_name(r) == name@,
        series_dtype(r) == Dtype::Boolean,
        series_bools(r) == rows@.map_values(|b: bool| Some(b)),
        series_len(r) == rows.len(),
{
    Series::new(name.into(), rows)
}

/// `Series::new_null`: `len` nulls.
#[verifier::external_body]
pub(crate) fn null_series(name: &str, len: usize) -> (r: Series)
    ensures
        r == nulls_series(name@, len),
        series_nulls(r) == Seq::new(len as nat, |i: int| true),
        series_name(r) == name@,
        series_len(r) == len,
{
    Series::new_null(name.into(), len)
}

/// `Series::new_empty` of the null type: no rows.
#[verifier::external_body]
pub(crate) fn empty_series(name: &str) -> (r: Series)
    ensures
        r == no_rows_series(name@),
        series_name(r) == name@,
        series_len(r) == 0,
{
    Series::new_empty(name.into(), &polars::datatypes::DataType::Null)
}

/// A series of 64-bit floats read from decimal texts: `Series::new` on the
/// texts, then `Series::strict_cast`, which fails on a text that is no number.
#[verifier::external_body]
pub(crate) fn number_series(name: &str, texts: &Vec<String>) -> (r: Result<Series, PolarsError>)
    ensures
        is_outcome(r, numbers_series(name@, text_views(texts@))),
        r matches Ok(s) ==> series_name(s) == name@ && series_dtype(s) == Dtype::Float64
            && series_len(s) == texts.len(),
{
    Series::new(name.into(), texts).strict_cast(&polars::datatypes::DataType::Float64)
}

/// `Series::cast` to 64-bit floats.
#[verifier::external_body]
pub(crate) fn cast_float(s: &Series) -> (r: Result<Series, PolarsError>)
    ensures
        is_outcome(r, as_floats(*s)),
        r matches Ok(out) ==> series_dtype(out) == Dtype::Float64 && series_len(out) == series_len(
            *s,
        ) && series_name(out) == series_name(*s),
{
    s.cast(&polars::datatypes::DataType::Float64)
}

/// `Series::new_from_index`: `len` copies of the row at `index`.
#[verifier::external_body]
pub(crate) fn repeat_row(s: &Series, index: usize, len: usize) -> (r: Series)
    requires
        index < series_len(*s),
    ensures
        r == row_repeated(*s, index, len),
        series_nulls(r) == Seq::new(len as nat, |i: int| series_nulls(*s)[index as int]),
        series_dtype(*s) == Dtype::String ==> series_texts(r) == Seq::new(
            len as nat,
            |i: int| series_texts(*s)[index as int],
        ),
        series_dtype(*s) == Dtype::Boolean ==> series_bools(r) == Seq::new(
            len as nat,
            |i: int| series_bools(*s)[index as int],
        ),
        series_name(r) == series_name(*s),
        series_dtype(r) == series_dtype(*s),
        series_len(r) == len,
{
    s.new_from_index(index, len)
}

/// `Series::take` with optional row numbers, each below the length of
/// `values`: it tests the bounds and then succeeds. Row `i` of the result is
/// the row of `values` that `rows[i]` names, or null where it names none.
#[verifier::external_body]
pub(crate) fn gather(values: &Series, rows: &Vec<Option<usize>>) -> (r: Result<
    Series,
    PolarsError,
>)
    requires
        rows_in_bounds(rows@, series_len(*values)),
    ensures
        is_outcome(r, rows_gathered(*values, rows@)),
        r is Ok,
        r matches Ok(out) ==> {
            &&& series_name(out) == series_name(*values)
            &&& series_dtype(out) == series_dtype(*values)
            &&& series_len(out) == rows.len()
            &&& series_nulls(out).len() == rows.len()
            &&& forall|i: int|
                0 <= i < rows.len() ==> #[trigger] series_nulls(out)[i] == match rows@[i] {
                    Some(row) => series_nulls(*values)[row as int],
                    None => true,
                }
            &&& series_dtype(*values) == Dtype::String ==> series_texts(out).len() == rows.len()
                && forall|i: int|
                0 <= i < rows.len() ==> #[trigger] series_texts(out)[i] == match rows@[i] {
                    Some(row) => series_texts(*values)[row as int],
                    None => None,
                }
        },
{
    let picks: polars::prelude::IdxCa =
        rows.iter().map(|o| o.map(|i| i as polars::prelude::IdxSize)).collect();
    values.take(&picks)
}

/// `&Series + &Series`. It begins by testing the lengths: they must be the
/// same, or one of them 1.
#[verifier::external_body]
pub(crate) fn series_add(left: &Series, right: &Series) -> (r: Result<Series, PolarsError>)
    ensures
        is_outcome(r, series_sum(*left, *right)),
        r is Ok ==> series_len(*left) == series_len(*right) || series_len(*left) == 1
            || series_len(*right) == 1,
{
    left + right
}

/// `&Series - &Series`. It begins by testing the lengths: they must be the
/// same, or one of them 1.
#[verifier::external_body]
pub(crate) fn series_sub(left: &Series, right: &Series) -> (r: Result<Series, PolarsError>)
    ensures
        is_outcome(r, series_difference(*left, *right)),
        r is Ok ==> series_len(*left) == series_len(*right) || series_len(*left) == 1
            || series_len(*right) == 1,
{
    left - right
}

/// `&Series * &Series`. It begins by testing the lengths: they must be the
/// same, or one of them 1.
#[verifier::external_body]
pub(crate) fn series_mul(left: &Series, right: &Series) -> (r: Result<Series, PolarsError>)
    ensures
        is_outcome(r, series_product(*left, *right)),
        r is Ok ==> series_len(*left) == series_len(*right) || series_len(*left) == 1
            || series_len(*right) == 1,
{
    left * right
}

/// `&Series / &Series`. It begins by testing the lengths: they must be the
/// same, or one of them 1.
#[verifier::external_body]
pub(crate) fn series_div(left: &Series, right: &Series) -> (r: Result<Series, PolarsError>)
    ensures
        is_outcome(r, series_quotient(*left, *right)),
        r is Ok ==> series_len(*left) == series_len(*right) || series_len(*left) == 1
            || series_len(*right) == 1,
{
    left / right
}

/// `ChunkCompareIneq::gt` on two series: a boolean series.
#[verifier::external_body]
pub(crate) fn series_gt(left: &Series, right: &Series) -> (r: Result<Series, PolarsError>)
    ensures
        is_outcome(r, series_greater(*left, *right)),
        r matches Ok(out) ==> series_dtype(out) == Dtype::Boolean,
{
    Ok(left.gt(right)?.into_series())
}

/// `ChunkCompareIneq::lt` on two series: a boolean series.
#[verifier::external_body]
pub(crate) fn series_lt(left: &Series, right: &Series) -> (r: Result<Series, PolarsError>)
    ensures
        is_outcome(r, series_less(*left, *right)),
        r matches Ok(out) ==> series_dtype(out) == Dtype::Boolean,
{
    Ok(left.lt(right)?.into_series())
}

/// `ChunkCompareIneq::gt_eq` on two series: a boolean series.
#[verifier::external_body]
pub(crate) fn series_gt_eq(left: &Series, right: &Series) -> (r: Result<Series, PolarsError>)
    ensures
        is_outcome(r, series_at_least(*left, *right)),
        r matches Ok(out) ==> series_dtype(out) == Dtype::Boolean,
{
    Ok(left.gt_eq(right)?.into_series())
}

/// `ChunkCompareIneq::lt_eq` on two series: a boolean series.
#[verifier::external_body]
pub(crate) fn series_lt_eq(left: &Series, right: &Series) -> (r: Result<Series, PolarsError>)
    ensures
        is_outcome(r, series_at_most(*left, *right)),
        r matches Ok(out) ==> series_dtype(out) == Dtype::Boolean,
{
    Ok(left.lt_eq(right)?.into_series())
}

/// `ChunkCompareEq::equal` on two series: a boolean series.
#[verifier::external_body]
pub(crate) fn series_equal(left: &Series, right: &Series) -> (r: Result<Series, PolarsError>)
    ensures
        is_outcome(r, series_same(*left, *right)),
        r matches Ok(out) ==> series_dtype(out) == Dtype::Boolean,
{
    Ok(left.equal(right)?.into_series())
}

/// `ChunkCompareEq::not_equal` on two series: a boolean series.
#[verifier::external_body]
pub(crate) fn series_not_equal(left: &Series, right: &Series) -> (r: Result<Series, PolarsError>)
    ensures
        is_outcome(r, series_differing(*left, *right)),
        r matches Ok(out) ==> series_dtype(out) == Dtype::Boolean,
{
    Ok(left.not_equal(right)?.into_series())
}

/// `&BooleanChunked & &BooleanChunked`; it fails when either series is not
/// boolean. The two have the same length, or one of them a single row.
#[verifier::external_body]
pub(crate) fn series_and(left: &Series, right: &Series) -> (r: Result<Series, PolarsError>)
    requires
        series_len(*left) == series_len(*right) || series_len(*left) == 1 || series_len(*right)
            == 1,
    ensures
        is_outcome(r, series_both(*left, *right)),
        r is Ok ==> series_dtype(*left) == Dtype::Boolean && series_dtype(*right)
            == Dtype::Boolean,
        r matches Ok(out) ==> series_dtype(out) == Dtype::Boolean,
{
    Ok((left.bool()? & right.bool()?).into_series())
}

/// `&BooleanChunked | &BooleanChunked`; it fails when either series is not
/// boolean. The two have the same length, or one of them a single row.
#[verifier::external_body]
pub(crate) fn series_or(left: &Series, right: &Series) -> (r: Result<Series, PolarsError>)
    requires
        series_len(*left) == series_len(*right) || series_len(*left) == 1 || series_len(*right)
            == 1,
    ensures
        is_outcome(r, series_either(*left, *right)),
        r is Ok ==> series_dtype(*left) == Dtype::Boolean && series_dtype(*right)
            == Dtype::Boolean,
        r matches Ok(out) ==> series_dtype(out) == Dtype::Boolean,
{
    Ok((left.bool()? | right.bool()?).into_series())
}

/// Decodes delimited text held in memory with polars' CSV reader
/// (`CsvReadOptions`, then `finish`), on one thread (`with_n_threads`). The
/// reader cuts the bytes into chunks by the number of threads and by a least
/// size that its build fixes; with one thread, the bytes and the settings
/// decide the result of a given build of the engine.
#[verifier::external_body]
pub(crate) fn decode_csv(content: &[u8], separator: u8, has_header: bool, skip_rows: usize) -> (r:
    Result<DataFrame, PolarsError>)
    ensures
        is_outcome(r, csv_decoded(content@, separator, has_header, skip_rows)),
{
    let parse = polars::prelude::CsvParseOptions::default().with_separator(separator);
    polars::prelude::CsvReadOptions::default()
        .with_has_header(has_header)
        .with_skip_rows(skip_rows)
        .with_n_threads(Some(1))
        .with_parse_options(parse)
        .into_reader_with_file_handle(std::io::Cursor::new(content))
        .finish()
}

/// Decodes a JSON document held in memory with `JsonReader`. Nothing is
/// claimed of what comes out.
#[verifier::external_body]
pub(crate) fn decode_json(content: &Vec<u8>) -> (r: Result<DataFrame, PolarsError>)
{
    polars::prelude::JsonReader::new(std::io::Cursor::new(content.as_slice())).finish()
}

/// Decodes a Parquet file held in memory with `ParquetReader`. Nothing is
/// claimed of what comes out.
#[verifier::external_body]
pub(crate) fn decode_parquet(content: &Vec<u8>) -> (r: Result<DataFrame, PolarsError>)
{
    polars::prelude::ParquetReader::new(std::io::Cursor::new(content.clone())).finish()
}

/// Encodes a frame as delimited text with `CsvWriter`: what the writer
/// puts out for the frame, the separator and the header choice.
#[verifier::external_body]
pub(crate) fn encode_csv(df: &DataFrame, separator: u8, header: bool) -> (r: Result<
    Vec<u8>,
    PolarsError,
>)
    ensures
        is_encoded(r, csv_encoding(*df, separator, header)),
{
    let mut out: Vec<u8> = Vec::new();
    polars::prelude::CsvWriter::new(&mut out)
        .with_separator(separator)
        .include_header(header)
        .finish(&mut df.clone())?;
    Ok(out)
}

/// Encodes a frame as JSON with `JsonWriter`: what the writer puts out for
/// the frame.
#[verifier::external_body]
pub(crate) fn encode_json(df: &DataFrame) -> (r: Result<Vec<u8>, PolarsError>)
    ensures
        is_encoded(r, json_encoding(*df)),
{
    let mut out: Vec<u8> = Vec::new();
    polars::prelude::JsonWriter::new(&mut out).finish(&mut df.clone())?;
    Ok(out)
}

/// Encodes a frame as Parquet with `ParquetWriter`. Nothing is claimed of
/// the bytes: the writer reads settings from the process environment.
#[verifier::external_body]
pub(crate) fn encode_parquet(df: &DataFrame) -> (r: Result<Vec<u8>, PolarsError>)
{
    let mut out: Vec<u8> = Vec::new();
    polars::prelude::ParquetWriter::new(&mut out).finish(&mut df.clone())?;
    Ok(out)
}

} // verus!
