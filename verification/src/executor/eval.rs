//! The expression evaluator: an expression, a table and the variable
//! environment give a column.

use vstd::prelude::*;
use polars::frame::DataFrame;
use polars::series::Series;
use crate::ast::{
    ColumnRef, ColumnRefView, Expression, ExpressionView, LookupField, LookupFieldView,
};
use crate::error::{DtransformError, ErrorView};
use crate::executor::binary::{binary_value, from_engine, is_binary_result, same_result};
use crate::executor::columns::{
    find_name, name_at_is_contained, position_of, resolve_among, resolved_column,
};
use crate::executor::literal::{is_list_value, is_literal_value, list_value, literal_value};
use crate::executor::Executor;
use crate::frame::{
    as_floats, cast_float, column_at, column_names, dtype_debug, dtype_of, dtype_text,
    frame_column, frame_dtypes, frame_height, frame_names, gather, height, is_number, null_rows,
    number_type, row_views, rows_gathered, series_dtype, series_len, series_name, series_nulls,
    series_texts, text_rows, text_series, text_views, texts_series, Dtype,
};
use crate::pattern::{
    compile, pattern_error_text, pattern_failure, pattern_replaced, pattern_valid, regex_source,
    replace_all,
};
use crate::rows::{
    found_row, lookup_row, lookup_rows, replace_row, replace_rows, row_view, split_row,
    split_rows,
};
use crate::text::{decimal_text, join3, number_text};

verus! {

/// The message for a stored table without columns.
pub open spec fn no_columns_message(name: Seq<char>) -> Seq<char> {
    "Variable '"@ + name + "' has no columns"@
}

/// The message that sends a method call to the function-style operations.
pub open spec fn method_message(method: Seq<char>) -> Seq<char> {
    "Method '"@ + method
        + "' is not supported. Use function-based operations instead.\nExample: mutate(clean = replace(text, 'old', 'new'))"@
}

/// The message for a pattern literal that stands alone.
pub open spec fn regex_alone_message(pattern: Seq<char>) -> Seq<char> {
    "Regex pattern '"@ + pattern + "' cannot be used directly. Use it with replace() function."@
}

/// The message for a lookup field `$N` that falls on no column. `label` is
/// `on` or `return`.
pub open spec fn lookup_position_message(
    table: Seq<char>,
    width: nat,
    label: Seq<char>,
    position: nat,
) -> Seq<char> {
    "Lookup table '"@ + table + "' has "@ + decimal_text(width) + " columns, but "@ + label + "=$"@
        + decimal_text(position) + " was specified"@
}

/// The message for a lookup field that names no column of the lookup table.
pub open spec fn lookup_missing_message(table: Seq<char>, column: Seq<char>, label: Seq<char>) -> Seq<
    char,
> {
    "Lookup table '"@ + table + "' does not have column '"@ + column + "' (specified in "@ + label
        + "=)"@
}

/// The column name that a lookup field stands for in a lookup table with the
/// columns `names`.
pub open spec fn lookup_field_name(
    field: LookupFieldView,
    names: Seq<Seq<char>>,
    table: Seq<char>,
    label: Seq<char>,
) -> Result<Seq<char>, ErrorView> {
    match field {
        LookupFieldView::Name(n) => Ok(n),
        LookupFieldView::Position(p) => if p == 0 || p > names.len() {
            Err(
                ErrorView::InvalidOperation(
                    lookup_position_message(table, names.len(), label, p as nat),
                ),
            )
        } else {
            Ok(names[p - 1])
        },
    }
}

/// The two columns of a lookup, by name: the key column and the value
/// column. Both fields are resolved first, then checked to exist, `on` before
/// `return`.
pub open spec fn lookup_fields(
    table: Seq<char>,
    names: Seq<Seq<char>>,
    on: LookupFieldView,
    return_field: LookupFieldView,
) -> Result<(Seq<char>, Seq<char>), ErrorView> {
    match lookup_field_name(on, names, table, "on"@) {
        Err(e) => Err(e),
        Ok(key) => match lookup_field_name(return_field, names, table, "return"@) {
            Err(e) => Err(e),
            Ok(value) => if !names.contains(key) {
                Err(ErrorView::ColumnNotFound(lookup_missing_message(table, key, "on"@)))
            } else if !names.contains(value) {
                Err(ErrorView::ColumnNotFound(lookup_missing_message(table, value, "return"@)))
            } else {
                Ok((key, value))
            },
        },
    }
}

/// The first column of the stored table `name`.
pub open spec fn first_column_value(name: Seq<char>, table: DataFrame) -> Result<
    Series,
    ErrorView,
> {
    if frame_names(table).len() == 0 {
        Err(ErrorView::InvalidOperation(no_columns_message(name)))
    } else {
        Ok(frame_column(table, 0))
    }
}

/// The value of a column reference. A name that the environment holds reads
/// that table's first column and comes before a column of the same name.
pub open spec fn column_value(col: ColumnRefView, df: DataFrame, env: Map<Seq<char>, DataFrame>) -> Result<
    Series,
    ErrorView,
> {
    if col is Name && env.contains_key(col->Name_0) {
        first_column_value(col->Name_0, env[col->Name_0])
    } else {
        match resolved_column(col, frame_names(df)) {
            Err(e) => Err(e),
            Ok(n) => if frame_names(df).contains(n) {
                Ok(frame_column(df, position_of(frame_names(df), n, 0)))
            } else {
                Err(ErrorView::ColumnNotFound(n))
            },
        }
    }
}

/// The value of an explicit variable reference.
pub open spec fn variable_value(name: Seq<char>, env: Map<Seq<char>, DataFrame>) -> Result<
    Series,
    ErrorView,
> {
    if !env.contains_key(name) {
        Err(ErrorView::VariableNotFound(name))
    } else {
        first_column_value(name, env[name])
    }
}

/// Whether `s` is the first column of `table`.
pub open spec fn is_first_column(s: Series, table: DataFrame) -> bool {
    &&& frame_names(table).len() > 0
    &&& s == frame_column(table, 0)
    &&& series_name(s) == frame_names(table)[0]
    &&& series_dtype(s) == frame_dtypes(table)[0]
    &&& series_len(s) == frame_height(table)
}

/// Whether `s` is the column of `df` that is called `name`: the first of
/// that name.
pub open spec fn is_column_named(s: Series, df: DataFrame, name: Seq<char>) -> bool {
    let at = position_of(frame_names(df), name, 0);
    &&& 0 <= at < frame_names(df).len()
    &&& frame_names(df)[at] == name
    &&& s == frame_column(df, at)
    &&& series_name(s) == name
    &&& series_dtype(s) == frame_dtypes(df)[at]
    &&& series_len(s) == frame_height(df)
}

/// What evaluating a column reference gives when it does not fail.
pub open spec fn is_column_value(
    s: Series,
    col: ColumnRefView,
    df: DataFrame,
    env: Map<Seq<char>, DataFrame>,
) -> bool {
    if col is Name && env.contains_key(col->Name_0) {
        is_first_column(s, env[col->Name_0])
    } else {
        resolved_column(col, frame_names(df)) matches Ok(n) && is_column_named(s, df, n)
    }
}

/// The text in the first row of a column that serves as one value for all
/// rows.
pub enum Scalar {
    /// The column is not a string column.
    NotText,
    /// The column has no first row, or a null there.
    Null,
    Text(String),
}

/// The first row of a string column.
pub fn first_text(s: &Series) -> (r: Scalar)
    ensures
        match r {
            Scalar::NotText => series_dtype(*s) != Dtype::String,
            Scalar::Null => series_dtype(*s) == Dtype::String && (series_texts(*s).len() == 0
                || series_texts(*s)[0] is None),
            Scalar::Text(t) => series_dtype(*s) == Dtype::String && series_texts(*s).len() > 0
                && series_texts(*s)[0] == Some(t@),
        },
{
    match text_rows(s) {
        Err(_) => Scalar::NotText,
        Ok(rows) => {
            if rows.len() == 0 {
                return Scalar::Null;
            }
            assert(row_views(rows@)[0] == row_view(rows@[0]));
            match &rows[0] {
                Some(t) => Scalar::Text(t.clone()),
                None => Scalar::Null,
            }
        },
    }
}

/// The delimiter of a split, taken from the first row of the delimiter
/// column; the checks come in this order.
pub open spec fn split_delimiter(string: Series, delimiter: Series) -> Result<Seq<char>, ErrorView> {
    if series_dtype(delimiter) != Dtype::String {
        Err(ErrorView::InvalidOperation("Delimiter must be a string"@))
    } else if series_texts(delimiter).len() == 0 || series_texts(delimiter)[0] is None {
        Err(ErrorView::InvalidOperation("Delimiter is null"@))
    } else if series_dtype(string) != Dtype::String {
        Err(ErrorView::InvalidOperation("Split can only be applied to string columns"@))
    } else {
        Ok(series_texts(delimiter)[0]->0)
    }
}

/// The rows of a split: of every row the part of the given index.
pub open spec fn split_texts(rows: Seq<Option<Seq<char>>>, delim: Seq<char>, index: nat) -> Seq<
    Option<Seq<char>>,
> {
    Seq::new(rows.len(), |i: int| split_row(rows[i], delim, index))
}

/// The split of `string` at the delimiter in the first row of `delimiter`:
/// a string column named `split`.
pub open spec fn split_value(string: Series, delimiter: Series, index: usize) -> Result<
    Series,
    ErrorView,
> {
    match split_delimiter(string, delimiter) {
        Err(e) => Err(e),
        Ok(d) => Ok(texts_series("split"@, split_texts(series_texts(string), d, index as nat))),
    }
}

/// What is known of the split of `string` at the delimiter in the first row
/// of `delimiter`: the part of the given index in every row.
pub open spec fn is_split_result(s: Series, string: Series, delimiter: Series, index: usize) -> bool {
    split_delimiter(string, delimiter) matches Ok(d) && {
        &&& series_name(s) == "split"@
        &&& series_dtype(s) == Dtype::String
        &&& series_texts(s) == split_texts(series_texts(string), d, index as nat)
    }
}

/// Splits every row of a string column at the delimiter that stands in the
/// first row of the delimiter column, and keeps the part of the given index.
pub fn split_series(string: &Series, delimiter: &Series, index: usize) -> (r: Result<
    Series,
    DtransformError,
>)
    ensures
        same_result(r, split_value(*string, *delimiter, index)),
        r matches Ok(s) ==> is_split_result(s, *string, *delimiter, index),
{
    let delim = match first_text(delimiter) {
        Scalar::NotText => {
            return Err(
                DtransformError::InvalidOperation(String::from_str("Delimiter must be a string")),
            );
        },
        Scalar::Null => {
            return Err(DtransformError::InvalidOperation(String::from_str("Delimiter is null")));
        },
        Scalar::Text(t) => t,
    };
    match text_rows(string) {
        Err(_) => Err(
            DtransformError::InvalidOperation(
                String::from_str("Split can only be applied to string columns"),
            ),
        ),
        Ok(rows) => {
            let parts = split_rows(&rows, delim.as_str(), index);
            assert(row_views(parts@) =~= split_texts(series_texts(*string), delim@, index as nat))
                by {
                assert forall|i: int| 0 <= i < rows.len() implies #[trigger] row_views(parts@)[i]
                    == split_row(series_texts(*string)[i], delim@, index as nat) by {
                    assert(row_views(parts@)[i] == row_view(parts@[i]));
                    assert(row_views(rows@)[i] == row_view(rows@[i]));
                }
            }
            Ok(text_series("split", &parts))
        },
    }
}

/// The rows and the replacement text of a replace; the checks come in this
/// order.
pub open spec fn replacement_text(text: Series, new: Series) -> Result<Seq<char>, ErrorView> {
    if series_dtype(text) != Dtype::String {
        Err(ErrorView::InvalidOperation("replace() can only be applied to string columns"@))
    } else if series_dtype(new) != Dtype::String {
        Err(ErrorView::InvalidOperation("Replacement text must be a string"@))
    } else if series_texts(new).len() == 0 || series_texts(new)[0] is None {
        Err(ErrorView::InvalidOperation("Replacement text is null"@))
    } else {
        Ok(series_texts(new)[0]->0)
    }
}

/// The rows of the text column of a replace, and the replacement from the
/// first row of the `new` column.
pub fn replacement_inputs(text: &Series, new: &Series) -> (r: Result<
    (Vec<Option<String>>, String),
    DtransformError,
>)
    ensures
        match replacement_text(*text, *new) {
            Err(e) => r matches Err(x) && x@ == e,
            Ok(t) => r matches Ok(p) && p.1@ == t && row_views(p.0@) == series_texts(*text),
        },
{
    let rows = match text_rows(text) {
        Err(_) => {
            return Err(
                DtransformError::InvalidOperation(
                    String::from_str("replace() can only be applied to string columns"),
                ),
            );
        },
        Ok(rows) => rows,
    };
    match first_text(new) {
        Scalar::NotText => Err(
            DtransformError::InvalidOperation(String::from_str("Replacement text must be a string")),
        ),
        Scalar::Null => Err(
            DtransformError::InvalidOperation(String::from_str("Replacement text is null")),
        ),
        Scalar::Text(t) => Ok((rows, t)),
    }
}

/// The literal pattern of a replace, from the first row of the `old` column.
pub open spec fn literal_pattern(old: Series) -> Result<Seq<char>, ErrorView> {
    if series_dtype(old) != Dtype::String {
        Err(ErrorView::InvalidOperation("Pattern must be a string"@))
    } else if series_texts(old).len() == 0 || series_texts(old)[0] is None {
        Err(ErrorView::InvalidOperation("Pattern is null"@))
    } else {
        Ok(series_texts(old)[0]->0)
    }
}

/// The rows of a literal replacement: every occurrence of `old` replaced.
pub open spec fn replaced_texts(rows: Seq<Option<Seq<char>>>, old: Seq<char>, new: Seq<char>) -> Seq<
    Option<Seq<char>>,
> {
    Seq::new(rows.len(), |i: int| replace_row(rows[i], old, new))
}

/// The rows of a pattern replacement: every match of the pattern replaced.
pub open spec fn pattern_texts(rows: Seq<Option<Seq<char>>>, pattern: Seq<char>, new: Seq<char>) -> Seq<
    Option<Seq<char>>,
> {
    Seq::new(rows.len(), |i: int| pattern_row(rows[i], pattern, new))
}

/// `rows` with every occurrence of the literal text in the first row of
/// `old` replaced by `new`: a string column named `replace`.
pub open spec fn literal_replacement(rows: Seq<Option<Seq<char>>>, old: Series, new: Seq<char>) -> Result<
    Series,
    ErrorView,
> {
    match literal_pattern(old) {
        Err(e) => Err(e),
        Ok(p) => Ok(texts_series("replace"@, replaced_texts(rows, p, new))),
    }
}

/// `rows` with every match of the pattern replaced by `new`: a string column
/// named `replace`. A pattern that does not compile fails with the compiler's
/// own text after a fixed start.
pub open spec fn pattern_replacement(
    rows: Seq<Option<Seq<char>>>,
    pattern: Seq<char>,
    new: Seq<char>,
) -> Result<Series, ErrorView> {
    if pattern_valid(pattern) {
        Ok(texts_series("replace"@, pattern_texts(rows, pattern, new)))
    } else {
        Err(
            ErrorView::InvalidOperation(
                invalid_pattern_prefix(pattern) + pattern_failure(pattern),
            ),
        )
    }
}

/// What is known of a replacement with the rows `texts`.
pub open spec fn is_replacement(s: Series, texts: Seq<Option<Seq<char>>>) -> bool {
    &&& series_name(s) == "replace"@
    &&& series_dtype(s) == Dtype::String
    &&& series_texts(s) == texts
}

/// Replaces, in every row, each occurrence of the literal text in the first
/// row of `old` by `new`.
pub fn replace_literal(rows: &Vec<Option<String>>, old: &Series, new: &str) -> (r: Result<
    Series,
    DtransformError,
>)
    ensures
        same_result(r, literal_replacement(row_views(rows@), *old, new@)),
        r matches Ok(s) ==> literal_pattern(*old) matches Ok(p) && is_replacement(
            s,
            replaced_texts(row_views(rows@), p, new@),
        ),
{
    match first_text(old) {
        Scalar::NotText => Err(
            DtransformError::InvalidOperation(String::from_str("Pattern must be a string")),
        ),
        Scalar::Null => Err(DtransformError::InvalidOperation(String::from_str("Pattern is null"))),
        Scalar::Text(p) => {
            let out = replace_rows(rows, p.as_str(), new);
            assert(row_views(out@) =~= replaced_texts(row_views(rows@), p@, new@)) by {
                assert forall|i: int| 0 <= i < rows.len() implies #[trigger] row_views(out@)[i]
                    == replace_row(row_views(rows@)[i], p@, new@) by {
                    assert(row_views(out@)[i] == row_view(out@[i]));
                    assert(row_views(rows@)[i] == row_view(rows@[i]));
                }
            }
            Ok(text_series("replace", &out))
        },
    }
}

/// One row of a pattern replacement: a null stays null.
pub open spec fn pattern_row(row: Option<Seq<char>>, pattern: Seq<char>, new: Seq<char>) -> Option<
    Seq<char>,
> {
    match row {
        Some(t) => Some(pattern_replaced(pattern, t, new)),
        None => None,
    }
}

/// The start of the message for a pattern that does not compile.
pub open spec fn invalid_pattern_prefix(pattern: Seq<char>) -> Seq<char> {
    "Invalid regex pattern '"@ + pattern + "': "@
}

/// Replaces, in every row, each match of the pattern by `new`. A pattern
/// that does not compile fails with the compiler's own text after a fixed
/// start.
pub fn replace_pattern(rows: &Vec<Option<String>>, pattern: &str, new: &str) -> (r: Result<
    Series,
    DtransformError,
>)
    ensures
        same_result(r, pattern_replacement(row_views(rows@), pattern@, new@)),
        r matches Ok(s) ==> is_replacement(s, pattern_texts(row_views(rows@), pattern@, new@)),
{
    let re = match compile(pattern) {
        Ok(re) => re,
        Err(e) => {
            let head = join3("Invalid regex pattern '", pattern, "': ");
            let t = pattern_error_text(&e);
            let mut m = head;
            m.append(t.as_str());
            assert(m@ == invalid_pattern_prefix(pattern@) + pattern_failure(pattern@));
            return Err(DtransformError::InvalidOperation(m));
        },
    };
    let mut out: Vec<Option<String>> = Vec::new();
    let mut i: usize = 0;
    while i < rows.len()
        invariant
            i <= rows.len(),
            out.len() == i,
            regex_source(re) == pattern@,
            forall|j: int|
                0 <= j < i ==> row_view(#[trigger] out@[j]) == pattern_row(
                    row_view(rows@[j]),
                    pattern@,
                    new@,
                ),
        decreases rows.len() - i,
    {
        let row = match &rows[i] {
            Some(t) => Some(replace_all(&re, t.as_str(), new)),
            None => None,
        };
        out.push(row);
        i += 1;
    }
    assert(row_views(out@) =~= pattern_texts(row_views(rows@), pattern@, new@)) by {
        assert forall|i: int| 0 <= i < rows.len() implies #[trigger] row_views(out@)[i]
            == pattern_row(row_views(rows@)[i], pattern@, new@) by {
            assert(row_views(out@)[i] == row_view(out@[i]));
            assert(row_views(rows@)[i] == row_view(rows@[i]));
        }
    }
    Ok(text_series("replace", &out))
}

/// The element types that a lookup can return besides strings.
pub open spec fn is_numeric(d: Dtype) -> bool {
    is_number(d)
}

/// Whether a lookup supports the pair of key type and value type.
pub open spec fn lookup_supported(key: Dtype, value: Dtype) -> bool {
    key == Dtype::String && (value == Dtype::String || is_numeric(value))
}

/// The value that a lookup gives for one input key: the value beside the
/// last row of the table with that key and a value, or null.
pub open spec fn looked_up(
    keys: Seq<Option<Seq<char>>>,
    values: Seq<Option<Seq<char>>>,
    value_nulls: Seq<bool>,
    key: Option<Seq<char>>,
) -> Option<Seq<char>> {
    match lookup_row(keys, value_nulls, key) {
        Some(row) => values[row],
        None => None,
    }
}

/// The message for a pair of key type and value type that a lookup does not
/// support.
pub open spec fn lookup_types_message(key_col: Series, value_col: Series) -> Seq<char> {
    "Unsupported lookup type combination: key="@ + dtype_debug(key_col) + ", value="@
        + dtype_debug(value_col)
}

/// For every input key the row of the lookup table that it finds.
pub open spec fn found_rows(
    keys: Seq<Option<Seq<char>>>,
    value_nulls: Seq<bool>,
    inputs: Seq<Option<Seq<char>>>,
) -> Seq<Option<usize>> {
    Seq::new(inputs.len(), |i: int| found_row(lookup_row(keys, value_nulls, inputs[i])))
}

/// The values of a lookup taken from the rows found in `values`, the value
/// column as it is returned.
pub open spec fn lookup_found(key_col: Series, values: Series, inputs: Series) -> Result<
    Series,
    ErrorView,
> {
    if series_len(key_col) != series_len(values) {
        Err(ErrorView::InvalidOperation("Lookup columns differ in length"@))
    } else {
        from_engine(
            rows_gathered(
                values,
                found_rows(series_texts(key_col), series_nulls(values), series_texts(inputs)),
            ),
        )
    }
}

/// What a lookup of the keys in `inputs` gives in the table with the key
/// column `key_col` and the value column `value_col`. Numeric values are
/// returned as 64-bit floats.
pub open spec fn lookup_value(key_col: Series, value_col: Series, inputs: Series) -> Result<
    Series,
    ErrorView,
> {
    if !lookup_supported(series_dtype(key_col), series_dtype(value_col)) {
        Err(ErrorView::InvalidOperation(lookup_types_message(key_col, value_col)))
    } else if series_dtype(inputs) != Dtype::String {
        Err(ErrorView::TypeMismatch { expected: "String"@, got: dtype_debug(inputs) })
    } else if series_dtype(value_col) == Dtype::String {
        lookup_found(key_col, value_col, inputs)
    } else {
        match as_floats(value_col) {
            None => Err(ErrorView::PolarsError),
            Some(values) => lookup_found(key_col, values, inputs),
        }
    }
}

/// Whether a lookup is sure to give a column: string keys, string values and
/// string inputs, with as many keys as values.
pub open spec fn lookup_certain(key_col: Series, value_col: Series, inputs: Series) -> bool {
    &&& series_dtype(key_col) == Dtype::String
    &&& series_dtype(value_col) == Dtype::String
    &&& series_dtype(inputs) == Dtype::String
    &&& series_len(key_col) == series_len(value_col)
}

/// What is known of the result of a lookup of the keys in `inputs` in the
/// table with the key column `key_col` and the value column `value_col`.
pub open spec fn is_lookup_result(s: Series, key_col: Series, value_col: Series, inputs: Series) -> bool {
    &&& lookup_supported(series_dtype(key_col), series_dtype(value_col))
    &&& series_dtype(inputs) == Dtype::String
    &&& series_len(s) == series_len(inputs)
    &&& series_name(s) == series_name(value_col)
    &&& series_dtype(s) == if series_dtype(value_col) == Dtype::String {
        Dtype::String
    } else {
        Dtype::Float64
    }
    &&& series_dtype(value_col) == Dtype::String ==> series_texts(s).len() == series_texts(
        inputs,
    ).len() && forall|i: int|
        0 <= i < series_texts(inputs).len() ==> #[trigger] series_texts(s)[i] == looked_up(
            series_texts(key_col),
            series_texts(value_col),
            series_nulls(value_col),
            series_texts(inputs)[i],
        )
}

/// Takes from `values` the rows that the input keys find in the key column.
fn lookup_gather(keys: &Vec<Option<String>>, key_col: &Series, values: &Series, inputs: &Series) -> (r:
    Result<Series, DtransformError>)
    requires
        series_dtype(*key_col) == Dtype::String,
        series_dtype(*inputs) == Dtype::String,
        row_views(keys@) == series_texts(*key_col),
        keys.len() == series_len(*key_col),
    ensures
        same_result(r, lookup_found(*key_col, *values, *inputs)),
        series_len(*key_col) == series_len(*values) ==> r is Ok,
        r matches Ok(s) ==> {
            &&& series_len(s) == series_len(*inputs)
            &&& series_name(s) == series_name(*values)
            &&& series_dtype(s) == series_dtype(*values)
            &&& series_dtype(*values) == Dtype::String ==> series_texts(s).len() == series_texts(
                *inputs,
            ).len() && forall|i: int|
                0 <= i < series_texts(*inputs).len() ==> #[trigger] series_texts(s)[i]
                    == looked_up(
                    series_texts(*key_col),
                    series_texts(*values),
                    series_nulls(*values),
                    series_texts(*inputs)[i],
                )
        },
{
    let input_rows = match text_rows(inputs) {
        Ok(k) => k,
        Err(_) => {
            return Err(
                DtransformError::TypeMismatch {
                    expected: String::from_str("String"),
                    got: dtype_text(inputs),
                },
            );
        },
    };
    let value_nulls = null_rows(values);
    if keys.len() != value_nulls.len() {
        return Err(
            DtransformError::InvalidOperation(String::from_str("Lookup columns differ in length")),
        );
    }
    let found = lookup_rows(&input_rows, keys, &value_nulls);
    proof {
        assert(row_views(input_rows@).len() == input_rows.len());
        assert forall|i: int| 0 <= i < input_rows.len() implies #[trigger] found@[i] == found_row(
            lookup_row(series_texts(*key_col), series_nulls(*values), series_texts(*inputs)[i]),
        ) by {
            assert(row_views(input_rows@)[i] == row_view(input_rows@[i]));
        }
        assert(found@ =~= found_rows(
            series_texts(*key_col),
            series_nulls(*values),
            series_texts(*inputs),
        ));
    }
    match gather(values, &found) {
        Ok(out) => Ok(out),
        Err(e) => Err(DtransformError::PolarsError(e)),
    }
}

/// Looks the input keys up in the key column of a lookup table and returns,
/// row by row, the value that stands beside the key, or null.
///
/// Only string keys with string or numeric values are supported; numeric
/// values come back as 64-bit floats. The input keys must be strings.
pub fn lookup_apply(key_col: &Series, value_col: &Series, inputs: &Series) -> (r: Result<
    Series,
    DtransformError,
>)
    ensures
        same_result(r, lookup_value(*key_col, *value_col, *inputs)),
        lookup_certain(*key_col, *value_col, *inputs) ==> r is Ok,
        r matches Ok(s) ==> is_lookup_result(s, *key_col, *value_col, *inputs),
{
    let key_kind = dtype_of(key_col);
    let value_kind = dtype_of(value_col);
    let numeric = number_type(value_kind);
    if !(key_kind == Dtype::String && (value_kind == Dtype::String || numeric)) {
        let mut m = String::from_str("Unsupported lookup type combination: key=");
        m.append(dtype_text(key_col).as_str());
        m.append(", value=");
        m.append(dtype_text(value_col).as_str());
        return Err(DtransformError::InvalidOperation(m));
    }
    let keys = match text_rows(key_col) {
        Ok(k) => k,
        Err(_) => {
            return Err(
                DtransformError::TypeMismatch {
                    expected: String::from_str("String"),
                    got: dtype_text(key_col),
                },
            );
        },
    };
    if dtype_of(inputs) != Dtype::String {
        return Err(
            DtransformError::TypeMismatch {
                expected: String::from_str("String"),
                got: dtype_text(inputs),
            },
        );
    }
    if numeric {
        match cast_float(value_col) {
            Ok(values) => lookup_gather(&keys, key_col, &values, inputs),
            Err(e) => Err(DtransformError::PolarsError(e)),
        }
    } else {
        lookup_gather(&keys, key_col, value_col, inputs)
    }
}

/// The value of an expression on the table `df` with the variables `env`:
/// the operands are evaluated from left to right, and the first failure is
/// the failure of the whole.
pub open spec fn value_of(e: ExpressionView, df: DataFrame, env: Map<Seq<char>, DataFrame>) -> Result<
    Series,
    ErrorView,
>
    decreases e,
{
    match e {
        ExpressionView::Literal(l) => literal_value(l, frame_height(df) as usize),
        ExpressionView::List(items) => list_value(items),
        ExpressionView::Column(c) => column_value(c, df, env),
        ExpressionView::Variable(v) => variable_value(v, env),
        ExpressionView::BinaryOp { left, op, right } => match value_of(*left, df, env) {
            Err(e) => Err(e),
            Ok(l) => match value_of(*right, df, env) {
                Err(e) => Err(e),
                Ok(r) => binary_value(l, op, r),
            },
        },
        ExpressionView::MethodCall { object, method, args } => match value_of(*object, df, env) {
            Err(e) => Err(e),
            Ok(_) => Err(ErrorView::InvalidOperation(method_message(method))),
        },
        ExpressionView::Split { string, delimiter, index } => match value_of(*string, df, env) {
            Err(e) => Err(e),
            Ok(s) => match value_of(*delimiter, df, env) {
                Err(e) => Err(e),
                Ok(d) => split_value(s, d, index),
            },
        },
        ExpressionView::Lookup { table, key, on, return_field } => if !env.contains_key(table) {
            Err(ErrorView::VariableNotFound(table))
        } else {
            match lookup_fields(table, frame_names(env[table]), on, return_field) {
                Err(e) => Err(e),
                Ok(fields) => match value_of(*key, df, env) {
                    Err(e) => Err(e),
                    Ok(inputs) => lookup_value(
                        key_column(env[table], fields),
                        value_column(env[table], fields),
                        inputs,
                    ),
                },
            }
        },
        ExpressionView::Replace { text, old, new } => match value_of(*text, df, env) {
            Err(e) => Err(e),
            Ok(t) => match value_of(*new, df, env) {
                Err(e) => Err(e),
                Ok(n) => match replacement_text(t, n) {
                    Err(e) => Err(e),
                    Ok(with) => match *old {
                        ExpressionView::Regex(p) => pattern_replacement(series_texts(t), p, with),
                        _ => match value_of(*old, df, env) {
                            Err(e) => Err(e),
                            Ok(o) => literal_replacement(series_texts(t), o, with),
                        },
                    },
                },
            },
        },
        ExpressionView::Regex(p) => Err(ErrorView::InvalidOperation(regex_alone_message(p))),
    }
}

/// The key column of a lookup in the table `lookup`.
pub open spec fn key_column(lookup: DataFrame, fields: (Seq<char>, Seq<char>)) -> Series {
    match fields {
        (key, value) => frame_column(lookup, position_of(frame_names(lookup), key, 0)),
    }
}

/// The value column of a lookup in the table `lookup`.
pub open spec fn value_column(lookup: DataFrame, fields: (Seq<char>, Seq<char>)) -> Series {
    match fields {
        (key, value) => frame_column(lookup, position_of(frame_names(lookup), value, 0)),
    }
}

/// What is known of the value of an expression and of the values of the
/// expressions below it, as far as they were evaluated: the rows of a
/// literal, the name, type and length of a column, and the rows that the
/// library itself makes (a concatenation, a membership, a split, a
/// replacement, a lookup).
pub open spec fn described(e: ExpressionView, df: DataFrame, env: Map<Seq<char>, DataFrame>) -> bool
    decreases e,
{
    match e {
        ExpressionView::Literal(l) => match value_of(e, df, env) {
            Ok(s) => is_literal_value(s, l, frame_height(df)),
            Err(_) => l is Number,
        },
        ExpressionView::List(items) => match value_of(e, df, env) {
            Ok(s) => is_list_value(s, items),
            Err(_) => items.len() > 0 && items[0] is Number,
        },
        ExpressionView::Column(c) => match value_of(e, df, env) {
            Ok(s) => is_column_value(s, c, df, env),
            Err(_) => true,
        },
        ExpressionView::Variable(v) => match value_of(e, df, env) {
            Ok(s) => is_first_column(s, env[v]),
            Err(_) => true,
        },
        ExpressionView::BinaryOp { left, op, right } => described(*left, df, env) && match value_of(
            *left,
            df,
            env,
        ) {
            Err(_) => true,
            Ok(l) => described(*right, df, env) && match value_of(*right, df, env) {
                Err(_) => true,
                Ok(r) => match binary_value(l, op, r) {
                    Ok(s) => is_binary_result(s, l, op, r),
                    Err(_) => true,
                },
            },
        },
        ExpressionView::MethodCall { object, method, args } => described(*object, df, env),
        ExpressionView::Split { string, delimiter, index } => described(*string, df, env)
            && match value_of(*string, df, env) {
            Err(_) => true,
            Ok(s) => described(*delimiter, df, env) && match value_of(*delimiter, df, env) {
                Err(_) => true,
                Ok(d) => match split_value(s, d, index) {
                    Ok(out) => is_split_result(out, s, d, index),
                    Err(_) => true,
                },
            },
        },
        ExpressionView::Lookup { table, key, on, return_field } => env.contains_key(table) ==> (
        match lookup_fields(table, frame_names(env[table]), on, return_field) {
            Err(_) => true,
            Ok(fields) => {
                let key_col = key_column(env[table], fields);
                let value_col = value_column(env[table], fields);
                &&& is_column_named(key_col, env[table], fields.0)
                &&& is_column_named(value_col, env[table], fields.1)
                &&& described(*key, df, env)
                &&& match value_of(*key, df, env) {
                    Err(_) => true,
                    Ok(inputs) => match lookup_value(key_col, value_col, inputs) {
                        Ok(s) => is_lookup_result(s, key_col, value_col, inputs),
                        Err(_) => !lookup_certain(key_col, value_col, inputs),
                    },
                }
            },
        }),
        ExpressionView::Replace { text, old, new } => described(*text, df, env) && match value_of(
            *text,
            df,
            env,
        ) {
            Err(_) => true,
            Ok(t) => described(*new, df, env) && match value_of(*new, df, env) {
                Err(_) => true,
                Ok(n) => match replacement_text(t, n) {
                    Err(_) => true,
                    Ok(with) => match *old {
                        ExpressionView::Regex(p) => match pattern_replacement(
                            series_texts(t),
                            p,
                            with,
                        ) {
                            Ok(s) => is_replacement(s, pattern_texts(series_texts(t), p, with)),
                            Err(_) => true,
                        },
                        _ => described(*old, df, env) && match value_of(*old, df, env) {
                            Err(_) => true,
                            Ok(o) => match literal_replacement(series_texts(t), o, with) {
                                Ok(s) => literal_pattern(o) matches Ok(p) && is_replacement(
                                    s,
                                    replaced_texts(series_texts(t), p, with),
                                ),
                                Err(_) => true,
                            },
                        },
                    },
                },
            },
        },
        ExpressionView::Regex(p) => true,
    }
}

impl Executor {
    /// The first column of a stored table.
    fn first_column(&self, name: &str, table: &DataFrame) -> (r: Result<Series, DtransformError>)
        ensures
            same_result(r, first_column_value(name@, *table)),
            r matches Ok(s) ==> is_first_column(s, *table),
    {
        let names = column_names(table);
        if names.len() == 0 {
            Err(DtransformError::InvalidOperation(join3("Variable '", name, "' has no columns")))
        } else {
            Ok(column_at(table, 0))
        }
    }

    /// The column name that a lookup field stands for.
    fn lookup_field(&self, table: &str, names: &Vec<String>, field: &LookupField, label: &str) -> (r:
        Result<String, DtransformError>)
        ensures
            match lookup_field_name(field@, text_views(names@), table@, label@) {
                Ok(n) => r matches Ok(name) && name@ == n,
                Err(e) => r matches Err(x) && x@ == e,
            },
    {
        match field {
            LookupField::Name(name) => Ok(name.clone()),
            LookupField::Position(pos) => {
                if *pos == 0 || *pos > names.len() {
                    let mut m = String::from_str("Lookup table '");
                    m.append(table);
                    m.append("' has ");
                    m.append(number_text(names.len()).as_str());
                    m.append(" columns, but ");
                    m.append(label);
                    m.append("=$");
                    m.append(number_text(*pos).as_str());
                    m.append(" was specified");
                    Err(DtransformError::InvalidOperation(m))
                } else {
                    Ok(names[*pos - 1].clone())
                }
            },
        }
    }

    /// The failure for a lookup field that names no column.
    fn lookup_missing(&self, table: &str, column: &str, label: &str) -> (r: DtransformError)
        ensures
            r@ == ErrorView::ColumnNotFound(lookup_missing_message(table@, column@, label@)),
    {
        let mut m = String::from_str("Lookup table '");
        m.append(table);
        m.append("' does not have column '");
        m.append(column);
        m.append("' (specified in ");
        m.append(label);
        m.append("=)");
        DtransformError::ColumnNotFound(m)
    }

    /// The key column and the value column of a lookup, as positions in the
    /// lookup table.
    fn lookup_columns(
        &self,
        table: &str,
        lookup: &DataFrame,
        on: &LookupField,
        return_field: &LookupField,
    ) -> (r: Result<(usize, usize), DtransformError>)
        ensures
            match lookup_fields(table@, frame_names(*lookup), on@, return_field@) {
                Err(e) => r matches Err(x) && x@ == e,
                Ok(names) => r matches Ok(at) && {
                    &&& at.0 < frame_names(*lookup).len()
                    &&& at.1 < frame_names(*lookup).len()
                    &&& frame_names(*lookup)[at.0 as int] == names.0
                    &&& frame_names(*lookup)[at.1 as int] == names.1
                    &&& at.0 == position_of(frame_names(*lookup), names.0, 0)
                    &&& at.1 == position_of(frame_names(*lookup), names.1, 0)
                },
            },
    {
        let names = column_names(lookup);
        let key = self.lookup_field(table, &names, on, "on")?;
        let value = self.lookup_field(table, &names, return_field, "return")?;
        let key_at = match find_name(&names, key.as_str()) {
            Some(i) => i,
            None => {
                return Err(self.lookup_missing(table, key.as_str(), "on"));
            },
        };
        proof {
            name_at_is_contained(names@, key_at as int);
        }
        let value_at = match find_name(&names, value.as_str()) {
            Some(i) => i,
            None => {
                return Err(self.lookup_missing(table, value.as_str(), "return"));
            },
        };
        proof {
            name_at_is_contained(names@, value_at as int);
        }
        Ok((key_at, value_at))
    }

    /// The value of a column reference.
    fn column_of(&self, col_ref: &ColumnRef, df: &DataFrame) -> (r: Result<Series, DtransformError>)
        ensures
            same_result(r, column_value(col_ref@, *df, self.env())),
            r matches Ok(s) ==> is_column_value(s, col_ref@, *df, self.env()),
    {
        match col_ref {
            ColumnRef::Name(name) => {
                match self.variables.get(name.as_str()) {
                    Some(table) => {
                        return self.first_column(name.as_str(), table);
                    },
                    None => {},
                }
            },
            _ => {},
        }
        let names = column_names(df);
        let col_name = resolve_among(col_ref, &names)?;
        match find_name(&names, col_name.as_str()) {
            Some(i) => {
                proof {
                    name_at_is_contained(names@, i as int);
                }
                Ok(column_at(df, i))
            },
            None => Err(DtransformError::ColumnNotFound(col_name)),
        }
    }

    /// Evaluates an expression on a table.
    ///
    /// The result is the value of the expression: operands are evaluated
    /// from left to right, the first failure is returned, and a column comes
    /// from the table engine or from the library's own row-wise rules.
    pub fn evaluate_expression(&self, expr: &Expression, df: &DataFrame) -> (r: Result<
        Series,
        DtransformError,
    >)
        ensures
            same_result(r, value_of(expr@, *df, self.env())),
            described(expr@, *df, self.env()),
        decreases expr,
    {
        match expr {
            Expression::Literal(lit) => self.literal_to_series(lit, height(df)),
            Expression::List(items) => self.list_to_series(items),
            Expression::Column(col_ref) => self.column_of(col_ref, df),
            Expression::Variable(name) => {
                match self.variables.get(name.as_str()) {
                    Some(table) => self.first_column(name.as_str(), table),
                    None => Err(DtransformError::VariableNotFound(name.clone())),
                }
            },
            Expression::BinaryOp { left, op, right } => {
                let l = self.evaluate_expression(left, df)?;
                let r = self.evaluate_expression(right, df)?;
                self.apply_binary_op(&l, op, &r)
            },
            Expression::MethodCall { object, method, args } => {
                let _object = self.evaluate_expression(object, df)?;
                self.apply_method(method.as_str())
            },
            Expression::Split { string, delimiter, index } => {
                let s = self.evaluate_expression(string, df)?;
                let d = self.evaluate_expression(delimiter, df)?;
                split_series(&s, &d, *index)
            },
            Expression::Lookup { table, key, on, return_field } => {
                let lookup = match self.variables.get(table.as_str()) {
                    Some(t) => t,
                    None => {
                        return Err(DtransformError::VariableNotFound(table.clone()));
                    },
                };
                let at = self.lookup_columns(table.as_str(), lookup, on, return_field)?;
                let key_col = column_at(lookup, at.0);
                let value_col = column_at(lookup, at.1);
                let inputs = self.evaluate_expression(key, df)?;
                lookup_apply(&key_col, &value_col, &inputs)
            },
            Expression::Replace { text, old, new } => {
                let t = self.evaluate_expression(text, df)?;
                let n = self.evaluate_expression(new, df)?;
                let inputs = replacement_inputs(&t, &n)?;
                match &**old {
                    Expression::Regex(pattern) => {
                        assert(old@ is Regex);
                        replace_pattern(&inputs.0, pattern.as_str(), inputs.1.as_str())
                    },
                    _ => {
                        assert(!(old@ is Regex));
                        let o = self.evaluate_expression(old, df)?;
                        replace_literal(&inputs.0, &o, inputs.1.as_str())
                    },
                }
            },
            Expression::Regex(pattern) => Err(
                DtransformError::InvalidOperation(
                    join3(
                        "Regex pattern '",
                        pattern.as_str(),
                        "' cannot be used directly. Use it with replace() function.",
                    ),
                ),
            ),
        }
    }

    /// The legacy method-call form: it always fails, and points to the
    /// function-style operations.
    pub fn apply_method(&self, method: &str) -> (r: Result<Series, DtransformError>)
        ensures
            r matches Err(e) && e@ == ErrorView::InvalidOperation(method_message(method@)),
    {
        Err(
            DtransformError::InvalidOperation(
                join3(
                    "Method '",
                    method,
                    "' is not supported. Use function-based operations instead.\nExample: mutate(clean = replace(text, 'old', 'new'))",
                ),
            ),
        )
    }
}

} // verus!
