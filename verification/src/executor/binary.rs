//! Binary operators on two evaluated columns.

use vstd::prelude::*;
use polars::series::Series;
use crate::ast::BinOp;
use crate::error::{DtransformError, ErrorView};
use crate::executor::Executor;
use crate::frame::{
    as_floats, bool_rows, bool_series, bools_series, cast_float, dtype_debug, dtype_of,
    dtype_text, length, null_rows, number_series, numbers_series, repeat_row,
    row_repeated, row_views, series_add, series_and, series_at_least, series_at_most,
    series_bools, series_both, series_difference, series_differing, series_div, series_dtype,
    series_either, series_equal, series_greater, series_gt, series_gt_eq, series_len,
    series_less, series_lt, series_lt_eq, series_mul, series_name, series_not_equal,
    series_nulls, series_or, series_product, series_quotient, series_same, series_sub,
    series_sum, series_texts, text_rows, text_series, text_views, texts_series, Dtype,
};
use crate::rows::{concat_row, concat_rows, is_member, membership_rows, row_view};

verus! {

/// Whether a result is the value that was to come: the value itself, or a
/// failure with the view that was to come.
pub open spec fn same_result<T>(r: Result<T, DtransformError>, v: Result<T, ErrorView>) -> bool {
    match v {
        Ok(t) => r == Ok::<T, DtransformError>(t),
        Err(e) => r matches Err(x) && x@ == e,
    }
}

/// The named result of an engine call as a result of the library: a failure
/// of the engine where there is no value.
pub open spec fn from_engine<T>(named: Option<T>) -> Result<T, ErrorView> {
    match named {
        Some(t) => Ok(t),
        None => Err(ErrorView::PolarsError),
    }
}

/// The rows of the concatenation of two string columns, over the rows that
/// both have; null with anything is null.
pub open spec fn concat_texts(left: Seq<Option<Seq<char>>>, right: Seq<Option<Seq<char>>>) -> Seq<
    Option<Seq<char>>,
> {
    Seq::new(
        if left.len() <= right.len() {
            left.len()
        } else {
            right.len()
        },
        |i: int| concat_row(left[i], right[i]),
    )
}

/// For every row of `left`, whether its value is among the rows of `right`;
/// a null is found only by a null.
pub open spec fn membership_bools(left: Seq<Option<Seq<char>>>, right: Seq<Option<Seq<char>>>) -> Seq<
    bool,
> {
    Seq::new(left.len(), |i: int| is_member(left[i], right))
}

/// The element types on which `in` compares numbers.
pub open spec fn compares_as_number(d: Dtype) -> bool {
    d == Dtype::Int64 || d == Dtype::Int32 || d == Dtype::Float64 || d == Dtype::Float32
}

/// Whether a row of the left column is near the value under comparison: the
/// engine found the difference below the tolerance and above its negative.
pub open spec fn is_near(below: Seq<Option<bool>>, above: Seq<Option<bool>>, i: int) -> bool {
    0 <= i < below.len() && i < above.len() && below[i] == Some(true) && above[i] == Some(true)
}

/// A mask with the near rows marked as well.
pub open spec fn with_near(mask: Seq<bool>, below: Seq<Option<bool>>, above: Seq<Option<bool>>) -> Seq<
    bool,
> {
    Seq::new(mask.len(), |i: int| mask[i] || is_near(below, above, i))
}

/// A mask with the null rows marked as well.
pub open spec fn with_nulls(mask: Seq<bool>, nulls: Seq<bool>) -> Seq<bool> {
    Seq::new(mask.len(), |i: int| mask[i] || (i < nulls.len() && nulls[i]))
}

/// The two bounds of the tolerance of numeric membership, the distance from
/// 1 to the next 64-bit float and its negative, as a series of two rows.
pub open spec fn tolerance() -> Option<Series> {
    numbers_series("tolerance"@, seq!["2.220446049250313e-16"@, "-2.220446049250313e-16"@])
}

/// The mask of numeric membership once the rows of `rhs` from index `j` on
/// have been compared: a null row of `rhs` marks the null rows of `lhs`; any
/// other row marks the rows of `lhs` whose difference from it the engine finds
/// below `upper` and above `lower`. `None` where the engine fails.
pub open spec fn marked_from(
    lhs: Series,
    rhs: Series,
    upper: Series,
    lower: Series,
    mask: Seq<bool>,
    j: int,
) -> Option<Seq<bool>>
    decreases series_len(rhs) - j,
{
    if j < 0 || j >= series_len(rhs) || j >= series_nulls(rhs).len() {
        Some(mask)
    } else if series_nulls(rhs)[j] {
        marked_from(lhs, rhs, upper, lower, with_nulls(mask, series_nulls(lhs)), j + 1)
    } else {
        match series_difference(lhs, row_repeated(rhs, j as usize, mask.len() as usize)) {
            None => None,
            Some(diff) => match series_less(diff, upper) {
                None => None,
                Some(below) => match series_greater(diff, lower) {
                    None => None,
                    Some(above) => marked_from(
                        lhs,
                        rhs,
                        upper,
                        lower,
                        with_near(mask, series_bools(below), series_bools(above)),
                        j + 1,
                    ),
                },
            },
        }
    }
}

/// The mask of numeric membership: both columns are compared as 64-bit
/// floats, row by row of the right column.
pub open spec fn numeric_mask(left: Series, right: Series) -> Option<Seq<bool>> {
    match as_floats(left) {
        None => None,
        Some(lhs) => match as_floats(right) {
            None => None,
            Some(rhs) => match tolerance() {
                None => None,
                Some(bounds) => marked_from(
                    lhs,
                    rhs,
                    row_repeated(bounds, 0, series_len(lhs) as usize),
                    row_repeated(bounds, 1, series_len(lhs) as usize),
                    Seq::new(series_len(lhs), |i: int| false),
                    0,
                ),
            },
        },
    }
}

/// The value of numeric membership.
pub open spec fn numeric_value(left: Series, right: Series) -> Result<Series, ErrorView> {
    match numeric_mask(left, right) {
        Some(mask) => Ok(bools_series(""@, mask)),
        None => Err(ErrorView::PolarsError),
    }
}

/// Whether two columns can be combined row by row: they have the same
/// length, or one of them has a single row.
pub open spec fn lengths_fit(left: Series, right: Series) -> bool {
    series_len(left) == series_len(right) || series_len(left) == 1 || series_len(right) == 1
}

/// The message for boolean operands whose lengths do not fit.
pub open spec fn lengths_message() -> Seq<char> {
    "Boolean operands must have the same number of rows, or one of them a single row"@
}

/// The value of a binary operator on two columns.
///
/// `+` on two string columns joins them row by row. `and` and `or` need
/// operands whose lengths fit. `in` compares strings exactly and numbers
/// within a tolerance, and rejects a left operand of any other type.
/// Everything else is the table engine's arithmetic or comparison.
pub open spec fn binary_value(left: Series, op: BinOp, right: Series) -> Result<Series, ErrorView> {
    match op {
        BinOp::Add => if series_dtype(left) == Dtype::String && series_dtype(right)
            == Dtype::String {
            Ok(texts_series("concat"@, concat_texts(series_texts(left), series_texts(right))))
        } else {
            from_engine(series_sum(left, right))
        },
        BinOp::Sub => from_engine(series_difference(left, right)),
        BinOp::Mul => from_engine(series_product(left, right)),
        BinOp::Div => from_engine(series_quotient(left, right)),
        BinOp::Gt => from_engine(series_greater(left, right)),
        BinOp::Lt => from_engine(series_less(left, right)),
        BinOp::Gte => from_engine(series_at_least(left, right)),
        BinOp::Lte => from_engine(series_at_most(left, right)),
        BinOp::Eq => from_engine(series_same(left, right)),
        BinOp::Neq => from_engine(series_differing(left, right)),
        BinOp::And => if lengths_fit(left, right) {
            from_engine(series_both(left, right))
        } else {
            Err(ErrorView::InvalidOperation(lengths_message()))
        },
        BinOp::Or => if lengths_fit(left, right) {
            from_engine(series_either(left, right))
        } else {
            Err(ErrorView::InvalidOperation(lengths_message()))
        },
        BinOp::In => if series_dtype(left) == Dtype::String {
            if series_dtype(right) == Dtype::String {
                Ok(
                    bools_series(
                        ""@,
                        membership_bools(series_texts(left), series_texts(right)),
                    ),
                )
            } else {
                Err(ErrorView::PolarsError)
            }
        } else if compares_as_number(series_dtype(left)) {
            numeric_value(left, right)
        } else {
            Err(
                ErrorView::TypeMismatch {
                    expected: "String or Number"@,
                    got: dtype_debug(left),
                },
            )
        },
    }
}

/// Whether an operator gives a boolean column.
pub open spec fn gives_booleans(op: BinOp) -> bool {
    op == BinOp::Gt || op == BinOp::Lt || op == BinOp::Gte || op == BinOp::Lte || op == BinOp::Eq
        || op == BinOp::Neq || op == BinOp::And || op == BinOp::Or || op == BinOp::In
}

/// What is known of the column `s` that a binary operator made of `left`
/// and `right`, beyond its being the engine's result.
pub open spec fn is_binary_result(s: Series, left: Series, op: BinOp, right: Series) -> bool {
    &&& op == BinOp::Add && series_dtype(left) == Dtype::String && series_dtype(right)
        == Dtype::String ==> series_name(s) == "concat"@ && series_dtype(s) == Dtype::String
        && series_texts(s) == concat_texts(series_texts(left), series_texts(right))
    &&& gives_booleans(op) ==> series_dtype(s) == Dtype::Boolean
    &&& op == BinOp::In && series_dtype(left) == Dtype::String ==> series_bools(s)
        == membership_bools(series_texts(left), series_texts(right)).map_values(
        |b: bool| Some(b),
    )
    &&& op == BinOp::In ==> series_len(s) == series_len(left) && series_bools(s).len()
        == series_len(left) && forall|i: int|
        0 <= i < series_len(left) ==> (#[trigger] series_bools(s)[i]) is Some
}

/// Marks the rows that are near the value under comparison: those whose
/// difference from it is below the tolerance and above its negative.
pub fn mark_near(mask: &mut Vec<bool>, below: &Vec<Option<bool>>, above: &Vec<Option<bool>>)
    ensures
        final(mask)@ == with_near(old(mask)@, below@, above@),
{
    let mut i: usize = 0;
    while i < mask.len()
        invariant
            i <= mask.len(),
            mask.len() == old(mask).len(),
            forall|k: int|
                0 <= k < i ==> #[trigger] mask@[k] == (old(mask)@[k] || is_near(
                    below@,
                    above@,
                    k,
                )),
            forall|k: int| i <= k < mask.len() ==> #[trigger] mask@[k] == old(mask)@[k],
        decreases mask.len() - i,
    {
        if i < below.len() && i < above.len() {
            let near = match (below[i], above[i]) {
                (Some(true), Some(true)) => true,
                _ => false,
            };
            if near {
                mask.set(i, true);
            }
        }
        i += 1;
    }
    assert(mask@ =~= with_near(old(mask)@, below@, above@));
}

/// Marks the rows that are null: a null value under comparison is found by
/// exactly the null rows.
pub fn mark_null(mask: &mut Vec<bool>, nulls: &Vec<bool>)
    ensures
        final(mask)@ == with_nulls(old(mask)@, nulls@),
{
    let mut i: usize = 0;
    while i < mask.len()
        invariant
            i <= mask.len(),
            mask.len() == old(mask).len(),
            forall|k: int|
                0 <= k < i ==> #[trigger] mask@[k] == (old(mask)@[k] || (k < nulls.len()
                    && nulls@[k])),
            forall|k: int| i <= k < mask.len() ==> #[trigger] mask@[k] == old(mask)@[k],
        decreases mask.len() - i,
    {
        if i < nulls.len() && nulls[i] {
            mask.set(i, true);
        }
        i += 1;
    }
    assert(mask@ =~= with_nulls(old(mask)@, nulls@));
}

/// `len` times false.
fn all_false(len: usize) -> (r: Vec<bool>)
    ensures
        r@ == Seq::new(len as nat, |i: int| false),
{
    let mut out: Vec<bool> = Vec::new();
    let mut i: usize = 0;
    while i < len
        invariant
            i <= len,
            out.len() == i,
            forall|k: int| 0 <= k < i ==> !(#[trigger] out@[k]),
        decreases len - i,
    {
        out.push(false);
        i += 1;
    }
    assert(out@ =~= Seq::new(len as nat, |i: int| false));
    out
}

/// A table-engine failure as a failure of the library.
pub fn engine_failure<T>(r: Result<T, polars::error::PolarsError>) -> (out: Result<
    T,
    DtransformError,
>)
    ensures
        match r {
            Ok(v) => out == Ok::<T, DtransformError>(v),
            Err(_) => out matches Err(e) && e@ is PolarsError,
        },
{
    match r {
        Ok(v) => Ok(v),
        Err(e) => Err(DtransformError::PolarsError(e)),
    }
}

impl Executor {
    /// Numeric membership: both columns are compared as 64-bit floats; a row
    /// of `left` is found when it differs from some row of `right` by less than
    /// the tolerance, or when it is null and so is some row of `right`.
    fn numeric_membership(&self, left: &Series, right: &Series) -> (r: Result<
        Series,
        DtransformError,
    >)
        ensures
            same_result(r, numeric_value(*left, *right)),
            r matches Ok(s) ==> series_dtype(s) == Dtype::Boolean && series_len(s) == series_len(
                *left,
            ) && series_bools(s).len() == series_len(*left) && forall|i: int|
                0 <= i < series_len(*left) ==> (#[trigger] series_bools(s)[i]) is Some,
    {
        let lhs = engine_failure(cast_float(left))?;
        let rhs = engine_failure(cast_float(right))?;
        let n = length(&lhs);
        let m = length(&rhs);
        let mut bound: Vec<String> = Vec::new();
        bound.push(String::from_str("2.220446049250313e-16"));
        bound.push(String::from_str("-2.220446049250313e-16"));
        assert(text_views(bound@) =~= seq![
            "2.220446049250313e-16"@,
            "-2.220446049250313e-16"@,
        ]);
        let bounds = engine_failure(number_series("tolerance", &bound))?;
        let upper = repeat_row(&bounds, 0, n);
        let lower = repeat_row(&bounds, 1, n);
        let left_nulls = null_rows(&lhs);
        let right_nulls = null_rows(&rhs);
        let mut mask = all_false(n);
        let ghost start = mask@;
        let mut j: usize = 0;
        while j < m
            invariant
                j <= m,
                m == series_len(rhs),
                n == series_len(lhs),
                as_floats(*left) == Some(lhs),
                as_floats(*right) == Some(rhs),
                tolerance() == Some(bounds),
                upper == row_repeated(bounds, 0, n),
                lower == row_repeated(bounds, 1, n),
                start == Seq::new(n as nat, |i: int| false),
                right_nulls@ == series_nulls(rhs),
                right_nulls.len() == m,
                left_nulls@ == series_nulls(lhs),
                mask.len() == n,
                marked_from(lhs, rhs, upper, lower, start, 0) == marked_from(
                    lhs,
                    rhs,
                    upper,
                    lower,
                    mask@,
                    j as int,
                ),
            decreases m - j,
        {
            if right_nulls[j] {
                mark_null(&mut mask, &left_nulls);
            } else {
                let value = repeat_row(&rhs, j, n);
                let diff = engine_failure(series_sub(&lhs, &value))?;
                let below = engine_failure(series_lt(&diff, &upper))?;
                let above = engine_failure(series_gt(&diff, &lower))?;
                match (bool_rows(&below), bool_rows(&above)) {
                    (Some(b), Some(a)) => {
                        mark_near(&mut mask, &b, &a);
                    },
                    _ => {
                        assert(false);
                    },
                }
            }
            j += 1;
        }
        let out = bool_series("", &mask);
        assert forall|i: int| 0 <= i < series_len(*left) implies (#[trigger] series_bools(
            out,
        )[i]) is Some by {}
        Ok(out)
    }

    /// Applies a binary operator to two evaluated columns: the result is
    /// `binary_value` of them.
    pub fn apply_binary_op(&self, left: &Series, op: &BinOp, right: &Series) -> (r: Result<
        Series,
        DtransformError,
    >)
        ensures
            same_result(r, binary_value(*left, *op, *right)),
            r matches Ok(s) ==> is_binary_result(s, *left, *op, *right),
    {
        match op {
            BinOp::Add => {
                if dtype_of(left) == Dtype::String && dtype_of(right) == Dtype::String {
                    match (text_rows(left), text_rows(right)) {
                        (Ok(l), Ok(r)) => {
                            let joined = concat_rows(&l, &r);
                            assert(row_views(joined@) =~= concat_texts(
                                series_texts(*left),
                                series_texts(*right),
                            )) by {
                                assert forall|i: int| 0 <= i < joined.len() implies #[trigger]
                                    row_views(joined@)[i] == concat_row(
                                    series_texts(*left)[i],
                                    series_texts(*right)[i],
                                ) by {
                                    assert(row_views(joined@)[i] == row_view(joined@[i]));
                                    assert(row_views(l@)[i] == row_view(l@[i]));
                                    assert(row_views(r@)[i] == row_view(r@[i]));
                                }
                            }
                            Ok(text_series("concat", &joined))
                        },
                        (Err(e), _) => Err(DtransformError::PolarsError(e)),
                        (_, Err(e)) => Err(DtransformError::PolarsError(e)),
                    }
                } else {
                    engine_failure(series_add(left, right))
                }
            },
            BinOp::Sub => engine_failure(series_sub(left, right)),
            BinOp::Mul => engine_failure(series_mul(left, right)),
            BinOp::Div => engine_failure(series_div(left, right)),
            BinOp::Gt => engine_failure(series_gt(left, right)),
            BinOp::Lt => engine_failure(series_lt(left, right)),
            BinOp::Gte => engine_failure(series_gt_eq(left, right)),
            BinOp::Lte => engine_failure(series_lt_eq(left, right)),
            BinOp::Eq => engine_failure(series_equal(left, right)),
            BinOp::Neq => engine_failure(series_not_equal(left, right)),
            BinOp::And => {
                if self.lengths_fit(left, right) {
                    engine_failure(series_and(left, right))
                } else {
                    Err(self.lengths_differ())
                }
            },
            BinOp::Or => {
                if self.lengths_fit(left, right) {
                    engine_failure(series_or(left, right))
                } else {
                    Err(self.lengths_differ())
                }
            },
            BinOp::In => {
                let kind = dtype_of(left);
                if kind == Dtype::String {
                    let l = engine_failure(text_rows(left))?;
                    let r = engine_failure(text_rows(right))?;
                    let found = membership_rows(&l, &r);
                    assert(found@ =~= membership_bools(series_texts(*left), series_texts(*right)))
                        by {
                        assert forall|i: int| 0 <= i < found.len() implies #[trigger] found@[i]
                            == is_member(series_texts(*left)[i], series_texts(*right)) by {
                            assert(row_views(l@)[i] == row_view(l@[i]));
                        }
                    }
                    let s = bool_series("", &found);
                    assert forall|i: int| 0 <= i < series_len(*left) implies (
                    #[trigger] series_bools(s)[i]) is Some by {}
                    Ok(s)
                } else if kind == Dtype::Int64 || kind == Dtype::Int32 || kind == Dtype::Float64
                    || kind == Dtype::Float32 {
                    self.numeric_membership(left, right)
                } else {
                    Err(
                        DtransformError::TypeMismatch {
                            expected: String::from_str("String or Number"),
                            got: dtype_text(left),
                        },
                    )
                }
            },
        }
    }

    /// Whether two columns can be combined row by row.
    fn lengths_fit(&self, left: &Series, right: &Series) -> (r: bool)
        ensures
            r == lengths_fit(*left, *right),
    {
        let l = length(left);
        let r = length(right);
        l == r || l == 1 || r == 1
    }

    /// The failure for boolean operands whose lengths do not fit.
    fn lengths_differ(&self) -> (r: DtransformError)
        ensures
            r@ == ErrorView::InvalidOperation(lengths_message()),
    {
        DtransformError::InvalidOperation(
            String::from_str(
                "Boolean operands must have the same number of rows, or one of them a single row",
            ),
        )
    }
}

} // verus!
