//! The operations of a pipeline, each from a table to a new table.

use vstd::prelude::*;
use polars::frame::DataFrame;
use polars::series::Series;
use crate::ast::{
    aliased_views, assignment_views, mapping_views, selector_views, sort_key_views, Assignment,
    AssignmentTarget, AssignmentTargetView, ColumnRefView, ColumnSelector, DistinctOp, DropOp,
    ExpressionView, FilterOp, MutateOp, RenameAllOp, RenameOp, RenameStrategy, RenameStrategyView,
    SelectOp, SelectorView, SkipOp, SliceOp, SortOp, TakeOp,
};
use crate::error::{DtransformError, ErrorView};
use crate::executor::binary::{engine_failure, from_engine, same_result};
use crate::executor::columns::{resolve_among, resolved_column};
use crate::executor::eval::{described, value_of};
use crate::executor::selector::{column_dtypes, resolve_in, resolved};
use crate::executor::Executor;
use crate::frame::{
    can_project, column_names, columns_between, columns_kept, count_kept, distinct_count, distinct_rows, first_rows,
    bound_at, frame_column, frame_dtypes, frame_head, frame_height, frame_kept, frame_names,
    frame_window, frame_with, same_rows,
    frame_without,
    height, height_with, keep_rows, named, project, projected, rename_column, renamed_frame,
    renamed_series, row_window, series_bools, series_dtype, series_len, series_name,
    series_nulls, series_texts, sorted, sorted_frame, text_views, with_column, without_column,
    Dtype, Keep,
};
use crate::rows::{replace_text, replaced};
use crate::text::{decimal_text, number_text, wide_number_text};

verus! {

/// The number of rows that `take(n)` leaves of `h`.
pub open spec fn take_height(h: nat, n: nat) -> nat {
    if n <= h {
        n
    } else {
        h
    }
}

/// The number of rows that `skip(n)` leaves of `h`.
pub open spec fn skip_height(h: nat, n: nat) -> nat {
    if n >= h {
        0
    } else {
        (h - n) as nat
    }
}

/// The number of rows that `slice(start, end)` leaves of `h`: the rows from
/// `start` up to but not including `end`, both cut off at the table's end.
pub open spec fn slice_height(h: nat, start: nat, end: nat) -> nat {
    let from = if start <= h {
        start
    } else {
        h
    };
    let wanted = if end >= from {
        (end - from) as nat
    } else {
        0
    };
    if wanted <= h - from {
        wanted
    } else {
        (h - from) as nat
    }
}

/// After `take(n)`, `skip(n)` leaves nothing: no row beyond the `n`-th comes
/// back. And `skip(n)` of a table with at most `n` rows leaves nothing.
pub proof fn take_then_skip_is_empty(h: nat, n: nat)
    ensures
        skip_height(take_height(h, n), n) == 0,
        n >= h ==> skip_height(h, n) == 0,
{
}

/// The names that the selectors from index `from` on stand for, in order and
/// behind `acc`; the first failure wins.
pub open spec fn resolved_all(
    sels: Seq<SelectorView>,
    names: Seq<Seq<char>>,
    dtypes: Seq<Dtype>,
    from: int,
    acc: Seq<Seq<char>>,
) -> Result<Seq<Seq<char>>, ErrorView>
    decreases sels.len() - from,
{
    if from < 0 || from >= sels.len() {
        Ok(acc)
    } else {
        match resolved(sels[from], names, dtypes) {
            Err(e) => Err(e),
            Ok(cols) => resolved_all(sels, names, dtypes, from + 1, acc + cols),
        }
    }
}

/// `n` times the same alias.
pub open spec fn repeated(alias: Option<Seq<char>>, n: nat) -> Seq<Option<Seq<char>>> {
    Seq::new(n, |i: int| alias)
}

/// The columns that a select projects, with the alias of each: every
/// selector's names in order, each under its selector's alias.
pub open spec fn selected(
    items: Seq<(SelectorView, Option<Seq<char>>)>,
    names: Seq<Seq<char>>,
    dtypes: Seq<Dtype>,
    from: int,
    acc: (Seq<Seq<char>>, Seq<Option<Seq<char>>>),
) -> Result<(Seq<Seq<char>>, Seq<Option<Seq<char>>>), ErrorView>
    decreases items.len() - from,
{
    if from < 0 || from >= items.len() {
        Ok(acc)
    } else {
        match resolved(items[from].0, names, dtypes) {
            Err(e) => Err(e),
            Ok(cols) => selected(
                items,
                names,
                dtypes,
                from + 1,
                (acc.0 + cols, acc.1 + repeated(items[from].1, cols.len())),
            ),
        }
    }
}

/// The column names after renaming `old` to `new`, when the engine accepts
/// it: nothing changes when the two are equal; else `new` must not be a column
/// yet and `old` must be one.
pub open spec fn renamed(names: Seq<Seq<char>>, old: Seq<char>, new: Seq<char>) -> Option<
    Seq<Seq<char>>,
> {
    if old == new {
        Some(names)
    } else if names.contains(new) || !names.contains(old) {
        None
    } else {
        Some(names.update(names.index_of(old), new))
    }
}

/// The column names after the aliases from index `from` on have been
/// applied by position; `None` when the engine refuses one.
pub open spec fn aliased(names: Seq<Seq<char>>, aliases: Seq<Option<Seq<char>>>, from: int) -> Option<
    Seq<Seq<char>>,
>
    decreases aliases.len() - from,
{
    if from < 0 || from >= aliases.len() || from >= names.len() {
        Some(names)
    } else {
        match aliases[from] {
            None => aliased(names, aliases, from + 1),
            Some(a) => match renamed(names, names[from], a) {
                None => None,
                Some(next) => aliased(next, aliases, from + 1),
            },
        }
    }
}

/// The column names after the rename mappings from index `from` on, applied
/// one after the other, so that a later mapping sees the names that an earlier
/// one made.
pub open spec fn rename_plan(
    mappings: Seq<(ColumnRefView, Seq<char>)>,
    names: Seq<Seq<char>>,
    from: int,
) -> Result<Seq<Seq<char>>, ErrorView>
    decreases mappings.len() - from,
{
    if from < 0 || from >= mappings.len() {
        Ok(names)
    } else {
        match resolved_column(mappings[from].0, names) {
            Err(e) => Err(e),
            Ok(old) => match renamed(names, old, mappings[from].1) {
                None => Err(ErrorView::PolarsError),
                Some(next) => rename_plan(mappings, next, from + 1),
            },
        }
    }
}

/// The column names after every name that the table had at first, from
/// index `from` on, has been renamed to itself with `old` replaced by `new`.
pub open spec fn replace_plan(
    initial: Seq<Seq<char>>,
    names: Seq<Seq<char>>,
    old: Seq<char>,
    new: Seq<char>,
    from: int,
) -> Result<Seq<Seq<char>>, ErrorView>
    decreases initial.len() - from,
{
    if from < 0 || from >= initial.len() {
        Ok(names)
    } else {
        match renamed(names, initial[from], replaced(initial[from], old, new)) {
            None => Err(ErrorView::PolarsError),
            Some(next) => replace_plan(initial, next, old, new, from + 1),
        }
    }
}

/// The number of names in the range `start..=end`.
pub open spec fn range_size(start: nat, end: nat) -> nat {
    if end >= start {
        (end - start + 1) as nat
    } else {
        0
    }
}

/// The message for a sequential rename whose range does not fit the table.
pub open spec fn width_message(start: nat, end: nat, width: nat) -> Seq<char> {
    "Range "@ + decimal_text(start) + ".."@ + decimal_text(end) + " ("@ + decimal_text(
        range_size(start, end),
    ) + " columns) doesn't match table width ("@ + decimal_text(width)
        + " columns). Use select() first."@
}

/// The column names after every name that the table had at first, from
/// index `from` on, has been renamed to the prefix followed by `start` plus
/// its position.
pub open spec fn sequential_plan(
    initial: Seq<Seq<char>>,
    names: Seq<Seq<char>>,
    prefix: Seq<char>,
    start: nat,
    from: int,
) -> Result<Seq<Seq<char>>, ErrorView>
    decreases initial.len() - from,
{
    if from < 0 || from >= initial.len() {
        Ok(names)
    } else {
        match renamed(names, initial[from], prefix + decimal_text((start + from) as nat)) {
            None => Err(ErrorView::PolarsError),
            Some(next) => sequential_plan(initial, next, prefix, start, from + 1),
        }
    }
}

/// The column names after a `rename_all`.
pub open spec fn rename_all_plan(strategy: RenameStrategyView, names: Seq<Seq<char>>) -> Result<
    Seq<Seq<char>>,
    ErrorView,
> {
    match strategy {
        RenameStrategyView::Replace { old, new } => replace_plan(names, names, old, new, 0),
        RenameStrategyView::Sequential { prefix, start, end } => if range_size(
            start as nat,
            end as nat,
        ) != names.len() {
            Err(
                ErrorView::InvalidOperation(
                    width_message(start as nat, end as nat, names.len()),
                ),
            )
        } else {
            sequential_plan(names, names, prefix, start as nat, 0)
        },
    }
}

/// The names of the sort keys from index `from` on, behind `acc`.
pub open spec fn sort_names(
    keys: Seq<(ColumnRefView, bool)>,
    names: Seq<Seq<char>>,
    from: int,
    acc: Seq<Seq<char>>,
) -> Result<Seq<Seq<char>>, ErrorView>
    decreases keys.len() - from,
{
    if from < 0 || from >= keys.len() {
        Ok(acc)
    } else {
        match resolved_column(keys[from].0, names) {
            Err(e) => Err(e),
            Ok(n) => sort_names(keys, names, from + 1, acc.push(n)),
        }
    }
}

/// The column names after the columns from index `from` of `gone` on have
/// been removed one at a time; removing a name that is no column (any more)
/// fails.
pub open spec fn drop_plan(names: Seq<Seq<char>>, gone: Seq<Seq<char>>, from: int) -> Result<
    Seq<Seq<char>>,
    ErrorView,
>
    decreases gone.len() - from,
{
    if from < 0 || from >= gone.len() {
        Ok(names)
    } else if !names.contains(gone[from]) {
        Err(ErrorView::PolarsError)
    } else {
        drop_plan(names.remove(names.index_of(gone[from])), gone, from + 1)
    }
}

/// The message for a mutate target `$N` that falls on no column.
pub open spec fn target_message(width: nat, position: nat) -> Seq<char> {
    "DataFrame has "@ + decimal_text(width) + " columns, but $"@ + decimal_text(position)
        + " was specified"@
}

/// The name that a mutate target stands for.
pub open spec fn target_name(target: AssignmentTargetView, names: Seq<Seq<char>>) -> Result<
    Seq<char>,
    ErrorView,
> {
    match target {
        AssignmentTargetView::Name(n) => Ok(n),
        AssignmentTargetView::Position(p) => if p == 0 || p > names.len() {
            Err(ErrorView::InvalidOperation(target_message(names.len(), p as nat)))
        } else {
            Ok(names[p - 1])
        },
    }
}

/// The column names after binding a column under `name`: it replaces the
/// column of that name, or is appended.
pub open spec fn bound(names: Seq<Seq<char>>, name: Seq<char>) -> Seq<Seq<char>> {
    if names.contains(name) {
        names
    } else {
        names.push(name)
    }
}

/// The column names after the assignments from index `from` on, when none of
/// them fails; each assignment sees the columns that the earlier ones made.
/// `None` when a target falls on no column.
pub open spec fn mutate_names(
    assignments: Seq<(AssignmentTargetView, ExpressionView)>,
    names: Seq<Seq<char>>,
    from: int,
) -> Option<Seq<Seq<char>>>
    decreases assignments.len() - from,
{
    if from < 0 || from >= assignments.len() {
        Some(names)
    } else {
        match target_name(assignments[from].0, names) {
            Err(_) => None,
            Ok(n) => mutate_names(assignments, bound(names, n), from + 1),
        }
    }
}

/// The table after one assignment: the value of the expression on the
/// table, bound under the name that the target stands for. The expression
/// is evaluated before the target is looked at.
pub open spec fn bind_value(
    assignment: (AssignmentTargetView, ExpressionView),
    table: DataFrame,
    env: Map<Seq<char>, DataFrame>,
) -> Result<DataFrame, ErrorView> {
    match value_of(assignment.1, table, env) {
        Err(e) => Err(e),
        Ok(s) => match target_name(assignment.0, frame_names(table)) {
            Err(e) => Err(e),
            Ok(n) => from_engine(frame_with(table, renamed_series(s, n))),
        },
    }
}

/// The table after the assignments from index `from` on, each on the table
/// that the one before it left; the first failure ends it.
pub open spec fn mutate_value(
    assignments: Seq<(AssignmentTargetView, ExpressionView)>,
    table: DataFrame,
    env: Map<Seq<char>, DataFrame>,
    from: int,
) -> Result<DataFrame, ErrorView>
    decreases assignments.len() - from,
{
    if from < 0 || from >= assignments.len() {
        Ok(table)
    } else {
        match bind_value(assignments[from], table, env) {
            Err(e) => Err(e),
            Ok(next) => mutate_value(assignments, next, env, from + 1),
        }
    }
}

/// The condition's mask applied to the table.
pub open spec fn filter_value(cond: ExpressionView, df: DataFrame, env: Map<Seq<char>, DataFrame>) -> Result<
    DataFrame,
    ErrorView,
> {
    match value_of(cond, df, env) {
        Err(e) => Err(e),
        Ok(mask) => from_engine(frame_kept(df, mask)),
    }
}

/// Whether every column of `df` called `name` holds booleans, and there is
/// one.
pub open spec fn is_boolean_column(df: DataFrame, name: Seq<char>) -> bool {
    &&& frame_names(df).contains(name)
    &&& forall|i: int|
        0 <= i < frame_names(df).len() && #[trigger] frame_names(df)[i] == name ==> frame_dtypes(
            df,
        )[i] == Dtype::Boolean
}

/// Whether a column reference stands for a column of the table itself: it
/// resolves to a column that the table has, and no variable takes its place.
pub open spec fn is_table_column(
    c: ColumnRefView,
    names: Seq<Seq<char>>,
    env: Map<Seq<char>, DataFrame>,
) -> bool {
    !(c is Name && env.contains_key(c->Name_0)) && (resolved_column(c, names) matches Ok(n)
        && names.contains(n))
}

/// Whether a condition gives a mask without fail, whatever the rows hold: a
/// boolean literal, or a reference to a boolean column of the table itself.
pub open spec fn surely_masks(
    cond: ExpressionView,
    df: DataFrame,
    env: Map<Seq<char>, DataFrame>,
) -> bool {
    match cond {
        ExpressionView::Literal(l) => l is Boolean,
        ExpressionView::Column(c) => is_table_column(c, frame_names(df), env) && is_boolean_column(
            df,
            resolved_column(c, frame_names(df))->Ok_0,
        ),
        _ => false,
    }
}

/// Whether an expression gives a column of the table's height without
/// fail, whatever the rows hold: a literal that is no number, or a reference
/// to a column of the table itself.
pub open spec fn surely_evaluates(
    e: ExpressionView,
    names: Seq<Seq<char>>,
    env: Map<Seq<char>, DataFrame>,
) -> bool {
    match e {
        ExpressionView::Literal(l) => !(l is Number),
        ExpressionView::Column(c) => is_table_column(c, names, env),
        _ => false,
    }
}

/// Whether the assignments from index `from` on are sure to succeed on a
/// table with the columns `names`: every expression gives its column without
/// fail, and every target falls on a column.
pub open spec fn mutate_certain(
    assignments: Seq<(AssignmentTargetView, ExpressionView)>,
    names: Seq<Seq<char>>,
    env: Map<Seq<char>, DataFrame>,
    from: int,
) -> bool
    decreases assignments.len() - from,
{
    if from < 0 || from >= assignments.len() {
        true
    } else {
        surely_evaluates(assignments[from].1, names, env) && (target_name(
            assignments[from].0,
            names,
        ) matches Ok(n) && mutate_certain(assignments, bound(names, n), env, from + 1))
    }
}

/// Whether `column` is `value` under the name `name`: the same rows.
pub open spec fn is_renamed(column: Series, value: Series, name: Seq<char>) -> bool {
    &&& series_name(column) == name
    &&& series_len(column) == series_len(value)
    &&& series_dtype(column) == series_dtype(value)
    &&& series_texts(column) == series_texts(value)
    &&& series_bools(column) == series_bools(value)
    &&& series_nulls(column) == series_nulls(value)
}

/// Whether `after` is `before` with `column` bound: the column has the
/// table's height or a single row; it replaced the column of its name or was
/// appended; the height stayed, unless the table had neither columns nor rows;
/// the other columns are as they were; and a column of the table's height
/// stands in the table with its rows.
pub open spec fn is_bound(before: DataFrame, column: Series, after: DataFrame) -> bool {
    &&& series_len(column) == height_with(before, column) || series_len(column) == 1
    &&& frame_height(after) == height_with(before, column)
    &&& frame_names(after) == bound(frame_names(before), series_name(column))
    &&& forall|j: int|
        0 <= j < frame_names(before).len() && j != bound_at(before, series_name(column))
            ==> #[trigger] frame_column(after, j) == frame_column(before, j)
    &&& series_len(column) == height_with(before, column) ==> same_rows(
        frame_column(after, bound_at(before, series_name(column))),
        column,
    )
}

/// What is known of one assignment on the table `before`: of the value of
/// its expression, of the column under the target's name (the same rows),
/// and of the table with the column bound.
pub open spec fn binding_described(
    assignment: (AssignmentTargetView, ExpressionView),
    before: DataFrame,
    env: Map<Seq<char>, DataFrame>,
) -> bool {
    &&& described(assignment.1, before, env)
    &&& match value_of(assignment.1, before, env) {
        Err(_) => true,
        Ok(s) => match target_name(assignment.0, frame_names(before)) {
            Err(_) => true,
            Ok(n) => is_renamed(renamed_series(s, n), s, n) && match frame_with(
                before,
                renamed_series(s, n),
            ) {
                Some(after) => is_bound(before, renamed_series(s, n), after),
                None => !(series_len(s) == height_with(before, s) || series_len(s) == 1),
            },
        },
    }
}

/// What is known of the assignments from index `from` on, each on the table
/// that the one before it left, as far as they were carried out.
pub open spec fn mutate_described(
    assignments: Seq<(AssignmentTargetView, ExpressionView)>,
    table: DataFrame,
    env: Map<Seq<char>, DataFrame>,
    from: int,
) -> bool
    decreases assignments.len() - from,
{
    if from < 0 || from >= assignments.len() {
        true
    } else {
        binding_described(assignments[from], table, env) && match bind_value(
            assignments[from],
            table,
            env,
        ) {
            Err(_) => true,
            Ok(next) => mutate_described(assignments, next, env, from + 1),
        }
    }
}

/// The table after the mappings from index `from` on, one after the other.
pub open spec fn rename_value(
    mappings: Seq<(ColumnRefView, Seq<char>)>,
    table: DataFrame,
    from: int,
) -> Result<DataFrame, ErrorView>
    decreases mappings.len() - from,
{
    if from < 0 || from >= mappings.len() {
        Ok(table)
    } else {
        match resolved_column(mappings[from].0, frame_names(table)) {
            Err(e) => Err(e),
            Ok(old) => match renamed_frame(table, old, mappings[from].1) {
                None => Err(ErrorView::PolarsError),
                Some(next) => rename_value(mappings, next, from + 1),
            },
        }
    }
}

/// The table after a text was replaced in the column names from index
/// `from` on.
pub open spec fn replace_value(
    initial: Seq<Seq<char>>,
    table: DataFrame,
    old: Seq<char>,
    new: Seq<char>,
    from: int,
) -> Result<DataFrame, ErrorView>
    decreases initial.len() - from,
{
    if from < 0 || from >= initial.len() {
        Ok(table)
    } else {
        match renamed_frame(table, initial[from], replaced(initial[from], old, new)) {
            None => Err(ErrorView::PolarsError),
            Some(next) => replace_value(initial, next, old, new, from + 1),
        }
    }
}

/// The table after the columns from index `from` on were named by prefix
/// and number.
pub open spec fn sequential_value(
    initial: Seq<Seq<char>>,
    table: DataFrame,
    prefix: Seq<char>,
    start: nat,
    from: int,
) -> Result<DataFrame, ErrorView>
    decreases initial.len() - from,
{
    if from < 0 || from >= initial.len() {
        Ok(table)
    } else {
        match renamed_frame(table, initial[from], prefix + decimal_text((start + from) as nat)) {
            None => Err(ErrorView::PolarsError),
            Some(next) => sequential_value(initial, next, prefix, start, from + 1),
        }
    }
}

/// The table with all its columns renamed by the strategy.
pub open spec fn rename_all_value(strategy: RenameStrategyView, df: DataFrame) -> Result<
    DataFrame,
    ErrorView,
> {
    match strategy {
        RenameStrategyView::Replace { old, new } => replace_value(
            frame_names(df),
            df,
            old,
            new,
            0,
        ),
        RenameStrategyView::Sequential { prefix, start, end } => if range_size(
            start as nat,
            end as nat,
        ) != frame_names(df).len() {
            Err(
                ErrorView::InvalidOperation(
                    width_message(start as nat, end as nat, frame_names(df).len()),
                ),
            )
        } else {
            sequential_value(frame_names(df), df, prefix, start as nat, 0)
        },
    }
}

/// The table without the columns `gone` from index `from` on, removed one
/// at a time.
pub open spec fn without_value(table: DataFrame, gone: Seq<Seq<char>>, from: int) -> Result<
    DataFrame,
    ErrorView,
>
    decreases gone.len() - from,
{
    if from < 0 || from >= gone.len() {
        Ok(table)
    } else {
        match frame_without(table, gone[from]) {
            None => Err(ErrorView::PolarsError),
            Some(next) => without_value(next, gone, from + 1),
        }
    }
}

/// The table without the columns that the selectors stand for.
pub open spec fn drop_value(columns: Seq<SelectorView>, df: DataFrame) -> Result<
    DataFrame,
    ErrorView,
> {
    match resolved_all(columns, frame_names(df), frame_dtypes(df), 0, Seq::empty()) {
        Err(e) => Err(e),
        Ok(gone) => without_value(df, gone, 0),
    }
}

/// The row at which a slice begins: `start`, or the table's end when it
/// lies behind it.
pub open spec fn slice_start(h: nat, start: usize) -> usize {
    if start <= h {
        start
    } else {
        h as usize
    }
}

/// The rows behind the first `n`.
pub open spec fn skip_value(df: DataFrame, n: usize) -> DataFrame {
    if n >= frame_height(df) {
        frame_head(df, 0)
    } else {
        frame_window(df, n, (frame_height(df) - n) as usize)
    }
}

/// The rows from `start` up to `end`, both cut off at the table's end.
pub open spec fn slice_value(df: DataFrame, start: usize, end: usize) -> DataFrame {
    frame_window(
        df,
        slice_start(frame_height(df), start),
        slice_height(frame_height(df), start as nat, end as nat) as usize,
    )
}

/// The directions of the sort keys.
pub open spec fn sort_directions(keys: Seq<(ColumnRefView, bool)>) -> Seq<bool> {
    Seq::new(keys.len(), |i: int| keys[i].1)
}

/// The table sorted by the keys.
pub open spec fn sort_value(keys: Seq<(ColumnRefView, bool)>, df: DataFrame) -> Result<
    DataFrame,
    ErrorView,
> {
    match sort_names(keys, frame_names(df), 0, Seq::empty()) {
        Err(e) => Err(e),
        Ok(by) => from_engine(sorted_frame(df, by, sort_directions(keys))),
    }
}

/// The table after the aliases from position `from` on: a column with an
/// alias is renamed to it.
pub open spec fn alias_value(table: DataFrame, aliases: Seq<Option<Seq<char>>>, from: int) -> Result<
    DataFrame,
    ErrorView,
>
    decreases aliases.len() - from,
{
    if from < 0 || from >= aliases.len() {
        Ok(table)
    } else {
        match aliases[from] {
            None => alias_value(table, aliases, from + 1),
            Some(a) => match renamed_frame(table, frame_names(table)[from], a) {
                None => Err(ErrorView::PolarsError),
                Some(next) => alias_value(next, aliases, from + 1),
            },
        }
    }
}

/// The table with the selected columns, under their aliases.
pub open spec fn select_value(
    items: Seq<(SelectorView, Option<Seq<char>>)>,
    df: DataFrame,
) -> Result<DataFrame, ErrorView> {
    match selected(items, frame_names(df), frame_dtypes(df), 0, (Seq::empty(), Seq::empty())) {
        Err(e) => Err(e),
        Ok(plan) => if plan.0.len() == 0 {
            Err(ErrorView::InvalidOperation("No columns selected"@))
        } else {
            match projected(df, plan.0) {
                None => Err(ErrorView::PolarsError),
                Some(table) => alias_value(table, plan.1, 0),
            }
        },
    }
}

/// Whether no selected column has an alias.
pub open spec fn no_alias(aliases: Seq<Option<Seq<char>>>) -> bool {
    forall|k: int| 0 <= k < aliases.len() ==> (#[trigger] aliases[k]) is None
}

/// The subset of a distinct: the columns that the selectors stand for.
pub open spec fn distinct_subset(
    columns: Option<Seq<SelectorView>>,
    df: DataFrame,
) -> Result<Option<Seq<Seq<char>>>, ErrorView> {
    match columns {
        None => Ok(None),
        Some(cols) => match resolved_all(
            cols,
            frame_names(df),
            frame_dtypes(df),
            0,
            Seq::empty(),
        ) {
            Err(e) => Err(e),
            Ok(names) => Ok(Some(names)),
        },
    }
}

/// What is known of the table `out` that a distinct on the columns `subset`,
/// or on all columns, makes of `df`: the columns stay; there is one row for
/// every group of rows of `df` that agree on those columns; and no two rows of
/// `out` agree on them.
pub open spec fn is_distinct(out: DataFrame, df: DataFrame, subset: Option<Seq<Seq<char>>>) -> bool {
    &&& frame_names(out) == frame_names(df)
    &&& frame_dtypes(out) == frame_dtypes(df)
    &&& frame_height(out) <= frame_height(df)
    &&& frame_height(out) == distinct_count(df, subset)
    &&& distinct_count(out, subset) == frame_height(out)
}

/// A distinct of a distinct on the same columns has as many rows as the
/// first, and the same columns.
pub proof fn distinct_again_keeps_every_row(
    df: DataFrame,
    once: DataFrame,
    twice: DataFrame,
    subset: Option<Seq<Seq<char>>>,
)
    requires
        is_distinct(once, df, subset),
        is_distinct(twice, once, subset),
    ensures
        frame_height(twice) == frame_height(once),
        frame_names(twice) == frame_names(once),
        frame_dtypes(twice) == frame_dtypes(once),
{
}

/// The views of the optional selectors of a distinct.
pub open spec fn optional_selectors(columns: Option<Vec<ColumnSelector>>) -> Option<
    Seq<SelectorView>,
> {
    match columns {
        Some(cols) => Some(selector_views(cols@)),
        None => None,
    }
}

/// The names that a list of selectors stands for, one selector after the
/// other.
pub fn resolve_all(selectors: &Vec<ColumnSelector>, names: &Vec<String>, dtypes: &Vec<Dtype>) -> (r:
    Result<Vec<String>, DtransformError>)
    requires
        names.len() == dtypes.len(),
    ensures
        match resolved_all(
            selector_views(selectors@),
            text_views(names@),
            dtypes@,
            0,
            Seq::empty(),
        ) {
            Ok(cols) => r matches Ok(v) && text_views(v@) == cols,
            Err(e) => r matches Err(x) && x@ == e,
        },
{
    let ghost sels = selector_views(selectors@);
    let ghost all = text_views(names@);
    let mut out: Vec<String> = Vec::new();
    let mut i: usize = 0;
    assert(text_views(out@) =~= Seq::<Seq<char>>::empty());
    while i < selectors.len()
        invariant
            i <= selectors.len(),
            names.len() == dtypes.len(),
            sels == selector_views(selectors@),
            all == text_views(names@),
            resolved_all(sels, all, dtypes@, 0, Seq::empty()) == resolved_all(
                sels,
                all,
                dtypes@,
                i as int,
                text_views(out@),
            ),
        decreases selectors.len() - i,
    {
        assert(sels[i as int] == selectors@[i as int]@);
        let mut cols = resolve_in(&selectors[i], names, dtypes)?;
        let ghost before = out@;
        let ghost added = cols@;
        out.append(&mut cols);
        assert(text_views(out@) =~= text_views(before) + text_views(added));
        i += 1;
    }
    Ok(out)
}

/// The view of an optional alias.
pub open spec fn alias_view(a: Option<String>) -> Option<Seq<char>> {
    match a {
        Some(s) => Some(s@),
        None => None,
    }
}

/// The views of a list of optional aliases.
pub open spec fn alias_views(items: Seq<Option<String>>) -> Seq<Option<Seq<char>>> {
    items.map_values(|a: Option<String>| alias_view(a))
}

impl Executor {
    /// `take(n)`: the first `n` rows.
    pub fn execute_take(&self, df: DataFrame, op: &TakeOp) -> (r: Result<
        DataFrame,
        DtransformError,
    >)
        ensures
            r == Ok::<DataFrame, DtransformError>(frame_head(df, op.n)),
            r matches Ok(out) && {
                &&& frame_names(out) == frame_names(df)
                &&& frame_dtypes(out) == frame_dtypes(df)
                &&& frame_height(out) == take_height(frame_height(df), op.n as nat)
                &&& columns_between(out, df, 0, frame_height(out) as int)
            },
    {
        Ok(first_rows(&df, op.n))
    }

    /// `skip(n)`: the rows behind the first `n`; none when there are no
    /// more than `n`.
    pub fn execute_skip(&self, df: DataFrame, op: &SkipOp) -> (r: Result<
        DataFrame,
        DtransformError,
    >)
        ensures
            r == Ok::<DataFrame, DtransformError>(skip_value(df, op.n)),
            r matches Ok(out) && {
                &&& frame_names(out) == frame_names(df)
                &&& frame_dtypes(out) == frame_dtypes(df)
                &&& frame_height(out) == skip_height(frame_height(df), op.n as nat)
                &&& if op.n >= frame_height(df) {
                    columns_between(out, df, 0, 0)
                } else {
                    columns_between(out, df, op.n as int, frame_height(df) as int)
                }
            },
    {
        let h = height(&df);
        if op.n >= h {
            Ok(first_rows(&df, 0))
        } else {
            Ok(row_window(&df, op.n, h - op.n))
        }
    }

    /// `slice(start, end)`: the rows from `start` up to `end`, both cut off
    /// at the table's end.
    pub fn execute_slice(&self, df: DataFrame, op: &SliceOp) -> (r: Result<
        DataFrame,
        DtransformError,
    >)
        ensures
            r == Ok::<DataFrame, DtransformError>(slice_value(df, op.start, op.end)),
            r matches Ok(out) && {
                &&& frame_names(out) == frame_names(df)
                &&& frame_dtypes(out) == frame_dtypes(df)
                &&& frame_height(out) == slice_height(
                    frame_height(df),
                    op.start as nat,
                    op.end as nat,
                )
                &&& columns_between(
                    out,
                    df,
                    slice_start(frame_height(df), op.start) as int,
                    slice_start(frame_height(df), op.start) + frame_height(out),
                )
            },
    {
        let h = height(&df);
        let start = if op.start <= h {
            op.start
        } else {
            h
        };
        let wanted = if op.end >= start {
            op.end - start
        } else {
            0
        };
        let len = if wanted <= h - start {
            wanted
        } else {
            h - start
        };
        Ok(row_window(&df, start, len))
    }

    /// `filter(condition)`: the rows on which the condition is true. The
    /// condition must evaluate to a boolean column. A condition that is a
    /// boolean literal, or a boolean column of the table itself, gives its mask
    /// without fail, and then the filter succeeds.
    pub fn execute_filter(&self, df: DataFrame, op: &FilterOp) -> (r: Result<
        DataFrame,
        DtransformError,
    >)
        ensures
            same_result(r, filter_value(op.condition@, df, self.env())),
            described(op.condition@, df, self.env()),
            surely_masks(op.condition@, df, self.env()) ==> r is Ok,
            r matches Ok(out) ==> value_of(op.condition@, df, self.env()) matches Ok(mask) && {
                &&& series_dtype(mask) == Dtype::Boolean
                &&& frame_names(out) == frame_names(df)
                &&& frame_dtypes(out) == frame_dtypes(df)
                &&& frame_height(out) <= frame_height(df)
                &&& series_len(mask) == frame_height(df) ==> frame_height(out) == count_kept(
                    series_bools(mask),
                ) && columns_kept(out, df, series_bools(mask))
            },
    {
        let mask = self.evaluate_expression(&op.condition, &df)?;
        match keep_rows(&df, &mask) {
            Ok(out) => Ok(out),
            Err(e) => Err(DtransformError::PolarsError(e)),
        }
    }

    /// The name of the column that a mutate target binds.
    pub fn resolve_target(&self, target: &AssignmentTarget, names: &Vec<String>) -> (r: Result<
        String,
        DtransformError,
    >)
        ensures
            match target_name(target@, text_views(names@)) {
                Ok(n) => r matches Ok(name) && name@ == n,
                Err(e) => r matches Err(x) && x@ == e,
            },
    {
        match target {
            AssignmentTarget::Name(name) => Ok(name.clone()),
            AssignmentTarget::Position(pos) => {
                if *pos == 0 || *pos > names.len() {
                    let mut m = String::from_str("DataFrame has ");
                    m.append(number_text(names.len()).as_str());
                    m.append(" columns, but $");
                    m.append(number_text(*pos).as_str());
                    m.append(" was specified");
                    Err(DtransformError::InvalidOperation(m))
                } else {
                    Ok(names[*pos - 1].clone())
                }
            },
        }
    }

    /// One assignment of a mutate: the expression is evaluated on the table,
    /// and its column is bound under the name that the target stands for.
    fn bind_assignment(&self, table: DataFrame, assignment: &Assignment) -> (r: Result<
        DataFrame,
        DtransformError,
    >)
        ensures
            same_result(
                r,
                bind_value((assignment.column@, assignment.expression@), table, self.env()),
            ),
            binding_described((assignment.column@, assignment.expression@), table, self.env()),
            surely_evaluates(assignment.expression@, frame_names(table), self.env())
                && target_name(assignment.column@, frame_names(table)) is Ok ==> r is Ok,
            surely_evaluates(assignment.expression@, frame_names(table), self.env()) ==> (
            target_name(assignment.column@, frame_names(table)) matches Err(e) ==> (r matches Err(
                x,
            ) && x@ == e)),
            r matches Ok(out) ==> frame_names(out) == bound(
                frame_names(table),
                target_name(assignment.column@, frame_names(table))->Ok_0,
            ) && (frame_names(table).len() > 0 ==> frame_height(out) == frame_height(table)),
    {
        let series = self.evaluate_expression(&assignment.expression, &table)?;
        let names = column_names(&table);
        let name = self.resolve_target(&assignment.column, &names)?;
        let column = named(series, name.as_str());
        match with_column(table, column) {
            Ok(out) => Ok(out),
            Err(e) => Err(DtransformError::PolarsError(e)),
        }
    }

    /// `mutate(assignments)`: each assignment evaluates its expression on the
    /// table as the earlier assignments left it and binds the column under the
    /// target's name, replacing a column of that name or appending a new one.
    ///
    /// Without assignments the table comes back as it is. Assignments whose
    /// expressions are literals that are no numbers, or columns of the table
    /// itself, succeed whenever their targets fall on columns.
    pub fn execute_mutate(&self, df: DataFrame, op: &MutateOp) -> (r: Result<
        DataFrame,
        DtransformError,
    >)
        ensures
            same_result(r, mutate_value(assignment_views(op.assignments@), df, self.env(), 0)),
            mutate_described(assignment_views(op.assignments@), df, self.env(), 0),
            mutate_certain(assignment_views(op.assignments@), frame_names(df), self.env(), 0)
                ==> r is Ok,
            op.assignments.len() > 0 && surely_evaluates(
                op.assignments@[0].expression@,
                frame_names(df),
                self.env(),
            ) ==> (target_name(op.assignments@[0].column@, frame_names(df)) matches Err(e) ==> (
            r matches Err(x) && x@ == e)),
            r matches Ok(out) ==> {
                &&& Some(frame_names(out)) == mutate_names(
                    assignment_views(op.assignments@),
                    frame_names(df),
                    0,
                )
                &&& frame_names(df).len() > 0 ==> frame_height(out) == frame_height(df)
            },
    {
        let ghost plan = assignment_views(op.assignments@);
        let ghost start = df;
        let mut table = df;
        let mut i: usize = 0;
        while i < op.assignments.len()
            invariant
                i <= op.assignments.len(),
                start == df,
                plan == assignment_views(op.assignments@),
                mutate_value(plan, start, self.env(), 0) == mutate_value(
                    plan,
                    table,
                    self.env(),
                    i as int,
                ),
                mutate_described(plan, table, self.env(), i as int) ==> mutate_described(
                    plan,
                    start,
                    self.env(),
                    0,
                ),
                mutate_names(plan, frame_names(start), 0) == mutate_names(
                    plan,
                    frame_names(table),
                    i as int,
                ),
                mutate_certain(plan, frame_names(start), self.env(), 0) ==> mutate_certain(
                    plan,
                    frame_names(table),
                    self.env(),
                    i as int,
                ),
                frame_names(start).len() > 0 ==> frame_height(table) == frame_height(start)
                    && frame_names(table).len() > 0,
            decreases op.assignments.len() - i,
        {
            let assignment = &op.assignments[i];
            assert(plan[i as int] == (assignment.column@, assignment.expression@));
            table = self.bind_assignment(table, assignment)?;
            i += 1;
        }
        Ok(table)
    }

    /// `rename(old -> new, ...)`: the mappings are applied one after the
    /// other.
    pub fn execute_rename(&self, df: DataFrame, op: &RenameOp) -> (r: Result<
        DataFrame,
        DtransformError,
    >)
        ensures
            same_result(r, rename_value(mapping_views(op.mappings@), df, 0)),
            match rename_plan(mapping_views(op.mappings@), frame_names(df), 0) {
                Ok(names) => r matches Ok(out) && frame_names(out) == names && frame_height(out)
                    == frame_height(df),
                Err(e) => r matches Err(x) && x@ == e,
            },
    {
        let ghost plan = mapping_views(op.mappings@);
        let ghost start = df;
        let mut table = df;
        let mut i: usize = 0;
        while i < op.mappings.len()
            invariant
                i <= op.mappings.len(),
                start == df,
                plan == mapping_views(op.mappings@),
                rename_plan(plan, frame_names(start), 0) == rename_plan(
                    plan,
                    frame_names(table),
                    i as int,
                ),
                rename_value(plan, start, 0) == rename_value(plan, table, i as int),
                frame_height(table) == frame_height(start),
            decreases op.mappings.len() - i,
        {
            let mapping = &op.mappings[i];
            assert(plan[i as int] == (mapping.0@, mapping.1@));
            let old_name = self.resolve_column_name(&mapping.0, &table)?;
            table = engine_failure(rename_column(table, old_name.as_str(), mapping.1.as_str()))?;
            i += 1;
        }
        Ok(table)
    }

    /// `rename_all(strategy)`: `replace` substitutes a text in every column
    /// name; `sequential` names the columns `prefix{start}`, `prefix{start+1}`
    /// and so on, and needs a range of exactly as many numbers as the table has
    /// columns.
    pub fn execute_rename_all(&self, df: DataFrame, op: &RenameAllOp) -> (r: Result<
        DataFrame,
        DtransformError,
    >)
        ensures
            same_result(r, rename_all_value(op.strategy@, df)),
            match rename_all_plan(op.strategy@, frame_names(df)) {
                Ok(names) => r matches Ok(out) && frame_names(out) == names && frame_height(out)
                    == frame_height(df),
                Err(e) => r matches Err(x) && x@ == e,
            },
    {
        let initial = column_names(&df);
        let ghost first = text_views(initial@);
        let ghost start_table = df;
        let mut table = df;
        match &op.strategy {
            RenameStrategy::Replace { old, new } => {
                let mut i: usize = 0;
                while i < initial.len()
                    invariant
                        i <= initial.len(),
                        start_table == df,
                        first == frame_names(df),
                        op.strategy@ == (RenameStrategyView::Replace { old: old@, new: new@ }),
                        first == text_views(initial@),
                        replace_plan(first, first, old@, new@, 0) == replace_plan(
                            first,
                            frame_names(table),
                            old@,
                            new@,
                            i as int,
                        ),
                        replace_value(first, start_table, old@, new@, 0) == replace_value(
                            first,
                            table,
                            old@,
                            new@,
                            i as int,
                        ),
                        frame_height(table) == frame_height(start_table),
                    decreases initial.len() - i,
                {
                    let new_name = replace_text(initial[i].as_str(), old.as_str(), new.as_str());
                    assert(first[i as int] == initial@[i as int]@);
                    table = engine_failure(
                        rename_column(table, initial[i].as_str(), new_name.as_str()),
                    )?;
                    i += 1;
                }
                Ok(table)
            },
            RenameStrategy::Sequential { prefix, start, end } => {
                let size: u128 = if *end >= *start {
                    (*end - *start) as u128 + 1
                } else {
                    0
                };
                if size != initial.len() as u128 {
                    let mut m = String::from_str("Range ");
                    m.append(number_text(*start).as_str());
                    m.append("..");
                    m.append(number_text(*end).as_str());
                    m.append(" (");
                    m.append(wide_number_text(size).as_str());
                    m.append(" columns) doesn't match table width (");
                    m.append(number_text(initial.len()).as_str());
                    m.append(" columns). Use select() first.");
                    return Err(DtransformError::InvalidOperation(m));
                }
                let mut i: usize = 0;
                while i < initial.len()
                    invariant
                        i <= initial.len(),
                        start_table == df,
                        first == frame_names(df),
                        op.strategy@ == (RenameStrategyView::Sequential {
                            prefix: prefix@,
                            start: *start,
                            end: *end,
                        }),
                        range_size(*start as nat, *end as nat) == first.len(),
                        first == text_views(initial@),
                        sequential_plan(first, first, prefix@, *start as nat, 0)
                            == sequential_plan(
                            first,
                            frame_names(table),
                            prefix@,
                            *start as nat,
                            i as int,
                        ),
                        sequential_value(first, start_table, prefix@, *start as nat, 0)
                            == sequential_value(
                            first,
                            table,
                            prefix@,
                            *start as nat,
                            i as int,
                        ),
                        frame_height(table) == frame_height(start_table),
                    decreases initial.len() - i,
                {
                    let mut new_name = prefix.clone();
                    new_name.append(wide_number_text(*start as u128 + i as u128).as_str());
                    assert(first[i as int] == initial@[i as int]@);
                    table = engine_failure(
                        rename_column(table, initial[i].as_str(), new_name.as_str()),
                    )?;
                    i += 1;
                }
                Ok(table)
            },
        }
    }

    /// `sort(keys)`: one sort on all the keys, each ascending or descending;
    /// rows that agree on every key keep their order.
    pub fn execute_sort(&self, df: DataFrame, op: &SortOp) -> (r: Result<DataFrame, DtransformError>)
        ensures
            same_result(r, sort_value(sort_key_views(op.columns@), df)),
            r matches Ok(out) ==> frame_names(out) == frame_names(df) && frame_dtypes(out)
                == frame_dtypes(df) && frame_height(out) == frame_height(df),
    {
        let ghost keys = sort_key_views(op.columns@);
        let names = column_names(&df);
        let mut by: Vec<String> = Vec::new();
        let mut descending: Vec<bool> = Vec::new();
        let mut i: usize = 0;
        assert(text_views(by@) =~= Seq::<Seq<char>>::empty());
        while i < op.columns.len()
            invariant
                i <= op.columns.len(),
                keys == sort_key_views(op.columns@),
                text_views(names@) == frame_names(df),
                by.len() == i,
                descending.len() == i,
                forall|k: int| 0 <= k < i ==> #[trigger] descending@[k] == keys[k].1,
                sort_names(keys, frame_names(df), 0, Seq::empty()) == sort_names(
                    keys,
                    frame_names(df),
                    i as int,
                    text_views(by@),
                ),
            decreases op.columns.len() - i,
        {
            let key = &op.columns[i];
            assert(keys[i as int] == (key.0@, key.1));
            let name = resolve_among(&key.0, &names)?;
            let ghost before = by@;
            by.push(name);
            assert(text_views(by@) =~= text_views(before).push(name@));
            descending.push(key.1);
            i += 1;
        }
        assert(descending@ =~= sort_directions(keys));
        match sorted(&df, &by, &descending, true) {
            Ok(out) => Ok(out),
            Err(e) => Err(DtransformError::PolarsError(e)),
        }
    }

    /// `select(selectors)`: the columns that the selectors stand for, one
    /// selector after the other, then the aliases applied by position. A select
    /// that stands for no column fails.
    pub fn execute_select(&self, df: DataFrame, op: &SelectOp) -> (r: Result<
        DataFrame,
        DtransformError,
    >)
        ensures
            same_result(r, select_value(aliased_views(op.selectors@), df)),
            match selected(
                aliased_views(op.selectors@),
                frame_names(df),
                frame_dtypes(df),
                0,
                (Seq::empty(), Seq::empty()),
            ) {
                Err(e) => true,
                Ok(plan) => plan.0.len() > 0 && can_project(plan.0, frame_names(df)) && no_alias(
                    plan.1,
                ) ==> r is Ok,
            },
            match selected(
                aliased_views(op.selectors@),
                frame_names(df),
                frame_dtypes(df),
                0,
                (Seq::empty(), Seq::empty()),
            ) {
                Err(e) => r matches Err(x) && x@ == e,
                Ok(plan) => if plan.0.len() == 0 {
                    r matches Err(x) && x@ == ErrorView::InvalidOperation("No columns selected"@)
                } else {
                    match r {
                        Ok(out) => Some(frame_names(out)) == aliased(plan.0, plan.1, 0)
                            && frame_height(out) == frame_height(df),
                        Err(e) => e@ is PolarsError,
                    }
                },
            },
    {
        let ghost items = aliased_views(op.selectors@);
        let names = column_names(&df);
        let dtypes = column_dtypes(&df);
        let mut columns: Vec<String> = Vec::new();
        let mut aliases: Vec<Option<String>> = Vec::new();
        let mut i: usize = 0;
        assert(text_views(columns@) =~= Seq::<Seq<char>>::empty());
        assert(alias_views(aliases@) =~= Seq::<Option<Seq<char>>>::empty());
        while i < op.selectors.len()
            invariant
                i <= op.selectors.len(),
                names.len() == dtypes.len(),
                items == aliased_views(op.selectors@),
                text_views(names@) == frame_names(df),
                dtypes@ == frame_dtypes(df),
                columns.len() == aliases.len(),
                selected(items, frame_names(df), frame_dtypes(df), 0, (Seq::empty(), Seq::empty()))
                    == selected(
                    items,
                    frame_names(df),
                    frame_dtypes(df),
                    i as int,
                    (text_views(columns@), alias_views(aliases@)),
                ),
            decreases op.selectors.len() - i,
        {
            let item = &op.selectors[i];
            assert(items[i as int] == (item.0@, alias_view(item.1)));
            let cols = resolve_in(&item.0, &names, &dtypes)?;
            let ghost before_columns = columns@;
            let ghost before_aliases = aliases@;
            let mut j: usize = 0;
            while j < cols.len()
                invariant
                    j <= cols.len(),
                    columns.len() == aliases.len(),
                    text_views(columns@) == text_views(before_columns) + text_views(cols@).take(
                        j as int,
                    ),
                    alias_views(aliases@) == alias_views(before_aliases) + repeated(
                        alias_view(item.1),
                        j as nat,
                    ),
                decreases cols.len() - j,
            {
                let ghost c0 = columns@;
                let ghost a0 = aliases@;
                columns.push(cols[j].clone());
                let alias = match &item.1 {
                    Some(a) => Some(a.clone()),
                    None => None,
                };
                aliases.push(alias);
                j += 1;
                assert(text_views(columns@) =~= text_views(before_columns) + text_views(
                    cols@,
                ).take(j as int)) by {
                    assert(text_views(columns@) =~= text_views(c0).push(cols@[j - 1]@));
                }
                assert(alias_views(aliases@) =~= alias_views(before_aliases) + repeated(
                    alias_view(item.1),
                    j as nat,
                )) by {
                    assert(alias_views(aliases@) =~= alias_views(a0).push(alias_view(item.1)));
                }
            }
            assert(text_views(cols@).take(cols.len() as int) =~= text_views(cols@));
            i += 1;
        }
        if columns.len() == 0 {
            return Err(DtransformError::InvalidOperation(String::from_str("No columns selected")));
        }
        let mut table = engine_failure(project(&df, &columns))?;
        let ghost plan_names = text_views(columns@);
        let ghost plan_aliases = alias_views(aliases@);
        let mut k: usize = 0;
        while k < aliases.len()
            invariant
                k <= aliases.len(),
                items == aliased_views(op.selectors@),
                plan_aliases == alias_views(aliases@),
                select_value(items, df) == alias_value(table, plan_aliases, k as int),
                frame_names(table).len() == aliases.len(),
                frame_height(table) == frame_height(df),
                aliased(plan_names, plan_aliases, 0) == aliased(
                    frame_names(table),
                    plan_aliases,
                    k as int,
                ),
                match selected(
                    items,
                    frame_names(df),
                    frame_dtypes(df),
                    0,
                    (Seq::empty(), Seq::empty()),
                ) {
                    Ok(plan) => plan.0 == plan_names && plan.1 == plan_aliases && plan.0.len() > 0,
                    Err(_) => false,
                },
            decreases aliases.len() - k,
        {
            assert(plan_aliases[k as int] == alias_view(aliases@[k as int]));
            match &aliases[k] {
                Some(alias) => {
                    let current = column_names(&table);
                    assert(text_views(current@)[k as int] == current@[k as int]@);
                    table = engine_failure(
                        rename_column(table, current[k].as_str(), alias.as_str()),
                    )?;
                },
                None => {},
            }
            k += 1;
        }
        Ok(table)
    }

    /// `drop(selectors)`: the selectors are resolved against the table, then
    /// the columns are removed one at a time; a name that two selectors both
    /// stand for fails at its second removal.
    pub fn execute_drop(&self, df: DataFrame, op: &DropOp) -> (r: Result<DataFrame, DtransformError>)
        ensures
            same_result(r, drop_value(selector_views(op.columns@), df)),
            match resolved_all(
                selector_views(op.columns@),
                frame_names(df),
                frame_dtypes(df),
                0,
                Seq::empty(),
            ) {
                Err(e) => r matches Err(x) && x@ == e,
                Ok(gone) => match drop_plan(frame_names(df), gone, 0) {
                    Ok(names) => r matches Ok(out) && frame_names(out) == names && frame_height(
                        out,
                    ) == frame_height(df),
                    Err(e) => r matches Err(x) && x@ == e,
                },
            },
    {
        let names = column_names(&df);
        let dtypes = column_dtypes(&df);
        let gone = resolve_all(&op.columns, &names, &dtypes)?;
        let ghost start = df;
        let mut table = df;
        let mut i: usize = 0;
        while i < gone.len()
            invariant
                i <= gone.len(),
                start == df,
                resolved_all(
                    selector_views(op.columns@),
                    frame_names(df),
                    frame_dtypes(df),
                    0,
                    Seq::empty(),
                ) == Ok::<Seq<Seq<char>>, ErrorView>(text_views(gone@)),
                drop_plan(frame_names(start), text_views(gone@), 0) == drop_plan(
                    frame_names(table),
                    text_views(gone@),
                    i as int,
                ),
                without_value(start, text_views(gone@), 0) == without_value(
                    table,
                    text_views(gone@),
                    i as int,
                ),
                frame_height(table) == frame_height(start),
            decreases gone.len() - i,
        {
            assert(text_views(gone@)[i as int] == gone@[i as int]@);
            table = engine_failure(without_column(&table, gone[i].as_str()))?;
            i += 1;
        }
        Ok(table)
    }

    /// `distinct(selectors?)`: one row of every group of rows that agree on
    /// all columns, or on the columns that the selectors stand for: as many
    /// rows as there are such groups, and no two of them agree.
    pub fn execute_distinct(&self, df: DataFrame, op: &DistinctOp) -> (r: Result<
        DataFrame,
        DtransformError,
    >)
        ensures
            match distinct_subset(optional_selectors(op.columns), df) {
                Err(e) => r matches Err(x) && x@ == e,
                Ok(subset) => match r {
                    Ok(out) => is_distinct(out, df, subset),
                    Err(e) => e@ is PolarsError,
                },
            },
    {
        match &op.columns {
            None => engine_failure(distinct_rows(&df, None, Keep::First)),
            Some(selectors) => {
                let names = column_names(&df);
                let dtypes = column_dtypes(&df);
                let subset = resolve_all(selectors, &names, &dtypes)?;
                engine_failure(distinct_rows(&df, Some(&subset), Keep::First))
            },
        }
    }
}

} // verus!
