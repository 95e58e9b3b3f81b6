//! Operations, pipelines, statements and programs.

use vstd::prelude::*;
use crate::ast::{
    aliased_views, assignment_views, copy_selector, mapping_views, operation_views,
    selector_views, sort_key_views, statement_views, Assignment, AssignmentTarget,
    AssignmentTargetView, ColumnRef, ColumnRefView, ColumnSelector, DistinctOp, DropOp,
    ExpressionView, FilterOp, MutateOp, Operation, OperationView, Pipeline, PipelineView, Program,
    ProgramView, ReadOp, ReadOpView, RenameAllOp, RenameOp, RenameStrategy, RenameStrategyView,
    SelectOp, SelectorView, SkipOp, SliceOp, SortOp, Source, SourceView, Statement,
    StatementView, TakeOp, WriteOp, WriteOpView,
};
use crate::error::{DtransformError, ErrorView};
use crate::parser::expression::{expression_at, parse_expression, zero_field_message};
use crate::parser::scan::{
    after_assign, after_char, after_word, beyond, char_at, count_at, expect_assign,
    expect_char, expect_word, number_at, parse_string, position_at, read_count, read_number,
    read_position, read_word, skip_spaces, skip_ws, string_at, word_at, Outcome, Parsed,
};
use crate::parser::selector::{
    alias_before, column_ref_at, parse_column_ref, parse_selector_list, selector_list_at,
};
use crate::text::{
    all_digits, char_is_digit, decimal_text, decimal_value, is_digit, join2, number_text,
    same_text, to_chars,
};

verus! {

/// The value of a parameter that starts at `pos`, as text: the content of a
/// string, a number as written, or a word.
pub open spec fn param_value_at(s: Seq<char>, pos: int) -> Option<(Seq<char>, int)> {
    match string_at(s, pos) {
        Some((t, e)) => Some((t, e)),
        None => match number_at(s, pos) {
            Some((n, text, e)) => Some((text, e)),
            None => word_at(s, pos),
        },
    }
}

/// The number that a text writes in digits alone, when it fits a `usize`; a
/// `+` may stand in front.
pub open spec fn usize_syntax(text: Seq<char>) -> Option<usize> {
    let digits = if text.len() > 0 && text[0] == '+' {
        text.skip(1)
    } else {
        text
    };
    if digits.len() > 0 && all_digits(digits) && decimal_value(digits) <= usize::MAX {
        Some(decimal_value(digits) as usize)
    } else {
        None
    }
}

/// The first character of a text, if it has one.
pub open spec fn first_char(text: Seq<char>) -> Option<char> {
    if text.len() > 0 {
        Some(text[0])
    } else {
        None
    }
}

/// The message for a `skip_rows` that is no number.
pub open spec fn skip_rows_message(value: Seq<char>) -> Seq<char> {
    "Invalid skip_rows value: "@ + value
}

/// A read operation with one more parameter set. A parameter of an unknown
/// name changes nothing.
pub open spec fn read_with(op: ReadOpView, name: Seq<char>, value: Seq<char>) -> Result<
    ReadOpView,
    Seq<char>,
> {
    if name == "format"@ {
        Ok(ReadOpView { format: Some(value), ..op })
    } else if name == "delimiter"@ {
        Ok(ReadOpView { delimiter: first_char(value), ..op })
    } else if name == "header"@ {
        Ok(ReadOpView { header: Some(value == "true"@), ..op })
    } else if name == "skip_rows"@ {
        match usize_syntax(value) {
            Some(n) => Ok(ReadOpView { skip_rows: Some(n), ..op }),
            None => Err(skip_rows_message(value)),
        }
    } else if name == "trim_whitespace"@ {
        Ok(ReadOpView { trim_whitespace: Some(value == "true"@), ..op })
    } else {
        Ok(op)
    }
}

/// A write operation with one more parameter set. A parameter of an unknown
/// name changes nothing.
pub open spec fn write_with(op: WriteOpView, name: Seq<char>, value: Seq<char>) -> WriteOpView {
    if name == "format"@ {
        WriteOpView { format: Some(value), ..op }
    } else if name == "header"@ {
        WriteOpView { header: Some(value == "true"@), ..op }
    } else if name == "delimiter"@ {
        WriteOpView { delimiter: first_char(value), ..op }
    } else {
        op
    }
}

/// The parameter `, name = value` that starts at `pos`, and the position
/// behind it.
pub open spec fn param_at(s: Seq<char>, pos: int) -> Option<(Seq<char>, Seq<char>, int)> {
    match after_char(s, pos, ',') {
        None => None,
        Some(p) => match word_at(s, skip_ws(s, p)) {
            None => None,
            Some((name, e)) => match after_assign(s, e) {
                None => None,
                Some(p2) => match param_value_at(s, skip_ws(s, p2)) {
                    None => None,
                    Some((value, e2)) => Some((name, value, e2)),
                },
            },
        },
    }
}

/// The read operation that the parameters from `pos` up to the closing
/// bracket make of `op`.
pub open spec fn read_params_from(s: Seq<char>, pos: int, op: ReadOpView) -> Parsed<ReadOpView>
    decreases s.len() - pos,
{
    if !(0 <= pos < s.len()) {
        Parsed::Reject
    } else {
        match after_char(s, pos, ')') {
            Some(q) => Parsed::Done(op, q),
            None => match param_at(s, pos) {
                None => Parsed::Reject,
                Some((name, value, e)) => match read_with(op, name, value) {
                    Err(m) => Parsed::Fail(m),
                    Ok(next) => read_params_from(s, beyond(s, pos, e), next),
                },
            },
        }
    }
}

/// The write operation that the parameters from `pos` up to the closing
/// bracket make of `op`.
pub open spec fn write_params_from(s: Seq<char>, pos: int, op: WriteOpView) -> Parsed<WriteOpView>
    decreases s.len() - pos,
{
    if !(0 <= pos < s.len()) {
        Parsed::Reject
    } else {
        match after_char(s, pos, ')') {
            Some(q) => Parsed::Done(op, q),
            None => match param_at(s, pos) {
                None => Parsed::Reject,
                Some((name, value, e)) => write_params_from(
                    s,
                    beyond(s, pos, e),
                    write_with(op, name, value),
                ),
            },
        }
    }
}

/// `read(path, name = value, ...)` from behind its opening bracket.
pub open spec fn read_op_at(s: Seq<char>, pos: int) -> Parsed<ReadOpView> {
    match string_at(s, skip_ws(s, pos)) {
        None => Parsed::Reject,
        Some((path, e)) => read_params_from(
            s,
            e,
            ReadOpView {
                path,
                format: None,
                delimiter: None,
                header: None,
                skip_rows: None,
                trim_whitespace: None,
            },
        ),
    }
}

/// `write(path, name = value, ...)` from behind its opening bracket.
pub open spec fn write_op_at(s: Seq<char>, pos: int) -> Parsed<WriteOpView> {
    match string_at(s, skip_ws(s, pos)) {
        None => Parsed::Reject,
        Some((path, e)) => write_params_from(
            s,
            e,
            WriteOpView { path, format: None, header: None, delimiter: None },
        ),
    }
}

/// The target of a mutate assignment that starts at `pos`: `$N` with `N` at
/// least 1, a number `n` (the column `col_n`), or a name.
pub open spec fn target_at(s: Seq<char>, pos: int) -> Parsed<AssignmentTargetView> {
    match position_at(s, pos) {
        Some((n, e)) => if n == 0 {
            Parsed::Fail(zero_field_message())
        } else {
            Parsed::Done(AssignmentTargetView::Position(n), e)
        },
        None => match number_at(s, pos) {
            Some((n, text, e)) => Parsed::Done(AssignmentTargetView::Name("col_"@ + text), e),
            None => match word_at(s, pos) {
                Some((w, e)) => Parsed::Done(AssignmentTargetView::Name(w), e),
                None => Parsed::Reject,
            },
        },
    }
}

/// The assignment `target = expression` that starts at `pos`.
pub open spec fn assignment_at(s: Seq<char>, pos: int) -> Parsed<
    (AssignmentTargetView, ExpressionView),
> {
    match target_at(s, pos) {
        Parsed::Done(target, e) => match after_assign(s, e) {
            None => Parsed::Reject,
            Some(p) => match expression_at(s, skip_ws(s, p)) {
                Parsed::Done(x, e2) => Parsed::Done((target, x), e2),
                Parsed::Reject => Parsed::Reject,
                Parsed::Fail(m) => Parsed::Fail(m),
            },
        },
        Parsed::Reject => Parsed::Reject,
        Parsed::Fail(m) => Parsed::Fail(m),
    }
}

/// The assignments from `pos` up to the closing bracket, behind `acc`.
pub open spec fn assignments_from(
    s: Seq<char>,
    pos: int,
    acc: Seq<(AssignmentTargetView, ExpressionView)>,
) -> Parsed<Seq<(AssignmentTargetView, ExpressionView)>>
    decreases s.len() - pos,
{
    if !(0 <= pos < s.len()) {
        Parsed::Reject
    } else {
        match assignment_at(s, skip_ws(s, pos)) {
            Parsed::Done(a, e) => match after_char(s, e, ',') {
                Some(p) => assignments_from(s, beyond(s, pos, p), acc.push(a)),
                None => match after_char(s, e, ')') {
                    Some(q) => Parsed::Done(acc.push(a), q),
                    None => Parsed::Reject,
                },
            },
            Parsed::Reject => Parsed::Reject,
            Parsed::Fail(m) => Parsed::Fail(m),
        }
    }
}

/// The rename mapping `column -> name` that starts at `pos`; the new name is
/// a word or a string.
pub open spec fn mapping_at(s: Seq<char>, pos: int) -> Parsed<(ColumnRefView, Seq<char>)> {
    match column_ref_at(s, pos) {
        Parsed::Done(col, e) => if char_at(s, skip_ws(s, e), '-') && char_at(
            s,
            skip_ws(s, e) + 1,
            '>',
        ) {
            match word_at(s, skip_ws(s, skip_ws(s, e) + 2)) {
                Some((w, e2)) => Parsed::Done((col, w), e2),
                None => match string_at(s, skip_ws(s, skip_ws(s, e) + 2)) {
                    Some((t, e2)) => Parsed::Done((col, t), e2),
                    None => Parsed::Reject,
                },
            }
        } else {
            Parsed::Reject
        },
        Parsed::Reject => Parsed::Reject,
        Parsed::Fail(m) => Parsed::Fail(m),
    }
}

/// The rename mappings from `pos` up to the closing bracket, behind `acc`.
pub open spec fn mappings_from(s: Seq<char>, pos: int, acc: Seq<(ColumnRefView, Seq<char>)>) -> Parsed<
    Seq<(ColumnRefView, Seq<char>)>,
>
    decreases s.len() - pos,
{
    if !(0 <= pos < s.len()) {
        Parsed::Reject
    } else {
        match mapping_at(s, skip_ws(s, pos)) {
            Parsed::Done(m, e) => match after_char(s, e, ',') {
                Some(p) => mappings_from(s, beyond(s, pos, p), acc.push(m)),
                None => match after_char(s, e, ')') {
                    Some(q) => Parsed::Done(acc.push(m), q),
                    None => Parsed::Reject,
                },
            },
            Parsed::Reject => Parsed::Reject,
            Parsed::Fail(m) => Parsed::Fail(m),
        }
    }
}

/// The sort key that starts at `pos`: a column, which `asc` or `desc` may
/// follow.
pub open spec fn sort_key_at(s: Seq<char>, pos: int) -> Parsed<(ColumnRefView, bool)> {
    match column_ref_at(s, pos) {
        Parsed::Done(col, e) => match after_word(s, e, "desc"@) {
            Some(p) => Parsed::Done((col, true), p),
            None => match after_word(s, e, "asc"@) {
                Some(p) => Parsed::Done((col, false), p),
                None => Parsed::Done((col, false), e),
            },
        },
        Parsed::Reject => Parsed::Reject,
        Parsed::Fail(m) => Parsed::Fail(m),
    }
}

/// The sort keys from `pos` up to the closing bracket, behind `acc`.
pub open spec fn sort_keys_from(s: Seq<char>, pos: int, acc: Seq<(ColumnRefView, bool)>) -> Parsed<
    Seq<(ColumnRefView, bool)>,
>
    decreases s.len() - pos,
{
    if !(0 <= pos < s.len()) {
        Parsed::Reject
    } else {
        match sort_key_at(s, skip_ws(s, pos)) {
            Parsed::Done(k, e) => match after_char(s, e, ',') {
                Some(p) => sort_keys_from(s, beyond(s, pos, p), acc.push(k)),
                None => match after_char(s, e, ')') {
                    Some(q) => Parsed::Done(acc.push(k), q),
                    None => Parsed::Reject,
                },
            },
            Parsed::Reject => Parsed::Reject,
            Parsed::Fail(m) => Parsed::Fail(m),
        }
    }
}

/// The count that stands at `pos` behind white space, and the position
/// behind the character `close` that follows it.
pub open spec fn closed_count_at(s: Seq<char>, pos: int, close: char) -> Parsed<usize> {
    match count_at(s, skip_ws(s, pos)) {
        Parsed::Done(n, e) => match after_char(s, e, close) {
            Some(q) => Parsed::Done(n, q),
            None => Parsed::Reject,
        },
        Parsed::Reject => Parsed::Reject,
        Parsed::Fail(m) => Parsed::Fail(m),
    }
}

/// The string that stands at `pos` behind white space, and the position
/// behind the character `close` that follows it.
pub open spec fn closed_string_at(s: Seq<char>, pos: int, close: char) -> Option<(Seq<char>, int)> {
    match string_at(s, skip_ws(s, pos)) {
        Some((t, e)) => match after_char(s, e, close) {
            Some(q) => Some((t, q)),
            None => None,
        },
        None => None,
    }
}

/// The strategy of a `rename_all` from behind its opening bracket, up to and
/// with the closing bracket of the operation: `replace('old', 'new')` or
/// `sequential('prefix', start, end)`.
pub open spec fn strategy_at(s: Seq<char>, pos: int) -> Parsed<RenameStrategyView> {
    match word_at(s, skip_ws(s, pos)) {
        None => Parsed::Reject,
        Some((w, e)) => match after_char(s, e, '(') {
            None => Parsed::Reject,
            Some(p) => if w == "replace"@ {
                match closed_string_at(s, p, ',') {
                    None => Parsed::Reject,
                    Some((old, p2)) => match closed_string_at(s, p2, ')') {
                        None => Parsed::Reject,
                        Some((new, p3)) => match after_char(s, p3, ')') {
                            Some(q) => Parsed::Done(RenameStrategyView::Replace { old, new }, q),
                            None => Parsed::Reject,
                        },
                    },
                }
            } else if w == "sequential"@ {
                match closed_string_at(s, p, ',') {
                    None => Parsed::Reject,
                    Some((prefix, p2)) => match closed_count_at(s, p2, ',') {
                        Parsed::Done(start, p3) => match closed_count_at(s, p3, ')') {
                            Parsed::Done(end, p4) => match after_char(s, p4, ')') {
                                Some(q) => Parsed::Done(
                                    RenameStrategyView::Sequential { prefix, start, end },
                                    q,
                                ),
                                None => Parsed::Reject,
                            },
                            Parsed::Reject => Parsed::Reject,
                            Parsed::Fail(m) => Parsed::Fail(m),
                        },
                        Parsed::Reject => Parsed::Reject,
                        Parsed::Fail(m) => Parsed::Fail(m),
                    },
                }
            } else {
                Parsed::Reject
            },
        },
    }
}

/// The selectors of a list of selector items, without their aliases.
pub open spec fn selectors_of(items: Seq<(SelectorView, Option<Seq<char>>)>) -> Seq<SelectorView> {
    items.map_values(|p: (SelectorView, Option<Seq<char>>)| p.0)
}

/// The list from `pos`, behind an opening bracket, up to the closing bracket,
/// which may be empty; `rest` reads a list that is not.
pub open spec fn list_or_empty<T>(s: Seq<char>, pos: int, rest: Parsed<Seq<T>>) -> Parsed<Seq<T>> {
    match after_char(s, pos, ')') {
        Some(q) => Parsed::Done(Seq::empty(), q),
        None => rest,
    }
}

/// The operation called `name` from behind its opening bracket.
pub open spec fn call_at(s: Seq<char>, pos: int, name: Seq<char>) -> Parsed<OperationView> {
    if name == "read"@ {
        match read_op_at(s, pos) {
            Parsed::Done(op, e) => Parsed::Done(OperationView::Read(op), e),
            Parsed::Reject => Parsed::Reject,
            Parsed::Fail(m) => Parsed::Fail(m),
        }
    } else if name == "write"@ {
        match write_op_at(s, pos) {
            Parsed::Done(op, e) => Parsed::Done(OperationView::Write(op), e),
            Parsed::Reject => Parsed::Reject,
            Parsed::Fail(m) => Parsed::Fail(m),
        }
    } else if name == "select"@ {
        match selector_list_at(s, pos) {
            Parsed::Done(items, e) => Parsed::Done(OperationView::Select(items), e),
            Parsed::Reject => Parsed::Reject,
            Parsed::Fail(m) => Parsed::Fail(m),
        }
    } else if name == "filter"@ {
        match expression_at(s, skip_ws(s, pos)) {
            Parsed::Done(x, e) => match after_char(s, e, ')') {
                Some(q) => Parsed::Done(OperationView::Filter(x), q),
                None => Parsed::Reject,
            },
            Parsed::Reject => Parsed::Reject,
            Parsed::Fail(m) => Parsed::Fail(m),
        }
    } else if name == "mutate"@ {
        match list_or_empty(s, pos, assignments_from(s, pos, Seq::empty())) {
            Parsed::Done(items, e) => Parsed::Done(OperationView::Mutate(items), e),
            Parsed::Reject => Parsed::Reject,
            Parsed::Fail(m) => Parsed::Fail(m),
        }
    } else if name == "rename"@ {
        match list_or_empty(s, pos, mappings_from(s, pos, Seq::empty())) {
            Parsed::Done(items, e) => Parsed::Done(OperationView::Rename(items), e),
            Parsed::Reject => Parsed::Reject,
            Parsed::Fail(m) => Parsed::Fail(m),
        }
    } else if name == "rename_all"@ {
        match strategy_at(s, pos) {
            Parsed::Done(strategy, e) => Parsed::Done(OperationView::RenameAll(strategy), e),
            Parsed::Reject => Parsed::Reject,
            Parsed::Fail(m) => Parsed::Fail(m),
        }
    } else if name == "sort"@ {
        match list_or_empty(s, pos, sort_keys_from(s, pos, Seq::empty())) {
            Parsed::Done(keys, e) => Parsed::Done(OperationView::Sort(keys), e),
            Parsed::Reject => Parsed::Reject,
            Parsed::Fail(m) => Parsed::Fail(m),
        }
    } else if name == "take"@ {
        match closed_count_at(s, pos, ')') {
            Parsed::Done(n, e) => Parsed::Done(OperationView::Take(n), e),
            Parsed::Reject => Parsed::Reject,
            Parsed::Fail(m) => Parsed::Fail(m),
        }
    } else if name == "skip"@ {
        match closed_count_at(s, pos, ')') {
            Parsed::Done(n, e) => Parsed::Done(OperationView::Skip(n), e),
            Parsed::Reject => Parsed::Reject,
            Parsed::Fail(m) => Parsed::Fail(m),
        }
    } else if name == "slice"@ {
        match closed_count_at(s, pos, ',') {
            Parsed::Done(start, p) => match closed_count_at(s, p, ')') {
                Parsed::Done(end, e) => Parsed::Done(OperationView::Slice(start, end), e),
                Parsed::Reject => Parsed::Reject,
                Parsed::Fail(m) => Parsed::Fail(m),
            },
            Parsed::Reject => Parsed::Reject,
            Parsed::Fail(m) => Parsed::Fail(m),
        }
    } else if name == "drop"@ {
        match selector_list_at(s, pos) {
            Parsed::Done(items, e) => Parsed::Done(OperationView::Drop(selectors_of(items)), e),
            Parsed::Reject => Parsed::Reject,
            Parsed::Fail(m) => Parsed::Fail(m),
        }
    } else if name == "distinct"@ {
        match selector_list_at(s, pos) {
            Parsed::Done(items, e) => Parsed::Done(
                OperationView::Distinct(
                    if items.len() == 0 {
                        None
                    } else {
                        Some(selectors_of(items))
                    },
                ),
                e,
            ),
            Parsed::Reject => Parsed::Reject,
            Parsed::Fail(m) => Parsed::Fail(m),
        }
    } else {
        Parsed::Reject
    }
}

/// The operation that starts at `pos`: a call of one of the operations, or a
/// bare word, which names a variable.
pub open spec fn operation_at(s: Seq<char>, pos: int) -> Parsed<OperationView> {
    match word_at(s, pos) {
        None => Parsed::Reject,
        Some((w, e)) => match after_char(s, e, '(') {
            None => Parsed::Done(OperationView::Variable(w), e),
            Some(p) => call_at(s, p, w),
        },
    }
}

/// The operations from `pos` on, separated by `|`, behind `acc`.
pub open spec fn operations_from(s: Seq<char>, pos: int, acc: Seq<OperationView>) -> Parsed<
    Seq<OperationView>,
>
    decreases s.len() - pos,
{
    if !(0 <= pos < s.len()) {
        Parsed::Reject
    } else {
        match operation_at(s, skip_ws(s, pos)) {
            Parsed::Done(op, e) => match after_char(s, e, '|') {
                Some(p) => operations_from(s, beyond(s, pos, p), acc.push(op)),
                None => Parsed::Done(acc.push(op), e),
            },
            Parsed::Reject => Parsed::Reject,
            Parsed::Fail(m) => Parsed::Fail(m),
        }
    }
}

/// The pipeline that a list of stages makes: a first stage that reads a file
/// or names a variable is lifted out of the list and becomes the source.
pub open spec fn hoisted(stages: Seq<OperationView>) -> PipelineView {
    if stages.len() > 0 && stages[0] is Read {
        PipelineView {
            source: Some(SourceView::Read(stages[0]->Read_0)),
            operations: stages.skip(1),
        }
    } else if stages.len() > 0 && stages[0] is Variable {
        PipelineView {
            source: Some(SourceView::Variable(stages[0]->Variable_0)),
            operations: stages.skip(1),
        }
    } else {
        PipelineView { source: None, operations: stages }
    }
}

/// The pipeline that starts at `pos`.
pub open spec fn pipeline_at(s: Seq<char>, pos: int) -> Parsed<PipelineView> {
    match operations_from(s, pos, Seq::empty()) {
        Parsed::Done(stages, e) => Parsed::Done(hoisted(stages), e),
        Parsed::Reject => Parsed::Reject,
        Parsed::Fail(m) => Parsed::Fail(m),
    }
}

/// The statement that starts at `pos`: `name = pipeline`, or a pipeline.
pub open spec fn statement_inner_at(s: Seq<char>, pos: int) -> Parsed<StatementView> {
    match alias_before(s, pos) {
        Some((name, p)) => match pipeline_at(s, p) {
            Parsed::Done(pipeline, e) => Parsed::Done(
                StatementView::Assignment { name, pipeline },
                e,
            ),
            Parsed::Reject => Parsed::Reject,
            Parsed::Fail(m) => Parsed::Fail(m),
        },
        None => match pipeline_at(s, pos) {
            Parsed::Done(pipeline, e) => Parsed::Done(StatementView::Pipeline(pipeline), e),
            Parsed::Reject => Parsed::Reject,
            Parsed::Fail(m) => Parsed::Fail(m),
        },
    }
}

/// The message for a position at which no statement starts.
pub open spec fn expected_message(pos: nat) -> Seq<char> {
    "Expected a statement at position "@ + decimal_text(pos)
}

/// The message for input behind the end of a statement.
pub open spec fn trailing_message(pos: nat) -> Seq<char> {
    "Unexpected input at position "@ + decimal_text(pos)
}

/// The statement that a text writes, or the message of its syntax error. The
/// text holds one statement and, around it, white space only.
pub open spec fn parsed_statement(s: Seq<char>) -> Result<StatementView, Seq<char>> {
    match statement_inner_at(s, skip_ws(s, 0)) {
        Parsed::Done(statement, e) => if skip_ws(s, e) >= s.len() {
            Ok(statement)
        } else {
            Err(trailing_message(skip_ws(s, e) as nat))
        },
        Parsed::Reject => Err(expected_message(skip_ws(s, 0) as nat)),
        Parsed::Fail(m) => Err(m),
    }
}

/// The position of the first character at or behind `pos` that is neither
/// white space nor a semicolon.
pub open spec fn skip_breaks(s: Seq<char>, pos: int) -> int
    decreases s.len() - pos,
{
    if 0 <= pos < s.len() && (crate::parser::scan::is_ws(s[pos]) || s[pos] == ';') {
        skip_breaks(s, pos + 1)
    } else {
        pos
    }
}

/// The statements of a program from `pos` on, behind `acc`, or the message
/// of the first syntax error. Statements follow one another; white space and
/// semicolons may stand between them.
pub open spec fn statements_from(s: Seq<char>, pos: int, acc: Seq<StatementView>) -> Result<
    Seq<StatementView>,
    Seq<char>,
>
    decreases s.len() - pos,
{
    if !(0 <= pos <= s.len()) || skip_breaks(s, pos) >= s.len() {
        Ok(acc)
    } else {
        match statement_inner_at(s, skip_breaks(s, pos)) {
            Parsed::Done(statement, e) => statements_from(
                s,
                beyond(s, pos, e),
                acc.push(statement),
            ),
            Parsed::Reject => Err(expected_message(skip_breaks(s, pos) as nat)),
            Parsed::Fail(m) => Err(m),
        }
    }
}

/// The program that a text writes, or the message of its first syntax error.
pub open spec fn parsed_program(s: Seq<char>) -> Result<ProgramView, Seq<char>> {
    match statements_from(s, 0, Seq::empty()) {
        Ok(statements) => Ok(ProgramView { statements }),
        Err(m) => Err(m),
    }
}

/// The view of a text that may be missing.
pub open spec fn maybe_text(t: Option<(String, usize)>) -> Option<(Seq<char>, int)> {
    match t {
        Some(found) => Some((found.0@, found.1 as int)),
        None => None,
    }
}

/// The value of a parameter that starts at `pos`, as text.
pub fn parse_param_value(s: &Vec<char>, pos: usize) -> (r: Option<(String, usize)>)
    requires
        pos <= s.len(),
    ensures
        maybe_text(r) == param_value_at(s@, pos as int),
        r matches Some(found) ==> pos < found.1 <= s.len(),
{
    match parse_string(s, pos) {
        Some(found) => Some(found),
        None => match read_number(s, pos) {
            Some(found) => Some((found.1, found.2)),
            None => read_word(s, pos),
        },
    }
}

/// The value of a prefix of a run of digits is at most that of the run.
pub proof fn decimal_value_grows(digits: Seq<char>, n: int)
    requires
        0 <= n <= digits.len(),
    ensures
        decimal_value(digits.take(n)) <= decimal_value(digits),
    decreases digits.len() - n,
{
    if n < digits.len() {
        decimal_value_grows(digits, n + 1);
        assert(digits.take(n + 1).drop_last() =~= digits.take(n));
    } else {
        assert(digits.take(n) =~= digits);
    }
}

/// The number that a text writes in digits alone, when it fits a `usize`.
pub fn parse_usize_text(text: &str) -> (r: Option<usize>)
    ensures
        r == usize_syntax(text@),
{
    let chars = to_chars(text);
    let start: usize = if chars.len() > 0 && chars[0] == '+' {
        1
    } else {
        0
    };
    let ghost digits = if text@.len() > 0 && text@[0] == '+' {
        text@.skip(1)
    } else {
        text@
    };
    assert(digits =~= chars@.skip(start as int));
    if chars.len() == start {
        return None;
    }
    let mut acc: usize = 0;
    let mut i: usize = start;
    assert(digits.take(0) =~= Seq::<char>::empty());
    while i < chars.len()
        invariant
            start <= i <= chars.len(),
            chars@ == text@,
            digits == chars@.skip(start as int),
            digits == if text@.len() > 0 && text@[0] == '+' {
                text@.skip(1)
            } else {
                text@
            },
            digits.len() > 0,
            all_digits(digits.take(i - start)),
            acc == decimal_value(digits.take(i - start)),
        decreases chars.len() - i,
    {
        let c = chars[i];
        proof {
            let next = digits.take(i - start + 1);
            assert(next.drop_last() =~= digits.take(i - start));
            assert(next.last() == c);
            assert(digits[i - start] == c);
        }
        if !char_is_digit(c) {
            return None;
        }
        let d: usize = (c as u32 - '0' as u32) as usize;
        if acc > (usize::MAX - d) / 10 {
            proof {
                decimal_value_grows(digits, i - start + 1);
            }
            return None;
        }
        acc = acc * 10 + d;
        i += 1;
        assert forall|k: int| 0 <= k < i - start implies is_digit(
            #[trigger] digits.take(i - start)[k],
        ) by {
            if k < i - start - 1 {
                assert(digits.take(i - start)[k] == digits.take(i - start - 1)[k]);
            }
        }
    }
    assert(digits.take(chars.len() - start) =~= digits);
    Some(acc)
}

/// The first character of a text, if it has one.
pub fn first_of_text(text: &str) -> (r: Option<char>)
    ensures
        r == first_char(text@),
{
    let chars = to_chars(text);
    if chars.len() > 0 {
        Some(chars[0])
    } else {
        None
    }
}

/// A read operation with one more parameter set.
pub fn set_read_param(op: ReadOp, name: &str, value: String) -> (r: Result<ReadOp, String>)
    ensures
        match read_with(op@, name@, value@) {
            Ok(v) => r matches Ok(x) && x@ == v,
            Err(m) => r matches Err(t) && t@ == m,
        },
{
    let mut op = op;
    if same_text(name, "format") {
        op.format = Some(value);
    } else if same_text(name, "delimiter") {
        op.delimiter = first_of_text(value.as_str());
    } else if same_text(name, "header") {
        op.header = Some(same_text(value.as_str(), "true"));
    } else if same_text(name, "skip_rows") {
        match parse_usize_text(value.as_str()) {
            Some(n) => {
                op.skip_rows = Some(n);
            },
            None => {
                return Err(join2("Invalid skip_rows value: ", value.as_str()));
            },
        }
    } else if same_text(name, "trim_whitespace") {
        op.trim_whitespace = Some(same_text(value.as_str(), "true"));
    }
    Ok(op)
}

/// A write operation with one more parameter set.
pub fn set_write_param(op: WriteOp, name: &str, value: String) -> (r: WriteOp)
    ensures
        r@ == write_with(op@, name@, value@),
{
    let mut op = op;
    if same_text(name, "format") {
        op.format = Some(value);
    } else if same_text(name, "header") {
        op.header = Some(same_text(value.as_str(), "true"));
    } else if same_text(name, "delimiter") {
        op.delimiter = first_of_text(value.as_str());
    }
    op
}

/// The parameter `, name = value` that starts at `pos`.
pub fn parse_param(s: &Vec<char>, pos: usize) -> (r: Option<(String, String, usize)>)
    requires
        pos <= s.len(),
    ensures
        match param_at(s@, pos as int) {
            Some((name, value, e)) => r matches Some(found) && found.0@ == name && found.1@
                == value && found.2 == e && pos < e <= s.len(),
            None => r is None,
        },
{
    let p = expect_char(s, pos, ',')?;
    let name = read_word(s, skip_spaces(s, p))?;
    let p2 = expect_assign(s, name.1)?;
    let value = parse_param_value(s, skip_spaces(s, p2))?;
    Some((name.0, value.0, value.1))
}

/// The read operation that the parameters from `pos` up to the closing
/// bracket make of `op`.
pub fn parse_read_params(s: &Vec<char>, pos: usize, op: ReadOp) -> (r: Outcome<ReadOp>)
    requires
        pos <= s.len(),
    ensures
        match read_params_from(s@, pos as int, op@) {
            Parsed::Done(v, end) => r matches Outcome::Done(x, n) && x@ == v && n == end && pos < n
                <= s.len(),
            Parsed::Reject => r is Reject,
            Parsed::Fail(m) => r matches Outcome::Fail(t) && t@ == m,
        },
    decreases s.len() - pos,
{
    if pos >= s.len() {
        return Outcome::Reject;
    }
    match expect_char(s, pos, ')') {
        Some(q) => Outcome::Done(op, q),
        None => match parse_param(s, pos) {
            None => Outcome::Reject,
            Some(found) => match set_read_param(op, found.0.as_str(), found.1) {
                Err(m) => Outcome::Fail(m),
                Ok(next) => parse_read_params(s, found.2, next),
            },
        },
    }
}

/// The write operation that the parameters from `pos` up to the closing
/// bracket make of `op`.
pub fn parse_write_params(s: &Vec<char>, pos: usize, op: WriteOp) -> (r: Outcome<WriteOp>)
    requires
        pos <= s.len(),
    ensures
        match write_params_from(s@, pos as int, op@) {
            Parsed::Done(v, end) => r matches Outcome::Done(x, n) && x@ == v && n == end && pos < n
                <= s.len(),
            Parsed::Reject => r is Reject,
            Parsed::Fail(m) => r matches Outcome::Fail(t) && t@ == m,
        },
    decreases s.len() - pos,
{
    if pos >= s.len() {
        return Outcome::Reject;
    }
    match expect_char(s, pos, ')') {
        Some(q) => Outcome::Done(op, q),
        None => match parse_param(s, pos) {
            None => Outcome::Reject,
            Some(found) => parse_write_params(
                s,
                found.2,
                set_write_param(op, found.0.as_str(), found.1),
            ),
        },
    }
}

/// `read(path, name = value, ...)` from behind its opening bracket.
pub fn parse_read_op(s: &Vec<char>, pos: usize) -> (r: Outcome<ReadOp>)
    requires
        pos <= s.len(),
    ensures
        match read_op_at(s@, pos as int) {
            Parsed::Done(v, end) => r matches Outcome::Done(x, n) && x@ == v && n == end && pos < n
                <= s.len(),
            Parsed::Reject => r is Reject,
            Parsed::Fail(m) => r matches Outcome::Fail(t) && t@ == m,
        },
{
    match parse_string(s, skip_spaces(s, pos)) {
        None => Outcome::Reject,
        Some(path) => match parse_read_params(
            s,
            path.1,
            ReadOp {
                path: path.0,
                format: None,
                delimiter: None,
                header: None,
                skip_rows: None,
                trim_whitespace: None,
            },
        ) {
            Outcome::Done(x, n) => Outcome::Done(x, n),
            Outcome::Reject => Outcome::Reject,
            Outcome::Fail(m) => Outcome::Fail(m),
        },
    }
}

/// `write(path, name = value, ...)` from behind its opening bracket.
pub fn parse_write_op(s: &Vec<char>, pos: usize) -> (r: Outcome<WriteOp>)
    requires
        pos <= s.len(),
    ensures
        match write_op_at(s@, pos as int) {
            Parsed::Done(v, end) => r matches Outcome::Done(x, n) && x@ == v && n == end && pos < n
                <= s.len(),
            Parsed::Reject => r is Reject,
            Parsed::Fail(m) => r matches Outcome::Fail(t) && t@ == m,
        },
{
    match parse_string(s, skip_spaces(s, pos)) {
        None => Outcome::Reject,
        Some(path) => match parse_write_params(
            s,
            path.1,
            WriteOp { path: path.0, format: None, header: None, delimiter: None },
        ) {
            Outcome::Done(x, n) => Outcome::Done(x, n),
            Outcome::Reject => Outcome::Reject,
            Outcome::Fail(m) => Outcome::Fail(m),
        },
    }
}

/// The target of a mutate assignment that starts at `pos`.
pub fn parse_target(s: &Vec<char>, pos: usize) -> (r: Outcome<AssignmentTarget>)
    requires
        pos <= s.len(),
    ensures
        match target_at(s@, pos as int) {
            Parsed::Done(v, end) => r matches Outcome::Done(x, n) && x@ == v && n == end && pos < n
                <= s.len(),
            Parsed::Reject => r is Reject,
            Parsed::Fail(m) => r matches Outcome::Fail(t) && t@ == m,
        },
{
    match read_position(s, pos) {
        Some(found) => {
            if found.0 == 0 {
                Outcome::Fail(
                    String::from_str("Column positions must be 1-based (e.g., $1, $2, ...)"),
                )
            } else {
                Outcome::Done(AssignmentTarget::Position(found.0), found.1)
            }
        },
        None => match read_number(s, pos) {
            Some(found) => Outcome::Done(
                AssignmentTarget::Name(join2("col_", found.1.as_str())),
                found.2,
            ),
            None => match read_word(s, pos) {
                Some(found) => Outcome::Done(AssignmentTarget::Name(found.0), found.1),
                None => Outcome::Reject,
            },
        },
    }
}

/// The assignment `target = expression` that starts at `pos`.
pub fn parse_assignment(s: &Vec<char>, pos: usize) -> (r: Outcome<Assignment>)
    requires
        pos <= s.len(),
    ensures
        match assignment_at(s@, pos as int) {
            Parsed::Done(v, end) => r matches Outcome::Done(x, n) && (x.column@, x.expression@)
                == v && n == end && pos < n <= s.len(),
            Parsed::Reject => r is Reject,
            Parsed::Fail(m) => r matches Outcome::Fail(t) && t@ == m,
        },
{
    match parse_target(s, pos) {
        Outcome::Done(column, e) => match expect_assign(s, e) {
            None => Outcome::Reject,
            Some(p) => match parse_expression(s, skip_spaces(s, p)) {
                Outcome::Done(expression, e2) => Outcome::Done(
                    Assignment { column, expression },
                    e2,
                ),
                Outcome::Reject => Outcome::Reject,
                Outcome::Fail(m) => Outcome::Fail(m),
            },
        },
        Outcome::Reject => Outcome::Reject,
        Outcome::Fail(m) => Outcome::Fail(m),
    }
}

/// The assignments from `pos` up to the closing bracket, behind `acc`.
pub fn parse_assignments(s: &Vec<char>, pos: usize, acc: Vec<Assignment>) -> (r: Outcome<
    Vec<Assignment>,
>)
    requires
        pos <= s.len(),
    ensures
        match assignments_from(s@, pos as int, assignment_views(acc@)) {
            Parsed::Done(v, end) => r matches Outcome::Done(x, n) && assignment_views(x@) == v && n
                == end && pos < n <= s.len(),
            Parsed::Reject => r is Reject,
            Parsed::Fail(m) => r matches Outcome::Fail(t) && t@ == m,
        },
    decreases s.len() - pos,
{
    if pos >= s.len() {
        return Outcome::Reject;
    }
    match parse_assignment(s, skip_spaces(s, pos)) {
        Outcome::Done(a, e) => {
            let ghost before = acc@;
            let ghost added = (a.column@, a.expression@);
            let mut acc = acc;
            acc.push(a);
            assert(assignment_views(acc@) =~= assignment_views(before).push(added));
            match expect_char(s, e, ',') {
                Some(p) => parse_assignments(s, p, acc),
                None => match expect_char(s, e, ')') {
                    Some(q) => Outcome::Done(acc, q),
                    None => Outcome::Reject,
                },
            }
        },
        Outcome::Reject => Outcome::Reject,
        Outcome::Fail(m) => Outcome::Fail(m),
    }
}

/// The rename mapping `column -> name` that starts at `pos`.
pub fn parse_mapping(s: &Vec<char>, pos: usize) -> (r: Outcome<(ColumnRef, String)>)
    requires
        pos <= s.len(),
    ensures
        match mapping_at(s@, pos as int) {
            Parsed::Done(v, end) => r matches Outcome::Done(x, n) && (x.0@, x.1@) == v && n == end
                && pos < n <= s.len(),
            Parsed::Reject => r is Reject,
            Parsed::Fail(m) => r matches Outcome::Fail(t) && t@ == m,
        },
{
    match parse_column_ref(s, pos) {
        Outcome::Done(col, e) => {
            let p = skip_spaces(s, e);
            if p < s.len() && s[p] == '-' && p + 1 < s.len() && s[p + 1] == '>' {
                let q = skip_spaces(s, p + 2);
                match read_word(s, q) {
                    Some(found) => Outcome::Done((col, found.0), found.1),
                    None => match parse_string(s, q) {
                        Some(found) => Outcome::Done((col, found.0), found.1),
                        None => Outcome::Reject,
                    },
                }
            } else {
                Outcome::Reject
            }
        },
        Outcome::Reject => Outcome::Reject,
        Outcome::Fail(m) => Outcome::Fail(m),
    }
}

/// The rename mappings from `pos` up to the closing bracket, behind `acc`.
pub fn parse_mappings(s: &Vec<char>, pos: usize, acc: Vec<(ColumnRef, String)>) -> (r: Outcome<
    Vec<(ColumnRef, String)>,
>)
    requires
        pos <= s.len(),
    ensures
        match mappings_from(s@, pos as int, mapping_views(acc@)) {
            Parsed::Done(v, end) => r matches Outcome::Done(x, n) && mapping_views(x@) == v && n
                == end && pos < n <= s.len(),
            Parsed::Reject => r is Reject,
            Parsed::Fail(m) => r matches Outcome::Fail(t) && t@ == m,
        },
    decreases s.len() - pos,
{
    if pos >= s.len() {
        return Outcome::Reject;
    }
    match parse_mapping(s, skip_spaces(s, pos)) {
        Outcome::Done(m, e) => {
            let ghost before = acc@;
            let ghost added = (m.0@, m.1@);
            let mut acc = acc;
            acc.push(m);
            assert(mapping_views(acc@) =~= mapping_views(before).push(added));
            match expect_char(s, e, ',') {
                Some(p) => parse_mappings(s, p, acc),
                None => match expect_char(s, e, ')') {
                    Some(q) => Outcome::Done(acc, q),
                    None => Outcome::Reject,
                },
            }
        },
        Outcome::Reject => Outcome::Reject,
        Outcome::Fail(m) => Outcome::Fail(m),
    }
}

/// The sort key that starts at `pos`.
pub fn parse_sort_key(s: &Vec<char>, pos: usize) -> (r: Outcome<(ColumnRef, bool)>)
    requires
        pos <= s.len(),
    ensures
        match sort_key_at(s@, pos as int) {
            Parsed::Done(v, end) => r matches Outcome::Done(x, n) && (x.0@, x.1) == v && n == end
                && pos < n <= s.len(),
            Parsed::Reject => r is Reject,
            Parsed::Fail(m) => r matches Outcome::Fail(t) && t@ == m,
        },
{
    match parse_column_ref(s, pos) {
        Outcome::Done(col, e) => match expect_word(s, e, "desc") {
            Some(p) => Outcome::Done((col, true), p),
            None => match expect_word(s, e, "asc") {
                Some(p) => Outcome::Done((col, false), p),
                None => Outcome::Done((col, false), e),
            },
        },
        Outcome::Reject => Outcome::Reject,
        Outcome::Fail(m) => Outcome::Fail(m),
    }
}

/// The sort keys from `pos` up to the closing bracket, behind `acc`.
pub fn parse_sort_keys(s: &Vec<char>, pos: usize, acc: Vec<(ColumnRef, bool)>) -> (r: Outcome<
    Vec<(ColumnRef, bool)>,
>)
    requires
        pos <= s.len(),
    ensures
        match sort_keys_from(s@, pos as int, sort_key_views(acc@)) {
            Parsed::Done(v, end) => r matches Outcome::Done(x, n) && sort_key_views(x@) == v && n
                == end && pos < n <= s.len(),
            Parsed::Reject => r is Reject,
            Parsed::Fail(m) => r matches Outcome::Fail(t) && t@ == m,
        },
    decreases s.len() - pos,
{
    if pos >= s.len() {
        return Outcome::Reject;
    }
    match parse_sort_key(s, skip_spaces(s, pos)) {
        Outcome::Done(k, e) => {
            let ghost before = acc@;
            let ghost added = (k.0@, k.1);
            let mut acc = acc;
            acc.push(k);
            assert(sort_key_views(acc@) =~= sort_key_views(before).push(added));
            match expect_char(s, e, ',') {
                Some(p) => parse_sort_keys(s, p, acc),
                None => match expect_char(s, e, ')') {
                    Some(q) => Outcome::Done(acc, q),
                    None => Outcome::Reject,
                },
            }
        },
        Outcome::Reject => Outcome::Reject,
        Outcome::Fail(m) => Outcome::Fail(m),
    }
}

/// The count that stands at `pos` behind white space, and the position
/// behind the character `close` that follows it.
pub fn parse_closed_count(s: &Vec<char>, pos: usize, close: char) -> (r: Outcome<usize>)
    requires
        pos <= s.len(),
    ensures
        match closed_count_at(s@, pos as int, close) {
            Parsed::Done(v, end) => r matches Outcome::Done(x, n) && x == v && n == end && pos < n
                <= s.len(),
            Parsed::Reject => r is Reject,
            Parsed::Fail(m) => r matches Outcome::Fail(t) && t@ == m,
        },
{
    match read_count(s, skip_spaces(s, pos)) {
        Outcome::Done(n, e) => match expect_char(s, e, close) {
            Some(q) => Outcome::Done(n, q),
            None => Outcome::Reject,
        },
        Outcome::Reject => Outcome::Reject,
        Outcome::Fail(m) => Outcome::Fail(m),
    }
}

/// The string that stands at `pos` behind white space, and the position
/// behind the character `close` that follows it.
pub fn parse_closed_string(s: &Vec<char>, pos: usize, close: char) -> (r: Option<(String, usize)>)
    requires
        pos <= s.len(),
    ensures
        maybe_text(r) == closed_string_at(s@, pos as int, close),
        r matches Some(found) ==> pos < found.1 <= s.len(),
{
    let found = parse_string(s, skip_spaces(s, pos))?;
    let q = expect_char(s, found.1, close)?;
    Some((found.0, q))
}

/// The strategy of a `rename_all` from behind its opening bracket.
pub fn parse_rename_strategy(s: &Vec<char>, pos: usize) -> (r: Outcome<RenameStrategy>)
    requires
        pos <= s.len(),
    ensures
        match strategy_at(s@, pos as int) {
            Parsed::Done(v, end) => r matches Outcome::Done(x, n) && x@ == v && n == end && pos < n
                <= s.len(),
            Parsed::Reject => r is Reject,
            Parsed::Fail(m) => r matches Outcome::Fail(t) && t@ == m,
        },
{
    let found = match read_word(s, skip_spaces(s, pos)) {
        Some(found) => found,
        None => {
            return Outcome::Reject;
        },
    };
    let p = match expect_char(s, found.1, '(') {
        Some(p) => p,
        None => {
            return Outcome::Reject;
        },
    };
    if same_text(found.0.as_str(), "replace") {
        let old = match parse_closed_string(s, p, ',') {
            Some(t) => t,
            None => {
                return Outcome::Reject;
            },
        };
        let new = match parse_closed_string(s, old.1, ')') {
            Some(t) => t,
            None => {
                return Outcome::Reject;
            },
        };
        match expect_char(s, new.1, ')') {
            Some(q) => Outcome::Done(RenameStrategy::Replace { old: old.0, new: new.0 }, q),
            None => Outcome::Reject,
        }
    } else if same_text(found.0.as_str(), "sequential") {
        let prefix = match parse_closed_string(s, p, ',') {
            Some(t) => t,
            None => {
                return Outcome::Reject;
            },
        };
        let (start, p3) = match parse_closed_count(s, prefix.1, ',') {
            Outcome::Done(x, n) => (x, n),
            Outcome::Reject => {
                return Outcome::Reject;
            },
            Outcome::Fail(m) => {
                return Outcome::Fail(m);
            },
        };
        let (end, p4) = match parse_closed_count(s, p3, ')') {
            Outcome::Done(x, n) => (x, n),
            Outcome::Reject => {
                return Outcome::Reject;
            },
            Outcome::Fail(m) => {
                return Outcome::Fail(m);
            },
        };
        match expect_char(s, p4, ')') {
            Some(q) => Outcome::Done(
                RenameStrategy::Sequential { prefix: prefix.0, start, end },
                q,
            ),
            None => Outcome::Reject,
        }
    } else {
        Outcome::Reject
    }
}

/// The selectors of a list of selector items, without their aliases.
pub fn strip_aliases(items: &Vec<(ColumnSelector, Option<String>)>) -> (r: Vec<ColumnSelector>)
    ensures
        selector_views(r@) == selectors_of(aliased_views(items@)),
{
    let mut out: Vec<ColumnSelector> = Vec::new();
    let mut i: usize = 0;
    while i < items.len()
        invariant
            i <= items.len(),
            out.len() == i,
            forall|j: int| 0 <= j < i ==> (#[trigger] out@[j])@ == items@[j].0@,
        decreases items.len() - i,
    {
        out.push(copy_selector(&items[i].0));
        i += 1;
    }
    assert(selector_views(out@) =~= selectors_of(aliased_views(items@)));
    out
}

/// `select(selectors)` from behind its opening bracket.
pub fn parse_select_op(s: &Vec<char>, pos: usize) -> (r: Outcome<SelectOp>)
    requires
        pos <= s.len(),
    ensures
        match selector_list_at(s@, pos as int) {
            Parsed::Done(v, end) => r matches Outcome::Done(x, n) && aliased_views(x.selectors@)
                == v && n == end && pos < n <= s.len(),
            Parsed::Reject => r is Reject,
            Parsed::Fail(m) => r matches Outcome::Fail(t) && t@ == m,
        },
{
    match parse_selector_list(s, pos) {
        Outcome::Done(selectors, n) => Outcome::Done(SelectOp { selectors }, n),
        Outcome::Reject => Outcome::Reject,
        Outcome::Fail(m) => Outcome::Fail(m),
    }
}

/// `drop(selectors)` from behind its opening bracket.
pub fn parse_drop_op(s: &Vec<char>, pos: usize) -> (r: Outcome<DropOp>)
    requires
        pos <= s.len(),
    ensures
        match selector_list_at(s@, pos as int) {
            Parsed::Done(v, end) => r matches Outcome::Done(x, n) && selector_views(x.columns@)
                == selectors_of(v) && n == end && pos < n <= s.len(),
            Parsed::Reject => r is Reject,
            Parsed::Fail(m) => r matches Outcome::Fail(t) && t@ == m,
        },
{
    match parse_selector_list(s, pos) {
        Outcome::Done(items, n) => Outcome::Done(DropOp { columns: strip_aliases(&items) }, n),
        Outcome::Reject => Outcome::Reject,
        Outcome::Fail(m) => Outcome::Fail(m),
    }
}

/// The view of the columns of a distinct.
pub open spec fn distinct_view(op: DistinctOp) -> Option<Seq<SelectorView>> {
    match op.columns {
        Some(cols) => Some(selector_views(cols@)),
        None => None,
    }
}

/// `distinct(selectors?)` from behind its opening bracket; without
/// selectors it is on all columns.
pub fn parse_distinct_op(s: &Vec<char>, pos: usize) -> (r: Outcome<DistinctOp>)
    requires
        pos <= s.len(),
    ensures
        match selector_list_at(s@, pos as int) {
            Parsed::Done(v, end) => r matches Outcome::Done(x, n) && distinct_view(x) == (if v.len()
                == 0 {
                None
            } else {
                Some(selectors_of(v))
            }) && n == end && pos < n <= s.len(),
            Parsed::Reject => r is Reject,
            Parsed::Fail(m) => r matches Outcome::Fail(t) && t@ == m,
        },
{
    match parse_selector_list(s, pos) {
        Outcome::Done(items, n) => {
            if items.len() == 0 {
                Outcome::Done(DistinctOp { columns: None }, n)
            } else {
                Outcome::Done(DistinctOp { columns: Some(strip_aliases(&items)) }, n)
            }
        },
        Outcome::Reject => Outcome::Reject,
        Outcome::Fail(m) => Outcome::Fail(m),
    }
}

/// `filter(condition)` from behind its opening bracket.
pub fn parse_filter_op(s: &Vec<char>, pos: usize) -> (r: Outcome<FilterOp>)
    requires
        pos <= s.len(),
    ensures
        match call_at(s@, pos as int, "filter"@) {
            Parsed::Done(v, end) => r matches Outcome::Done(x, n) && OperationView::Filter(
                x.condition@,
            ) == v && n == end && pos < n <= s.len(),
            Parsed::Reject => r is Reject,
            Parsed::Fail(m) => r matches Outcome::Fail(t) && t@ == m,
        },
{
    proof {
        filter_is_no_other_name();
    }
    match parse_expression(s, skip_spaces(s, pos)) {
        Outcome::Done(condition, e) => match expect_char(s, e, ')') {
            Some(q) => Outcome::Done(FilterOp { condition }, q),
            None => Outcome::Reject,
        },
        Outcome::Reject => Outcome::Reject,
        Outcome::Fail(m) => Outcome::Fail(m),
    }
}

/// The word `filter` is neither `read`, `write` nor `select`.
pub proof fn filter_is_no_other_name()
    ensures
        "filter"@ != "read"@,
        "filter"@ != "write"@,
        "filter"@ != "select"@,
{
    reveal_strlit("filter");
    reveal_strlit("read");
    reveal_strlit("write");
    reveal_strlit("select");
    assert("filter"@.len() == 6);
    assert("read"@.len() == 4);
    assert("write"@.len() == 5);
    assert("filter"@[0] == 'f');
    assert("select"@[0] == 's');
}

/// `mutate(assignments)` from behind its opening bracket.
pub fn parse_mutate_op(s: &Vec<char>, pos: usize) -> (r: Outcome<MutateOp>)
    requires
        pos <= s.len(),
    ensures
        match list_or_empty(s@, pos as int, assignments_from(s@, pos as int, Seq::empty())) {
            Parsed::Done(v, end) => r matches Outcome::Done(x, n) && assignment_views(
                x.assignments@,
            ) == v && n == end && pos < n <= s.len(),
            Parsed::Reject => r is Reject,
            Parsed::Fail(m) => r matches Outcome::Fail(t) && t@ == m,
        },
{
    let acc: Vec<Assignment> = Vec::new();
    assert(assignment_views(acc@) =~= Seq::empty());
    match expect_char(s, pos, ')') {
        Some(q) => Outcome::Done(MutateOp { assignments: acc }, q),
        None => match parse_assignments(s, pos, acc) {
            Outcome::Done(assignments, n) => Outcome::Done(MutateOp { assignments }, n),
            Outcome::Reject => Outcome::Reject,
            Outcome::Fail(m) => Outcome::Fail(m),
        },
    }
}

/// `rename(old -> new, ...)` from behind its opening bracket.
pub fn parse_rename_op(s: &Vec<char>, pos: usize) -> (r: Outcome<RenameOp>)
    requires
        pos <= s.len(),
    ensures
        match list_or_empty(s@, pos as int, mappings_from(s@, pos as int, Seq::empty())) {
            Parsed::Done(v, end) => r matches Outcome::Done(x, n) && mapping_views(x.mappings@)
                == v && n == end && pos < n <= s.len(),
            Parsed::Reject => r is Reject,
            Parsed::Fail(m) => r matches Outcome::Fail(t) && t@ == m,
        },
{
    let acc: Vec<(ColumnRef, String)> = Vec::new();
    assert(mapping_views(acc@) =~= Seq::empty());
    match expect_char(s, pos, ')') {
        Some(q) => Outcome::Done(RenameOp { mappings: acc }, q),
        None => match parse_mappings(s, pos, acc) {
            Outcome::Done(mappings, n) => Outcome::Done(RenameOp { mappings }, n),
            Outcome::Reject => Outcome::Reject,
            Outcome::Fail(m) => Outcome::Fail(m),
        },
    }
}

/// `rename_all(strategy)` from behind its opening bracket.
pub fn parse_rename_all_op(s: &Vec<char>, pos: usize) -> (r: Outcome<RenameAllOp>)
    requires
        pos <= s.len(),
    ensures
        match strategy_at(s@, pos as int) {
            Parsed::Done(v, end) => r matches Outcome::Done(x, n) && x.strategy@ == v && n == end
                && pos < n <= s.len(),
            Parsed::Reject => r is Reject,
            Parsed::Fail(m) => r matches Outcome::Fail(t) && t@ == m,
        },
{
    match parse_rename_strategy(s, pos) {
        Outcome::Done(strategy, n) => Outcome::Done(RenameAllOp { strategy }, n),
        Outcome::Reject => Outcome::Reject,
        Outcome::Fail(m) => Outcome::Fail(m),
    }
}

/// `sort(keys)` from behind its opening bracket.
pub fn parse_sort_op(s: &Vec<char>, pos: usize) -> (r: Outcome<SortOp>)
    requires
        pos <= s.len(),
    ensures
        match list_or_empty(s@, pos as int, sort_keys_from(s@, pos as int, Seq::empty())) {
            Parsed::Done(v, end) => r matches Outcome::Done(x, n) && sort_key_views(x.columns@)
                == v && n == end && pos < n <= s.len(),
            Parsed::Reject => r is Reject,
            Parsed::Fail(m) => r matches Outcome::Fail(t) && t@ == m,
        },
{
    let acc: Vec<(ColumnRef, bool)> = Vec::new();
    assert(sort_key_views(acc@) =~= Seq::empty());
    match expect_char(s, pos, ')') {
        Some(q) => Outcome::Done(SortOp { columns: acc }, q),
        None => match parse_sort_keys(s, pos, acc) {
            Outcome::Done(columns, n) => Outcome::Done(SortOp { columns }, n),
            Outcome::Reject => Outcome::Reject,
            Outcome::Fail(m) => Outcome::Fail(m),
        },
    }
}

/// `take(n)` from behind its opening bracket.
pub fn parse_take_op(s: &Vec<char>, pos: usize) -> (r: Outcome<TakeOp>)
    requires
        pos <= s.len(),
    ensures
        match closed_count_at(s@, pos as int, ')') {
            Parsed::Done(v, end) => r matches Outcome::Done(x, n) && x.n == v && n == end && pos < n
                <= s.len(),
            Parsed::Reject => r is Reject,
            Parsed::Fail(m) => r matches Outcome::Fail(t) && t@ == m,
        },
{
    match parse_closed_count(s, pos, ')') {
        Outcome::Done(n, e) => Outcome::Done(TakeOp { n }, e),
        Outcome::Reject => Outcome::Reject,
        Outcome::Fail(m) => Outcome::Fail(m),
    }
}

/// `skip(n)` from behind its opening bracket.
pub fn parse_skip_op(s: &Vec<char>, pos: usize) -> (r: Outcome<SkipOp>)
    requires
        pos <= s.len(),
    ensures
        match closed_count_at(s@, pos as int, ')') {
            Parsed::Done(v, end) => r matches Outcome::Done(x, n) && x.n == v && n == end && pos < n
                <= s.len(),
            Parsed::Reject => r is Reject,
            Parsed::Fail(m) => r matches Outcome::Fail(t) && t@ == m,
        },
{
    match parse_closed_count(s, pos, ')') {
        Outcome::Done(n, e) => Outcome::Done(SkipOp { n }, e),
        Outcome::Reject => Outcome::Reject,
        Outcome::Fail(m) => Outcome::Fail(m),
    }
}

/// `slice(start, end)` from behind its opening bracket.
pub fn parse_slice_op(s: &Vec<char>, pos: usize) -> (r: Outcome<SliceOp>)
    requires
        pos <= s.len(),
    ensures
        match closed_count_at(s@, pos as int, ',') {
            Parsed::Done(start, p) => match closed_count_at(s@, p, ')') {
                Parsed::Done(end, e) => r matches Outcome::Done(x, n) && x.start == start && x.end
                    == end && n == e && pos < n <= s.len(),
                Parsed::Reject => r is Reject,
                Parsed::Fail(m) => r matches Outcome::Fail(t) && t@ == m,
            },
            Parsed::Reject => r is Reject,
            Parsed::Fail(m) => r matches Outcome::Fail(t) && t@ == m,
        },
{
    match parse_closed_count(s, pos, ',') {
        Outcome::Done(start, p) => match parse_closed_count(s, p, ')') {
            Outcome::Done(end, e) => Outcome::Done(SliceOp { start, end }, e),
            Outcome::Reject => Outcome::Reject,
            Outcome::Fail(m) => Outcome::Fail(m),
        },
        Outcome::Reject => Outcome::Reject,
        Outcome::Fail(m) => Outcome::Fail(m),
    }
}

/// The operation that starts at `pos`.
pub fn parse_operation(s: &Vec<char>, pos: usize) -> (r: Outcome<Operation>)
    requires
        pos <= s.len(),
    ensures
        match operation_at(s@, pos as int) {
            Parsed::Done(v, end) => r matches Outcome::Done(x, n) && x@ == v && n == end && pos < n
                <= s.len(),
            Parsed::Reject => r is Reject,
            Parsed::Fail(m) => r matches Outcome::Fail(t) && t@ == m,
        },
{
    let found = match read_word(s, pos) {
        Some(found) => found,
        None => {
            return Outcome::Reject;
        },
    };
    let p = match expect_char(s, found.1, '(') {
        Some(p) => p,
        None => {
            return Outcome::Done(Operation::Variable(found.0), found.1);
        },
    };
    let name = found.0.as_str();
    if same_text(name, "read") {
        match parse_read_op(s, p) {
            Outcome::Done(op, n) => Outcome::Done(Operation::Read(op), n),
            Outcome::Reject => Outcome::Reject,
            Outcome::Fail(m) => Outcome::Fail(m),
        }
    } else if same_text(name, "write") {
        match parse_write_op(s, p) {
            Outcome::Done(op, n) => Outcome::Done(Operation::Write(op), n),
            Outcome::Reject => Outcome::Reject,
            Outcome::Fail(m) => Outcome::Fail(m),
        }
    } else if same_text(name, "select") {
        match parse_select_op(s, p) {
            Outcome::Done(op, n) => Outcome::Done(Operation::Select(op), n),
            Outcome::Reject => Outcome::Reject,
            Outcome::Fail(m) => Outcome::Fail(m),
        }
    } else if same_text(name, "filter") {
        match parse_filter_op(s, p) {
            Outcome::Done(op, n) => Outcome::Done(Operation::Filter(op), n),
            Outcome::Reject => Outcome::Reject,
            Outcome::Fail(m) => Outcome::Fail(m),
        }
    } else if same_text(name, "mutate") {
        match parse_mutate_op(s, p) {
            Outcome::Done(op, n) => Outcome::Done(Operation::Mutate(op), n),
            Outcome::Reject => Outcome::Reject,
            Outcome::Fail(m) => Outcome::Fail(m),
        }
    } else if same_text(name, "rename") {
        match parse_rename_op(s, p) {
            Outcome::Done(op, n) => Outcome::Done(Operation::Rename(op), n),
            Outcome::Reject => Outcome::Reject,
            Outcome::Fail(m) => Outcome::Fail(m),
        }
    } else if same_text(name, "rename_all") {
        match parse_rename_all_op(s, p) {
            Outcome::Done(op, n) => Outcome::Done(Operation::RenameAll(op), n),
            Outcome::Reject => Outcome::Reject,
            Outcome::Fail(m) => Outcome::Fail(m),
        }
    } else if same_text(name, "sort") {
        match parse_sort_op(s, p) {
            Outcome::Done(op, n) => Outcome::Done(Operation::Sort(op), n),
            Outcome::Reject => Outcome::Reject,
            Outcome::Fail(m) => Outcome::Fail(m),
        }
    } else if same_text(name, "take") {
        match parse_take_op(s, p) {
            Outcome::Done(op, n) => Outcome::Done(Operation::Take(op), n),
            Outcome::Reject => Outcome::Reject,
            Outcome::Fail(m) => Outcome::Fail(m),
        }
    } else if same_text(name, "skip") {
        match parse_skip_op(s, p) {
            Outcome::Done(op, n) => Outcome::Done(Operation::Skip(op), n),
            Outcome::Reject => Outcome::Reject,
            Outcome::Fail(m) => Outcome::Fail(m),
        }
    } else if same_text(name, "slice") {
        match parse_slice_op(s, p) {
            Outcome::Done(op, n) => Outcome::Done(Operation::Slice(op), n),
            Outcome::Reject => Outcome::Reject,
            Outcome::Fail(m) => Outcome::Fail(m),
        }
    } else if same_text(name, "drop") {
        match parse_drop_op(s, p) {
            Outcome::Done(op, n) => Outcome::Done(Operation::Drop(op), n),
            Outcome::Reject => Outcome::Reject,
            Outcome::Fail(m) => Outcome::Fail(m),
        }
    } else if same_text(name, "distinct") {
        match parse_distinct_op(s, p) {
            Outcome::Done(op, n) => Outcome::Done(Operation::Distinct(op), n),
            Outcome::Reject => Outcome::Reject,
            Outcome::Fail(m) => Outcome::Fail(m),
        }
    } else {
        Outcome::Reject
    }
}

/// The operations from `pos` on, separated by `|`, behind `acc`.
pub fn parse_operations(s: &Vec<char>, pos: usize, acc: Vec<Operation>) -> (r: Outcome<
    Vec<Operation>,
>)
    requires
        pos <= s.len(),
    ensures
        match operations_from(s@, pos as int, operation_views(acc@)) {
            Parsed::Done(v, end) => r matches Outcome::Done(x, n) && operation_views(x@) == v && n
                == end && pos < n <= s.len(),
            Parsed::Reject => r is Reject,
            Parsed::Fail(m) => r matches Outcome::Fail(t) && t@ == m,
        },
    decreases s.len() - pos,
{
    if pos >= s.len() {
        return Outcome::Reject;
    }
    match parse_operation(s, skip_spaces(s, pos)) {
        Outcome::Done(op, e) => {
            let ghost before = acc@;
            let ghost added = op@;
            let mut acc = acc;
            acc.push(op);
            assert(operation_views(acc@) =~= operation_views(before).push(added));
            match expect_char(s, e, '|') {
                Some(p) => parse_operations(s, p, acc),
                None => Outcome::Done(acc, e),
            }
        },
        Outcome::Reject => Outcome::Reject,
        Outcome::Fail(m) => Outcome::Fail(m),
    }
}

/// The pipeline that a list of stages makes.
pub fn hoist_source(stages: Vec<Operation>) -> (r: Pipeline)
    ensures
        r@ == hoisted(operation_views(stages@)),
{
    let mut stages = stages;
    let ghost all = operation_views(stages@);
    let lifts = stages.len() > 0 && match &stages[0] {
        Operation::Read(_) => true,
        Operation::Variable(_) => true,
        _ => false,
    };
    assert(stages.len() > 0 ==> all[0] == stages@[0]@);
    if !lifts {
        return Pipeline { source: None, operations: stages };
    }
    let first = stages.remove(0);
    assert(operation_views(stages@) =~= all.skip(1));
    match first {
        Operation::Read(op) => Pipeline { source: Some(Source::Read(op)), operations: stages },
        Operation::Variable(name) => Pipeline {
            source: Some(Source::Variable(name)),
            operations: stages,
        },
        _ => Pipeline { source: None, operations: stages },
    }
}

/// The pipeline that starts at `pos`.
pub fn parse_pipeline(s: &Vec<char>, pos: usize) -> (r: Outcome<Pipeline>)
    requires
        pos <= s.len(),
    ensures
        match pipeline_at(s@, pos as int) {
            Parsed::Done(v, end) => r matches Outcome::Done(x, n) && x@ == v && n == end && pos < n
                <= s.len(),
            Parsed::Reject => r is Reject,
            Parsed::Fail(m) => r matches Outcome::Fail(t) && t@ == m,
        },
{
    let acc: Vec<Operation> = Vec::new();
    assert(operation_views(acc@) =~= Seq::empty());
    match parse_operations(s, pos, acc) {
        Outcome::Done(stages, n) => Outcome::Done(hoist_source(stages), n),
        Outcome::Reject => Outcome::Reject,
        Outcome::Fail(m) => Outcome::Fail(m),
    }
}

/// The statement that starts at `pos`.
pub fn parse_statement_inner(s: &Vec<char>, pos: usize) -> (r: Outcome<Statement>)
    requires
        pos <= s.len(),
    ensures
        match statement_inner_at(s@, pos as int) {
            Parsed::Done(v, end) => r matches Outcome::Done(x, n) && x@ == v && n == end && pos < n
                <= s.len(),
            Parsed::Reject => r is Reject,
            Parsed::Fail(m) => r matches Outcome::Fail(t) && t@ == m,
        },
{
    match read_word(s, pos) {
        Some(found) => match expect_assign(s, found.1) {
            Some(p) => {
                return match parse_pipeline(s, p) {
                    Outcome::Done(pipeline, n) => Outcome::Done(
                        Statement::Assignment { name: found.0, pipeline },
                        n,
                    ),
                    Outcome::Reject => Outcome::Reject,
                    Outcome::Fail(m) => Outcome::Fail(m),
                };
            },
            None => {},
        },
        None => {},
    }
    match parse_pipeline(s, pos) {
        Outcome::Done(pipeline, n) => Outcome::Done(Statement::Pipeline(pipeline), n),
        Outcome::Reject => Outcome::Reject,
        Outcome::Fail(m) => Outcome::Fail(m),
    }
}

/// The statement that the characters write.
pub fn parse_statement(s: &Vec<char>) -> (r: Result<Statement, DtransformError>)
    ensures
        match parsed_statement(s@) {
            Ok(v) => r matches Ok(x) && x@ == v,
            Err(m) => r matches Err(e) && e@ == ErrorView::ParseError(m),
        },
{
    let start = skip_spaces(s, 0);
    match parse_statement_inner(s, start) {
        Outcome::Done(statement, e) => {
            let rest = skip_spaces(s, e);
            if rest >= s.len() {
                Ok(statement)
            } else {
                Err(
                    DtransformError::ParseError(
                        join2("Unexpected input at position ", number_text(rest).as_str()),
                    ),
                )
            }
        },
        Outcome::Reject => Err(
            DtransformError::ParseError(
                join2("Expected a statement at position ", number_text(start).as_str()),
            ),
        ),
        Outcome::Fail(m) => Err(DtransformError::ParseError(m)),
    }
}

/// The position of the first character at or behind `pos` that is neither
/// white space nor a semicolon.
pub fn skip_separators(s: &Vec<char>, pos: usize) -> (r: usize)
    requires
        pos <= s.len(),
    ensures
        r == skip_breaks(s@, pos as int),
        pos <= r <= s.len(),
{
    let mut i: usize = pos;
    while i < s.len() && (s[i] == ' ' || s[i] == '\t' || s[i] == '\n' || s[i] == '\r' || s[i]
        == ';')
        invariant
            pos <= i <= s.len(),
            skip_breaks(s@, pos as int) == skip_breaks(s@, i as int),
        decreases s.len() - i,
    {
        i += 1;
    }
    i
}

/// The statements of a program from `pos` on, behind `acc`.
pub fn parse_program_inner(s: &Vec<char>, pos: usize, acc: Vec<Statement>) -> (r: Result<
    Vec<Statement>,
    DtransformError,
>)
    requires
        pos <= s.len(),
    ensures
        match statements_from(s@, pos as int, statement_views(acc@)) {
            Ok(v) => r matches Ok(x) && statement_views(x@) == v,
            Err(m) => r matches Err(e) && e@ == ErrorView::ParseError(m),
        },
    decreases s.len() - pos,
{
    let start = skip_separators(s, pos);
    if start >= s.len() {
        return Ok(acc);
    }
    match parse_statement_inner(s, start) {
        Outcome::Done(statement, e) => {
            let ghost before = acc@;
            let ghost added = statement@;
            let mut acc = acc;
            acc.push(statement);
            assert(statement_views(acc@) =~= statement_views(before).push(added));
            parse_program_inner(s, e, acc)
        },
        Outcome::Reject => Err(
            DtransformError::ParseError(
                join2("Expected a statement at position ", number_text(start).as_str()),
            ),
        ),
        Outcome::Fail(m) => Err(DtransformError::ParseError(m)),
    }
}

/// The grammar of the pipeline language.
pub struct DtransformParser;

impl DtransformParser {
    /// Parses one statement.
    pub fn statement(input: &str) -> (r: Result<Statement, DtransformError>)
        ensures
            match parsed_statement(input@) {
                Ok(v) => r matches Ok(x) && x@ == v,
                Err(m) => r matches Err(e) && e@ == ErrorView::ParseError(m),
            },
    {
        let chars = to_chars(input);
        parse_statement(&chars)
    }

    /// Parses a whole script.
    pub fn program(input: &str) -> (r: Result<Program, DtransformError>)
        ensures
            match parsed_program(input@) {
                Ok(v) => r matches Ok(x) && x@ == v,
                Err(m) => r matches Err(e) && e@ == ErrorView::ParseError(m),
            },
    {
        let chars = to_chars(input);
        let acc: Vec<Statement> = Vec::new();
        assert(statement_views(acc@) =~= Seq::empty());
        match parse_program_inner(&chars, 0, acc) {
            Ok(statements) => Ok(Program { statements }),
            Err(e) => Err(e),
        }
    }
}

/// Parses a whole script into a program of statements.
pub fn parse_program(input: &str) -> (r: Result<Program, DtransformError>)
    ensures
        match parsed_program(input@) {
            Ok(v) => r matches Ok(x) && x@ == v,
            Err(m) => r matches Err(e) && e@ == ErrorView::ParseError(m),
        },
{
    DtransformParser::program(input)
}

/// Parses exactly one statement, as an interactive session needs it.
pub fn parse(input: &str) -> (r: Result<Statement, DtransformError>)
    ensures
        match parsed_statement(input@) {
            Ok(v) => r matches Ok(x) && x@ == v,
            Err(m) => r matches Err(e) && e@ == ErrorView::ParseError(m),
        },
{
    DtransformParser::statement(input)
}

/// `$N` counts from 1. Wherever a `$N` is read as a column, a lookup field or
/// a mutate target, the `N` that comes out is at least 1; and `$0` never comes
/// out as anything: it fails, with a message of its own where a single
/// position is read.
pub proof fn positions_start_at_one(s: Seq<char>, pos: int)
    requires
        0 <= pos < s.len(),
    ensures
        column_ref_at(s, pos) matches Parsed::Done(ColumnRefView::Position(n), _) ==> n >= 1,
        crate::parser::expression::lookup_field_at(s, pos) matches Parsed::Done(
            crate::ast::LookupFieldView::Position(n),
            _,
        ) ==> n >= 1,
        target_at(s, pos) matches Parsed::Done(AssignmentTargetView::Position(n), _) ==> n >= 1,
        position_at(s, pos) matches Some((n, _)) && n == 0 ==> {
            &&& column_ref_at(s, pos) == Parsed::<ColumnRefView>::Fail(
                crate::parser::selector::zero_column_message(),
            )
            &&& crate::parser::expression::lookup_field_at(s, pos) == Parsed::<
                crate::ast::LookupFieldView,
            >::Fail(zero_field_message())
            &&& target_at(s, pos) == Parsed::<AssignmentTargetView>::Fail(zero_field_message())
            &&& crate::parser::expression::primary_at(s, pos) == Parsed::<ExpressionView>::Fail(
                crate::parser::selector::zero_column_message(),
            )
            &&& !(crate::parser::selector::selector_at(s, pos) is Done)
        },
{
    if position_at(s, pos) is Some {
        assert(s[pos] == '$');
        assert(string_at(s, pos) is None);
        assert(crate::parser::number::digit_run(s, pos) == pos);
        assert(number_at(s, pos) is None);
    }
}

} // verus!
