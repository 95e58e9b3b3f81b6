//! Expressions: literals, column references, the function-style calls and
//! the binary operators with their precedence.

use vstd::prelude::*;
use crate::ast::{
    expression_view, literal_views, BinOp, ColumnRef, ColumnRefView, Expression, ExpressionView,
    Literal, LiteralView, LookupField, LookupFieldView,
};
use crate::error::{DtransformError, ErrorView};
use crate::parser::scan::{
    after_assign, after_char, after_word, beyond, char_at, count_at, expect_assign,
    expect_char, expect_word, number_at, parse_string, position_at, read_count, read_number,
    read_position, read_word, skip_spaces, skip_ws, string_at, word_at, Outcome, Parsed,
};
use crate::parser::selector::zero_column_message;
use crate::text::{join2, same_text, substring};

verus! {

/// The operator that a text writes.
pub open spec fn bin_op_of(text: Seq<char>) -> Option<BinOp> {
    if text == "+"@ {
        Some(BinOp::Add)
    } else if text == "-"@ {
        Some(BinOp::Sub)
    } else if text == "*"@ {
        Some(BinOp::Mul)
    } else if text == "/"@ {
        Some(BinOp::Div)
    } else if text == ">"@ {
        Some(BinOp::Gt)
    } else if text == "<"@ {
        Some(BinOp::Lt)
    } else if text == ">="@ {
        Some(BinOp::Gte)
    } else if text == "<="@ {
        Some(BinOp::Lte)
    } else if text == "=="@ {
        Some(BinOp::Eq)
    } else if text == "!="@ {
        Some(BinOp::Neq)
    } else if text == "and"@ {
        Some(BinOp::And)
    } else if text == "or"@ {
        Some(BinOp::Or)
    } else if text == "in"@ {
        Some(BinOp::In)
    } else {
        None
    }
}

/// The failure for a text that writes no operator.
pub open spec fn unknown_operator(text: Seq<char>) -> ErrorView {
    ErrorView::ParseError("Unknown operator: "@ + text)
}

/// The operator that a text writes.
pub fn parse_bin_op(op_str: &str) -> (r: Result<BinOp, DtransformError>)
    ensures
        match bin_op_of(op_str@) {
            Some(op) => r == Ok::<BinOp, DtransformError>(op),
            None => r matches Err(e) && e@ == unknown_operator(op_str@),
        },
{
    if same_text(op_str, "+") {
        Ok(BinOp::Add)
    } else if same_text(op_str, "-") {
        Ok(BinOp::Sub)
    } else if same_text(op_str, "*") {
        Ok(BinOp::Mul)
    } else if same_text(op_str, "/") {
        Ok(BinOp::Div)
    } else if same_text(op_str, ">") {
        Ok(BinOp::Gt)
    } else if same_text(op_str, "<") {
        Ok(BinOp::Lt)
    } else if same_text(op_str, ">=") {
        Ok(BinOp::Gte)
    } else if same_text(op_str, "<=") {
        Ok(BinOp::Lte)
    } else if same_text(op_str, "==") {
        Ok(BinOp::Eq)
    } else if same_text(op_str, "!=") {
        Ok(BinOp::Neq)
    } else if same_text(op_str, "and") {
        Ok(BinOp::And)
    } else if same_text(op_str, "or") {
        Ok(BinOp::Or)
    } else if same_text(op_str, "in") {
        Ok(BinOp::In)
    } else {
        Err(DtransformError::ParseError(join2("Unknown operator: ", op_str)))
    }
}

/// The level at which an operator binds; a higher level binds less tightly.
pub open spec fn op_level(op: BinOp) -> nat {
    match op {
        BinOp::Mul | BinOp::Div => 1,
        BinOp::Add | BinOp::Sub => 2,
        BinOp::Gt | BinOp::Lt | BinOp::Gte | BinOp::Lte | BinOp::Eq | BinOp::Neq | BinOp::In => 3,
        BinOp::And => 4,
        BinOp::Or => 5,
    }
}

/// The level of the loosest operator: that of a whole expression.
pub open spec fn top_level() -> nat {
    5
}

/// The operator that `width` characters at `pos` write.
pub open spec fn symbol_at(s: Seq<char>, pos: int, width: int) -> Option<BinOp> {
    if 0 <= pos && pos + width <= s.len() {
        bin_op_of(s.subrange(pos, pos + width))
    } else {
        None
    }
}

/// The operator of the given level that starts at `pos`, and the position
/// behind it: one written in two characters, else in one, else as a word.
pub open spec fn operator_at(s: Seq<char>, pos: int, level: nat) -> Option<(BinOp, int)> {
    if symbol_at(s, pos, 2) is Some && op_level(symbol_at(s, pos, 2)->0) == level {
        Some((symbol_at(s, pos, 2)->0, pos + 2))
    } else if symbol_at(s, pos, 1) is Some && op_level(symbol_at(s, pos, 1)->0) == level {
        Some((symbol_at(s, pos, 1)->0, pos + 1))
    } else {
        match word_at(s, pos) {
            Some((w, end)) => match bin_op_of(w) {
                Some(op) => if op_level(op) == level {
                    Some((op, end))
                } else {
                    None
                },
                None => None,
            },
            None => None,
        }
    }
}

/// A position at or behind `pos` for a parse to go on from: `next` when it
/// lies there and within the input, else the end of the input.
pub open spec fn within(s: Seq<char>, pos: int, next: int) -> int {
    if pos <= next <= s.len() {
        next
    } else {
        s.len() as int
    }
}

/// The message for a `split(...)` without an index behind it.
pub open spec fn split_message() -> Seq<char> {
    "split() must be followed by [index]. Example: split(text, ':')[0]"@
}

/// The message for `$0` as a lookup field.
pub open spec fn zero_field_message() -> Seq<char> {
    "Column positions must be 1-based (e.g., $1, $2, ...)"@
}

/// The literal that starts at `pos`: a string, a number, `true`, `false` or
/// `null`.
pub open spec fn literal_at(s: Seq<char>, pos: int) -> Parsed<LiteralView> {
    match string_at(s, pos) {
        Some((t, e)) => Parsed::Done(LiteralView::String(t), e),
        None => match number_at(s, pos) {
            Some((n, text, e)) => Parsed::Done(LiteralView::Number(n), e),
            None => match word_at(s, pos) {
                Some((w, e)) => if w == "true"@ {
                    Parsed::Done(LiteralView::Boolean(true), e)
                } else if w == "false"@ {
                    Parsed::Done(LiteralView::Boolean(false), e)
                } else if w == "null"@ {
                    Parsed::Done(LiteralView::Null, e)
                } else {
                    Parsed::Reject
                },
                None => Parsed::Reject,
            },
        },
    }
}

/// The literals from `pos` up to the closing square bracket, behind `acc`;
/// they are separated by commas, and there is at least one.
pub open spec fn literals_from(s: Seq<char>, pos: int, acc: Seq<LiteralView>) -> Parsed<
    Seq<LiteralView>,
>
    decreases s.len() - pos,
{
    if !(0 <= pos < s.len()) {
        Parsed::Reject
    } else {
        match literal_at(s, skip_ws(s, pos)) {
            Parsed::Done(l, e) => match after_char(s, e, ',') {
                Some(p) => literals_from(s, beyond(s, pos, p), acc.push(l)),
                None => match after_char(s, e, ']') {
                    Some(q) => Parsed::Done(acc.push(l), q),
                    None => Parsed::Reject,
                },
            },
            Parsed::Reject => Parsed::Reject,
            Parsed::Fail(m) => Parsed::Fail(m),
        }
    }
}

/// The list literal whose content starts at `pos`, behind the opening square
/// bracket; it may be empty.
pub open spec fn list_at(s: Seq<char>, pos: int) -> Parsed<Seq<LiteralView>> {
    match after_char(s, pos, ']') {
        Some(q) => Parsed::Done(Seq::empty(), q),
        None => literals_from(s, pos, Seq::empty()),
    }
}

/// The lookup field that starts at `pos`: a quoted name, `$N` with `N` at
/// least 1, or a name.
pub open spec fn lookup_field_at(s: Seq<char>, pos: int) -> Parsed<LookupFieldView> {
    match string_at(s, pos) {
        Some((t, e)) => Parsed::Done(LookupFieldView::Name(t), e),
        None => match position_at(s, pos) {
            Some((n, e)) => if n == 0 {
                Parsed::Fail(zero_field_message())
            } else {
                Parsed::Done(LookupFieldView::Position(n), e)
            },
            None => match word_at(s, pos) {
                Some((w, e)) => Parsed::Done(LookupFieldView::Name(w), e),
                None => Parsed::Reject,
            },
        },
    }
}

/// The expression that starts at `pos`.
pub open spec fn expression_at(s: Seq<char>, pos: int) -> Parsed<ExpressionView> {
    binary_at(s, pos, top_level())
}

/// The expression of the given level that starts at `pos`: operands of the
/// level below, joined from the left by operators of this level. Level 0 is a
/// primary expression.
pub open spec fn binary_at(s: Seq<char>, pos: int, level: nat) -> Parsed<ExpressionView>
    decreases s.len() - pos, level + 2,
{
    if !(0 <= pos < s.len()) {
        Parsed::Reject
    } else if level == 0 {
        primary_at(s, pos)
    } else {
        match binary_at(s, pos, (level - 1) as nat) {
            Parsed::Done(left, e) => binary_rest(s, beyond(s, pos, e), level, left),
            Parsed::Reject => Parsed::Reject,
            Parsed::Fail(m) => Parsed::Fail(m),
        }
    }
}

/// What follows an operand of an expression of the given level: nothing, or
/// an operator of the level and a further operand, and so on. `left` is the
/// expression so far.
pub open spec fn binary_rest(s: Seq<char>, pos: int, level: nat, left: ExpressionView) -> Parsed<
    ExpressionView,
>
    decreases s.len() - pos, level + 2,
{
    if !(0 <= pos < s.len()) || level == 0 {
        Parsed::Done(left, pos)
    } else {
        match operator_at(s, skip_ws(s, pos), level) {
            None => Parsed::Done(left, pos),
            Some((op, p)) => match binary_at(
                s,
                beyond(s, pos, skip_ws(s, p)),
                (level - 1) as nat,
            ) {
                Parsed::Done(right, e) => binary_rest(
                    s,
                    beyond(s, pos, e),
                    level,
                    ExpressionView::BinaryOp { left: Box::new(left), op, right: Box::new(right) },
                ),
                Parsed::Reject => Parsed::Reject,
                Parsed::Fail(m) => Parsed::Fail(m),
            },
        }
    }
}

/// The primary expression that starts at `pos`: a list literal, a literal, a
/// column reference (`$N` or a name) with the method calls that follow it, or
/// one of the calls `split`, `lookup`, `replace` and `re`.
pub open spec fn primary_at(s: Seq<char>, pos: int) -> Parsed<ExpressionView>
    decreases s.len() - pos, 1nat,
{
    if !(0 <= pos < s.len()) {
        Parsed::Reject
    } else if s[pos] == '[' {
        match list_at(s, pos + 1) {
            Parsed::Done(items, e) => Parsed::Done(ExpressionView::List(items), e),
            Parsed::Reject => Parsed::Reject,
            Parsed::Fail(m) => Parsed::Fail(m),
        }
    } else {
        match string_at(s, pos) {
            Some((t, e)) => Parsed::Done(ExpressionView::Literal(LiteralView::String(t)), e),
            None => match number_at(s, pos) {
                Some((n, text, e)) => Parsed::Done(
                    ExpressionView::Literal(LiteralView::Number(n)),
                    e,
                ),
                None => match position_at(s, pos) {
                    Some((n, e)) => if n == 0 {
                        Parsed::Fail(zero_column_message())
                    } else {
                        method_rest(
                            s,
                            beyond(s, pos, e),
                            ExpressionView::Column(ColumnRefView::Position(n)),
                        )
                    },
                    None => match word_at(s, pos) {
                        None => Parsed::Reject,
                        Some((w, e)) => word_primary_at(s, pos, w, e),
                    },
                },
            },
        }
    }
}

/// The primary expression that starts with the word `w`, which stands at
/// `pos` and ends at `e`: `true`, `false` or `null`; one of the calls; or a
/// column name with the method calls that follow it.
pub open spec fn word_primary_at(s: Seq<char>, pos: int, w: Seq<char>, e: int) -> Parsed<
    ExpressionView,
>
    decreases s.len() - pos, 0nat,
{
    if !(0 <= pos < s.len()) {
        Parsed::Reject
    } else if w == "true"@ {
        Parsed::Done(ExpressionView::Literal(LiteralView::Boolean(true)), e)
    } else if w == "false"@ {
        Parsed::Done(ExpressionView::Literal(LiteralView::Boolean(false)), e)
    } else if w == "null"@ {
        Parsed::Done(ExpressionView::Literal(LiteralView::Null), e)
    } else {
        match after_char(s, e, '(') {
            Some(p) => if w == "split"@ {
                split_call_at(s, beyond(s, pos, p))
            } else if w == "lookup"@ {
                lookup_call_at(s, beyond(s, pos, p))
            } else if w == "replace"@ {
                replace_call_at(s, beyond(s, pos, p))
            } else if w == "re"@ {
                match string_at(s, skip_ws(s, p)) {
                    Some((pattern, e2)) => match after_char(s, e2, ')') {
                        Some(q) => Parsed::Done(ExpressionView::Regex(pattern), q),
                        None => Parsed::Reject,
                    },
                    None => Parsed::Reject,
                }
            } else {
                Parsed::Reject
            },
            None => method_rest(
                s,
                beyond(s, pos, e),
                ExpressionView::Column(ColumnRefView::Name(w)),
            ),
        }
    }
}

/// The method calls that follow an object: `.name(args)`, again and again.
pub open spec fn method_rest(s: Seq<char>, pos: int, object: ExpressionView) -> Parsed<
    ExpressionView,
>
    decreases s.len() - pos, 9nat,
{
    if !(0 <= pos < s.len()) || s[pos] != '.' {
        Parsed::Done(object, pos)
    } else {
        match word_at(s, pos + 1) {
            None => Parsed::Reject,
            Some((method, e)) => match after_char(s, e, '(') {
                None => Parsed::Reject,
                Some(p) => match args_at(s, beyond(s, pos, p)) {
                    Parsed::Done(args, q) => method_rest(
                        s,
                        beyond(s, pos, q),
                        ExpressionView::MethodCall { object: Box::new(object), method, args },
                    ),
                    Parsed::Reject => Parsed::Reject,
                    Parsed::Fail(m) => Parsed::Fail(m),
                },
            },
        }
    }
}

/// The arguments from `pos`, behind an opening bracket, up to the closing
/// bracket; there may be none.
pub open spec fn args_at(s: Seq<char>, pos: int) -> Parsed<Seq<ExpressionView>>
    decreases s.len() - pos, 10nat,
{
    if !(0 <= pos <= s.len()) {
        Parsed::Reject
    } else {
        match after_char(s, pos, ')') {
            Some(q) => Parsed::Done(Seq::empty(), q),
            None => args_from(s, pos, Seq::empty()),
        }
    }
}

/// The arguments from `pos` up to the closing bracket, behind `acc`.
pub open spec fn args_from(s: Seq<char>, pos: int, acc: Seq<ExpressionView>) -> Parsed<
    Seq<ExpressionView>,
>
    decreases s.len() - pos, 9nat,
{
    if !(0 <= pos < s.len()) {
        Parsed::Reject
    } else {
        match binary_at(s, within(s, pos, skip_ws(s, pos)), top_level()) {
            Parsed::Done(a, e) => match after_char(s, e, ',') {
                Some(p) => args_from(s, beyond(s, pos, p), acc.push(a)),
                None => match after_char(s, e, ')') {
                    Some(q) => Parsed::Done(acc.push(a), q),
                    None => Parsed::Reject,
                },
            },
            Parsed::Reject => Parsed::Reject,
            Parsed::Fail(m) => Parsed::Fail(m),
        }
    }
}

/// The expression that is an argument of a call: behind white space, and
/// with the position behind it.
pub open spec fn argument_at(s: Seq<char>, pos: int) -> Parsed<ExpressionView>
    decreases s.len() - pos, 8nat,
{
    if !(0 <= pos <= s.len()) {
        Parsed::Reject
    } else {
        binary_at(s, within(s, pos, skip_ws(s, pos)), top_level())
    }
}

/// The call `split(string, delimiter)[index]` from behind its opening
/// bracket. A call without the index fails with a message of its own.
pub open spec fn split_call_at(s: Seq<char>, pos: int) -> Parsed<ExpressionView>
    decreases s.len() - pos, 9nat,
{
    if !(0 <= pos < s.len()) {
        Parsed::Reject
    } else {
        match argument_at(s, pos) {
            Parsed::Done(string, e1) => match after_char(s, e1, ',') {
                None => Parsed::Reject,
                Some(p) => match argument_at(s, beyond(s, pos, p)) {
                    Parsed::Done(delimiter, e2) => match after_char(s, e2, ')') {
                        None => Parsed::Reject,
                        Some(q) => match after_char(s, q, '[') {
                            None => Parsed::Fail(split_message()),
                            Some(i) => match count_at(s, skip_ws(s, i)) {
                                Parsed::Done(index, e3) => match after_char(s, e3, ']') {
                                    Some(z) => Parsed::Done(
                                        ExpressionView::Split {
                                            string: Box::new(string),
                                            delimiter: Box::new(delimiter),
                                            index,
                                        },
                                        z,
                                    ),
                                    None => Parsed::Reject,
                                },
                                Parsed::Reject => Parsed::Reject,
                                Parsed::Fail(m) => Parsed::Fail(m),
                            },
                        },
                    },
                    Parsed::Reject => Parsed::Reject,
                    Parsed::Fail(m) => Parsed::Fail(m),
                },
            },
            Parsed::Reject => Parsed::Reject,
            Parsed::Fail(m) => Parsed::Fail(m),
        }
    }
}

/// The field that `label = field` gives from `pos`, and the position behind
/// it.
pub open spec fn labelled_field_at(s: Seq<char>, pos: int, label: Seq<char>) -> Parsed<
    LookupFieldView,
> {
    match after_word(s, pos, label) {
        None => Parsed::Reject,
        Some(p) => match after_assign(s, p) {
            None => Parsed::Reject,
            Some(q) => lookup_field_at(s, skip_ws(s, q)),
        },
    }
}

/// The call `lookup(table, key, on = field, return = field)` from behind its
/// opening bracket.
pub open spec fn lookup_call_at(s: Seq<char>, pos: int) -> Parsed<ExpressionView>
    decreases s.len() - pos, 9nat,
{
    if !(0 <= pos < s.len()) {
        Parsed::Reject
    } else {
        match word_at(s, skip_ws(s, pos)) {
            None => Parsed::Reject,
            Some((table, e0)) => match after_char(s, e0, ',') {
                None => Parsed::Reject,
                Some(p) => match argument_at(s, beyond(s, pos, p)) {
                    Parsed::Done(key, e1) => match after_char(s, e1, ',') {
                        None => Parsed::Reject,
                        Some(p2) => match labelled_field_at(s, p2, "on"@) {
                            Parsed::Done(on, e2) => match after_char(s, e2, ',') {
                                None => Parsed::Reject,
                                Some(p3) => match labelled_field_at(s, p3, "return"@) {
                                    Parsed::Done(return_field, e3) => match after_char(s, e3, ')') {
                                        Some(z) => Parsed::Done(
                                            ExpressionView::Lookup {
                                                table,
                                                key: Box::new(key),
                                                on,
                                                return_field,
                                            },
                                            z,
                                        ),
                                        None => Parsed::Reject,
                                    },
                                    Parsed::Reject => Parsed::Reject,
                                    Parsed::Fail(m) => Parsed::Fail(m),
                                },
                            },
                            Parsed::Reject => Parsed::Reject,
                            Parsed::Fail(m) => Parsed::Fail(m),
                        },
                    },
                    Parsed::Reject => Parsed::Reject,
                    Parsed::Fail(m) => Parsed::Fail(m),
                },
            },
        }
    }
}

/// The call `replace(text, old, new)` from behind its opening bracket.
pub open spec fn replace_call_at(s: Seq<char>, pos: int) -> Parsed<ExpressionView>
    decreases s.len() - pos, 9nat,
{
    if !(0 <= pos < s.len()) {
        Parsed::Reject
    } else {
        match argument_at(s, pos) {
            Parsed::Done(text, e1) => match after_char(s, e1, ',') {
                None => Parsed::Reject,
                Some(p) => match argument_at(s, beyond(s, pos, p)) {
                    Parsed::Done(old, e2) => match after_char(s, e2, ',') {
                        None => Parsed::Reject,
                        Some(p2) => match argument_at(s, beyond(s, pos, p2)) {
                            Parsed::Done(new, e3) => match after_char(s, e3, ')') {
                                Some(z) => Parsed::Done(
                                    ExpressionView::Replace {
                                        text: Box::new(text),
                                        old: Box::new(old),
                                        new: Box::new(new),
                                    },
                                    z,
                                ),
                                None => Parsed::Reject,
                            },
                            Parsed::Reject => Parsed::Reject,
                            Parsed::Fail(m) => Parsed::Fail(m),
                        },
                    },
                    Parsed::Reject => Parsed::Reject,
                    Parsed::Fail(m) => Parsed::Fail(m),
                },
            },
            Parsed::Reject => Parsed::Reject,
            Parsed::Fail(m) => Parsed::Fail(m),
        }
    }
}

/// The level at which an operator binds.
pub fn level_of(op: BinOp) -> (r: usize)
    ensures
        r == op_level(op),
{
    match op {
        BinOp::Mul | BinOp::Div => 1,
        BinOp::Add | BinOp::Sub => 2,
        BinOp::Gt | BinOp::Lt | BinOp::Gte | BinOp::Lte | BinOp::Eq | BinOp::Neq | BinOp::In => 3,
        BinOp::And => 4,
        BinOp::Or => 5,
    }
}

/// The operator that `width` characters at `pos` write.
fn read_symbol(s: &Vec<char>, pos: usize, width: usize) -> (r: Option<BinOp>)
    requires
        pos <= s.len(),
        width <= 2,
    ensures
        r == symbol_at(s@, pos as int, width as int),
{
    if width <= s.len() - pos {
        let text = substring(s, pos, pos + width);
        match parse_bin_op(text.as_str()) {
            Ok(op) => Some(op),
            Err(_) => None,
        }
    } else {
        None
    }
}

/// The operator of the given level that starts at `pos`, and the position
/// behind it.
pub fn read_operator(s: &Vec<char>, pos: usize, level: usize) -> (r: Option<(BinOp, usize)>)
    requires
        pos <= s.len(),
    ensures
        match operator_at(s@, pos as int, level as nat) {
            Some((op, end)) => r == Some((op, end as usize)) && pos < end <= s.len(),
            None => r is None,
        },
{
    match read_symbol(s, pos, 2) {
        Some(op) => {
            if level_of(op) == level {
                return Some((op, pos + 2));
            }
        },
        None => {},
    }
    match read_symbol(s, pos, 1) {
        Some(op) => {
            if level_of(op) == level {
                return Some((op, pos + 1));
            }
        },
        None => {},
    }
    match read_word(s, pos) {
        Some(found) => match parse_bin_op(found.0.as_str()) {
            Ok(op) => {
                if level_of(op) == level {
                    Some((op, found.1))
                } else {
                    None
                }
            },
            Err(_) => None,
        },
        None => None,
    }
}

/// The literal that starts at `pos`.
pub fn parse_literal(s: &Vec<char>, pos: usize) -> (r: Outcome<Literal>)
    requires
        pos <= s.len(),
    ensures
        match literal_at(s@, pos as int) {
            Parsed::Done(v, end) => r matches Outcome::Done(x, n) && x@ == v && n == end && pos < n
                <= s.len(),
            Parsed::Reject => r is Reject,
            Parsed::Fail(m) => r matches Outcome::Fail(t) && t@ == m,
        },
{
    match parse_string(s, pos) {
        Some(found) => Outcome::Done(Literal::String(found.0), found.1),
        None => match read_number(s, pos) {
            Some(found) => Outcome::Done(Literal::Number(found.0), found.2),
            None => match read_word(s, pos) {
                Some(found) => {
                    if same_text(found.0.as_str(), "true") {
                        Outcome::Done(Literal::Boolean(true), found.1)
                    } else if same_text(found.0.as_str(), "false") {
                        Outcome::Done(Literal::Boolean(false), found.1)
                    } else if same_text(found.0.as_str(), "null") {
                        Outcome::Done(Literal::Null, found.1)
                    } else {
                        Outcome::Reject
                    }
                },
                None => Outcome::Reject,
            },
        },
    }
}

/// The literals from `pos` up to the closing square bracket, behind `acc`.
pub fn parse_literals(s: &Vec<char>, pos: usize, acc: Vec<Literal>) -> (r: Outcome<Vec<Literal>>)
    requires
        pos <= s.len(),
    ensures
        match literals_from(s@, pos as int, literal_views(acc@)) {
            Parsed::Done(v, end) => r matches Outcome::Done(x, n) && literal_views(x@) == v && n
                == end && pos < n <= s.len(),
            Parsed::Reject => r is Reject,
            Parsed::Fail(m) => r matches Outcome::Fail(t) && t@ == m,
        },
    decreases s.len() - pos,
{
    if pos >= s.len() {
        return Outcome::Reject;
    }
    match parse_literal(s, skip_spaces(s, pos)) {
        Outcome::Done(l, e) => {
            let ghost before = acc@;
            let ghost added = l@;
            let mut acc = acc;
            acc.push(l);
            assert(literal_views(acc@) =~= literal_views(before).push(added));
            match expect_char(s, e, ',') {
                Some(p) => parse_literals(s, p, acc),
                None => match expect_char(s, e, ']') {
                    Some(q) => Outcome::Done(acc, q),
                    None => Outcome::Reject,
                },
            }
        },
        Outcome::Reject => Outcome::Reject,
        Outcome::Fail(m) => Outcome::Fail(m),
    }
}

/// The list literal whose content starts at `pos`.
pub fn parse_list(s: &Vec<char>, pos: usize) -> (r: Outcome<Vec<Literal>>)
    requires
        pos <= s.len(),
    ensures
        match list_at(s@, pos as int) {
            Parsed::Done(v, end) => r matches Outcome::Done(x, n) && literal_views(x@) == v && n
                == end && pos < n <= s.len(),
            Parsed::Reject => r is Reject,
            Parsed::Fail(m) => r matches Outcome::Fail(t) && t@ == m,
        },
{
    let acc: Vec<Literal> = Vec::new();
    assert(literal_views(acc@) =~= Seq::empty());
    match expect_char(s, pos, ']') {
        Some(q) => Outcome::Done(acc, q),
        None => parse_literals(s, pos, acc),
    }
}

/// The lookup field that starts at `pos`.
pub fn parse_lookup_field(s: &Vec<char>, pos: usize) -> (r: Outcome<LookupField>)
    requires
        pos <= s.len(),
    ensures
        match lookup_field_at(s@, pos as int) {
            Parsed::Done(v, end) => r matches Outcome::Done(x, n) && x@ == v && n == end && pos < n
                <= s.len(),
            Parsed::Reject => r is Reject,
            Parsed::Fail(m) => r matches Outcome::Fail(t) && t@ == m,
        },
{
    match parse_string(s, pos) {
        Some(found) => Outcome::Done(LookupField::Name(found.0), found.1),
        None => match read_position(s, pos) {
            Some(found) => {
                if found.0 == 0 {
                    Outcome::Fail(
                        String::from_str("Column positions must be 1-based (e.g., $1, $2, ...)"),
                    )
                } else {
                    Outcome::Done(LookupField::Position(found.0), found.1)
                }
            },
            None => match read_word(s, pos) {
                Some(found) => Outcome::Done(LookupField::Name(found.0), found.1),
                None => Outcome::Reject,
            },
        },
    }
}

/// The views of a list of arguments.
pub open spec fn arg_views(args: Seq<Expression>) -> Seq<ExpressionView> {
    Seq::new(args.len(), |i: int| expression_view(args[i]))
}

/// The expression that starts at `pos`.
pub fn parse_expression(s: &Vec<char>, pos: usize) -> (r: Outcome<Expression>)
    requires
        pos <= s.len(),
    ensures
        match expression_at(s@, pos as int) {
            Parsed::Done(v, end) => r matches Outcome::Done(x, n) && x@ == v && n == end && pos < n
                <= s.len(),
            Parsed::Reject => r is Reject,
            Parsed::Fail(m) => r matches Outcome::Fail(t) && t@ == m,
        },
{
    parse_binary(s, pos, 5)
}

/// The expression of the given level that starts at `pos`.
pub fn parse_binary(s: &Vec<char>, pos: usize, level: usize) -> (r: Outcome<Expression>)
    requires
        pos <= s.len(),
        level <= 5,
    ensures
        match binary_at(s@, pos as int, level as nat) {
            Parsed::Done(v, end) => r matches Outcome::Done(x, n) && x@ == v && n == end && pos < n
                <= s.len(),
            Parsed::Reject => r is Reject,
            Parsed::Fail(m) => r matches Outcome::Fail(t) && t@ == m,
        },
    decreases s.len() - pos, level + 2,
{
    if pos >= s.len() {
        return Outcome::Reject;
    }
    if level == 0 {
        return parse_primary(s, pos);
    }
    match parse_binary(s, pos, level - 1) {
        Outcome::Done(left, e) => match parse_binary_rest(s, e, level, left) {
            Outcome::Done(x, n) => Outcome::Done(x, n),
            Outcome::Reject => Outcome::Reject,
            Outcome::Fail(m) => Outcome::Fail(m),
        },
        Outcome::Reject => Outcome::Reject,
        Outcome::Fail(m) => Outcome::Fail(m),
    }
}

/// What follows an operand of an expression of the given level.
pub fn parse_binary_rest(s: &Vec<char>, pos: usize, level: usize, left: Expression) -> (r: Outcome<
    Expression,
>)
    requires
        pos <= s.len(),
        level <= 5,
    ensures
        match binary_rest(s@, pos as int, level as nat, left@) {
            Parsed::Done(v, end) => r matches Outcome::Done(x, n) && x@ == v && n == end && pos
                <= n <= s.len(),
            Parsed::Reject => r is Reject,
            Parsed::Fail(m) => r matches Outcome::Fail(t) && t@ == m,
        },
    decreases s.len() - pos, level + 2,
{
    if pos >= s.len() || level == 0 {
        return Outcome::Done(left, pos);
    }
    let found = match read_operator(s, skip_spaces(s, pos), level) {
        Some(found) => found,
        None => {
            return Outcome::Done(left, pos);
        },
    };
    match parse_binary(s, skip_spaces(s, found.1), level - 1) {
        Outcome::Done(right, e) => {
            let joined = Expression::BinaryOp {
                left: Box::new(left),
                op: found.0,
                right: Box::new(right),
            };
            parse_binary_rest(s, e, level, joined)
        },
        Outcome::Reject => Outcome::Reject,
        Outcome::Fail(m) => Outcome::Fail(m),
    }
}

/// The primary expression that starts at `pos`.
pub fn parse_primary(s: &Vec<char>, pos: usize) -> (r: Outcome<Expression>)
    requires
        pos <= s.len(),
    ensures
        match primary_at(s@, pos as int) {
            Parsed::Done(v, end) => r matches Outcome::Done(x, n) && x@ == v && n == end && pos < n
                <= s.len(),
            Parsed::Reject => r is Reject,
            Parsed::Fail(m) => r matches Outcome::Fail(t) && t@ == m,
        },
    decreases s.len() - pos, 1nat,
{
    if pos >= s.len() {
        return Outcome::Reject;
    }
    if s[pos] == '[' {
        return match parse_list(s, pos + 1) {
            Outcome::Done(items, e) => Outcome::Done(Expression::List(items), e),
            Outcome::Reject => Outcome::Reject,
            Outcome::Fail(m) => Outcome::Fail(m),
        };
    }
    match parse_string(s, pos) {
        Some(found) => {
            return Outcome::Done(Expression::Literal(Literal::String(found.0)), found.1);
        },
        None => {},
    }
    match read_number(s, pos) {
        Some(found) => {
            return Outcome::Done(Expression::Literal(Literal::Number(found.0)), found.2);
        },
        None => {},
    }
    match read_position(s, pos) {
        Some(found) => {
            if found.0 == 0 {
                return Outcome::Fail(String::from_str("Positional columns start at $1, not $0"));
            }
            return parse_method_call(
                s,
                found.1,
                Expression::Column(ColumnRef::Position(found.0)),
            );
        },
        None => {},
    }
    match read_word(s, pos) {
        None => Outcome::Reject,
        Some(found) => parse_word_primary(s, pos, found.0, found.1),
    }
}

/// The primary expression that starts with the word `w`.
pub fn parse_word_primary(s: &Vec<char>, pos: usize, w: String, e: usize) -> (r: Outcome<
    Expression,
>)
    requires
        pos < e <= s.len(),
    ensures
        match word_primary_at(s@, pos as int, w@, e as int) {
            Parsed::Done(v, end) => r matches Outcome::Done(x, n) && x@ == v && n == end && pos < n
                <= s.len(),
            Parsed::Reject => r is Reject,
            Parsed::Fail(m) => r matches Outcome::Fail(t) && t@ == m,
        },
    decreases s.len() - pos, 0nat,
{
    if same_text(w.as_str(), "true") {
        return Outcome::Done(Expression::Literal(Literal::Boolean(true)), e);
    }
    if same_text(w.as_str(), "false") {
        return Outcome::Done(Expression::Literal(Literal::Boolean(false)), e);
    }
    if same_text(w.as_str(), "null") {
        return Outcome::Done(Expression::Literal(Literal::Null), e);
    }
    match expect_char(s, e, '(') {
        Some(p) => {
            if same_text(w.as_str(), "split") {
                parse_split_call(s, p)
            } else if same_text(w.as_str(), "lookup") {
                parse_lookup_call(s, p)
            } else if same_text(w.as_str(), "replace") {
                parse_replace_call(s, p)
            } else if same_text(w.as_str(), "re") {
                match parse_string(s, skip_spaces(s, p)) {
                    Some(pattern) => match expect_char(s, pattern.1, ')') {
                        Some(q) => Outcome::Done(Expression::Regex(pattern.0), q),
                        None => Outcome::Reject,
                    },
                    None => Outcome::Reject,
                }
            } else {
                Outcome::Reject
            }
        },
        None => parse_method_call(s, e, Expression::Column(ColumnRef::Name(w))),
    }
}

/// The method calls that follow an object.
pub fn parse_method_call(s: &Vec<char>, pos: usize, object: Expression) -> (r: Outcome<Expression>)
    requires
        pos <= s.len(),
    ensures
        match method_rest(s@, pos as int, object@) {
            Parsed::Done(v, end) => r matches Outcome::Done(x, n) && x@ == v && n == end && pos
                <= n <= s.len(),
            Parsed::Reject => r is Reject,
            Parsed::Fail(m) => r matches Outcome::Fail(t) && t@ == m,
        },
    decreases s.len() - pos, 9nat,
{
    if pos >= s.len() || s[pos] != '.' {
        return Outcome::Done(object, pos);
    }
    let found = match read_word(s, pos + 1) {
        Some(found) => found,
        None => {
            return Outcome::Reject;
        },
    };
    let p = match expect_char(s, found.1, '(') {
        Some(p) => p,
        None => {
            return Outcome::Reject;
        },
    };
    match parse_args(s, p) {
        Outcome::Done(args, q) => {
            let ghost views = arg_views(args@);
            let call = Expression::MethodCall { object: Box::new(object), method: found.0, args };
            assert(call@->MethodCall_args =~= views);
            parse_method_call(s, q, call)
        },
        Outcome::Reject => Outcome::Reject,
        Outcome::Fail(m) => Outcome::Fail(m),
    }
}

/// The arguments from `pos`, behind an opening bracket, up to the closing
/// bracket.
pub fn parse_args(s: &Vec<char>, pos: usize) -> (r: Outcome<Vec<Expression>>)
    requires
        pos <= s.len(),
    ensures
        match args_at(s@, pos as int) {
            Parsed::Done(v, end) => r matches Outcome::Done(x, n) && arg_views(x@) == v && n == end
                && pos < n <= s.len(),
            Parsed::Reject => r is Reject,
            Parsed::Fail(m) => r matches Outcome::Fail(t) && t@ == m,
        },
    decreases s.len() - pos, 10nat,
{
    let acc: Vec<Expression> = Vec::new();
    assert(arg_views(acc@) =~= Seq::empty());
    match expect_char(s, pos, ')') {
        Some(q) => Outcome::Done(acc, q),
        None => parse_args_from(s, pos, acc),
    }
}

/// The arguments from `pos` up to the closing bracket, behind `acc`.
pub fn parse_args_from(s: &Vec<char>, pos: usize, acc: Vec<Expression>) -> (r: Outcome<
    Vec<Expression>,
>)
    requires
        pos <= s.len(),
    ensures
        match args_from(s@, pos as int, arg_views(acc@)) {
            Parsed::Done(v, end) => r matches Outcome::Done(x, n) && arg_views(x@) == v && n == end
                && pos < n <= s.len(),
            Parsed::Reject => r is Reject,
            Parsed::Fail(m) => r matches Outcome::Fail(t) && t@ == m,
        },
    decreases s.len() - pos, 9nat,
{
    if pos >= s.len() {
        return Outcome::Reject;
    }
    match parse_binary(s, skip_spaces(s, pos), 5) {
        Outcome::Done(a, e) => {
            let ghost before = acc@;
            let ghost added = a@;
            let mut acc = acc;
            acc.push(a);
            assert(arg_views(acc@) =~= arg_views(before).push(added));
            match expect_char(s, e, ',') {
                Some(p) => parse_args_from(s, p, acc),
                None => match expect_char(s, e, ')') {
                    Some(q) => Outcome::Done(acc, q),
                    None => Outcome::Reject,
                },
            }
        },
        Outcome::Reject => Outcome::Reject,
        Outcome::Fail(m) => Outcome::Fail(m),
    }
}

/// The expression that is an argument of a call.
pub fn parse_argument(s: &Vec<char>, pos: usize) -> (r: Outcome<Expression>)
    requires
        pos <= s.len(),
    ensures
        match argument_at(s@, pos as int) {
            Parsed::Done(v, end) => r matches Outcome::Done(x, n) && x@ == v && n == end && pos < n
                <= s.len(),
            Parsed::Reject => r is Reject,
            Parsed::Fail(m) => r matches Outcome::Fail(t) && t@ == m,
        },
    decreases s.len() - pos, 8nat,
{
    parse_binary(s, skip_spaces(s, pos), 5)
}

/// The call `split(string, delimiter)[index]` from behind its opening
/// bracket.
pub fn parse_split_call(s: &Vec<char>, pos: usize) -> (r: Outcome<Expression>)
    requires
        pos <= s.len(),
    ensures
        match split_call_at(s@, pos as int) {
            Parsed::Done(v, end) => r matches Outcome::Done(x, n) && x@ == v && n == end && pos < n
                <= s.len(),
            Parsed::Reject => r is Reject,
            Parsed::Fail(m) => r matches Outcome::Fail(t) && t@ == m,
        },
    decreases s.len() - pos, 9nat,
{
    if pos >= s.len() {
        return Outcome::Reject;
    }
    let (string, e1) = match parse_argument(s, pos) {
        Outcome::Done(x, n) => (x, n),
        Outcome::Reject => {
            return Outcome::Reject;
        },
        Outcome::Fail(m) => {
            return Outcome::Fail(m);
        },
    };
    let p = match expect_char(s, e1, ',') {
        Some(p) => p,
        None => {
            return Outcome::Reject;
        },
    };
    let (delimiter, e2) = match parse_argument(s, p) {
        Outcome::Done(x, n) => (x, n),
        Outcome::Reject => {
            return Outcome::Reject;
        },
        Outcome::Fail(m) => {
            return Outcome::Fail(m);
        },
    };
    let q = match expect_char(s, e2, ')') {
        Some(q) => q,
        None => {
            return Outcome::Reject;
        },
    };
    let i = match expect_char(s, q, '[') {
        Some(i) => i,
        None => {
            return Outcome::Fail(
                String::from_str(
                    "split() must be followed by [index]. Example: split(text, ':')[0]",
                ),
            );
        },
    };
    match read_count(s, skip_spaces(s, i)) {
        Outcome::Done(index, e3) => match expect_char(s, e3, ']') {
            Some(z) => Outcome::Done(
                Expression::Split {
                    string: Box::new(string),
                    delimiter: Box::new(delimiter),
                    index,
                },
                z,
            ),
            None => Outcome::Reject,
        },
        Outcome::Reject => Outcome::Reject,
        Outcome::Fail(m) => Outcome::Fail(m),
    }
}

/// The field that `label = field` gives from `pos`.
pub fn parse_labelled_field(s: &Vec<char>, pos: usize, label: &str) -> (r: Outcome<LookupField>)
    requires
        pos <= s.len(),
    ensures
        match labelled_field_at(s@, pos as int, label@) {
            Parsed::Done(v, end) => r matches Outcome::Done(x, n) && x@ == v && n == end && pos < n
                <= s.len(),
            Parsed::Reject => r is Reject,
            Parsed::Fail(m) => r matches Outcome::Fail(t) && t@ == m,
        },
{
    match expect_word(s, pos, label) {
        None => Outcome::Reject,
        Some(p) => match expect_assign(s, p) {
            None => Outcome::Reject,
            Some(q) => match parse_lookup_field(s, skip_spaces(s, q)) {
                Outcome::Done(x, n) => Outcome::Done(x, n),
                Outcome::Reject => Outcome::Reject,
                Outcome::Fail(m) => Outcome::Fail(m),
            },
        },
    }
}

/// The call `lookup(table, key, on = field, return = field)` from behind its
/// opening bracket.
pub fn parse_lookup_call(s: &Vec<char>, pos: usize) -> (r: Outcome<Expression>)
    requires
        pos <= s.len(),
    ensures
        match lookup_call_at(s@, pos as int) {
            Parsed::Done(v, end) => r matches Outcome::Done(x, n) && x@ == v && n == end && pos < n
                <= s.len(),
            Parsed::Reject => r is Reject,
            Parsed::Fail(m) => r matches Outcome::Fail(t) && t@ == m,
        },
    decreases s.len() - pos, 9nat,
{
    if pos >= s.len() {
        return Outcome::Reject;
    }
    let table = match read_word(s, skip_spaces(s, pos)) {
        Some(found) => found,
        None => {
            return Outcome::Reject;
        },
    };
    let p = match expect_char(s, table.1, ',') {
        Some(p) => p,
        None => {
            return Outcome::Reject;
        },
    };
    let (key, e1) = match parse_argument(s, p) {
        Outcome::Done(x, n) => (x, n),
        Outcome::Reject => {
            return Outcome::Reject;
        },
        Outcome::Fail(m) => {
            return Outcome::Fail(m);
        },
    };
    let p2 = match expect_char(s, e1, ',') {
        Some(p) => p,
        None => {
            return Outcome::Reject;
        },
    };
    let (on, e2) = match parse_labelled_field(s, p2, "on") {
        Outcome::Done(x, n) => (x, n),
        Outcome::Reject => {
            return Outcome::Reject;
        },
        Outcome::Fail(m) => {
            return Outcome::Fail(m);
        },
    };
    let p3 = match expect_char(s, e2, ',') {
        Some(p) => p,
        None => {
            return Outcome::Reject;
        },
    };
    let (return_field, e3) = match parse_labelled_field(s, p3, "return") {
        Outcome::Done(x, n) => (x, n),
        Outcome::Reject => {
            return Outcome::Reject;
        },
        Outcome::Fail(m) => {
            return Outcome::Fail(m);
        },
    };
    match expect_char(s, e3, ')') {
        Some(z) => Outcome::Done(
            Expression::Lookup { table: table.0, key: Box::new(key), on, return_field },
            z,
        ),
        None => Outcome::Reject,
    }
}

/// The call `replace(text, old, new)` from behind its opening bracket.
pub fn parse_replace_call(s: &Vec<char>, pos: usize) -> (r: Outcome<Expression>)
    requires
        pos <= s.len(),
    ensures
        match replace_call_at(s@, pos as int) {
            Parsed::Done(v, end) => r matches Outcome::Done(x, n) && x@ == v && n == end && pos < n
                <= s.len(),
            Parsed::Reject => r is Reject,
            Parsed::Fail(m) => r matches Outcome::Fail(t) && t@ == m,
        },
    decreases s.len() - pos, 9nat,
{
    if pos >= s.len() {
        return Outcome::Reject;
    }
    let (text, e1) = match parse_argument(s, pos) {
        Outcome::Done(x, n) => (x, n),
        Outcome::Reject => {
            return Outcome::Reject;
        },
        Outcome::Fail(m) => {
            return Outcome::Fail(m);
        },
    };
    let p = match expect_char(s, e1, ',') {
        Some(p) => p,
        None => {
            return Outcome::Reject;
        },
    };
    let (old, e2) = match parse_argument(s, p) {
        Outcome::Done(x, n) => (x, n),
        Outcome::Reject => {
            return Outcome::Reject;
        },
        Outcome::Fail(m) => {
            return Outcome::Fail(m);
        },
    };
    let p2 = match expect_char(s, e2, ',') {
        Some(p) => p,
        None => {
            return Outcome::Reject;
        },
    };
    let (new, e3) = match parse_argument(s, p2) {
        Outcome::Done(x, n) => (x, n),
        Outcome::Reject => {
            return Outcome::Reject;
        },
        Outcome::Fail(m) => {
            return Outcome::Fail(m);
        },
    };
    match expect_char(s, e3, ')') {
        Some(z) => Outcome::Done(
            Expression::Replace { text: Box::new(text), old: Box::new(old), new: Box::new(new) },
            z,
        ),
        None => Outcome::Reject,
    }
}

} // verus!
