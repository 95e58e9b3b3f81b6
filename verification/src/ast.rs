//! The syntax tree of one parsed program, and the mathematical view of each
//! node: the same tree with texts as character sequences and lists as
//! sequences.

use vstd::prelude::*;

verus! {

/// The factor that a suffix letter gives a numeric literal.
#[derive(Debug, Clone, Copy, PartialEq, Eq, Structural)]
pub enum Scale {
    /// No suffix.
    One,
    /// `k` or `K`.
    Thousand,
    /// `m` or `M`.
    Million,
    /// `b` or `B`.
    Billion,
}

impl Scale {
    /// The number of decimal places that the factor shifts by.
    pub open spec fn places(self) -> nat {
        match self {
            Scale::One => 0,
            Scale::Thousand => 3,
            Scale::Million => 6,
            Scale::Billion => 9,
        }
    }
}

/// A numeric literal as written: sign, whole digits, fraction digits and the
/// suffix factor. It stands for an exact decimal value.
#[derive(Debug, Clone, PartialEq, Eq)]
pub struct Number {
    pub negative: bool,
    pub whole: String,
    pub fraction: String,
    pub scale: Scale,
}

pub struct NumberView {
    pub negative: bool,
    pub whole: Seq<char>,
    pub fraction: Seq<char>,
    pub scale: Scale,
}

impl View for Number {
    type V = NumberView;

    open spec fn view(&self) -> NumberView {
        NumberView {
            negative: self.negative,
            whole: self.whole@,
            fraction: self.fraction@,
            scale: self.scale,
        }
    }
}

/// The abstract type tags that a type selector can name.
#[derive(Debug, Clone, Copy, PartialEq, Eq, Structural)]
pub enum DataType {
    Number,
    String,
    Boolean,
    Date,
    DateTime,
}

/// The binary operators of the expression language.
#[derive(Debug, Clone, Copy, PartialEq, Eq, Structural)]
pub enum BinOp {
    Add,
    Sub,
    Mul,
    Div,
    Gt,
    Lt,
    Gte,
    Lte,
    Eq,
    Neq,
    And,
    Or,
    /// Membership test (value in collection).
    In,
}

/// A column named, or counted from 0, or counted from 1 as `$N` is.
#[derive(Debug, Clone, PartialEq, Eq)]
pub enum ColumnRef {
    Name(String),
    Index(usize),
    Position(usize),
}

pub enum ColumnRefView {
    Name(Seq<char>),
    Index(usize),
    Position(usize),
}

impl View for ColumnRef {
    type V = ColumnRefView;

    open spec fn view(&self) -> ColumnRefView {
        match self {
            ColumnRef::Name(n) => ColumnRefView::Name(n@),
            ColumnRef::Index(i) => ColumnRefView::Index(*i),
            ColumnRef::Position(p) => ColumnRefView::Position(*p),
        }
    }
}

/// The column that a mutate assignment binds: by name, or by `$N`.
#[derive(Debug, Clone, PartialEq, Eq)]
pub enum AssignmentTarget {
    Name(String),
    Position(usize),
}

pub enum AssignmentTargetView {
    Name(Seq<char>),
    Position(usize),
}

impl View for AssignmentTarget {
    type V = AssignmentTargetView;

    open spec fn view(&self) -> AssignmentTargetView {
        match self {
            AssignmentTarget::Name(n) => AssignmentTargetView::Name(n@),
            AssignmentTarget::Position(p) => AssignmentTargetView::Position(*p),
        }
    }
}

/// A field of a lookup table: by name, or by `$N`.
#[derive(Debug, Clone, PartialEq, Eq)]
pub enum LookupField {
    Name(String),
    Position(usize),
}

pub enum LookupFieldView {
    Name(Seq<char>),
    Position(usize),
}

impl View for LookupField {
    type V = LookupFieldView;

    open spec fn view(&self) -> LookupFieldView {
        match self {
            LookupField::Name(n) => LookupFieldView::Name(n@),
            LookupField::Position(p) => LookupFieldView::Position(*p),
        }
    }
}

/// A literal value.
#[derive(Debug, Clone, PartialEq, Eq)]
pub enum Literal {
    Number(Number),
    String(String),
    Boolean(bool),
    Null,
}

pub enum LiteralView {
    Number(NumberView),
    String(Seq<char>),
    Boolean(bool),
    Null,
}

impl View for Literal {
    type V = LiteralView;

    open spec fn view(&self) -> LiteralView {
        match self {
            Literal::Number(n) => LiteralView::Number(n@),
            Literal::String(s) => LiteralView::String(s@),
            Literal::Boolean(b) => LiteralView::Boolean(*b),
            Literal::Null => LiteralView::Null,
        }
    }
}

/// The views of a list of literals.
pub open spec fn literal_views(items: Seq<Literal>) -> Seq<LiteralView> {
    items.map_values(|l: Literal| l@)
}

/// A tree that denotes a set of columns.
#[derive(Debug, PartialEq, Eq)]
pub enum ColumnSelector {
    Name(String),
    /// Counted from 0; written `$N` with `N` one more.
    Index(usize),
    /// Both ends counted from 0 and included; written `$N..$M`.
    Range(usize, usize),
    Regex(String),
    Type(Vec<DataType>),
    All,
    Except(Box<ColumnSelector>),
    And(Box<ColumnSelector>, Box<ColumnSelector>),
}

pub enum SelectorView {
    Name(Seq<char>),
    Index(usize),
    Range(usize, usize),
    Regex(Seq<char>),
    Type(Seq<DataType>),
    All,
    Except(Box<SelectorView>),
    And(Box<SelectorView>, Box<SelectorView>),
}

/// The view of a selector tree.
pub open spec fn selector_view(s: ColumnSelector) -> SelectorView
    decreases s,
{
    match s {
        ColumnSelector::Name(n) => SelectorView::Name(n@),
        ColumnSelector::Index(i) => SelectorView::Index(i),
        ColumnSelector::Range(a, b) => SelectorView::Range(a, b),
        ColumnSelector::Regex(p) => SelectorView::Regex(p@),
        ColumnSelector::Type(ts) => SelectorView::Type(ts@),
        ColumnSelector::All => SelectorView::All,
        ColumnSelector::Except(inner) => SelectorView::Except(Box::new(selector_view(*inner))),
        ColumnSelector::And(l, r) => SelectorView::And(
            Box::new(selector_view(*l)),
            Box::new(selector_view(*r)),
        ),
    }
}

impl View for ColumnSelector {
    type V = SelectorView;

    open spec fn view(&self) -> SelectorView {
        selector_view(*self)
    }
}

/// A copy of a selector tree.
pub fn copy_selector(s: &ColumnSelector) -> (r: ColumnSelector)
    ensures
        r@ == s@,
    decreases s,
{
    match s {
        ColumnSelector::Name(n) => ColumnSelector::Name(n.clone()),
        ColumnSelector::Index(i) => ColumnSelector::Index(*i),
        ColumnSelector::Range(a, b) => ColumnSelector::Range(*a, *b),
        ColumnSelector::Regex(p) => ColumnSelector::Regex(p.clone()),
        ColumnSelector::Type(ts) => {
            let mut out: Vec<DataType> = Vec::new();
            let mut i: usize = 0;
            while i < ts.len()
                invariant
                    i <= ts.len(),
                    out@ == ts@.take(i as int),
                decreases ts.len() - i,
            {
                out.push(ts[i]);
                i += 1;
                assert(out@ =~= ts@.take(i as int));
            }
            assert(ts@.take(ts.len() as int) =~= ts@);
            ColumnSelector::Type(out)
        },
        ColumnSelector::All => ColumnSelector::All,
        ColumnSelector::Except(inner) => ColumnSelector::Except(Box::new(copy_selector(inner))),
        ColumnSelector::And(l, r) => ColumnSelector::And(
            Box::new(copy_selector(l)),
            Box::new(copy_selector(r)),
        ),
    }
}

impl Clone for ColumnSelector {
    fn clone(&self) -> (r: Self)
        ensures
            r@ == self@,
    {
        copy_selector(self)
    }
}

/// The views of a list of selectors.
pub open spec fn selector_views(items: Seq<ColumnSelector>) -> Seq<SelectorView> {
    items.map_values(|s: ColumnSelector| s@)
}

/// The views of a list of selectors with their optional aliases.
pub open spec fn aliased_views(items: Seq<(ColumnSelector, Option<String>)>) -> Seq<
    (SelectorView, Option<Seq<char>>),
> {
    items.map_values(
        |p: (ColumnSelector, Option<String>)|
            (
                p.0@,
                match p.1 {
                    Some(a) => Some(a@),
                    None => None,
                },
            ),
    )
}

/// An expression over the rows of a table.
#[derive(Debug, PartialEq, Eq)]
pub enum Expression {
    Literal(Literal),
    Column(ColumnRef),
    /// A list literal, for the `in` operator.
    List(Vec<Literal>),
    /// An explicit reference to a stored table.
    Variable(String),
    BinaryOp { left: Box<Expression>, op: BinOp, right: Box<Expression> },
    /// The legacy `object.method(args)` form; it never evaluates.
    MethodCall { object: Box<Expression>, method: String, args: Vec<Expression> },
    Split { string: Box<Expression>, delimiter: Box<Expression>, index: usize },
    Lookup { table: String, key: Box<Expression>, on: LookupField, return_field: LookupField },
    Replace { text: Box<Expression>, old: Box<Expression>, new: Box<Expression> },
    /// A pattern literal `re('...')`; legal only as the `old` of a replace.
    Regex(String),
}

pub enum ExpressionView {
    Literal(LiteralView),
    Column(ColumnRefView),
    List(Seq<LiteralView>),
    Variable(Seq<char>),
    BinaryOp { left: Box<ExpressionView>, op: BinOp, right: Box<ExpressionView> },
    MethodCall { object: Box<ExpressionView>, method: Seq<char>, args: Seq<ExpressionView> },
    Split { string: Box<ExpressionView>, delimiter: Box<ExpressionView>, index: usize },
    Lookup {
        table: Seq<char>,
        key: Box<ExpressionView>,
        on: LookupFieldView,
        return_field: LookupFieldView,
    },
    Replace { text: Box<ExpressionView>, old: Box<ExpressionView>, new: Box<ExpressionView> },
    Regex(Seq<char>),
}

/// The view of an expression tree.
pub open spec fn expression_view(e: Expression) -> ExpressionView
    decreases e,
{
    match e {
        Expression::Literal(l) => ExpressionView::Literal(l@),
        Expression::Column(c) => ExpressionView::Column(c@),
        Expression::List(items) => ExpressionView::List(literal_views(items@)),
        Expression::Variable(v) => ExpressionView::Variable(v@),
        Expression::BinaryOp { left, op, right } => ExpressionView::BinaryOp {
            left: Box::new(expression_view(*left)),
            op: op,
            right: Box::new(expression_view(*right)),
        },
        Expression::MethodCall { object, method, args } => ExpressionView::MethodCall {
            object: Box::new(expression_view(*object)),
            method: method@,
            args: Seq::new(
                args.len() as nat,
                |i: int|
                    if 0 <= i < args.len() {
                        expression_view(args[i])
                    } else {
                        ExpressionView::Literal(LiteralView::Null)
                    },
            ),
        },
        Expression::Split { string, delimiter, index } => ExpressionView::Split {
            string: Box::new(expression_view(*string)),
            delimiter: Box::new(expression_view(*delimiter)),
            index: index,
        },
        Expression::Lookup { table, key, on, return_field } => ExpressionView::Lookup {
            table: table@,
            key: Box::new(expression_view(*key)),
            on: on@,
            return_field: return_field@,
        },
        Expression::Replace { text, old, new } => ExpressionView::Replace {
            text: Box::new(expression_view(*text)),
            old: Box::new(expression_view(*old)),
            new: Box::new(expression_view(*new)),
        },
        Expression::Regex(p) => ExpressionView::Regex(p@),
    }
}

impl View for Expression {
    type V = ExpressionView;

    open spec fn view(&self) -> ExpressionView {
        expression_view(*self)
    }
}

/// A copy of a literal.
pub fn copy_literal(l: &Literal) -> (r: Literal)
    ensures
        r@ == l@,
{
    match l {
        Literal::Number(n) => Literal::Number(
            Number {
                negative: n.negative,
                whole: n.whole.clone(),
                fraction: n.fraction.clone(),
                scale: n.scale,
            },
        ),
        Literal::String(s) => Literal::String(s.clone()),
        Literal::Boolean(b) => Literal::Boolean(*b),
        Literal::Null => Literal::Null,
    }
}

/// A copy of a column reference.
pub fn copy_column_ref(c: &ColumnRef) -> (r: ColumnRef)
    ensures
        r@ == c@,
{
    match c {
        ColumnRef::Name(n) => ColumnRef::Name(n.clone()),
        ColumnRef::Index(i) => ColumnRef::Index(*i),
        ColumnRef::Position(p) => ColumnRef::Position(*p),
    }
}

/// A copy of a lookup field.
pub fn copy_lookup_field(f: &LookupField) -> (r: LookupField)
    ensures
        r@ == f@,
{
    match f {
        LookupField::Name(n) => LookupField::Name(n.clone()),
        LookupField::Position(p) => LookupField::Position(*p),
    }
}

/// A copy of an expression tree.
pub fn copy_expression(e: &Expression) -> (r: Expression)
    ensures
        r@ == e@,
    decreases e,
{
    match e {
        Expression::Literal(l) => Expression::Literal(copy_literal(l)),
        Expression::Column(c) => Expression::Column(copy_column_ref(c)),
        Expression::List(items) => {
            let mut out: Vec<Literal> = Vec::new();
            let mut i: usize = 0;
            while i < items.len()
                invariant
                    i <= items.len(),
                    out.len() == i,
                    forall|j: int| 0 <= j < i ==> out@[j]@ == items@[j]@,
                decreases items.len() - i,
            {
                let l = copy_literal(&items[i]);
                out.push(l);
                i += 1;
            }
            assert(literal_views(out@) =~= literal_views(items@));
            Expression::List(out)
        },
        Expression::Variable(v) => Expression::Variable(v.clone()),
        Expression::BinaryOp { left, op, right } => Expression::BinaryOp {
            left: Box::new(copy_expression(left)),
            op: *op,
            right: Box::new(copy_expression(right)),
        },
        Expression::MethodCall { object, method, args } => {
            let mut out: Vec<Expression> = Vec::new();
            let mut i: usize = 0;
            while i < args.len()
                invariant
                    i <= args.len(),
                    out.len() == i,
                    e is MethodCall,
                    e->MethodCall_args == *args,
                    forall|j: int| 0 <= j < i ==> expression_view(out@[j]) == expression_view(args@[j]),
                decreases args.len() - i,
            {
                let a = copy_expression(&args[i]);
                out.push(a);
                i += 1;
            }
            let r = Expression::MethodCall {
                object: Box::new(copy_expression(object)),
                method: method.clone(),
                args: out,
            };
            assert(r@->MethodCall_args =~= e@->MethodCall_args);
            r
        },
        Expression::Split { string, delimiter, index } => Expression::Split {
            string: Box::new(copy_expression(string)),
            delimiter: Box::new(copy_expression(delimiter)),
            index: *index,
        },
        Expression::Lookup { table, key, on, return_field } => Expression::Lookup {
            table: table.clone(),
            key: Box::new(copy_expression(key)),
            on: copy_lookup_field(on),
            return_field: copy_lookup_field(return_field),
        },
        Expression::Replace { text, old, new } => Expression::Replace {
            text: Box::new(copy_expression(text)),
            old: Box::new(copy_expression(old)),
            new: Box::new(copy_expression(new)),
        },
        Expression::Regex(p) => Expression::Regex(p.clone()),
    }
}

impl Clone for Expression {
    fn clone(&self) -> (r: Self)
        ensures
            r@ == self@,
    {
        copy_expression(self)
    }
}

/// How `rename_all` makes the new names.
#[derive(Debug, Clone, PartialEq, Eq)]
pub enum RenameStrategy {
    Replace { old: String, new: String },
    Sequential { prefix: String, start: usize, end: usize },
}

pub enum RenameStrategyView {
    Replace { old: Seq<char>, new: Seq<char> },
    Sequential { prefix: Seq<char>, start: usize, end: usize },
}

impl View for RenameStrategy {
    type V = RenameStrategyView;

    open spec fn view(&self) -> RenameStrategyView {
        match self {
            RenameStrategy::Replace { old, new } => RenameStrategyView::Replace {
                old: old@,
                new: new@,
            },
            RenameStrategy::Sequential { prefix, start, end } => RenameStrategyView::Sequential {
                prefix: prefix@,
                start: *start,
                end: *end,
            },
        }
    }
}

/// The view of an optional text.
pub open spec fn text_view(t: Option<String>) -> Option<Seq<char>> {
    match t {
        Some(s) => Some(s@),
        None => None,
    }
}

#[derive(Debug, Clone, PartialEq, Eq)]
pub struct ReadOp {
    pub path: String,
    pub format: Option<String>,
    pub delimiter: Option<char>,
    /// Whether the file has a header row.
    pub header: Option<bool>,
    /// The number of rows to skip before reading.
    pub skip_rows: Option<usize>,
    /// Whether to trim each line and collapse runs of whitespace.
    pub trim_whitespace: Option<bool>,
}

pub struct ReadOpView {
    pub path: Seq<char>,
    pub format: Option<Seq<char>>,
    pub delimiter: Option<char>,
    pub header: Option<bool>,
    pub skip_rows: Option<usize>,
    pub trim_whitespace: Option<bool>,
}

impl View for ReadOp {
    type V = ReadOpView;

    open spec fn view(&self) -> ReadOpView {
        ReadOpView {
            path: self.path@,
            format: text_view(self.format),
            delimiter: self.delimiter,
            header: self.header,
            skip_rows: self.skip_rows,
            trim_whitespace: self.trim_whitespace,
        }
    }
}

#[derive(Debug, Clone, PartialEq, Eq)]
pub struct WriteOp {
    pub path: String,
    pub format: Option<String>,
    pub header: Option<bool>,
    pub delimiter: Option<char>,
}

pub struct WriteOpView {
    pub path: Seq<char>,
    pub format: Option<Seq<char>>,
    pub header: Option<bool>,
    pub delimiter: Option<char>,
}

impl View for WriteOp {
    type V = WriteOpView;

    open spec fn view(&self) -> WriteOpView {
        WriteOpView {
            path: self.path@,
            format: text_view(self.format),
            header: self.header,
            delimiter: self.delimiter,
        }
    }
}

#[derive(Debug, Clone, PartialEq, Eq)]
pub struct SelectOp {
    /// Each selector with its optional alias.
    pub selectors: Vec<(ColumnSelector, Option<String>)>,
}

#[derive(Debug, Clone, PartialEq, Eq)]
pub struct FilterOp {
    pub condition: Expression,
}

#[derive(Debug, Clone, PartialEq, Eq)]
pub struct Assignment {
    pub column: AssignmentTarget,
    pub expression: Expression,
}

/// The views of a list of assignments.
pub open spec fn assignment_views(items: Seq<Assignment>) -> Seq<
    (AssignmentTargetView, ExpressionView),
> {
    items.map_values(|a: Assignment| (a.column@, a.expression@))
}

#[derive(Debug, Clone, PartialEq, Eq)]
pub struct MutateOp {
    pub assignments: Vec<Assignment>,
}

#[derive(Debug, Clone, PartialEq, Eq)]
pub struct RenameOp {
    pub mappings: Vec<(ColumnRef, String)>,
}

/// The views of a list of rename mappings.
pub open spec fn mapping_views(items: Seq<(ColumnRef, String)>) -> Seq<
    (ColumnRefView, Seq<char>),
> {
    items.map_values(|m: (ColumnRef, String)| (m.0@, m.1@))
}

#[derive(Debug, Clone, PartialEq, Eq)]
pub struct RenameAllOp {
    pub strategy: RenameStrategy,
}

#[derive(Debug, Clone, PartialEq, Eq)]
pub struct SortOp {
    /// Each key with whether it sorts descending.
    pub columns: Vec<(ColumnRef, bool)>,
}

/// The views of a list of sort keys.
pub open spec fn sort_key_views(items: Seq<(ColumnRef, bool)>) -> Seq<(ColumnRefView, bool)> {
    items.map_values(|k: (ColumnRef, bool)| (k.0@, k.1))
}

#[derive(Debug, Clone, Copy, PartialEq, Eq, Structural)]
pub struct TakeOp {
    pub n: usize,
}

#[derive(Debug, Clone, Copy, PartialEq, Eq, Structural)]
pub struct SkipOp {
    pub n: usize,
}

#[derive(Debug, Clone, Copy, PartialEq, Eq, Structural)]
pub struct SliceOp {
    pub start: usize,
    pub end: usize,
}

#[derive(Debug, Clone, PartialEq, Eq)]
pub struct DropOp {
    pub columns: Vec<ColumnSelector>,
}

#[derive(Debug, Clone, PartialEq, Eq)]
pub struct DistinctOp {
    /// `None` means all columns.
    pub columns: Option<Vec<ColumnSelector>>,
}

/// One stage of a pipeline.
#[derive(Debug, Clone, PartialEq, Eq)]
pub enum Operation {
    Read(ReadOp),
    /// A bare variable name, as in `data | filter(...)`.
    Variable(String),
    Write(WriteOp),
    Select(SelectOp),
    Filter(FilterOp),
    Mutate(MutateOp),
    Rename(RenameOp),
    RenameAll(RenameAllOp),
    Sort(SortOp),
    Take(TakeOp),
    Skip(SkipOp),
    Slice(SliceOp),
    Drop(DropOp),
    Distinct(DistinctOp),
}

pub enum OperationView {
    Read(ReadOpView),
    Variable(Seq<char>),
    Write(WriteOpView),
    Select(Seq<(SelectorView, Option<Seq<char>>)>),
    Filter(ExpressionView),
    Mutate(Seq<(AssignmentTargetView, ExpressionView)>),
    Rename(Seq<(ColumnRefView, Seq<char>)>),
    RenameAll(RenameStrategyView),
    Sort(Seq<(ColumnRefView, bool)>),
    Take(usize),
    Skip(usize),
    Slice(usize, usize),
    Drop(Seq<SelectorView>),
    Distinct(Option<Seq<SelectorView>>),
}

impl View for Operation {
    type V = OperationView;

    open spec fn view(&self) -> OperationView {
        match self {
            Operation::Read(op) => OperationView::Read(op@),
            Operation::Variable(name) => OperationView::Variable(name@),
            Operation::Write(op) => OperationView::Write(op@),
            Operation::Select(op) => OperationView::Select(aliased_views(op.selectors@)),
            Operation::Filter(op) => OperationView::Filter(op.condition@),
            Operation::Mutate(op) => OperationView::Mutate(assignment_views(op.assignments@)),
            Operation::Rename(op) => OperationView::Rename(mapping_views(op.mappings@)),
            Operation::RenameAll(op) => OperationView::RenameAll(op.strategy@),
            Operation::Sort(op) => OperationView::Sort(sort_key_views(op.columns@)),
            Operation::Take(op) => OperationView::Take(op.n),
            Operation::Skip(op) => OperationView::Skip(op.n),
            Operation::Slice(op) => OperationView::Slice(op.start, op.end),
            Operation::Drop(op) => OperationView::Drop(selector_views(op.columns@)),
            Operation::Distinct(op) => OperationView::Distinct(
                match op.columns {
                    Some(cols) => Some(selector_views(cols@)),
                    None => None,
                },
            ),
        }
    }
}

/// The views of a list of operations.
pub open spec fn operation_views(items: Seq<Operation>) -> Seq<OperationView> {
    items.map_values(|o: Operation| o@)
}

/// Where a pipeline's table comes from.
#[derive(Debug, Clone, PartialEq, Eq)]
pub enum Source {
    Read(ReadOp),
    Variable(String),
}

pub enum SourceView {
    Read(ReadOpView),
    Variable(Seq<char>),
}

impl View for Source {
    type V = SourceView;

    open spec fn view(&self) -> SourceView {
        match self {
            Source::Read(op) => SourceView::Read(op@),
            Source::Variable(name) => SourceView::Variable(name@),
        }
    }
}

/// An optional source, then the operations applied left to right.
#[derive(Debug, Clone, PartialEq, Eq)]
pub struct Pipeline {
    pub source: Option<Source>,
    pub operations: Vec<Operation>,
}

pub struct PipelineView {
    pub source: Option<SourceView>,
    pub operations: Seq<OperationView>,
}

impl View for Pipeline {
    type V = PipelineView;

    open spec fn view(&self) -> PipelineView {
        PipelineView {
            source: match self.source {
                Some(s) => Some(s@),
                None => None,
            },
            operations: operation_views(self.operations@),
        }
    }
}

#[derive(Debug, Clone, PartialEq, Eq)]
pub enum Statement {
    Assignment { name: String, pipeline: Pipeline },
    Pipeline(Pipeline),
}

pub enum StatementView {
    Assignment { name: Seq<char>, pipeline: PipelineView },
    Pipeline(PipelineView),
}

impl View for Statement {
    type V = StatementView;

    open spec fn view(&self) -> StatementView {
        match self {
            Statement::Assignment { name, pipeline } => StatementView::Assignment {
                name: name@,
                pipeline: pipeline@,
            },
            Statement::Pipeline(p) => StatementView::Pipeline(p@),
        }
    }
}

/// The views of a list of statements.
pub open spec fn statement_views(items: Seq<Statement>) -> Seq<StatementView> {
    items.map_values(|s: Statement| s@)
}

/// The statements of a script, in order.
#[derive(Debug, Clone, PartialEq, Eq)]
pub struct Program {
    pub statements: Vec<Statement>,
}

pub struct ProgramView {
    pub statements: Seq<StatementView>,
}

impl View for Program {
    type V = ProgramView;

    open spec fn view(&self) -> ProgramView {
        ProgramView { statements: statement_views(self.statements@) }
    }
}

} // verus!
