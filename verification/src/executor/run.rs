//! Running statements: the stages of each pipeline in order, stopping where
//! a file must be read or written.

use vstd::prelude::*;
use polars::frame::DataFrame;
use crate::ast::{
    statement_views, Operation, OperationView, Pipeline, PipelineView, Program, ReadOpView,
    SelectorView, Source, SourceView, Statement, StatementView, WriteOpView,
};
use crate::error::{DtransformError, ErrorView};
use crate::executor::binary::same_result;
use crate::executor::files::{bytes_view, reads_as, table_view, write_plan, writes_as};
use crate::executor::ops::{
    distinct_subset, drop_value, filter_value, is_distinct, mutate_value, rename_all_value,
    rename_value, select_value, skip_height, skip_value, slice_height, slice_value, sort_value,
    take_height,
};
use crate::executor::Executor;
use crate::frame::{copy_frame, frame_head, frame_height, frame_names};

verus! {

/// What a run hands back to its caller.
pub enum Step {
    /// The run is over. The table is the result of the last statement that
    /// yields one, if there is such a statement.
    Finished(Option<DataFrame>),
    /// The file of this path must be read; the run resumes with its bytes.
    Read(String),
    /// These bytes must be written to the file of this path; the run
    /// resumes when that is done.
    Write(String, Vec<u8>),
}

/// What the caller answers to a `Step`.
pub enum Reply {
    /// The bytes of the file that was to be read.
    Bytes(Vec<u8>),
    /// The file was written.
    Written,
    /// The file could not be read or written; the text says why.
    Failed(String),
}

/// What an executor waits for.
pub enum Awaiting {
    Nothing,
    /// The bytes of the file of this path.
    Read(Seq<char>),
    /// The writing of the file of this path.
    Write(Seq<char>),
}

/// A run under way: the statements, where it stands in them, and the tables
/// it holds.
pub struct Run {
    pub statements: Vec<Statement>,
    /// Whether an assignment yields its table as a result, as it does for a
    /// single statement, or stays silent, as it does in a program.
    pub assignments_yield: bool,
    /// The index of the statement under way.
    pub at: usize,
    /// Whether the source of its pipeline has given its table.
    pub sourced: bool,
    /// The number of operations of its pipeline that are done.
    pub done: usize,
    /// The table that the pipeline under way has made so far.
    pub table: Option<DataFrame>,
    /// The result so far.
    pub last: Option<DataFrame>,
}

/// The pipeline of a statement.
pub open spec fn pipeline_of(s: Statement) -> Pipeline {
    match s {
        Statement::Assignment { name, pipeline } => pipeline,
        Statement::Pipeline(pipeline) => pipeline,
    }
}

/// What the next stage of a pipeline needs from the file system: the source
/// while it has not given its table, else the first operation that is not
/// done.
pub open spec fn stage_needs(p: Pipeline, sourced: bool, done: int) -> Awaiting {
    if !sourced {
        match p.source {
            Some(Source::Read(op)) => Awaiting::Read(op.path@),
            _ => Awaiting::Nothing,
        }
    } else if 0 <= done < p.operations.len() {
        match p.operations[done] {
            Operation::Read(op) => Awaiting::Read(op.path@),
            Operation::Write(op) => Awaiting::Write(op.path@),
            _ => Awaiting::Nothing,
        }
    } else {
        Awaiting::Nothing
    }
}

/// The number of operations that the statement under way still has to do.
pub open spec fn operations_left(run: Run) -> int {
    if run.at < run.statements.len() {
        pipeline_of(run.statements[run.at as int]).operations.len() - run.done
    } else {
        0
    }
}

/// What a run under way needs from the file system at the stage where it
/// stands.
pub open spec fn run_needs(run: Run) -> Awaiting {
    if run.at < run.statements.len() {
        stage_needs(pipeline_of(run.statements[run.at as int]), run.sourced, run.done as int)
    } else {
        Awaiting::Nothing
    }
}

/// Whether no statement of the run assigns.
pub open spec fn no_assignments(statements: Seq<Statement>) -> bool {
    forall|i: int| 0 <= i < statements.len() ==> #[trigger] statements[i] is Pipeline
}

/// The message for a pipeline without a source.
pub open spec fn no_source_message() -> Seq<char> {
    "Pipeline must start with a data source (read() or variable)"@
}

/// The message for a variable name in the middle of a pipeline.
pub open spec fn misplaced_variable_message() -> Seq<char> {
    "Variable references can only be used as pipeline sources, not as operations"@
}

/// The message for a reply that nothing waits for.
pub open spec fn unexpected_reply_message() -> Seq<char> {
    "No run is waiting for this reply"@
}

/// What running a pipeline that starts gives at once, as far as its source
/// decides it: a pipeline without a source and one whose source is an unknown
/// variable fail; one that reads a file asks for it.
pub open spec fn starts_with(p: Pipeline, env: Map<Seq<char>, DataFrame>, r: Result<
    Step,
    DtransformError,
>) -> bool {
    match p.source {
        None => r matches Err(e) && e@ == ErrorView::InvalidOperation(no_source_message()),
        Some(Source::Variable(v)) => !env.contains_key(v@) ==> (r matches Err(e) && e@
            == ErrorView::VariableNotFound(v@)),
        Some(Source::Read(op)) => r matches Ok(Step::Read(path)) && path@ == op.path@,
    }
}

/// What an operation makes of a table, where the operation, the table and
/// the variables decide it. `None` for an operation that needs a file, and for
/// a distinct: there the table engine chooses the order of the rows.
pub open spec fn operation_value(op: OperationView, df: DataFrame, env: Map<Seq<char>, DataFrame>) -> Option<
    Result<DataFrame, ErrorView>,
> {
    match op {
        OperationView::Read(_) => None,
        OperationView::Write(_) => None,
        OperationView::Distinct(_) => None,
        OperationView::Variable(_) => Some(
            Err(ErrorView::InvalidOperation(misplaced_variable_message())),
        ),
        OperationView::Select(items) => Some(select_value(items, df)),
        OperationView::Filter(condition) => Some(filter_value(condition, df, env)),
        OperationView::Mutate(assignments) => Some(mutate_value(assignments, df, env, 0)),
        OperationView::Rename(mappings) => Some(rename_value(mappings, df, 0)),
        OperationView::RenameAll(strategy) => Some(rename_all_value(strategy, df)),
        OperationView::Sort(keys) => Some(sort_value(keys, df)),
        OperationView::Take(n) => Some(Ok(frame_head(df, n))),
        OperationView::Skip(n) => Some(Ok(skip_value(df, n))),
        OperationView::Slice(start, end) => Some(Ok(slice_value(df, start, end))),
        OperationView::Drop(columns) => Some(drop_value(columns, df)),
    }
}

/// Whether `v` is what a distinct on the columns that the selectors stand
/// for makes of a table: the failure of the selectors; or a failure of the
/// engine; or a table with one row for every group of rows that agree.
pub open spec fn distinct_as(
    v: Result<DataFrame, ErrorView>,
    columns: Option<Seq<SelectorView>>,
    df: DataFrame,
) -> bool {
    match distinct_subset(columns, df) {
        Err(e) => v == Err::<DataFrame, ErrorView>(e),
        Ok(subset) => match v {
            Ok(out) => is_distinct(out, df, subset),
            Err(e) => e == ErrorView::PolarsError,
        },
    }
}

/// Where a run stands: the statement under way, whether its source has
/// given its table, how many of its operations are done, the table made so
/// far, and the result so far.
pub struct Position {
    pub at: int,
    pub sourced: bool,
    pub done: int,
    pub table: Option<DataFrame>,
    pub last: Option<DataFrame>,
}

/// The position at which a run starts.
pub open spec fn start() -> Position {
    Position { at: 0, sourced: false, done: 0, table: None, last: None }
}

/// The position of a run under way.
pub open spec fn stands(run: Run) -> Position {
    Position {
        at: run.at as int,
        sourced: run.sourced,
        done: run.done as int,
        table: run.table,
        last: run.last,
    }
}

/// The pipeline of a statement.
pub open spec fn pipeline_in(s: StatementView) -> PipelineView {
    match s {
        StatementView::Assignment { name, pipeline } => pipeline,
        StatementView::Pipeline(pipeline) => pipeline,
    }
}

/// The number of operations that the statement at a position still has to
/// do.
pub open spec fn left_at(statements: Seq<StatementView>, pos: Position) -> int {
    if 0 <= pos.at < statements.len() {
        pipeline_in(statements[pos.at]).operations.len() - pos.done
    } else {
        0
    }
}

/// Whether a run under way is the run of these statements at this position.
pub open spec fn stands_at(
    run: Option<Run>,
    statements: Seq<StatementView>,
    yields: bool,
    pos: Position,
) -> bool {
    run matches Some(k) && statement_views(k.statements@) == statements && k.assignments_yield
        == yields && stands(k) == pos
}

/// What a run left behind: what it handed back, the variables, and the run
/// under way if it stopped for a file.
pub struct Left {
    pub result: Result<Step, DtransformError>,
    pub env: Map<Seq<char>, DataFrame>,
    pub run: Option<Run>,
}

/// A run that fails with `e` where the variables are `env`.
pub open spec fn failed(e: ErrorView, env: Map<Seq<char>, DataFrame>, left: Left) -> bool {
    &&& left.result matches Err(x) && x@ == e
    &&& left.env == env
    &&& left.run is None
}

/// A run that stops at `pos` for the file of `path` to be read.
pub open spec fn stops_to_read(
    path: Seq<char>,
    statements: Seq<StatementView>,
    yields: bool,
    pos: Position,
    env: Map<Seq<char>, DataFrame>,
    left: Left,
) -> bool {
    &&& left.result matches Ok(Step::Read(p)) && p@ == path
    &&& left.env == env
    &&& stands_at(left.run, statements, yields, pos)
}

/// A run whose stage at `pos` writes the table `t`: it stops there for the
/// bytes to be written, or fails as the writer does.
pub open spec fn stops_to_write(
    op: WriteOpView,
    t: DataFrame,
    statements: Seq<StatementView>,
    yields: bool,
    pos: Position,
    env: Map<Seq<char>, DataFrame>,
    left: Left,
) -> bool {
    &&& left.env == env
    &&& match left.result {
        Ok(Step::Write(p, b)) => p@ == op.path && writes_as(
            Ok::<Seq<u8>, ErrorView>(b@),
            t,
            write_plan(op),
        ) && stands_at(left.run, statements, yields, pos),
        Err(x) => writes_as(Err::<Seq<u8>, ErrorView>(x@), t, write_plan(op)) && left.run is None,
        _ => false,
    }
}

/// Whether `left` is what the statements leave behind when they run on from
/// a position with the variables `env`, as far as they can without a file.
///
/// A pipeline starts from its source, and its operations follow one after
/// the other, each on the table that the one before it made. At its end an
/// assignment stores the table under its name, and yields it as the result
/// where `yields` says so; a bare pipeline yields its table. The run stops
/// where a file must be read or written. The first failure ends it. Where a
/// distinct is reached, the run goes on with some table that is a distinct of
/// the one before, or fails as the engine does.
pub open spec fn run_gives(
    statements: Seq<StatementView>,
    yields: bool,
    pos: Position,
    env: Map<Seq<char>, DataFrame>,
    left: Left,
) -> bool
    decreases
            statements.len() - pos.at,
            if pos.sourced {
                0int
            } else {
                1int
            },
            left_at(statements, pos),
{
    if pos.at < 0 || pos.at >= statements.len() || pos.done < 0 {
        left.result == Ok::<Step, DtransformError>(Step::Finished(pos.last)) && left.env == env
            && left.run is None
    } else {
        let p = pipeline_in(statements[pos.at]);
        if !pos.sourced {
            match p.source {
                Some(SourceView::Read(op)) => stops_to_read(
                    op.path,
                    statements,
                    yields,
                    pos,
                    env,
                    left,
                ),
                Some(SourceView::Variable(v)) => if env.contains_key(v) {
                    run_gives(
                        statements,
                        yields,
                        Position {
                            at: pos.at,
                            sourced: true,
                            done: 0,
                            table: Some(env[v]),
                            last: pos.last,
                        },
                        env,
                        left,
                    )
                } else {
                    failed(ErrorView::VariableNotFound(v), env, left)
                },
                None => failed(ErrorView::InvalidOperation(no_source_message()), env, left),
            }
        } else if pos.done < p.operations.len() {
            match p.operations[pos.done] {
                OperationView::Read(op) => stops_to_read(
                    op.path,
                    statements,
                    yields,
                    pos,
                    env,
                    left,
                ),
                other => match pos.table {
                    None => failed(ErrorView::InvalidOperation(no_source_message()), env, left),
                    Some(t) => match other {
                        OperationView::Write(op) => stops_to_write(
                            op,
                            t,
                            statements,
                            yields,
                            pos,
                            env,
                            left,
                        ),
                        OperationView::Distinct(columns) => exists|v: Result<DataFrame, ErrorView>|
                            #[trigger] distinct_as(v, columns, t) && match v {
                                Err(e) => failed(e, env, left),
                                Ok(out) => run_gives(
                                    statements,
                                    yields,
                                    Position {
                                        at: pos.at,
                                        sourced: true,
                                        done: pos.done + 1,
                                        table: Some(out),
                                        last: pos.last,
                                    },
                                    env,
                                    left,
                                ),
                            },
                        _ => match operation_value(other, t, env) {
                            None => false,
                            Some(Err(e)) => failed(e, env, left),
                            Some(Ok(next)) => run_gives(
                                statements,
                                yields,
                                Position {
                                    at: pos.at,
                                    sourced: true,
                                    done: pos.done + 1,
                                    table: Some(next),
                                    last: pos.last,
                                },
                                env,
                                left,
                            ),
                        },
                    },
                },
            }
        } else {
            match pos.table {
                None => failed(ErrorView::InvalidOperation(no_source_message()), env, left),
                Some(t) => match statements[pos.at] {
                    StatementView::Assignment { name, pipeline } => run_gives(
                        statements,
                        yields,
                        Position {
                            at: pos.at + 1,
                            sourced: false,
                            done: 0,
                            table: None,
                            last: if yields {
                                Some(t)
                            } else {
                                pos.last
                            },
                        },
                        env.insert(name, t),
                        left,
                    ),
                    StatementView::Pipeline(_) => run_gives(
                        statements,
                        yields,
                        Position {
                            at: pos.at + 1,
                            sourced: false,
                            done: 0,
                            table: None,
                            last: Some(t),
                        },
                        env,
                        left,
                    ),
                },
            }
        }
    }
}

/// What the run of one last statement does to the variables: an assignment
/// that finishes binds its table under its name and yields it; a bare pipeline
/// that finishes yields its table; and unless the run finishes, the variables
/// stay as they are.
pub open spec fn settles(
    statement: StatementView,
    before: Map<Seq<char>, DataFrame>,
    r: Result<Step, DtransformError>,
    after: Map<Seq<char>, DataFrame>,
) -> bool {
    match r {
        Ok(Step::Finished(last)) => match statement {
            StatementView::Assignment { name, pipeline } => last matches Some(t) && after
                == before.insert(name, t),
            StatementView::Pipeline(_) => last is Some && after == before,
        },
        _ => after == before,
    }
}

/// The read operation that a run under way waits for, if it waits for one.
pub open spec fn reading(run: Run) -> Option<ReadOpView> {
    if run.at >= run.statements.len() {
        None
    } else {
        let p = pipeline_of(run.statements@[run.at as int]);
        if !run.sourced {
            match p.source {
                Some(Source::Read(op)) => Some(op@),
                _ => None,
            }
        } else if run.done < p.operations.len() {
            match p.operations@[run.done as int] {
                Operation::Read(op) => Some(op@),
                _ => None,
            }
        } else {
            None
        }
    }
}

/// The position from which a run goes on when the file it waited for was
/// read as the table `t`.
pub open spec fn after_read(run: Run, t: DataFrame) -> Position {
    Position {
        at: run.at as int,
        sourced: true,
        done: if run.sourced {
            run.done + 1
        } else {
            0
        },
        table: Some(t),
        last: run.last,
    }
}

/// The position from which a run goes on when the file it waited for was
/// written.
pub open spec fn after_write(run: Run) -> Position {
    Position {
        at: run.at as int,
        sourced: run.sourced,
        done: run.done + 1,
        table: run.table,
        last: run.last,
    }
}

/// What resuming the run `run` with a reply leaves behind. The bytes of a
/// file that the run waits for are read as the read operation says, and the
/// run goes on with the table, or fails as the read does. After a write that
/// the run waits for, it goes on behind the write. A reply of failure ends the
/// run with that failure, and a reply that the run does not wait for ends it
/// with a failure of its own.
pub open spec fn resumed(run: Run, reply: Reply, before: Map<Seq<char>, DataFrame>, left: Left) -> bool {
    let unexpected = ErrorView::InvalidOperation(unexpected_reply_message());
    match reply {
        Reply::Bytes(content) => match reading(run) {
            Some(op) => exists|v: Result<DataFrame, ErrorView>| #[trigger]
                reads_as(v, op, content@) && match v {
                    Err(e) => failed(e, before, left),
                    Ok(t) => run_gives(
                        statement_views(run.statements@),
                        run.assignments_yield,
                        after_read(run, t),
                        before,
                        left,
                    ),
                },
            None => failed(unexpected, before, left),
        },
        Reply::Written => if run_needs(run) is Write {
            run_gives(
                statement_views(run.statements@),
                run.assignments_yield,
                after_write(run),
                before,
                left,
            )
        } else {
            failed(unexpected, before, left)
        },
        Reply::Failed(why) => if run_needs(run) is Nothing {
            failed(unexpected, before, left)
        } else {
            failed(ErrorView::IoError(why@), before, left)
        },
    }
}

impl Executor {
    /// Whether a run stopped for a file and waits for the reply.
    pub fn is_waiting(&self) -> (r: bool)
        ensures
            r == !(self.waiting() is Nothing),
    {
        match &self.run {
            None => false,
            Some(run) => {
                if run.at >= run.statements.len() {
                    return false;
                }
                let pipeline = match &run.statements[run.at] {
                    Statement::Assignment { name, pipeline } => pipeline,
                    Statement::Pipeline(pipeline) => pipeline,
                };
                if !run.sourced {
                    match &pipeline.source {
                        Some(Source::Read(_)) => true,
                        _ => false,
                    }
                } else if run.done < pipeline.operations.len() {
                    match &pipeline.operations[run.done] {
                        Operation::Read(_) => true,
                        Operation::Write(_) => true,
                        _ => false,
                    }
                } else {
                    false
                }
            },
        }
    }

    /// Whether the run under way, if there is one, leaves the variables as
    /// they are.
    pub fn is_silent(&self) -> (r: bool)
        ensures
            r == self.silent(),
    {
        match &self.run {
            None => true,
            Some(run) => {
                let mut i: usize = 0;
                while i < run.statements.len()
                    invariant
                        i <= run.statements.len(),
                        self.run == Some(*run),
                        forall|j: int| 0 <= j < i ==> #[trigger] run.statements@[j] is Pipeline,
                    decreases run.statements.len() - i,
                {
                    match &run.statements[i] {
                        Statement::Assignment { .. } => {
                            assert(!(run.statements@[i as int] is Pipeline));
                            return false;
                        },
                        Statement::Pipeline(_) => {},
                    }
                    i += 1;
                }
                true
            },
        }
    }

    /// Applies an operation that needs no file to a table.
    fn execute_operation(&self, df: DataFrame, op: &Operation) -> (r: Result<
        DataFrame,
        DtransformError,
    >)
        requires
            !(op is Read),
            !(op is Write),
        ensures
            match operation_value(op@, df, self.env()) {
                Some(v) => same_result(r, v),
                None => true,
            },
            op@ matches OperationView::Distinct(columns) ==> distinct_as(
                table_view(r),
                columns,
                df,
            ),
            op is Variable ==> (r matches Err(e) && e@ == ErrorView::InvalidOperation(
                misplaced_variable_message(),
            )),
            op matches Operation::Take(t) ==> (r matches Ok(out) && frame_names(out)
                == frame_names(df) && frame_height(out) == take_height(
                frame_height(df),
                t.n as nat,
            )),
            op matches Operation::Skip(s) ==> (r matches Ok(out) && frame_names(out)
                == frame_names(df) && frame_height(out) == skip_height(
                frame_height(df),
                s.n as nat,
            )),
            op matches Operation::Slice(s) ==> (r matches Ok(out) && frame_names(out)
                == frame_names(df) && frame_height(out) == slice_height(
                frame_height(df),
                s.start as nat,
                s.end as nat,
            )),
            (op is Filter || op is Sort || op is Distinct) ==> (r matches Ok(out) ==> frame_names(
                out,
            ) == frame_names(df) && frame_height(out) <= frame_height(df)),
    {
        match op {
            Operation::Read(_) => Ok(df),
            Operation::Write(_) => Ok(df),
            Operation::Variable(_) => Err(
                DtransformError::InvalidOperation(
                    String::from_str(
                        "Variable references can only be used as pipeline sources, not as operations",
                    ),
                ),
            ),
            Operation::Select(select_op) => self.execute_select(df, select_op),
            Operation::Filter(filter_op) => self.execute_filter(df, filter_op),
            Operation::Mutate(mutate_op) => self.execute_mutate(df, mutate_op),
            Operation::Rename(rename_op) => self.execute_rename(df, rename_op),
            Operation::RenameAll(rename_all_op) => self.execute_rename_all(df, rename_all_op),
            Operation::Sort(sort_op) => self.execute_sort(df, sort_op),
            Operation::Take(take_op) => self.execute_take(df, take_op),
            Operation::Skip(skip_op) => self.execute_skip(df, skip_op),
            Operation::Slice(slice_op) => self.execute_slice(df, slice_op),
            Operation::Drop(drop_op) => self.execute_drop(df, drop_op),
            Operation::Distinct(distinct_op) => self.execute_distinct(df, distinct_op),
        }
    }

    /// Runs on from where `run` stands, until the run is over, fails, or
    /// needs a file.
    fn advance(&mut self, run: Run) -> (r: Result<Step, DtransformError>)
        requires
            old(self).run is None,
            run.at < run.statements.len() ==> run.done <= pipeline_of(
                run.statements@[run.at as int],
            ).operations.len(),
        ensures
            r matches Ok(Step::Read(path)) ==> final(self).waiting() == Awaiting::Read(path@),
            r matches Ok(Step::Write(path, _)) ==> final(self).waiting() == Awaiting::Write(path@),
            r matches Ok(Step::Finished(_)) ==> final(self).waiting() == Awaiting::Nothing,
            r is Err ==> final(self).waiting() == Awaiting::Nothing,
            final(self).run matches Some(rest) ==> rest.statements == run.statements,
            no_assignments(run.statements@) ==> final(self).env() == old(self).env(),
            run.at < run.statements.len() && !run.sourced ==> starts_with(
                pipeline_of(run.statements@[run.at as int]),
                old(self).env(),
                r,
            ),
            run.at >= run.statements.len() ==> (r matches Ok(Step::Finished(last)) && last
                == run.last),
            run_gives(
                statement_views(run.statements@),
                run.assignments_yield,
                stands(run),
                old(self).env(),
                Left { result: r, env: final(self).env(), run: final(self).under_way() },
            ),
            run.assignments_yield && run.at + 1 == run.statements.len() ==> settles(
                run.statements@[run.at as int]@,
                old(self).env(),
                r,
                final(self).env(),
            ),
    {
        let mut now = run;
        let ghost views = statement_views(run.statements@);
        let ghost yields = run.assignments_yield;
        let ghost first = stands(run);
        let ghost env0 = self.env();
        loop
            invariant
                self.run is None,
                now.statements == run.statements,
                now.assignments_yield == run.assignments_yield,
                views == statement_views(run.statements@),
                yields == run.assignments_yield,
                first == stands(run),
                env0 == old(self).env(),
                forall|left: Left| #[trigger]
                    run_gives(views, yields, stands(now), self.env(), left) ==> run_gives(
                        views,
                        yields,
                        first,
                        env0,
                        left,
                    ),
                now.at >= run.at,
                now.at == run.at ==> self.env() == old(self).env(),
                run.assignments_yield && run.at + 1 == run.statements.len() && now.at
                    > run.at ==> now.at == run.at + 1 && match run.statements@[run.at as int] {
                    Statement::Assignment { name, pipeline } => now.last matches Some(t)
                        && self.env() == old(self).env().insert(name@, t),
                    Statement::Pipeline(_) => now.last is Some && self.env() == old(self).env(),
                },
                no_assignments(run.statements@) ==> self.env() == old(self).env(),
                (now.at == run.at && now.sourced == run.sourced && now.done == run.done
                    && self.env() == old(self).env() && now.last == run.last) || !(run.at
                    < run.statements.len() && !run.sourced && (pipeline_of(
                    run.statements@[run.at as int],
                ).source matches Some(Source::Variable(v)) ==> !old(self).env().contains_key(v@))),
                now.at < now.statements.len() ==> now.done <= pipeline_of(
                    now.statements@[now.at as int],
                ).operations.len(),
                run.at >= run.statements.len() ==> now.at == run.at && now.last == run.last,
            decreases
                    now.statements.len() - now.at,
                    if now.sourced {
                        0int
                    } else {
                        1int
                    },
                    operations_left(now),
        {
            let ghost here = stands(now);
            let ghost env = self.env();
            if now.at >= now.statements.len() {
                let last = now.last;
                assert(run_gives(
                    views,
                    yields,
                    here,
                    env,
                    Left { result: Ok(Step::Finished(last)), env: self.env(), run: self.run },
                ));
                return Ok(Step::Finished(last));
            }
            let pipeline = match &now.statements[now.at] {
                Statement::Assignment { name, pipeline } => pipeline,
                Statement::Pipeline(pipeline) => pipeline,
            };
            proof {
                assert(views[now.at as int] == now.statements@[now.at as int]@);
                assert(pipeline_in(views[now.at as int]) == pipeline@);
                if now.done < pipeline.operations.len() {
                    assert(pipeline@.operations[now.done as int]
                        == pipeline.operations@[now.done as int]@);
                }
            }
            if !now.sourced {
                match &pipeline.source {
                    Some(Source::Read(op)) => {
                        let path = op.path.clone();
                        self.run = Some(now);
                        let r = Ok(Step::Read(path));
                        assert(run_gives(
                            views,
                            yields,
                            here,
                            env,
                            Left { result: r, env: self.env(), run: self.run },
                        ));
                        return r;
                    },
                    Some(Source::Variable(name)) => {
                        match self.variables.get(name.as_str()) {
                            Some(df) => {
                                now.table = Some(copy_frame(df));
                                now.sourced = true;
                                now.done = 0;
                                assert forall|left: Left| #[trigger]
                                    run_gives(
                                        views,
                                        yields,
                                        stands(now),
                                        self.env(),
                                        left,
                                    ) implies run_gives(views, yields, first, env0, left) by {
                                    assert(run_gives(views, yields, here, env, left));
                                }
                            },
                            None => {
                                let r = Err(DtransformError::VariableNotFound(name.clone()));
                                assert(run_gives(
                                    views,
                                    yields,
                                    here,
                                    env,
                                    Left { result: r, env: self.env(), run: self.run },
                                ));
                                return r;
                            },
                        }
                    },
                    None => {
                        let r = Err(self.no_source());
                        assert(run_gives(
                            views,
                            yields,
                            here,
                            env,
                            Left { result: r, env: self.env(), run: self.run },
                        ));
                        return r;
                    },
                }
            } else if now.done < pipeline.operations.len() {
                let op = &pipeline.operations[now.done];
                match op {
                    Operation::Read(read_op) => {
                        let path = read_op.path.clone();
                        self.run = Some(now);
                        let r = Ok(Step::Read(path));
                        assert(run_gives(
                            views,
                            yields,
                            here,
                            env,
                            Left { result: r, env: self.env(), run: self.run },
                        ));
                        return r;
                    },
                    Operation::Write(write_op) => {
                        let written = match &now.table {
                            Some(table) => self.execute_write(table, write_op),
                            None => Err(self.no_source()),
                        };
                        let r = match written {
                            Ok(bytes) => {
                                let path = write_op.path.clone();
                                self.run = Some(now);
                                Ok(Step::Write(path, bytes))
                            },
                            Err(e) => Err(e),
                        };
                        assert(run_gives(
                            views,
                            yields,
                            here,
                            env,
                            Left { result: r, env: self.env(), run: self.run },
                        ));
                        return r;
                    },
                    _ => {
                        let table = match now.table.take() {
                            Some(table) => table,
                            None => {
                                let r = Err(self.no_source());
                                assert(run_gives(
                                    views,
                                    yields,
                                    here,
                                    env,
                                    Left { result: r, env: self.env(), run: self.run },
                                ));
                                return r;
                            },
                        };
                        let made = self.execute_operation(table, op);
                        match made {
                            Ok(next) => {
                                now.table = Some(next);
                                now.done = now.done + 1;
                                assert forall|left: Left| #[trigger]
                                    run_gives(
                                        views,
                                        yields,
                                        stands(now),
                                        self.env(),
                                        left,
                                    ) implies run_gives(views, yields, first, env0, left) by {
                                    if op@ is Distinct {
                                        assert(distinct_as(
                                            Ok::<DataFrame, ErrorView>(next),
                                            op@->Distinct_0,
                                            table,
                                        ));
                                    }
                                    assert(run_gives(views, yields, here, env, left));
                                }
                            },
                            Err(e) => {
                                let r = Err(e);
                                proof {
                                    if op@ is Distinct {
                                        assert(distinct_as(
                                            Err::<DataFrame, ErrorView>(e@),
                                            op@->Distinct_0,
                                            table,
                                        ));
                                    }
                                }
                                assert(run_gives(
                                    views,
                                    yields,
                                    here,
                                    env,
                                    Left { result: r, env: self.env(), run: self.run },
                                ));
                                return r;
                            },
                        }
                    },
                }
            } else {
                let table = match now.table.take() {
                    Some(table) => table,
                    None => {
                        let r = Err(self.no_source());
                        assert(run_gives(
                            views,
                            yields,
                            here,
                            env,
                            Left { result: r, env: self.env(), run: self.run },
                        ));
                        return r;
                    },
                };
                match &now.statements[now.at] {
                    Statement::Assignment { name, pipeline } => {
                        self.variables.insert(name.clone(), copy_frame(&table));
                        if now.assignments_yield {
                            now.last = Some(table);
                        }
                    },
                    Statement::Pipeline(_) => {
                        now.last = Some(table);
                    },
                }
                now.at = now.at + 1;
                now.sourced = false;
                now.done = 0;
                assert forall|left: Left| #[trigger]
                    run_gives(views, yields, stands(now), self.env(), left) implies run_gives(
                    views,
                    yields,
                    first,
                    env0,
                    left,
                ) by {
                    assert(run_gives(views, yields, here, env, left));
                }
            }
        }
    }

    /// The failure of a pipeline that has no table to work on.
    fn no_source(&self) -> (r: DtransformError)
        ensures
            r@ == ErrorView::InvalidOperation(no_source_message()),
    {
        DtransformError::InvalidOperation(
            String::from_str("Pipeline must start with a data source (read() or variable)"),
        )
    }

    /// The failure of a reply that nothing waits for.
    fn unexpected_reply(&self) -> (r: DtransformError)
        ensures
            r@ == ErrorView::InvalidOperation(unexpected_reply_message()),
    {
        DtransformError::InvalidOperation(String::from_str("No run is waiting for this reply"))
    }

    /// Runs a pipeline. It yields the pipeline's table.
    pub fn execute_pipeline(&mut self, pipeline: Pipeline) -> (r: Result<Step, DtransformError>)
        ensures
            r matches Ok(Step::Read(path)) ==> final(self).waiting() == Awaiting::Read(path@),
            r matches Ok(Step::Write(path, _)) ==> final(self).waiting() == Awaiting::Write(path@),
            r matches Ok(Step::Finished(_)) ==> final(self).waiting() == Awaiting::Nothing,
            r is Err ==> final(self).waiting() == Awaiting::Nothing,
            final(self).env() == old(self).env(),
            final(self).silent(),
            starts_with(pipeline, old(self).env(), r),
            r matches Ok(Step::Finished(last)) ==> last is Some,
            run_gives(
                seq![StatementView::Pipeline(pipeline@)],
                true,
                start(),
                old(self).env(),
                Left { result: r, env: final(self).env(), run: final(self).under_way() },
            ),
    {
        self.run = None;
        let mut statements: Vec<Statement> = Vec::new();
        statements.push(Statement::Pipeline(pipeline));
        assert(statement_views(statements@) =~= seq![StatementView::Pipeline(pipeline@)]);
        self.advance(
            Run {
                statements,
                assignments_yield: true,
                at: 0,
                sourced: false,
                done: 0,
                table: None,
                last: None,
            },
        )
    }

    /// Runs one statement. An assignment stores its table under its name and
    /// yields it too.
    pub fn execute_statement(&mut self, statement: Statement) -> (r: Result<Step, DtransformError>)
        ensures
            r matches Ok(Step::Read(path)) ==> final(self).waiting() == Awaiting::Read(path@),
            r matches Ok(Step::Write(path, _)) ==> final(self).waiting() == Awaiting::Write(path@),
            r matches Ok(Step::Finished(_)) ==> final(self).waiting() == Awaiting::Nothing,
            r is Err ==> final(self).waiting() == Awaiting::Nothing,
            statement is Pipeline ==> final(self).env() == old(self).env(),
            starts_with(pipeline_of(statement), old(self).env(), r),
            settles(statement@, old(self).env(), r, final(self).env()),
            run_gives(
                seq![statement@],
                true,
                start(),
                old(self).env(),
                Left { result: r, env: final(self).env(), run: final(self).under_way() },
            ),
    {
        self.run = None;
        let mut statements: Vec<Statement> = Vec::new();
        statements.push(statement);
        assert(statement_views(statements@) =~= seq![statement@]);
        self.advance(
            Run {
                statements,
                assignments_yield: true,
                at: 0,
                sourced: false,
                done: 0,
                table: None,
                last: None,
            },
        )
    }

    /// Runs the statements of a program in order. An assignment stores its
    /// table under its name and yields nothing; the result is the table of the
    /// last statement that is a bare pipeline. The first failure ends the run.
    pub fn execute_program(&mut self, program: Program) -> (r: Result<Step, DtransformError>)
        ensures
            r matches Ok(Step::Read(path)) ==> final(self).waiting() == Awaiting::Read(path@),
            r matches Ok(Step::Write(path, _)) ==> final(self).waiting() == Awaiting::Write(path@),
            r matches Ok(Step::Finished(_)) ==> final(self).waiting() == Awaiting::Nothing,
            r is Err ==> final(self).waiting() == Awaiting::Nothing,
            program.statements.len() == 0 ==> r matches Ok(Step::Finished(None)),
            program.statements.len() > 0 ==> starts_with(
                pipeline_of(program.statements@[0]),
                old(self).env(),
                r,
            ),
            run_gives(
                program@.statements,
                false,
                start(),
                old(self).env(),
                Left { result: r, env: final(self).env(), run: final(self).under_way() },
            ),
    {
        self.run = None;
        self.advance(
            Run {
                statements: program.statements,
                assignments_yield: false,
                at: 0,
                sourced: false,
                done: 0,
                table: None,
                last: None,
            },
        )
    }

    /// Goes on with the run that stopped for a file.
    ///
    /// The bytes of a file that was asked for are decoded as the read
    /// operation says and become the pipeline's table. A reply that nothing
    /// waits for and a reply of failure end the run with a failure.
    pub fn resume(&mut self, reply: Reply) -> (r: Result<Step, DtransformError>)
        ensures
            r matches Ok(Step::Read(path)) ==> final(self).waiting() == Awaiting::Read(path@),
            r matches Ok(Step::Write(path, _)) ==> final(self).waiting() == Awaiting::Write(path@),
            r matches Ok(Step::Finished(_)) ==> final(self).waiting() == Awaiting::Nothing,
            r is Err ==> final(self).waiting() == Awaiting::Nothing,
            old(self).silent() ==> final(self).silent() && final(self).env() == old(self).env(),
            reply matches Reply::Failed(why) ==> (r matches Err(e) && e@ == if old(self).waiting()
                is Nothing {
                ErrorView::InvalidOperation(unexpected_reply_message())
            } else {
                ErrorView::IoError(why@)
            }),
            (old(self).waiting() is Nothing || (old(self).waiting() is Read && reply is Written)
                || (old(self).waiting() is Write && reply is Bytes)) ==> (r matches Err(e) && e@
                == ErrorView::InvalidOperation(unexpected_reply_message())),
            old(self).under_way() is None ==> final(self).env() == old(self).env(),
            old(self).under_way() matches Some(run) ==> resumed(
                run,
                reply,
                old(self).env(),
                Left { result: r, env: final(self).env(), run: final(self).under_way() },
            ),
            old(self).under_way() matches Some(run) ==> run.assignments_yield && run.at + 1
                == run.statements.len() ==> settles(
                run.statements@[run.at as int]@,
                old(self).env(),
                r,
                final(self).env(),
            ),
    {
        let mut run = match self.run.take() {
            Some(run) => run,
            None => {
                return Err(self.unexpected_reply());
            },
        };
        if run.at >= run.statements.len() {
            return Err(self.unexpected_reply());
        }
        let pipeline = match &run.statements[run.at] {
            Statement::Assignment { name, pipeline } => pipeline,
            Statement::Pipeline(pipeline) => pipeline,
        };
        let read_op = if !run.sourced {
            match &pipeline.source {
                Some(Source::Read(op)) => Some(op),
                _ => None,
            }
        } else if run.done < pipeline.operations.len() {
            match &pipeline.operations[run.done] {
                Operation::Read(op) => Some(op),
                _ => None,
            }
        } else {
            None
        };
        let writes = run.sourced && run.done < pipeline.operations.len() && match &pipeline.operations[run.done] {
            Operation::Write(_) => true,
            _ => false,
        };
        if read_op.is_none() && !writes {
            return Err(self.unexpected_reply());
        }
        match reply {
            Reply::Failed(why) => Err(DtransformError::IoError(why)),
            Reply::Bytes(content) => {
                match read_op {
                    Some(op) => {
                        let read = self.execute_read(op, &content);
                        assert(reads_as(table_view(read), op@, content@));
                        let table = read?;
                        run.table = Some(table);
                        if run.sourced {
                            run.done = run.done + 1;
                        } else {
                            run.sourced = true;
                            run.done = 0;
                        }
                        self.advance(run)
                    },
                    None => Err(self.unexpected_reply()),
                }
            },
            Reply::Written => {
                if writes {
                    run.done = run.done + 1;
                    self.advance(run)
                } else {
                    Err(self.unexpected_reply())
                }
            },
        }
    }
}

} // verus!
