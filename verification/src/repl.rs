//! The interactive session: statements and dot-commands, the timeline of
//! snapshots with undo and redo, and the batching of input lines.
//!
//! The session reads no input and prints nothing; it says what there is to
//! show, and the caller does the rest.

use vstd::prelude::*;
use polars::frame::DataFrame;
use crate::ast::{
    statement_views, Pipeline, PipelineView, Source, SourceView, Statement, StatementView,
};
use crate::error::{DtransformError, ErrorView};
use crate::executor::detect::{char_is_space, is_blank, is_space};
use crate::executor::env::Variables;
use crate::executor::run::{
    resumed, run_gives, start, unexpected_reply_message, Awaiting, Left, Reply, Run, Step,
};
use crate::executor::Executor;
use crate::frame::{copy_frame, first_rows, frame_height, frame_names, column_names, height};
use crate::parser::operation::{parse, parse_usize_text, parsed_statement, usize_syntax};
use crate::rows::{replace_text, replaced};
use crate::text::{decimal_text, join2, number_text, same_text, substring, to_chars};

verus! {

/// The largest number of snapshots that the timeline keeps.
pub const MAX_HISTORY: usize = 10;

/// One entry of the timeline: the table and the whole variable environment
/// after a statement, and the description of the statement.
pub struct Entry {
    pub table: DataFrame,
    pub variables: Variables,
    pub description: String,
}

pub struct EntryView {
    pub table: DataFrame,
    pub variables: Map<Seq<char>, DataFrame>,
    pub description: Seq<char>,
}

impl View for Entry {
    type V = EntryView;

    open spec fn view(&self) -> EntryView {
        EntryView {
            table: self.table,
            variables: self.variables@,
            description: self.description@,
        }
    }
}

/// The views of a list of entries.
pub open spec fn entry_views(entries: Seq<Entry>) -> Seq<EntryView> {
    entries.map_values(|e: Entry| e@)
}

/// The state of a session: the active table, the timeline with its cursor,
/// the variable environment, and the input lines gathered so far.
pub struct SessionView {
    pub current: Option<DataFrame>,
    pub timeline: Seq<EntryView>,
    /// The cursor: the number of entries of the timeline that are in effect.
    pub position: nat,
    pub env: Map<Seq<char>, DataFrame>,
    pub input: Seq<char>,
}

/// The capacity of the timeline.
pub open spec fn capacity() -> nat {
    10
}

/// Whether a state is well formed: the cursor lies within the timeline, and
/// the timeline within its capacity.
pub open spec fn session_wf(v: SessionView) -> bool {
    v.position <= v.timeline.len() <= capacity()
}

/// The state after a successful statement with the result `table`: the
/// entries beyond the cursor are discarded, the new entry is appended with the
/// environment as it is, and the oldest entry is evicted when the timeline is
/// over its capacity.
pub open spec fn appended(v: SessionView, table: DataFrame, description: Seq<char>) -> SessionView {
    let kept = v.timeline.take(v.position as int).push(
        EntryView { table, variables: v.env, description },
    );
    if kept.len() > capacity() {
        SessionView { current: Some(table), timeline: kept.skip(1), position: v.position, ..v }
    } else {
        SessionView { current: Some(table), timeline: kept, position: v.position + 1, ..v }
    }
}

/// The number of steps that an undo of `n` takes.
pub open spec fn undo_steps(v: SessionView, n: nat) -> nat {
    if n <= v.position {
        n
    } else {
        v.position
    }
}

/// The state after an undo of `n` steps: only the cursor moves, and the table
/// and the environment are those of the entry before the cursor, or empty at
/// the start of the timeline.
pub open spec fn undone(v: SessionView, n: nat) -> SessionView {
    let p = (v.position - undo_steps(v, n)) as nat;
    if p == 0 {
        SessionView { current: None, env: Map::empty(), position: 0, ..v }
    } else {
        SessionView {
            current: Some(v.timeline[p - 1].table),
            env: v.timeline[p - 1].variables,
            position: p,
            ..v
        }
    }
}

/// The number of steps that a redo of `n` takes.
pub open spec fn redo_steps(v: SessionView, n: nat) -> nat {
    if n <= v.timeline.len() - v.position {
        n
    } else {
        (v.timeline.len() - v.position) as nat
    }
}

/// The state after a redo of `n` steps.
pub open spec fn redone(v: SessionView, n: nat) -> SessionView {
    let p = v.position + redo_steps(v, n);
    if p == 0 {
        v
    } else {
        SessionView {
            current: Some(v.timeline[p - 1].table),
            env: v.timeline[p - 1].variables,
            position: p,
            ..v
        }
    }
}

/// The state after `.clear`: no table, no timeline, no variables.
pub open spec fn cleared(v: SessionView) -> SessionView {
    SessionView { current: None, timeline: Seq::empty(), position: 0, env: Map::empty(), ..v }
}

/// Appending keeps a state well formed and puts the cursor at the end of
/// the timeline, so that nothing is left to redo. Below the capacity the
/// timeline is then the entries before the old cursor and the new entry behind
/// them: the entries that stood behind the cursor are gone.
pub proof fn append_discards_redo(v: SessionView, table: DataFrame, description: Seq<char>)
    requires
        session_wf(v),
    ensures
        session_wf(appended(v, table, description)),
        v.position < capacity() ==> appended(v, table, description).timeline
            == v.timeline.take(v.position as int).push(
            EntryView { table, variables: v.env, description },
        ) && appended(v, table, description).timeline.len() == v.position + 1,
        redo_steps(appended(v, table, description), 1) == 0,
        appended(v, table, description).position == appended(v, table, description).timeline.len(),
        appended(v, table, description).position >= 1,
        appended(v, table, description).current == Some(table),
        appended(v, table, description).env == v.env,
        v.position < capacity() ==> appended(v, table, description).timeline.take(
            v.position as int,
        ) == v.timeline.take(v.position as int),
{
    let kept = v.timeline.take(v.position as int).push(
        EntryView { table, variables: v.env, description },
    );
    if v.position < capacity() {
        assert(kept.take(v.position as int) =~= v.timeline.take(v.position as int));
    }
}

/// After a statement and `k` more, all within the capacity, an undo of `k`
/// steps brings back the table and the whole environment as they were after
/// the first statement; and a new statement then leaves nothing to redo.
pub proof fn undo_restores_after_statements(
    v: SessionView,
    first: DataFrame,
    later: Seq<(DataFrame, Map<Seq<char>, DataFrame>)>,
    next: DataFrame,
)
    requires
        session_wf(v),
        later.len() >= 1,
        v.position + 1 + later.len() <= capacity(),
    ensures
        ({
            let start = appended(v, first, Seq::empty());
            let end = after_statements(start, later, 0);
            let back = undone(end, later.len());
            &&& back.current == Some(first)
            &&& back.env == v.env
            &&& back.position == v.position + 1
            &&& session_wf(back)
            &&& appended(back, next, Seq::empty()).timeline.len() == v.position + 2
            &&& appended(back, next, Seq::empty()).position == v.position + 2
        }),
{
    let start = appended(v, first, Seq::empty());
    append_discards_redo(v, first, Seq::empty());
    statements_keep_prefix(start, later, 0);
    let end = after_statements(start, later, 0);
    let back = undone(end, later.len());
    assert(end.timeline.take(start.position as int)[v.position as int] == end.timeline[v.position as int]);
    assert(end.timeline[v.position as int] == start.timeline[v.position as int]);
    append_discards_redo(back, next, Seq::empty());
}

/// The state after the statements of `later` from index `from` on; each
/// gives its table and the environment that it leaves.
pub open spec fn after_statements(
    v: SessionView,
    later: Seq<(DataFrame, Map<Seq<char>, DataFrame>)>,
    from: int,
) -> SessionView
    decreases later.len() - from,
{
    if from < 0 || from >= later.len() {
        v
    } else {
        after_statements(
            appended(SessionView { env: later[from].1, ..v }, later[from].0, Seq::empty()),
            later,
            from + 1,
        )
    }
}

/// Statements that fit the capacity add one entry each and keep the entries
/// that were there.
pub proof fn statements_keep_prefix(
    v: SessionView,
    later: Seq<(DataFrame, Map<Seq<char>, DataFrame>)>,
    from: int,
)
    requires
        session_wf(v),
        0 <= from <= later.len(),
        v.position == v.timeline.len(),
        v.position + (later.len() - from) <= capacity(),
    ensures
        session_wf(after_statements(v, later, from)),
        after_statements(v, later, from).position == v.position + (later.len() - from),
        after_statements(v, later, from).timeline.len() == v.position + (later.len() - from),
        after_statements(v, later, from).timeline.take(v.position as int) == v.timeline,
    decreases later.len() - from,
{
    if from < later.len() {
        let with_env = SessionView { env: later[from].1, ..v };
        let next = appended(with_env, later[from].0, Seq::empty());
        append_discards_redo(with_env, later[from].0, Seq::empty());
        statements_keep_prefix(next, later, from + 1);
        let end = after_statements(next, later, from + 1);
        assert(v.timeline.take(v.position as int) =~= v.timeline);
        assert(end.timeline.take(v.position as int) =~= end.timeline.take(
            next.position as int,
        ).take(v.position as int));
        assert(next.timeline.take(v.position as int) =~= v.timeline);
    } else {
        assert(v.timeline.take(v.position as int) =~= v.timeline);
    }
}

/// The description of a statement in the operation log.
pub open spec fn description_of(s: StatementView) -> Seq<char> {
    match s {
        StatementView::Assignment { name, pipeline } => name + " = ..."@,
        StatementView::Pipeline(pipeline) => if pipeline.operations.len() == 0 {
            "read(...)"@
        } else {
            decimal_text(pipeline.operations.len() as nat) + " operation(s)"@
        },
    }
}

/// The description of a statement in the operation log.
pub fn describe_statement(statement: &Statement) -> (r: String)
    ensures
        r@ == description_of(statement@),
{
    match statement {
        Statement::Assignment { name, pipeline } => join2(name.as_str(), " = ..."),
        Statement::Pipeline(pipeline) => {
            if pipeline.operations.len() == 0 {
                String::from_str("read(...)")
            } else {
                join2(number_text(pipeline.operations.len()).as_str(), " operation(s)")
            }
        },
    }
}

/// A dot-command.
pub enum Command {
    Help,
    Exit,
    Schema,
    Undo(usize),
    Redo(usize),
    History,
    Variables,
    Clear,
    Unknown(String),
}

pub enum CommandView {
    Help,
    Exit,
    Schema,
    Undo(usize),
    Redo(usize),
    History,
    Variables,
    Clear,
    Unknown(Seq<char>),
}

impl View for Command {
    type V = CommandView;

    open spec fn view(&self) -> CommandView {
        match self {
            Command::Help => CommandView::Help,
            Command::Exit => CommandView::Exit,
            Command::Schema => CommandView::Schema,
            Command::Undo(n) => CommandView::Undo(*n),
            Command::Redo(n) => CommandView::Redo(*n),
            Command::History => CommandView::History,
            Command::Variables => CommandView::Variables,
            Command::Clear => CommandView::Clear,
            Command::Unknown(w) => CommandView::Unknown(w@),
        }
    }
}

/// The position of the first character at or behind `pos` that is not white
/// space.
pub open spec fn word_start(s: Seq<char>, pos: int) -> int
    decreases s.len() - pos,
{
    if 0 <= pos < s.len() && is_space(s[pos]) {
        word_start(s, pos + 1)
    } else {
        pos
    }
}

/// The position of the first character at or behind `pos` that is white
/// space, or the end.
pub open spec fn word_stop(s: Seq<char>, pos: int) -> int
    decreases s.len() - pos,
{
    if 0 <= pos < s.len() && !is_space(s[pos]) {
        word_stop(s, pos + 1)
    } else {
        pos
    }
}

/// The word of the given index among the words of `s` that white space
/// separates, from `pos` on; empty when there are fewer.
pub open spec fn nth_word(s: Seq<char>, pos: int, index: nat) -> Seq<char>
    decreases index,
{
    let a = word_start(s, pos);
    let b = word_stop(s, a);
    if !(0 <= a <= b <= s.len()) {
        Seq::empty()
    } else if index == 0 {
        s.subrange(a, b)
    } else {
        nth_word(s, b, (index - 1) as nat)
    }
}

/// The count of an `.undo` or `.redo`: the number written, or 1 when there
/// is none or it is no number.
pub open spec fn step_count(word: Seq<char>) -> usize {
    match usize_syntax(word) {
        Some(n) => n,
        None => 1,
    }
}

/// The command that an input line writes; its first word names it.
pub open spec fn command_of(input: Seq<char>) -> CommandView {
    let name = nth_word(input, 0, 0);
    let count = step_count(nth_word(input, 0, 1));
    if name == ".help"@ {
        CommandView::Help
    } else if name == ".exit"@ || name == ".quit"@ {
        CommandView::Exit
    } else if name == ".schema"@ {
        CommandView::Schema
    } else if name == ".undo"@ {
        CommandView::Undo(count)
    } else if name == ".redo"@ {
        CommandView::Redo(count)
    } else if name == ".history"@ {
        CommandView::History
    } else if name == ".vars"@ || name == ".variables"@ {
        CommandView::Variables
    } else if name == ".clear"@ {
        CommandView::Clear
    } else {
        CommandView::Unknown(name)
    }
}

/// The word that starts at or behind `pos`, and the position behind it.
fn next_word(s: &Vec<char>, pos: usize) -> (r: (String, usize))
    requires
        pos <= s.len(),
    ensures
        r.0@ == nth_word(s@, pos as int, 0),
        r.1 == word_stop(s@, word_start(s@, pos as int)),
        pos <= word_start(s@, pos as int) <= r.1 <= s.len(),
{
    let mut a: usize = pos;
    while a < s.len() && char_is_space(s[a])
        invariant
            pos <= a <= s.len(),
            word_start(s@, pos as int) == word_start(s@, a as int),
        decreases s.len() - a,
    {
        a += 1;
    }
    let mut b: usize = a;
    while b < s.len() && !char_is_space(s[b])
        invariant
            a <= b <= s.len(),
            word_stop(s@, a as int) == word_stop(s@, b as int),
        decreases s.len() - b,
    {
        b += 1;
    }
    (substring(s, a, b), b)
}

/// The command that an input line writes.
pub fn parse_command(input: &str) -> (r: Command)
    ensures
        r@ == command_of(input@),
{
    let chars = to_chars(input);
    let first = next_word(&chars, 0);
    let second = next_word(&chars, first.1);
    let count = match parse_usize_text(second.0.as_str()) {
        Some(n) => n,
        None => 1,
    };
    let name = first.0.as_str();
    if same_text(name, ".help") {
        Command::Help
    } else if same_text(name, ".exit") || same_text(name, ".quit") {
        Command::Exit
    } else if same_text(name, ".schema") {
        Command::Schema
    } else if same_text(name, ".undo") {
        Command::Undo(count)
    } else if same_text(name, ".redo") {
        Command::Redo(count)
    } else if same_text(name, ".history") {
        Command::History
    } else if same_text(name, ".vars") || same_text(name, ".variables") {
        Command::Variables
    } else if same_text(name, ".clear") {
        Command::Clear
    } else {
        Command::Unknown(first.0)
    }
}

/// The last character of a line that is not white space, if it has one.
pub open spec fn last_visible(line: Seq<char>) -> Option<char>
    decreases line.len(),
{
    if line.len() == 0 {
        None
    } else if is_space(line.last()) {
        last_visible(line.drop_last())
    } else {
        Some(line.last())
    }
}

/// The input gathered so far with one more line behind it; a line feed
/// stands between lines.
pub open spec fn gathered(input: Seq<char>, line: Seq<char>) -> Seq<char> {
    if input.len() == 0 {
        line
    } else {
        input + "\n"@ + line
    }
}

/// What a line of input completes.
pub enum Batch {
    /// A blank line with nothing gathered: there is nothing to do.
    Nothing,
    /// The line ends in `|`: the statement goes on with the next line.
    More,
    /// A statement is complete: the lines as they were typed, for the input
    /// history, and the statement with its lines joined by spaces.
    Complete { typed: String, statement: String },
}

/// What a line of input completes, given the input gathered so far.
pub open spec fn batch_of(input: Seq<char>, line: Seq<char>) -> (Option<(Seq<char>, Seq<char>)>, bool) {
    if is_blank(line) && input.len() == 0 {
        (None, false)
    } else if last_visible(line) == Some('|') {
        (None, true)
    } else {
        (Some((gathered(input, line), replaced(gathered(input, line), "\n"@, " "@))), false)
    }
}

/// What a statement or a dot-command leaves for the caller to do or to show.
pub enum Reaction {
    /// The file of this path must be read; `resume` goes on with its bytes.
    Read(String),
    /// These bytes must be written to the file of this path; `resume` goes
    /// on when that is done.
    Write(String, Vec<u8>),
    /// An assignment stored its table under the name.
    Stored(String, DataFrame),
    /// A pipeline made this table.
    Table(DataFrame),
    /// The help is asked for.
    Help,
    /// The session is to end.
    Exit,
    /// The schema of the active table is asked for.
    Schema,
    /// So many steps were undone.
    Undone(usize),
    /// So many steps were redone.
    Redone(usize),
    /// The operation log is asked for.
    History,
    /// The stored variables are asked for.
    Variables,
    /// The session was cleared.
    Cleared,
    /// The command is not known.
    Unknown(String),
}

/// A statement under way: what the session needs to finish it or to take it
/// back.
pub struct Pending {
    /// The name that the statement assigns to, if it assigns.
    pub name: Option<String>,
    pub description: String,
    /// The environment as it was before the statement.
    pub before: Variables,
}

/// An interactive session.
pub struct Repl {
    executor: Executor,
    current: Option<DataFrame>,
    timeline: Vec<Entry>,
    position: usize,
    pending: Option<Pending>,
    input: String,
}

impl View for Repl {
    type V = SessionView;

    closed spec fn view(&self) -> SessionView {
        SessionView {
            current: self.current,
            timeline: entry_views(self.timeline@),
            position: self.position as nat,
            env: self.executor.env(),
            input: self.input@,
        }
    }
}

/// The message of an undo at the start of the timeline.
pub open spec fn nothing_to_undo() -> ErrorView {
    ErrorView::InvalidOperation("No more history to undo"@)
}

/// The message of a redo at the end of the timeline.
pub open spec fn nothing_to_redo() -> ErrorView {
    ErrorView::InvalidOperation("No more history to redo"@)
}

/// What a dot-command does to a session and what it hands back: help,
/// exit, schema, history, variables and an unknown command change nothing;
/// clear empties the timeline; undo and redo move the cursor, and fail at the
/// end of the timeline.
pub open spec fn commanded(
    command: CommandView,
    before: SessionView,
    r: Result<Reaction, DtransformError>,
    after: SessionView,
) -> bool {
    match command {
        CommandView::Help => r matches Ok(Reaction::Help) && after == before,
        CommandView::Exit => r matches Ok(Reaction::Exit) && after == before,
        CommandView::Schema => r matches Ok(Reaction::Schema) && after == before,
        CommandView::History => r matches Ok(Reaction::History) && after == before,
        CommandView::Variables => r matches Ok(Reaction::Variables) && after
            == before,
        CommandView::Unknown(w) => r matches Ok(Reaction::Unknown(t)) && t@ == w && after == before,
        CommandView::Clear => r matches Ok(Reaction::Cleared) && after == cleared(
            before,
        ),
        CommandView::Undo(n) => if before.position == 0 {
            r matches Err(e) && e@ == nothing_to_undo() && after == before
        } else {
            r matches Ok(Reaction::Undone(steps)) && steps == undo_steps(
                before,
                n as nat,
            ) && after == undone(before, n as nat)
        },
        CommandView::Redo(n) => if before.position >= before.timeline.len() {
            r matches Err(e) && e@ == nothing_to_redo() && after == before
        } else {
            r matches Ok(Reaction::Redone(steps)) && steps == redo_steps(
                before,
                n as nat,
            ) && after == redone(before, n as nat)
        },
    }
}

/// The pipeline that a statement runs in a session: one without a source
/// starts from the active table, which it finds under the name `_`.
pub open spec fn session_pipeline(s: StatementView, current: Option<DataFrame>) -> PipelineView {
    match s {
        StatementView::Assignment { name, pipeline } => pipeline,
        StatementView::Pipeline(p) => if p.source is None && current is Some {
            PipelineView { source: Some(SourceView::Variable("_"@)), operations: p.operations }
        } else {
            p
        },
    }
}

/// The variables with which a statement runs in a session: for a bare
/// pipeline without a source the active table is stored under `_`.
pub open spec fn session_env(s: StatementView, v: SessionView) -> Map<Seq<char>, DataFrame> {
    match s {
        StatementView::Assignment { name, pipeline } => v.env,
        StatementView::Pipeline(p) => match v.current {
            Some(t) => if p.source is None {
                v.env.insert("_"@, t)
            } else {
                v.env
            },
            None => v.env,
        },
    }
}

/// The name that a statement assigns to, if it assigns.
pub open spec fn assigned_name(s: StatementView) -> Option<Seq<char>> {
    match s {
        StatementView::Assignment { name, pipeline } => Some(name),
        StatementView::Pipeline(_) => None,
    }
}

/// The variables after a statement that assigns to `name`, or to nothing,
/// made the table `t`.
pub open spec fn stored(
    env: Map<Seq<char>, DataFrame>,
    name: Option<Seq<char>>,
    t: DataFrame,
) -> Map<Seq<char>, DataFrame> {
    match name {
        Some(n) => env.insert(n, t),
        None => env,
    }
}

/// What the session makes of what a run handed back. `name` is the name
/// that the statement assigns to, if it assigns; `running` are the variables
/// with which it runs, and `fallback` those before it began.
///
/// A table is recorded, and stored too by an assignment; a failure leaves
/// the session with the variables it had before the statement; a need for a
/// file is passed on.
pub open spec fn settled(
    step: Result<Step, DtransformError>,
    name: Option<Seq<char>>,
    description: Seq<char>,
    running: Map<Seq<char>, DataFrame>,
    fallback: Map<Seq<char>, DataFrame>,
    before: SessionView,
    r: Result<Reaction, DtransformError>,
    after: SessionView,
) -> bool {
    match step {
        Ok(Step::Finished(Some(t))) => after == appended(
            SessionView { env: stored(running, name, t), ..before },
            t,
            description,
        ) && match name {
            Some(n) => r matches Ok(Reaction::Stored(m, table)) && m@ == n && table == t,
            None => r matches Ok(Reaction::Table(table)) && table == t,
        },
        Ok(Step::Finished(None)) => r is Err && after == (SessionView { env: fallback, ..before }),
        Err(e) => r == Err::<Reaction, DtransformError>(e) && after == (SessionView {
            env: fallback,
            ..before
        }),
        Ok(Step::Read(path)) => r == Ok::<Reaction, DtransformError>(Reaction::Read(path))
            && after == (SessionView { env: running, ..before }),
        Ok(Step::Write(path, bytes)) => r == Ok::<Reaction, DtransformError>(
            Reaction::Write(path, bytes),
        ) && after == (SessionView { env: running, ..before }),
    }
}

/// What a statement does to a session and what it hands back: its pipeline
/// runs with the variables `running`, and the session makes of what the run
/// hands back what `settled` says.
pub open spec fn stated(
    name: Option<Seq<char>>,
    description: Seq<char>,
    pipeline: PipelineView,
    running: Map<Seq<char>, DataFrame>,
    fallback: Map<Seq<char>, DataFrame>,
    before: SessionView,
    r: Result<Reaction, DtransformError>,
    after: SessionView,
) -> bool {
    exists|left: Left| #[trigger]
        run_gives(seq![StatementView::Pipeline(pipeline)], true, start(), running, left)
            && settled(left.result, name, description, running, fallback, before, r, after)
}

/// What going on with the statement under way gives: its run is resumed
/// with the reply, and the session makes of what the run hands back what
/// `settled` says.
pub open spec fn continued(
    run: Run,
    reply: Reply,
    name: Option<Seq<char>>,
    description: Seq<char>,
    fallback: Map<Seq<char>, DataFrame>,
    before: SessionView,
    r: Result<Reaction, DtransformError>,
    after: SessionView,
) -> bool {
    exists|left: Left| #[trigger]
        resumed(run, reply, before.env, left) && settled(
            left.result,
            name,
            description,
            before.env,
            fallback,
            before,
            r,
            after,
        )
}

impl Repl {
    /// Whether the session is sound: its state is well formed, and the
    /// executor waits for a file only while a statement is under way.
    pub closed spec fn wf(&self) -> bool {
        &&& self.position <= self.timeline.len() <= MAX_HISTORY
        &&& self.executor.silent()
        &&& self.pending is None ==> self.executor.waiting() is Nothing
    }

    /// A sound session has a well-formed state: the cursor lies within the
    /// timeline, and the timeline within its capacity.
    pub proof fn wf_view(&self)
        requires
            self.wf(),
        ensures
            session_wf(self@),
    {
    }

    /// The environment to which a failure of the statement under way leads
    /// back.
    pub closed spec fn fallback(&self) -> Map<Seq<char>, DataFrame> {
        match self.pending {
            Some(p) => p.before@,
            None => self.executor.env(),
        }
    }

    /// What the session waits for.
    pub closed spec fn waiting(&self) -> Awaiting {
        self.executor.waiting()
    }

    /// The run that stopped for a file, if there is one.
    pub closed spec fn under_way(&self) -> Option<Run> {
        self.executor.under_way()
    }

    /// The name that the statement under way assigns to, if there is such a
    /// statement and it assigns.
    pub closed spec fn assigning(&self) -> Option<Seq<char>> {
        match self.pending {
            Some(p) => match p.name {
                Some(n) => Some(n@),
                None => None,
            },
            None => None,
        }
    }

    /// The description of the statement under way.
    pub closed spec fn describing(&self) -> Seq<char> {
        match self.pending {
            Some(p) => p.description@,
            None => Seq::empty(),
        }
    }

    /// Whether a statement is under way.
    pub closed spec fn is_pending(&self) -> bool {
        self.pending is Some
    }

    /// Whether the session is sound. A session that was made by `new` and
    /// changed by its own methods alone always is.
    pub fn is_sound(&self) -> (r: bool)
        ensures
            r == self.wf(),
    {
        self.position <= self.timeline.len() && self.timeline.len() <= MAX_HISTORY
            && self.executor.is_silent() && (self.pending.is_some()
            || !self.executor.is_waiting())
    }

    /// A new session: no table, an empty timeline, no variables.
    pub fn new() -> (r: Repl)
        ensures
            r.wf(),
            r@.current is None,
            r@.timeline.len() == 0,
            r@.position == 0,
            r@.env == Map::<Seq<char>, DataFrame>::empty(),
            r@.input.len() == 0,
            r.waiting() is Nothing,
    {
        let r = Repl {
            executor: Executor::new(),
            current: None,
            timeline: Vec::new(),
            position: 0,
            pending: None,
            input: String::new(),
        };
        assert(entry_views(r.timeline@) =~= Seq::empty());
        r
    }

    /// The active table.
    pub fn current(&self) -> (r: Option<&DataFrame>)
        ensures
            match r {
                Some(df) => self@.current == Some(*df),
                None => self@.current is None,
            },
    {
        self.current.as_ref()
    }

    /// The executor of the session.
    pub fn executor(&self) -> (r: &Executor)
        ensures
            r.env() == self@.env,
    {
        &self.executor
    }

    /// The prompt for the next line: another one while a statement goes on.
    pub fn prompt(&self) -> (r: &'static str)
        ensures
            r@ == if self@.input.len() == 0 {
                ">> "@
            } else {
                ".. "@
            },
    {
        if self.input.as_str().unicode_len() == 0 {
            ">> "
        } else {
            ".. "
        }
    }

    /// Forgets the lines gathered so far, as an interrupt does.
    pub fn interrupt(&mut self)
        requires
            old(self).wf(),
        ensures
            final(self).wf(),
            final(self)@ == (SessionView { input: Seq::empty(), ..old(self)@ }),
            final(self).waiting() == old(self).waiting(),
            final(self).fallback() == old(self).fallback(),
    {
        self.input = String::new();
    }

    /// Takes one line of input. A line that ends in `|` goes on with the
    /// next; the lines of a statement are joined by spaces.
    pub fn feed_line(&mut self, line: &str) -> (r: Batch)
        requires
            old(self).wf(),
        ensures
            final(self).wf(),
            final(self).waiting() == old(self).waiting(),
            final(self).fallback() == old(self).fallback(),
            match batch_of(old(self)@.input, line@) {
                (None, false) => r is Nothing && final(self)@ == old(self)@,
                (None, true) => r is More && final(self)@ == (SessionView {
                    input: gathered(old(self)@.input, line@),
                    ..old(self)@
                }),
                (Some(done), _) => r matches Batch::Complete { typed, statement } && typed@
                    == done.0 && statement@ == done.1 && final(self)@ == (SessionView {
                    input: Seq::empty(),
                    ..old(self)@
                }),
            },
    {
        let chars = to_chars(line);
        let mut end: usize = chars.len();
        assert(chars@.take(chars.len() as int) =~= chars@);
        while end > 0 && char_is_space(chars[end - 1])
            invariant
                end <= chars.len(),
                last_visible(chars@) == last_visible(chars@.take(end as int)),
                forall|k: int| end <= k < chars.len() ==> is_space(#[trigger] chars@[k]),
            decreases end,
        {
            assert(chars@.take(end as int).drop_last() =~= chars@.take(end - 1));
            end -= 1;
        }
        proof {
            assert(chars@.take(chars.len() as int) =~= chars@);
            if end == 0 {
                assert(chars@.take(0) =~= Seq::<char>::empty());
            } else {
                assert(chars@.take(end as int).last() == chars@[end - 1]);
                assert(!is_space(chars@[end - 1]));
            }
        }
        let empty_so_far = self.input.as_str().unicode_len() == 0;
        if end == 0 && empty_so_far {
            return Batch::Nothing;
        }
        let mut all = self.input.clone();
        if !empty_so_far {
            all.append("\n");
        }
        all.append(line);
        if end > 0 && chars[end - 1] == '|' {
            self.input = all;
            return Batch::More;
        }
        let statement = replace_text(all.as_str(), "\n", " ");
        self.input = String::new();
        Batch::Complete { typed: all, statement }
    }

    /// Records a table as the active one, with the environment as it is, in
    /// a new entry of the timeline: the entries behind the cursor are dropped,
    /// the entry is appended, and the oldest entry leaves when the timeline is
    /// over its capacity.
    pub fn save_to_history(&mut self, table: DataFrame, description: String)
        requires
            old(self).wf(),
        ensures
            final(self).wf(),
            final(self)@ == appended(old(self)@, table, description@),
            final(self).waiting() == old(self).waiting(),
            final(self).fallback() == old(self).fallback(),
            final(self).is_pending() == old(self).is_pending(),
    {
        self.record(table, description)
    }

    /// Records the table in the timeline and leaves the statement under way
    /// and the executor as they are.
    fn record(&mut self, table: DataFrame, description: String)
        requires
            old(self).wf(),
        ensures
            final(self).wf(),
            final(self)@ == appended(old(self)@, table, description@),
            final(self).pending == old(self).pending,
            final(self).executor == old(self).executor,
    {
        let ghost before = self@;
        self.timeline.truncate(self.position);
        let ghost kept_before = self.timeline@;
        assert(entry_views(kept_before) =~= before.timeline.take(before.position as int));
        let entry = Entry {
            table: copy_frame(&table),
            variables: self.executor.get_all_variables(),
            description,
        };
        let ghost added = entry@;
        self.timeline.push(entry);
        assert(entry_views(self.timeline@) =~= entry_views(kept_before).push(added));
        if self.timeline.len() > MAX_HISTORY {
            let ghost full = self.timeline@;
            let _oldest = self.timeline.remove(0);
            assert(entry_views(self.timeline@) =~= entry_views(full).skip(1));
        } else {
            self.position = self.position + 1;
        }
        self.current = Some(table);
    }

    /// Moves the cursor back by `n` steps, or as far as the timeline goes,
    /// and brings back the table and the environment of that moment. It
    /// returns the number of steps taken.
    pub fn undo(&mut self, n: usize) -> (r: Result<usize, DtransformError>)
        requires
            old(self).wf(),
        ensures
            final(self).wf(),
            if old(self)@.position == 0 {
                r matches Err(e) && e@ == nothing_to_undo() && final(self)@ == old(self)@
                    && final(self).waiting() == old(self).waiting()
            } else {
                r == Ok::<usize, DtransformError>(undo_steps(old(self)@, n as nat) as usize)
                    && final(self)@ == undone(old(self)@, n as nat) && final(self).waiting()
                    is Nothing
            },
    {
        if self.position == 0 {
            return Err(
                DtransformError::InvalidOperation(String::from_str("No more history to undo")),
            );
        }
        let steps = if n <= self.position {
            n
        } else {
            self.position
        };
        self.executor.cancel();
        self.position = self.position - steps;
        if self.position == 0 {
            self.current = None;
            self.executor.restore_variables(Variables::new());
        } else {
            let entry = &self.timeline[self.position - 1];
            assert(entry_views(self.timeline@)[self.position - 1] == entry@);
            self.current = Some(copy_frame(&entry.table));
            self.executor.restore_variables(entry.variables.snapshot());
        }
        self.pending = None;
        Ok(steps)
    }

    /// Moves the cursor forward by `n` steps, or as far as the timeline
    /// goes, and brings back the table and the environment of that moment. It
    /// returns the number of steps taken.
    pub fn redo(&mut self, n: usize) -> (r: Result<usize, DtransformError>)
        requires
            old(self).wf(),
        ensures
            final(self).wf(),
            if old(self)@.position >= old(self)@.timeline.len() {
                r matches Err(e) && e@ == nothing_to_redo() && final(self)@ == old(self)@
                    && final(self).waiting() == old(self).waiting()
            } else {
                r == Ok::<usize, DtransformError>(redo_steps(old(self)@, n as nat) as usize)
                    && final(self)@ == redone(old(self)@, n as nat) && final(self).waiting()
                    is Nothing
            },
    {
        if self.position >= self.timeline.len() {
            return Err(
                DtransformError::InvalidOperation(String::from_str("No more history to redo")),
            );
        }
        let left = self.timeline.len() - self.position;
        let steps = if n <= left {
            n
        } else {
            left
        };
        self.executor.cancel();
        self.position = self.position + steps;
        if self.position > 0 {
            let entry = &self.timeline[self.position - 1];
            assert(entry_views(self.timeline@)[self.position - 1] == entry@);
            self.current = Some(copy_frame(&entry.table));
            self.executor.restore_variables(entry.variables.snapshot());
        }
        self.pending = None;
        Ok(steps)
    }

    /// Resets the session: no table, an empty timeline and log, no
    /// variables.
    pub fn clear(&mut self)
        requires
            old(self).wf(),
        ensures
            final(self).wf(),
            final(self)@ == cleared(old(self)@),
            final(self).waiting() is Nothing,
    {
        self.executor.cancel();
        self.current = None;
        self.timeline = Vec::new();
        self.position = 0;
        self.executor.restore_variables(Variables::new());
        self.pending = None;
        assert(entry_views(self.timeline@) =~= Seq::empty());
    }

    /// The operation log: the description of every entry of the timeline,
    /// and whether the entry is the one in effect.
    pub fn show_history(&self) -> (r: Vec<(String, bool)>)
        requires
            self.wf(),
        ensures
            r.len() == self@.timeline.len(),
            forall|i: int|
                0 <= i < r.len() ==> (#[trigger] r@[i]).0@ == self@.timeline[i].description
                    && r@[i].1 == (i + 1 == self@.position),
    {
        let mut out: Vec<(String, bool)> = Vec::new();
        let mut i: usize = 0;
        while i < self.timeline.len()
            invariant
                i <= self.timeline.len(),
                out.len() == i,
                forall|j: int|
                    0 <= j < i ==> (#[trigger] out@[j]).0@ == self.timeline@[j].description@
                        && out@[j].1 == (j + 1 == self.position),
            decreases self.timeline.len() - i,
        {
            out.push((self.timeline[i].description.clone(), i + 1 == self.position));
            i += 1;
        }
        assert forall|i: int| 0 <= i < out.len() implies (#[trigger] out@[i]).0@
            == self@.timeline[i].description && out@[i].1 == (i + 1 == self@.position) by {
            assert(entry_views(self.timeline@)[i] == self.timeline@[i]@);
        }
        out
    }

    /// The stored variables, each once, with the number of rows and of
    /// columns of its table.
    pub fn show_variables(&self) -> (r: Vec<(String, usize, usize)>)
        ensures
            r.len() == self@.env.dom().len(),
            forall|i: int|
                0 <= i < r.len() ==> self@.env.contains_key((#[trigger] r@[i]).0@) && r@[i].1
                    == frame_height(self@.env[r@[i].0@]) && r@[i].2 == frame_names(
                    self@.env[r@[i].0@],
                ).len(),
            forall|k: Seq<char>|
                self@.env.contains_key(k) <==> exists|i: int|
                    0 <= i < r.len() && (#[trigger] r@[i]).0@ == k,
            forall|i: int, j: int|
                0 <= i < r.len() && 0 <= j < r.len() && i != j ==> (#[trigger] r@[i]).0@ != (
                #[trigger] r@[j]).0@,
    {
        let names = self.executor.list_variables();
        let mut out: Vec<(String, usize, usize)> = Vec::new();
        let mut i: usize = 0;
        while i < names.len()
            invariant
                i <= names.len(),
                out.len() == i,
                names.len() == self.executor.env().dom().len(),
                forall|k: Seq<char>|
                    self.executor.env().contains_key(k) <==> exists|j: int|
                        0 <= j < names.len() && (#[trigger] names@[j])@ == k,
                forall|a: int, b: int|
                    0 <= a < names.len() && 0 <= b < names.len() && a != b ==> (
                    #[trigger] names@[a])@ != (#[trigger] names@[b])@,
                forall|j: int| 0 <= j < i ==> (#[trigger] out@[j]).0@ == names@[j]@,
                forall|j: int|
                    0 <= j < i ==> self.executor.env().contains_key((#[trigger] out@[j]).0@)
                        && out@[j].1 == frame_height(self.executor.env()[out@[j].0@]) && out@[j].2
                        == frame_names(self.executor.env()[out@[j].0@]).len(),
            decreases names.len() - i,
        {
            assert(self.executor.env().contains_key(names@[i as int]@));
            match self.executor.get_variable(names[i].as_str()) {
                Some(df) => {
                    let columns = column_names(df);
                    assert(crate::frame::text_views(columns@).len() == columns.len());
                    out.push((names[i].clone(), height(df), columns.len()));
                },
                None => {
                    out.push((names[i].clone(), 0, 0));
                },
            }
            i += 1;
        }
        proof {
            assert forall|k: Seq<char>| self@.env.contains_key(k) implies exists|i: int|
                0 <= i < out.len() && (#[trigger] out@[i]).0@ == k by {
                let j = choose|j: int| 0 <= j < names.len() && (#[trigger] names@[j])@ == k;
                assert(out@[j].0@ == k);
            }
            assert forall|a: int, b: int|
                0 <= a < out.len() && 0 <= b < out.len() && a != b implies (#[trigger] out@[a]).0@
                != (#[trigger] out@[b]).0@ by {
                assert(names@[a]@ != names@[b]@);
            }
        }
        out
    }

    /// What to show of a table: its first five rows, and how many rows come
    /// behind them.
    pub fn preview_result(&self, df: &DataFrame) -> (r: (DataFrame, usize))
        ensures
            frame_names(r.0) == frame_names(*df),
            frame_height(r.0) == if frame_height(*df) <= 5 {
                frame_height(*df)
            } else {
                5
            },
            r.1 == if frame_height(*df) > 5 {
                frame_height(*df) - 5
            } else {
                0
            },
    {
        let rows = height(df);
        let more = if rows > 5 {
            rows - 5
        } else {
            0
        };
        (first_rows(df, 5), more)
    }

    /// Carries out a dot-command.
    pub fn handle_command(&mut self, cmd: &str) -> (r: Result<Reaction, DtransformError>)
        requires
            old(self).wf(),
        ensures
            final(self).wf(),
            final(self).waiting() == old(self).waiting() || final(self).waiting() is Nothing,
            commanded(command_of(cmd@), old(self)@, r, final(self)@),
    {
        match parse_command(cmd) {
            Command::Help => Ok(Reaction::Help),
            Command::Exit => Ok(Reaction::Exit),
            Command::Schema => Ok(Reaction::Schema),
            Command::Undo(n) => match self.undo(n) {
                Ok(steps) => Ok(Reaction::Undone(steps)),
                Err(e) => Err(e),
            },
            Command::Redo(n) => match self.redo(n) {
                Ok(steps) => Ok(Reaction::Redone(steps)),
                Err(e) => Err(e),
            },
            Command::History => Ok(Reaction::History),
            Command::Variables => Ok(Reaction::Variables),
            Command::Clear => {
                self.clear();
                Ok(Reaction::Cleared)
            },
            Command::Unknown(w) => Ok(Reaction::Unknown(w)),
        }
    }

    /// Finishes the statement under way with what the executor handed back:
    /// a need for a file is passed on; a table is recorded; a failure takes the
    /// statement back.
    fn settle(&mut self, step: Result<Step, DtransformError>) -> (r: Result<
        Reaction,
        DtransformError,
    >)
        requires
            old(self).position <= old(self).timeline.len() <= MAX_HISTORY,
            old(self).executor.silent(),
            old(self).pending is Some,
            step matches Ok(Step::Read(path)) ==> old(self).executor.waiting() == Awaiting::Read(
                path@,
            ),
            step matches Ok(Step::Write(path, _)) ==> old(self).executor.waiting()
                == Awaiting::Write(path@),
            step matches Ok(Step::Finished(_)) ==> old(self).executor.waiting() is Nothing,
            step is Err ==> old(self).executor.waiting() is Nothing,
        ensures
            final(self).wf(),
            match step {
                Err(e) => r == Err::<Reaction, DtransformError>(e) && final(self)@ == (SessionView {
                    env: old(self).fallback(),
                    ..old(self)@
                }) && final(self).waiting() is Nothing,
                Ok(Step::Read(path)) => r == Ok::<Reaction, DtransformError>(Reaction::Read(path))
                    && final(self)@ == old(self)@ && final(self).waiting() == Awaiting::Read(path@)
                    && final(self).fallback() == old(self).fallback(),
                Ok(Step::Write(path, bytes)) => r == Ok::<Reaction, DtransformError>(
                    Reaction::Write(path, bytes),
                ) && final(self)@ == old(self)@ && final(self).waiting() == Awaiting::Write(path@)
                    && final(self).fallback() == old(self).fallback(),
                Ok(Step::Finished(Some(table))) => final(self).waiting() is Nothing && (
                match old(self).pending->0.name {
                    Some(name) => r matches Ok(Reaction::Stored(n, t)) && n@ == name@ && t == table
                        && final(self)@ == appended(
                        SessionView { env: old(self)@.env.insert(name@, table), ..old(self)@ },
                        table,
                        old(self).pending->0.description@,
                    ),
                    None => r matches Ok(Reaction::Table(t)) && t == table && final(self)@
                        == appended(old(self)@, table, old(self).pending->0.description@),
                }),
                Ok(Step::Finished(None)) => r is Err && final(self)@ == (SessionView {
                    env: old(self).fallback(),
                    ..old(self)@
                }) && final(self).waiting() is Nothing,
            },
    {
        match step {
            Err(e) => {
                self.take_back();
                Err(e)
            },
            Ok(Step::Read(path)) => Ok(Reaction::Read(path)),
            Ok(Step::Write(path, bytes)) => Ok(Reaction::Write(path, bytes)),
            Ok(Step::Finished(None)) => {
                self.take_back();
                Err(
                    DtransformError::InvalidOperation(
                        String::from_str("The statement produced no table"),
                    ),
                )
            },
            Ok(Step::Finished(Some(table))) => {
                let pending = match self.pending.take() {
                    Some(p) => p,
                    None => {
                        return Ok(Reaction::Table(table));
                    },
                };
                match pending.name {
                    Some(name) => {
                        self.executor.set_variable(name.clone(), copy_frame(&table));
                        self.record(copy_frame(&table), pending.description);
                        Ok(Reaction::Stored(name, table))
                    },
                    None => {
                        self.record(copy_frame(&table), pending.description);
                        Ok(Reaction::Table(table))
                    },
                }
            },
        }
    }

    /// Takes the statement under way back: the environment is again what it
    /// was before the statement.
    fn take_back(&mut self)
        requires
            old(self).position <= old(self).timeline.len() <= MAX_HISTORY,
            old(self).executor.silent(),
            old(self).executor.waiting() is Nothing,
        ensures
            final(self).wf(),
            final(self).pending is None,
            final(self).waiting() is Nothing,
            final(self)@ == (SessionView { env: old(self).fallback(), ..old(self)@ }),
    {
        match self.pending.take() {
            Some(p) => {
                self.executor.restore_variables(p.before);
            },
            None => {},
        }
    }

    /// Takes one complete input: a dot-command, or a statement.
    ///
    /// A statement is parsed and run. A pipeline without a source works on
    /// the active table, which it finds under the name `_`. When the statement
    /// succeeds, its table becomes the active table, an assignment stores it
    /// under its name, and a snapshot is appended to the timeline. When it
    /// fails, the session is as it was before.
    pub fn handle_input(&mut self, input: &str) -> (r: Result<Reaction, DtransformError>)
        requires
            old(self).wf(),
        ensures
            final(self).wf(),
            r is Err ==> final(self)@ == old(self)@ || (input@.len() > 0 && input@[0] == '.'),
            input@.len() > 0 && input@[0] == '.' ==> commanded(
                command_of(input@),
                old(self)@,
                r,
                final(self)@,
            ),
            !(input@.len() > 0 && input@[0] == '.') ==> (parsed_statement(input@) matches Ok(s)
                ==> stated(
                assigned_name(s),
                description_of(s),
                session_pipeline(s, old(self)@.current),
                session_env(s, old(self)@),
                old(self)@.env,
                old(self)@,
                r,
                final(self)@,
            )),
            !(input@.len() > 0 && input@[0] == '.') ==> {
                &&& parsed_statement(input@) matches Err(m) ==> (r matches Err(e) && e@
                    == ErrorView::ParseError(m))
                &&& r matches Ok(Reaction::Read(path)) ==> final(self).waiting() == Awaiting::Read(
                    path@,
                ) && final(self).fallback() == old(self)@.env && same_but_env(
                    final(self)@,
                    old(self)@,
                )
                &&& r matches Ok(Reaction::Write(path, _)) ==> final(self).waiting()
                    == Awaiting::Write(path@) && final(self).fallback() == old(self)@.env
                    && same_but_env(final(self)@, old(self)@)
                &&& r matches Ok(Reaction::Stored(_, table)) ==> recorded(
                    final(self)@,
                    old(self)@,
                    table,
                )
                &&& r matches Ok(Reaction::Table(table)) ==> recorded(
                    final(self)@,
                    old(self)@,
                    table,
                )
                &&& r matches Ok(other) ==> other is Read || other is Write || other is Stored
                    || other is Table
            },
    {
        let chars = to_chars(input);
        if chars.len() > 0 && chars[0] == '.' {
            return self.handle_command(input);
        }
        let statement = match parse(input) {
            Ok(s) => s,
            Err(e) => {
                return Err(e);
            },
        };
        let description = describe_statement(&statement);
        let before = self.executor.get_all_variables();
        let ghost began = self@;
        let ghost told = description@;
        match statement {
            Statement::Assignment { name, pipeline } => {
                let ghost named = name@;
                self.pending = Some(Pending { name: Some(name), description, before });
                let ghost ran = pipeline@;
                let ghost running = self.executor.env();
                let step = self.executor.execute_pipeline(pipeline);
                let ghost left = Left {
                    result: step,
                    env: self.executor.env(),
                    run: self.executor.under_way(),
                };
                let r = self.settle(step);
                assert(run_gives(seq![StatementView::Pipeline(ran)], true, start(), running, left)
                    && settled(left.result, Some(named), told, running, began.env, began, r, self@));
                r
            },
            Statement::Pipeline(pipeline) => {
                let mut pipeline = pipeline;
                if pipeline.source.is_none() {
                    match &self.current {
                        Some(table) => {
                            self.executor.set_variable(String::from_str("_"), copy_frame(table));
                            pipeline.source = Some(Source::Variable(String::from_str("_")));
                        },
                        None => {},
                    }
                }
                self.pending = Some(Pending { name: None, description, before });
                let ghost ran = pipeline@;
                let ghost running = self.executor.env();
                let step = self.executor.execute_pipeline(pipeline);
                let ghost left = Left {
                    result: step,
                    env: self.executor.env(),
                    run: self.executor.under_way(),
                };
                let r = self.settle(step);
                assert(run_gives(seq![StatementView::Pipeline(ran)], true, start(), running, left)
                    && settled(left.result, None, told, running, began.env, began, r, self@));
                r
            },
        }
    }

    /// Goes on with the statement that stopped for a file.
    pub fn resume(&mut self, reply: Reply) -> (r: Result<Reaction, DtransformError>)
        requires
            old(self).wf(),
        ensures
            final(self).wf(),
            r is Err ==> final(self)@ == (SessionView {
                env: old(self).fallback(),
                ..old(self)@
            }) && final(self).waiting() is Nothing,
            r matches Ok(Reaction::Read(path)) ==> final(self).waiting() == Awaiting::Read(path@)
                && final(self).fallback() == old(self).fallback() && final(self)@ == old(self)@,
            r matches Ok(Reaction::Write(path, _)) ==> final(self).waiting() == Awaiting::Write(
                path@,
            ) && final(self).fallback() == old(self).fallback() && final(self)@ == old(self)@,
            r matches Ok(Reaction::Stored(_, table)) ==> recorded(final(self)@, old(self)@, table),
            r matches Ok(Reaction::Table(table)) ==> recorded(final(self)@, old(self)@, table),
            r matches Ok(other) ==> other is Read || other is Write || other is Stored || other
                is Table,
            !old(self).is_pending() ==> (r matches Err(e) && e@ == ErrorView::InvalidOperation(
                unexpected_reply_message(),
            )),
            old(self).is_pending() ==> (old(self).under_way() matches Some(run) ==> continued(
                run,
                reply,
                old(self).assigning(),
                old(self).describing(),
                old(self).fallback(),
                old(self)@,
                r,
                final(self)@,
            )),
    {
        if self.pending.is_none() {
            return Err(
                DtransformError::InvalidOperation(
                    String::from_str("No run is waiting for this reply"),
                ),
            );
        }
        let ghost before = self@;
        let ghost run = self.executor.under_way();
        let ghost name = self.assigning();
        let ghost description = self.describing();
        let ghost fallback = self.fallback();
        let step = self.executor.resume(reply);
        let ghost left = Left {
            result: step,
            env: self.executor.env(),
            run: self.executor.under_way(),
        };
        let r = self.settle(step);
        proof {
            if run is Some {
                assert(resumed(run->0, reply, before.env, left) && settled(
                    left.result,
                    name,
                    description,
                    before.env,
                    fallback,
                    before,
                    r,
                    self@,
                ));
            }
        }
        r
    }
}

/// Whether two states differ in the environment at most.
pub open spec fn same_but_env(a: SessionView, b: SessionView) -> bool {
    a == (SessionView { env: a.env, ..b })
}

/// Whether `after` is `before` with a statement recorded whose result is
/// `table`: the table is the active one, the timeline has the entries up to
/// the old cursor and behind them the new entry, which holds the table and the
/// environment; and the cursor stands at the end.
pub open spec fn recorded(after: SessionView, before: SessionView, table: DataFrame) -> bool {
    exists|description: Seq<char>|
        after == #[trigger] appended(
            SessionView { env: after.env, ..before },
            table,
            description,
        )
}

} // verus!
