//! The executor: selector resolution, expression evaluation and the
//! operations of a pipeline, over data frames.

pub mod env;
pub mod columns;
pub mod literal;
pub mod binary;
pub mod eval;
pub mod selector;
pub mod ops;
pub mod detect;
pub mod files;
pub mod run;

use vstd::prelude::*;
use polars::frame::DataFrame;
use crate::executor::env::Variables;
use crate::executor::run::Run;

verus! {

/// Runs pipelines; it owns the variable environment.
///
/// Files are read and written by the caller: a run stops where it needs a
/// file read or written, says so, and goes on when it is resumed with the
/// outcome.
pub struct Executor {
    variables: Variables,
    run: Option<Run>,
}

impl Executor {
    /// The variable environment as a mapping from names to tables.
    pub closed spec fn env(&self) -> Map<Seq<char>, DataFrame> {
        self.variables@
    }

    /// What the executor waits for: nothing, unless a run stopped for a file.
    pub closed spec fn waiting(&self) -> crate::executor::run::Awaiting {
        match self.run {
            Some(run) => crate::executor::run::run_needs(run),
            None => crate::executor::run::Awaiting::Nothing,
        }
    }

    /// The run that stopped for a file, if there is one.
    pub closed spec fn under_way(&self) -> Option<Run> {
        self.run
    }

    /// Whether the run under way, if there is one, leaves the variables as
    /// they are: none of its statements assigns.
    pub closed spec fn silent(&self) -> bool {
        match self.run {
            Some(run) => crate::executor::run::no_assignments(run.statements@),
            None => true,
        }
    }

    /// An executor with no variables and no run under way.
    pub fn new() -> (r: Executor)
        ensures
            r.env() == Map::<Seq<char>, DataFrame>::empty(),
            r.waiting() == crate::executor::run::Awaiting::Nothing,
            r.silent(),
    {
        Executor { variables: Variables::new(), run: None }
    }

    /// Gives up the run under way, if there is one; the variables stay as
    /// they are.
    pub fn cancel(&mut self)
        ensures
            final(self).waiting() == crate::executor::run::Awaiting::Nothing,
            final(self).silent(),
            final(self).env() == old(self).env(),
    {
        self.run = None;
    }

    /// The table stored under `name`.
    pub fn get_variable(&self, name: &str) -> (r: Option<&DataFrame>)
        ensures
            match r {
                Some(df) => self.env().contains_key(name@) && *df == self.env()[name@],
                None => !self.env().contains_key(name@),
            },
    {
        self.variables.get(name)
    }

    /// Stores `df` under `name`; the last write wins.
    pub fn set_variable(&mut self, name: String, df: DataFrame)
        ensures
            final(self).env() == old(self).env().insert(name@, df),
            final(self).waiting() == old(self).waiting(),
            final(self).silent() == old(self).silent(),
    {
        self.variables.insert(name, df);
    }

    /// Forgets the table stored under `name`, if there is one.
    pub fn remove_variable(&mut self, name: &str)
        ensures
            final(self).env() == old(self).env().remove(name@),
            final(self).waiting() == old(self).waiting(),
            final(self).silent() == old(self).silent(),
    {
        self.variables.remove(name);
    }

    /// The names of the stored tables, each once.
    pub fn list_variables(&self) -> (r: Vec<String>)
        ensures
            r.len() == self.env().dom().len(),
            forall|k: Seq<char>|
                self.env().contains_key(k) <==> exists|i: int|
                    0 <= i < r.len() && (#[trigger] r@[i])@ == k,
            forall|i: int, j: int|
                0 <= i < r.len() && 0 <= j < r.len() && i != j ==> (#[trigger] r@[i])@ != (
                #[trigger] r@[j])@,
    {
        self.variables.names()
    }

    /// A copy of the whole environment.
    pub fn get_all_variables(&self) -> (r: Variables)
        ensures
            r@ == self.env(),
    {
        self.variables.snapshot()
    }

    /// Replaces the whole environment by `snapshot`.
    pub fn restore_variables(&mut self, snapshot: Variables)
        ensures
            final(self).env() == snapshot@,
            final(self).waiting() == old(self).waiting(),
            final(self).silent() == old(self).silent(),
    {
        self.variables = snapshot;
    }
}

} // verus!
