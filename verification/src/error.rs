//! The failures that parsing, evaluation and the session can report.

use vstd::prelude::*;
use crate::text::{join2, join3};
use crate::frame::{engine_error, engine_error_text};
use crate::pattern::{pattern_error_text, regex_error};

verus! {

/// Every failure of the library is one of these; nothing aborts.
#[derive(Debug)]
pub enum DtransformError {
    /// Malformed pipeline text.
    ParseError(String),
    /// A column name that the table does not have.
    ColumnNotFound(String),
    /// A value of one type where another was needed.
    TypeMismatch { expected: String, got: String },
    /// A file could not be read or written.
    IoError(String),
    /// The table engine failed.
    PolarsError(polars::error::PolarsError),
    /// A semantic or runtime violation; the message carries the hint.
    InvalidOperation(String),
    /// A variable name that the environment does not hold.
    VariableNotFound(String),
    /// A regular expression that does not compile.
    RegexError(regex::Error),
    /// The input loop failed.
    ReadlineError(String),
}

/// What a failure says, with texts as character sequences. The two failures
/// that carry an engine's own error value keep only their kind.
pub enum ErrorView {
    ParseError(Seq<char>),
    ColumnNotFound(Seq<char>),
    TypeMismatch { expected: Seq<char>, got: Seq<char> },
    IoError(Seq<char>),
    PolarsError,
    InvalidOperation(Seq<char>),
    VariableNotFound(Seq<char>),
    RegexError,
    ReadlineError(Seq<char>),
}

impl View for DtransformError {
    type V = ErrorView;

    open spec fn view(&self) -> ErrorView {
        match self {
            DtransformError::ParseError(m) => ErrorView::ParseError(m@),
            DtransformError::ColumnNotFound(m) => ErrorView::ColumnNotFound(m@),
            DtransformError::TypeMismatch { expected, got } => ErrorView::TypeMismatch {
                expected: expected@,
                got: got@,
            },
            DtransformError::IoError(m) => ErrorView::IoError(m@),
            DtransformError::PolarsError(_) => ErrorView::PolarsError,
            DtransformError::InvalidOperation(m) => ErrorView::InvalidOperation(m@),
            DtransformError::VariableNotFound(m) => ErrorView::VariableNotFound(m@),
            DtransformError::RegexError(_) => ErrorView::RegexError,
            DtransformError::ReadlineError(m) => ErrorView::ReadlineError(m@),
        }
    }
}

/// The friendlier rendering of the three common failures, each with the
/// session command that helps; `None` for the others.
pub open spec fn friendly_text(e: ErrorView) -> Option<Seq<char>> {
    match e {
        ErrorView::ColumnNotFound(col) => Some(
            "Column '"@ + col + "' not found.\nUse .schema to see all columns."@,
        ),
        ErrorView::ParseError(msg) => Some(
            "Syntax error: "@ + msg + "\nSee examples with .help"@,
        ),
        ErrorView::VariableNotFound(var) => Some(
            "Variable '"@ + var + "' not found.\nUse .vars to see all variables."@,
        ),
        _ => None,
    }
}

/// The plain rendering of a failure whose text the library itself holds;
/// `None` for the two that carry an engine's error value.
pub open spec fn plain_text(e: ErrorView) -> Option<Seq<char>> {
    match e {
        ErrorView::ParseError(m) => Some("Parse error: "@ + m),
        ErrorView::ColumnNotFound(m) => Some("Column not found: "@ + m),
        ErrorView::TypeMismatch { expected, got } => Some(
            "Type mismatch: expected "@ + expected + ", got "@ + got,
        ),
        ErrorView::IoError(m) => Some("I/O error: "@ + m),
        ErrorView::PolarsError => None,
        ErrorView::InvalidOperation(m) => Some("Invalid operation: "@ + m),
        ErrorView::VariableNotFound(m) => Some("Variable not found: "@ + m),
        ErrorView::RegexError => None,
        ErrorView::ReadlineError(m) => Some("Readline error: "@ + m),
    }
}

/// The one-line rendering of a failure: its kind, then its text. For an
/// engine's own error the text is the one that the engine prints for it.
pub open spec fn message_text(e: DtransformError) -> Seq<char> {
    match e {
        DtransformError::PolarsError(x) => "Polars error: "@ + engine_error(x),
        DtransformError::RegexError(x) => "Regex error: "@ + regex_error(x),
        _ => match plain_text(e@) {
            Some(t) => t,
            None => Seq::empty(),
        },
    }
}

/// The rendering of a failure in an interactive session: the friendlier
/// text where there is one, else the one-line rendering.
pub open spec fn friendly_message(e: DtransformError) -> Seq<char> {
    match friendly_text(e@) {
        Some(t) => t,
        None => message_text(e),
    }
}

impl DtransformError {
    /// The one-line rendering of the failure: its kind, then its text. For an
    /// engine's own error the text is whatever that engine prints.
    pub fn message(&self) -> (r: String)
        ensures
            r@ == message_text(*self),
            plain_text(self@) matches Some(t) ==> r@ == t,
    {
        match self {
            DtransformError::ParseError(m) => join2("Parse error: ", m.as_str()),
            DtransformError::ColumnNotFound(m) => join2("Column not found: ", m.as_str()),
            DtransformError::TypeMismatch { expected, got } => {
                let head = join3("Type mismatch: expected ", expected.as_str(), ", got ");
                join2(head.as_str(), got.as_str())
            },
            DtransformError::IoError(m) => join2("I/O error: ", m.as_str()),
            DtransformError::PolarsError(e) => {
                let t = engine_error_text(e);
                join2("Polars error: ", t.as_str())
            },
            DtransformError::InvalidOperation(m) => join2("Invalid operation: ", m.as_str()),
            DtransformError::VariableNotFound(m) => join2("Variable not found: ", m.as_str()),
            DtransformError::RegexError(e) => {
                let t = pattern_error_text(e);
                join2("Regex error: ", t.as_str())
            },
            DtransformError::ReadlineError(m) => join2("Readline error: ", m.as_str()),
        }
    }

    /// The rendering shown in an interactive session: a hint for a missing
    /// column, a syntax error or a missing variable, and the plain message for
    /// everything else.
    pub fn display_friendly(&self) -> (r: String)
        ensures
            r@ == friendly_message(*self),
    {
        match self {
            DtransformError::ColumnNotFound(col) => join3(
                "Column '",
                col.as_str(),
                "' not found.\nUse .schema to see all columns.",
            ),
            DtransformError::ParseError(msg) => join3(
                "Syntax error: ",
                msg.as_str(),
                "\nSee examples with .help",
            ),
            DtransformError::VariableNotFound(var) => join3(
                "Variable '",
                var.as_str(),
                "' not found.\nUse .vars to see all variables.",
            ),
            _ => self.message(),
        }
    }
}

} // verus!
