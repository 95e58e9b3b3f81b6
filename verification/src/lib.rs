//! A small pipeline language for tabular data: the parser that turns pipeline
//! text into a typed syntax tree, the column-selector algebra, the expression
//! evaluator and operation executor over data frames, and the interactive
//! session engine with its undo/redo timeline.

pub mod text;
pub mod frame;
pub mod pattern;
pub mod error;
pub mod ast;
pub mod rows;
pub mod executor;
pub mod parser;
pub mod repl;

pub use error::DtransformError;
pub use executor::Executor;
pub use parser::{parse, parse_program};
pub use ast::Program;
pub use repl::Repl;
