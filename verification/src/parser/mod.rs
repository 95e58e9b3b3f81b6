//! The parser: pipeline text to syntax tree.

pub mod number;
pub mod scan;
pub mod selector;
pub mod expression;
pub mod operation;

pub use operation::{parse, parse_program, DtransformParser};
pub use expression::parse_bin_op;
pub use number::{parse_number, parse_number_as_usize};
