use data_transform::error::DtransformError;

#[test]
fn every_failure_says_its_kind_and_its_text() {
    assert_eq!(DtransformError::ParseError("bad".to_string()).message(), "Parse error: bad");
    assert_eq!(
        DtransformError::ColumnNotFound("age".to_string()).message(),
        "Column not found: age"
    );
    assert_eq!(
        DtransformError::TypeMismatch { expected: "String".to_string(), got: "Int64".to_string() }
            .message(),
        "Type mismatch: expected String, got Int64"
    );
    assert_eq!(DtransformError::IoError("gone".to_string()).message(), "I/O error: gone");
    assert_eq!(
        DtransformError::InvalidOperation("no".to_string()).message(),
        "Invalid operation: no"
    );
    assert_eq!(
        DtransformError::VariableNotFound("x".to_string()).message(),
        "Variable not found: x"
    );
    assert_eq!(
        DtransformError::ReadlineError("eof".to_string()).message(),
        "Readline error: eof"
    );
    let pattern = regex::Regex::new("(").unwrap_err();
    let text = pattern.to_string();
    assert_eq!(DtransformError::RegexError(pattern).message(), format!("Regex error: {}", text));
    let engine = polars::prelude::PolarsError::ComputeError("boom".into());
    let text = engine.to_string();
    assert_eq!(DtransformError::PolarsError(engine).message(), format!("Polars error: {}", text));
}

#[test]
fn the_common_failures_come_with_a_hint() {
    assert_eq!(
        DtransformError::ColumnNotFound("age".to_string()).display_friendly(),
        "Column 'age' not found.\nUse .schema to see all columns."
    );
    assert_eq!(
        DtransformError::ParseError("bad".to_string()).display_friendly(),
        "Syntax error: bad\nSee examples with .help"
    );
    assert_eq!(
        DtransformError::VariableNotFound("x".to_string()).display_friendly(),
        "Variable 'x' not found.\nUse .vars to see all variables."
    );
    assert_eq!(
        DtransformError::InvalidOperation("no".to_string()).display_friendly(),
        "Invalid operation: no"
    );
}
