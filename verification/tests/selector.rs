use data_transform::ast::{ColumnSelector, DataType};
use data_transform::error::DtransformError;
use data_transform::executor::selector::resolve_in;
use data_transform::executor::Executor;
use data_transform::frame::Dtype;
use polars::prelude::{Column, DataFrame};

fn schema() -> (Vec<String>, Vec<Dtype>) {
    (
        vec!["id", "name", "price", "sales_q1", "sales_q2", "active", "when"]
            .into_iter()
            .map(|s| s.to_string())
            .collect(),
        vec![
            Dtype::Int64,
            Dtype::String,
            Dtype::Float64,
            Dtype::UInt32,
            Dtype::Int32,
            Dtype::Boolean,
            Dtype::Date,
        ],
    )
}

fn resolve(selector: &ColumnSelector) -> Result<Vec<String>, DtransformError> {
    let (names, dtypes) = schema();
    resolve_in(selector, &names, &dtypes)
}

fn name(n: &str) -> ColumnSelector {
    ColumnSelector::Name(n.to_string())
}

#[test]
fn a_name_resolves_to_itself_or_fails() {
    assert_eq!(resolve(&name("price")).unwrap(), vec!["price"]);
    assert!(matches!(resolve(&name("cost")), Err(DtransformError::ColumnNotFound(n)) if n == "cost"));
}

#[test]
fn an_index_resolves_to_the_column_at_that_position() {
    assert_eq!(resolve(&ColumnSelector::Index(0)).unwrap(), vec!["id"]);
    assert_eq!(resolve(&ColumnSelector::Index(6)).unwrap(), vec!["when"]);
    match resolve(&ColumnSelector::Index(7)) {
        Err(DtransformError::InvalidOperation(m)) => assert_eq!(m, "Column index 7 out of bounds"),
        _ => panic!("expected a failure"),
    }
}

#[test]
fn a_range_includes_both_ends_and_reports_the_bounds_as_written() {
    assert_eq!(resolve(&ColumnSelector::Range(1, 3)).unwrap(), vec!["name", "price", "sales_q1"]);
    assert_eq!(resolve(&ColumnSelector::Range(5, 99)).unwrap(), vec!["active", "when"]);
    match resolve(&ColumnSelector::Range(7, 9)) {
        Err(DtransformError::InvalidOperation(m)) => {
            assert_eq!(m, "Range $8..$10 is out of bounds or invalid")
        }
        _ => panic!("expected a failure"),
    }
    match resolve(&ColumnSelector::Range(3, 1)) {
        Err(DtransformError::InvalidOperation(m)) => {
            assert_eq!(m, "Range $4..$2 is out of bounds or invalid")
        }
        _ => panic!("expected a failure"),
    }
}

#[test]
fn a_pattern_selects_the_matching_names_in_schema_order() {
    assert_eq!(
        resolve(&ColumnSelector::Regex("^sales_".to_string())).unwrap(),
        vec!["sales_q1", "sales_q2"]
    );
    assert!(resolve(&ColumnSelector::Regex("^zzz".to_string())).unwrap().is_empty());
    assert!(matches!(
        resolve(&ColumnSelector::Regex("(".to_string())),
        Err(DtransformError::RegexError(_))
    ));
}

#[test]
fn types_select_by_element_type() {
    assert_eq!(
        resolve(&ColumnSelector::Type(vec![DataType::Number])).unwrap(),
        vec!["id", "price", "sales_q1", "sales_q2"]
    );
    assert_eq!(
        resolve(&ColumnSelector::Type(vec![DataType::Boolean, DataType::String])).unwrap(),
        vec!["name", "active"]
    );
    assert_eq!(resolve(&ColumnSelector::Type(vec![DataType::Date])).unwrap(), vec!["when"]);
    assert!(resolve(&ColumnSelector::Type(vec![DataType::DateTime])).unwrap().is_empty());
    assert!(resolve(&ColumnSelector::Type(vec![])).unwrap().is_empty());
}

#[test]
fn all_is_every_column() {
    assert_eq!(resolve(&ColumnSelector::All).unwrap(), schema().0);
}

#[test]
fn except_is_the_complement_in_schema_order() {
    let inner = ColumnSelector::Regex("^sales_|^id$".to_string());
    let chosen = resolve(&inner).unwrap();
    let rest = resolve(&ColumnSelector::Except(Box::new(inner))).unwrap();
    assert_eq!(rest, vec!["name", "price", "active", "when"]);
    for n in schema().0 {
        assert!(chosen.contains(&n) != rest.contains(&n));
    }
    assert!(matches!(
        resolve(&ColumnSelector::Except(Box::new(name("cost")))),
        Err(DtransformError::ColumnNotFound(n)) if n == "cost"
    ));
}

#[test]
fn and_is_the_intersection_in_the_order_of_the_left() {
    let numbers = ColumnSelector::Type(vec![DataType::Number]);
    let late = ColumnSelector::Range(2, 6);
    let both = resolve(&ColumnSelector::And(Box::new(numbers.clone()), Box::new(late.clone())))
        .unwrap();
    assert_eq!(both, vec!["price", "sales_q1", "sales_q2"]);
    let mut swapped =
        resolve(&ColumnSelector::And(Box::new(late), Box::new(numbers))).unwrap();
    let mut sorted = both.clone();
    sorted.sort();
    swapped.sort();
    assert_eq!(sorted, swapped);
    let reversed = ColumnSelector::And(
        Box::new(ColumnSelector::Except(Box::new(name("id")))),
        Box::new(ColumnSelector::Regex("e".to_string())),
    );
    assert_eq!(resolve(&reversed).unwrap(), vec!["name", "price", "sales_q1", "sales_q2", "active", "when"]);
}

#[test]
fn a_table_gives_its_names_and_types_to_the_resolver() {
    let df = DataFrame::new(
        2,
        vec![
            Column::new("n".into(), [1i64, 2]),
            Column::new("s".into(), ["a", "b"]),
            Column::new("f".into(), [1.5f64, 2.5]),
            Column::new("b".into(), [true, false]),
            Column::new("small".into(), [1u32, 2]),
        ],
    )
    .unwrap();
    let ex = Executor::new();
    assert_eq!(
        ex.resolve_selector(&ColumnSelector::Type(vec![DataType::Number]), &df).unwrap(),
        vec!["n", "f", "small"]
    );
    assert_eq!(
        ex.resolve_selector(&ColumnSelector::Type(vec![DataType::String]), &df).unwrap(),
        vec!["s"]
    );
    assert_eq!(
        ex.resolve_selector(&ColumnSelector::Type(vec![DataType::Boolean]), &df).unwrap(),
        vec!["b"]
    );
}
