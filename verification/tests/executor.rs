use data_transform::ast::{
    Assignment, AssignmentTarget, BinOp, ColumnRef, ColumnSelector, DistinctOp, DropOp,
    Expression, FilterOp, Literal, LookupField, MutateOp, Number, RenameAllOp, RenameOp,
    RenameStrategy, Scale, SelectOp, SkipOp, SliceOp, SortOp, TakeOp,
};
use data_transform::error::DtransformError;
use data_transform::executor::Executor;
use polars::prelude::{Column, DataFrame};

fn number(text: &str) -> Expression {
    Expression::Literal(Literal::Number(Number {
        negative: false,
        whole: text.to_string(),
        fraction: String::new(),
        scale: Scale::One,
    }))
}

fn text(value: &str) -> Expression {
    Expression::Literal(Literal::String(value.to_string()))
}

fn column(name: &str) -> Expression {
    Expression::Column(ColumnRef::Name(name.to_string()))
}

fn binary(left: Expression, op: BinOp, right: Expression) -> Expression {
    Expression::BinaryOp { left: Box::new(left), op, right: Box::new(right) }
}

fn people() -> DataFrame {
    DataFrame::new(
        4,
        vec![
            Column::new("name".into(), ["Ann", "Bob", "Cy", "Dee"]),
            Column::new("age".into(), [31i64, 25, 47, 25]),
            Column::new("city".into(), ["Oslo", "Rome", "Oslo", "Rome"]),
        ],
    )
    .unwrap()
}

fn names(df: &DataFrame) -> Vec<String> {
    df.get_column_names().iter().map(|n| n.to_string()).collect()
}

fn strings(df: &DataFrame, name: &str) -> Vec<Option<String>> {
    let series = df.column(name).unwrap().as_materialized_series().clone();
    series.str().unwrap().iter().map(|v| v.map(|s| s.to_string())).collect()
}

fn floats(df: &DataFrame, name: &str) -> Vec<Option<f64>> {
    let series = df.column(name).unwrap().as_materialized_series().clone();
    let cast = series.cast(&polars::prelude::DataType::Float64).unwrap();
    cast.f64().unwrap().iter().collect()
}

#[test]
fn take_keeps_the_first_rows() {
    let ex = Executor::new();
    let out = ex.execute_take(people(), &TakeOp { n: 2 }).unwrap();
    assert_eq!(out.height(), 2);
    assert_eq!(names(&out), vec!["name", "age", "city"]);
    assert_eq!(strings(&out, "name"), vec![Some("Ann".to_string()), Some("Bob".to_string())]);
    let all = ex.execute_take(people(), &TakeOp { n: 9 }).unwrap();
    assert_eq!(all.height(), 4);
}

#[test]
fn skip_beyond_the_height_leaves_an_empty_table_of_the_same_schema() {
    let ex = Executor::new();
    let out = ex.execute_skip(people(), &SkipOp { n: 4 }).unwrap();
    assert_eq!(out.height(), 0);
    assert_eq!(names(&out), vec!["name", "age", "city"]);
    let out = ex.execute_skip(people(), &SkipOp { n: 100 }).unwrap();
    assert_eq!(out.height(), 0);
    let out = ex.execute_skip(people(), &SkipOp { n: 1 }).unwrap();
    assert_eq!(strings(&out, "name")[0], Some("Bob".to_string()));
    assert_eq!(out.height(), 3);
}

#[test]
fn take_then_skip_of_the_same_count_is_empty() {
    let ex = Executor::new();
    for n in 0..7 {
        let taken = ex.execute_take(people(), &TakeOp { n }).unwrap();
        let left = ex.execute_skip(taken, &SkipOp { n }).unwrap();
        assert_eq!(left.height(), 0);
        assert_eq!(names(&left), vec!["name", "age", "city"]);
    }
}

#[test]
fn slice_is_cut_off_at_the_table_end() {
    let ex = Executor::new();
    let out = ex.execute_slice(people(), &SliceOp { start: 1, end: 3 }).unwrap();
    assert_eq!(strings(&out, "name"), vec![Some("Bob".to_string()), Some("Cy".to_string())]);
    let out = ex.execute_slice(people(), &SliceOp { start: 2, end: 50 }).unwrap();
    assert_eq!(out.height(), 2);
    let out = ex.execute_slice(people(), &SliceOp { start: 9, end: 12 }).unwrap();
    assert_eq!(out.height(), 0);
    let out = ex.execute_slice(people(), &SliceOp { start: 3, end: 1 }).unwrap();
    assert_eq!(out.height(), 0);
}

#[test]
fn select_projects_in_order_and_applies_aliases() {
    let ex = Executor::new();
    let op = SelectOp {
        selectors: vec![
            (ColumnSelector::Name("city".to_string()), Some("town".to_string())),
            (ColumnSelector::Index(0), None),
        ],
    };
    let out = ex.execute_select(people(), &op).unwrap();
    assert_eq!(names(&out), vec!["town", "name"]);
    assert_eq!(out.height(), 4);
}

#[test]
fn select_of_nothing_fails() {
    let ex = Executor::new();
    let op = SelectOp { selectors: vec![(ColumnSelector::Regex("^zzz".to_string()), None)] };
    match ex.execute_select(people(), &op) {
        Err(DtransformError::InvalidOperation(m)) => assert_eq!(m, "No columns selected"),
        _ => panic!("expected a failure"),
    }
}

#[test]
fn filter_keeps_the_rows_where_the_condition_holds() {
    let ex = Executor::new();
    let op = FilterOp { condition: binary(column("age"), BinOp::Gt, number("30")) };
    let out = ex.execute_filter(people(), &op).unwrap();
    assert_eq!(strings(&out, "name"), vec![Some("Ann".to_string()), Some("Cy".to_string())]);
}

#[test]
fn mutate_by_position_replaces_the_column() {
    let ex = Executor::new();
    let df = DataFrame::new(3, vec![Column::new("n".into(), [1i64, 2, 3])]).unwrap();
    let op = MutateOp {
        assignments: vec![Assignment {
            column: AssignmentTarget::Position(1),
            expression: binary(
                Expression::Column(ColumnRef::Position(1)),
                BinOp::Mul,
                number("2"),
            ),
        }],
    };
    let out = ex.execute_mutate(df, &op).unwrap();
    assert_eq!(names(&out), vec!["n"]);
    assert_eq!(floats(&out, "n"), vec![Some(2.0), Some(4.0), Some(6.0)]);
}

#[test]
fn mutate_appends_a_new_column_and_later_assignments_see_it() {
    let ex = Executor::new();
    let op = MutateOp {
        assignments: vec![
            Assignment {
                column: AssignmentTarget::Name("double".to_string()),
                expression: binary(column("age"), BinOp::Mul, number("2")),
            },
            Assignment {
                column: AssignmentTarget::Name("more".to_string()),
                expression: binary(column("double"), BinOp::Add, number("1")),
            },
        ],
    };
    let out = ex.execute_mutate(people(), &op).unwrap();
    assert_eq!(names(&out), vec!["name", "age", "city", "double", "more"]);
    assert_eq!(floats(&out, "more"), vec![Some(63.0), Some(51.0), Some(95.0), Some(51.0)]);
}

#[test]
fn mutate_position_out_of_range_fails() {
    let ex = Executor::new();
    let op = MutateOp {
        assignments: vec![Assignment {
            column: AssignmentTarget::Position(7),
            expression: number("1"),
        }],
    };
    match ex.execute_mutate(people(), &op) {
        Err(DtransformError::InvalidOperation(m)) => {
            assert_eq!(m, "DataFrame has 3 columns, but $7 was specified")
        }
        _ => panic!("expected a failure"),
    }
}

#[test]
fn numeric_literals_scale_by_their_suffix() {
    let ex = Executor::new();
    let lit = Literal::Number(Number {
        negative: true,
        whole: "1".to_string(),
        fraction: "5".to_string(),
        scale: Scale::Thousand,
    });
    let s = ex.literal_to_series(&lit, 2).unwrap();
    let values: Vec<Option<f64>> = s.f64().unwrap().iter().collect();
    assert_eq!(values, vec![Some(-1500.0), Some(-1500.0)]);
    assert_eq!(s.name().as_str(), "literal");
}

#[test]
fn rename_applies_the_mappings_in_turn() {
    let ex = Executor::new();
    let op = RenameOp {
        mappings: vec![
            (ColumnRef::Name("name".to_string()), "who".to_string()),
            (ColumnRef::Name("who".to_string()), "person".to_string()),
            (ColumnRef::Position(2), "years".to_string()),
        ],
    };
    let out = ex.execute_rename(people(), &op).unwrap();
    assert_eq!(names(&out), vec!["person", "years", "city"]);
}

#[test]
fn rename_to_an_existing_name_fails() {
    let ex = Executor::new();
    let op = RenameOp { mappings: vec![(ColumnRef::Name("name".to_string()), "age".to_string())] };
    assert!(matches!(ex.execute_rename(people(), &op), Err(DtransformError::PolarsError(_))));
    let op = RenameOp { mappings: vec![(ColumnRef::Position(0), "x".to_string())] };
    match ex.execute_rename(people(), &op) {
        Err(DtransformError::InvalidOperation(m)) => {
            assert_eq!(m, "Positional columns start at $1, not $0")
        }
        _ => panic!("expected a failure"),
    }
}

#[test]
fn rename_all_replaces_in_every_name() {
    let ex = Executor::new();
    let op = RenameAllOp {
        strategy: RenameStrategy::Replace { old: "a".to_string(), new: "A".to_string() },
    };
    let out = ex.execute_rename_all(people(), &op).unwrap();
    assert_eq!(names(&out), vec!["nAme", "Age", "city"]);
}

#[test]
fn rename_all_sequential_needs_a_range_of_the_table_width() {
    let ex = Executor::new();
    let op = RenameAllOp {
        strategy: RenameStrategy::Sequential { prefix: "col".to_string(), start: 5, end: 7 },
    };
    let out = ex.execute_rename_all(people(), &op).unwrap();
    assert_eq!(names(&out), vec!["col5", "col6", "col7"]);
    let op = RenameAllOp {
        strategy: RenameStrategy::Sequential { prefix: "col".to_string(), start: 1, end: 2 },
    };
    match ex.execute_rename_all(people(), &op) {
        Err(DtransformError::InvalidOperation(m)) => assert_eq!(
            m,
            "Range 1..2 (2 columns) doesn't match table width (3 columns). Use select() first."
        ),
        _ => panic!("expected a failure"),
    }
}

#[test]
fn sort_orders_by_several_keys() {
    let ex = Executor::new();
    let op = SortOp {
        columns: vec![
            (ColumnRef::Name("age".to_string()), false),
            (ColumnRef::Name("name".to_string()), true),
        ],
    };
    let out = ex.execute_sort(people(), &op).unwrap();
    assert_eq!(
        strings(&out, "name"),
        vec![
            Some("Dee".to_string()),
            Some("Bob".to_string()),
            Some("Ann".to_string()),
            Some("Cy".to_string())
        ]
    );
}

#[test]
fn drop_removes_the_selected_columns() {
    let ex = Executor::new();
    let op = DropOp { columns: vec![ColumnSelector::Name("age".to_string())] };
    let out = ex.execute_drop(people(), &op).unwrap();
    assert_eq!(names(&out), vec!["name", "city"]);
}

#[test]
fn drop_of_a_name_selected_twice_fails_at_the_second_removal() {
    let ex = Executor::new();
    let op = DropOp {
        columns: vec![ColumnSelector::Name("age".to_string()), ColumnSelector::Index(1)],
    };
    assert!(matches!(ex.execute_drop(people(), &op), Err(DtransformError::PolarsError(_))));
}

#[test]
fn distinct_twice_is_distinct_once() {
    let ex = Executor::new();
    let op = DistinctOp { columns: Some(vec![ColumnSelector::Name("city".to_string())]) };
    let once = ex.execute_distinct(people(), &op).unwrap();
    assert_eq!(once.height(), 2);
    let twice = ex.execute_distinct(once.clone(), &op).unwrap();
    let by_city = SortOp { columns: vec![(ColumnRef::Name("city".to_string()), false)] };
    let a = ex.execute_sort(once, &by_city).unwrap();
    let b = ex.execute_sort(twice, &by_city).unwrap();
    assert!(a.equals(&b));
    let all = DistinctOp { columns: None };
    let df = DataFrame::new(3, vec![Column::new("k".into(), ["x", "x", "y"])]).unwrap();
    let once = ex.execute_distinct(df, &all).unwrap();
    assert_eq!(once.height(), 2);
    let twice = ex.execute_distinct(once.clone(), &all).unwrap();
    assert_eq!(twice.height(), 2);
}

#[test]
fn lookup_finds_values_by_key_and_gives_null_for_a_miss() {
    let mut ex = Executor::new();
    let table = DataFrame::new(
        2,
        vec![Column::new("id".into(), ["a", "b"]), Column::new("name".into(), ["Alice", "Bob"])],
    )
    .unwrap();
    ex.set_variable("people".to_string(), table);
    let df = DataFrame::new(2, vec![Column::new("key".into(), ["a", "c"])]).unwrap();
    let expr = Expression::Lookup {
        table: "people".to_string(),
        key: Box::new(column("key")),
        on: LookupField::Name("id".to_string()),
        return_field: LookupField::Name("name".to_string()),
    };
    let out = ex.evaluate_expression(&expr, &df).unwrap();
    let values: Vec<Option<&str>> = out.str().unwrap().iter().collect();
    assert_eq!(values, vec![Some("Alice"), None]);
    assert_eq!(out.name().as_str(), "name");
}

#[test]
fn lookup_takes_the_later_row_of_a_duplicate_key_and_returns_numbers_as_floats() {
    let mut ex = Executor::new();
    let table = DataFrame::new(
        3,
        vec![Column::new("id".into(), ["a", "b", "a"]), Column::new("n".into(), [1i64, 2, 3])],
    )
    .unwrap();
    ex.set_variable("t".to_string(), table);
    let df = DataFrame::new(3, vec![Column::new("key".into(), ["a", "b", "z"])]).unwrap();
    let expr = Expression::Lookup {
        table: "t".to_string(),
        key: Box::new(column("key")),
        on: LookupField::Position(1),
        return_field: LookupField::Position(2),
    };
    let out = ex.evaluate_expression(&expr, &df).unwrap();
    let values: Vec<Option<f64>> = out.f64().unwrap().iter().collect();
    assert_eq!(values, vec![Some(3.0), Some(2.0), None]);
}

#[test]
fn lookup_failures_name_the_table_and_the_field() {
    let mut ex = Executor::new();
    let table = DataFrame::new(1, vec![Column::new("id".into(), ["a"])]).unwrap();
    ex.set_variable("t".to_string(), table);
    let df = DataFrame::new(1, vec![Column::new("key".into(), ["a"])]).unwrap();
    let missing = Expression::Lookup {
        table: "nope".to_string(),
        key: Box::new(column("key")),
        on: LookupField::Name("id".to_string()),
        return_field: LookupField::Name("id".to_string()),
    };
    assert!(matches!(
        ex.evaluate_expression(&missing, &df),
        Err(DtransformError::VariableNotFound(n)) if n == "nope"
    ));
    let position = Expression::Lookup {
        table: "t".to_string(),
        key: Box::new(column("key")),
        on: LookupField::Position(3),
        return_field: LookupField::Name("id".to_string()),
    };
    match ex.evaluate_expression(&position, &df) {
        Err(DtransformError::InvalidOperation(m)) => {
            assert_eq!(m, "Lookup table 't' has 1 columns, but on=$3 was specified")
        }
        _ => panic!("expected a failure"),
    }
    let field = Expression::Lookup {
        table: "t".to_string(),
        key: Box::new(column("key")),
        on: LookupField::Name("id".to_string()),
        return_field: LookupField::Name("value".to_string()),
    };
    match ex.evaluate_expression(&field, &df) {
        Err(DtransformError::ColumnNotFound(m)) => assert_eq!(
            m,
            "Lookup table 't' does not have column 'value' (specified in return=)"
        ),
        _ => panic!("expected a failure"),
    }
}

#[test]
fn split_returns_the_part_or_null() {
    let ex = Executor::new();
    let df = DataFrame::new(3, vec![Column::new("t".into(), ["a:b:c", "x", "p:q"])]).unwrap();
    let expr = Expression::Split {
        string: Box::new(column("t")),
        delimiter: Box::new(text(":")),
        index: 1,
    };
    let out = ex.evaluate_expression(&expr, &df).unwrap();
    let values: Vec<Option<&str>> = out.str().unwrap().iter().collect();
    assert_eq!(values, vec![Some("b"), None, Some("q")]);
    assert_eq!(out.name().as_str(), "split");
}

#[test]
fn replace_with_a_literal_and_with_a_pattern() {
    let ex = Executor::new();
    let df = DataFrame::new(2, vec![Column::new("t".into(), ["a-b-c", "x1y22"])]).unwrap();
    let literal = Expression::Replace {
        text: Box::new(column("t")),
        old: Box::new(text("-")),
        new: Box::new(text("+")),
    };
    let out = ex.evaluate_expression(&literal, &df).unwrap();
    let values: Vec<Option<&str>> = out.str().unwrap().iter().collect();
    assert_eq!(values, vec![Some("a+b+c"), Some("x1y22")]);
    let pattern = Expression::Replace {
        text: Box::new(column("t")),
        old: Box::new(Expression::Regex("[0-9]+".to_string())),
        new: Box::new(text("#")),
    };
    let out = ex.evaluate_expression(&pattern, &df).unwrap();
    let values: Vec<Option<&str>> = out.str().unwrap().iter().collect();
    assert_eq!(values, vec![Some("a-b-c"), Some("x#y#")]);
    let broken = Expression::Replace {
        text: Box::new(column("t")),
        old: Box::new(Expression::Regex("(".to_string())),
        new: Box::new(text("#")),
    };
    match ex.evaluate_expression(&broken, &df) {
        Err(DtransformError::InvalidOperation(m)) => {
            assert!(m.starts_with("Invalid regex pattern '(': "))
        }
        _ => panic!("expected a failure"),
    }
}

#[test]
fn a_pattern_literal_alone_and_a_method_call_fail() {
    let ex = Executor::new();
    let df = people();
    match ex.evaluate_expression(&Expression::Regex("a+".to_string()), &df) {
        Err(DtransformError::InvalidOperation(m)) => assert_eq!(
            m,
            "Regex pattern 'a+' cannot be used directly. Use it with replace() function."
        ),
        _ => panic!("expected a failure"),
    }
    let call = Expression::MethodCall {
        object: Box::new(column("name")),
        method: "lower".to_string(),
        args: vec![],
    };
    match ex.evaluate_expression(&call, &df) {
        Err(DtransformError::InvalidOperation(m)) => assert_eq!(
            m,
            "Method 'lower' is not supported. Use function-based operations instead.\nExample: mutate(clean = replace(text, 'old', 'new'))"
        ),
        _ => panic!("expected a failure"),
    }
}

#[test]
fn a_variable_comes_before_a_column_of_the_same_name() {
    let mut ex = Executor::new();
    let stored = DataFrame::new(1, vec![Column::new("first".into(), ["v"])]).unwrap();
    ex.set_variable("name".to_string(), stored);
    let out = ex.evaluate_expression(&column("name"), &people()).unwrap();
    assert_eq!(out.name().as_str(), "first");
    assert_eq!(out.len(), 1);
    let out = ex.evaluate_expression(&column("age"), &people()).unwrap();
    assert_eq!(out.len(), 4);
    assert!(matches!(
        ex.evaluate_expression(&column("missing"), &people()),
        Err(DtransformError::ColumnNotFound(n)) if n == "missing"
    ));
    assert!(matches!(
        ex.evaluate_expression(&Expression::Variable("nope".to_string()), &people()),
        Err(DtransformError::VariableNotFound(n)) if n == "nope"
    ));
}

#[test]
fn plus_joins_strings_and_in_tests_membership() {
    let ex = Executor::new();
    let joined = binary(column("name"), BinOp::Add, column("city"));
    let out = ex.evaluate_expression(&joined, &people()).unwrap();
    let values: Vec<Option<&str>> = out.str().unwrap().iter().collect();
    assert_eq!(values, vec![Some("AnnOslo"), Some("BobRome"), Some("CyOslo"), Some("DeeRome")]);
    let list = Expression::List(vec![
        Literal::String("Ann".to_string()),
        Literal::String("Dee".to_string()),
    ]);
    let member = binary(column("name"), BinOp::In, list);
    let out = ex.evaluate_expression(&member, &people()).unwrap();
    let values: Vec<Option<bool>> = out.bool().unwrap().iter().collect();
    assert_eq!(values, vec![Some(true), Some(false), Some(false), Some(true)]);
}

#[test]
fn in_compares_numbers_within_a_tolerance() {
    let ex = Executor::new();
    let list = Expression::List(vec![
        Literal::Number(Number {
            negative: false,
            whole: "25".to_string(),
            fraction: String::new(),
            scale: Scale::One,
        }),
        Literal::Number(Number {
            negative: false,
            whole: "47".to_string(),
            fraction: "0".to_string(),
            scale: Scale::One,
        }),
    ]);
    let member = binary(column("age"), BinOp::In, list);
    let out = ex.evaluate_expression(&member, &people()).unwrap();
    let values: Vec<Option<bool>> = out.bool().unwrap().iter().collect();
    assert_eq!(values, vec![Some(false), Some(true), Some(true), Some(true)]);
    let flags = DataFrame::new(1, vec![Column::new("b".into(), [true])]).unwrap();
    let wrong = binary(column("b"), BinOp::In, Expression::List(vec![Literal::Boolean(true)]));
    match ex.evaluate_expression(&wrong, &flags) {
        Err(DtransformError::TypeMismatch { expected, .. }) => {
            assert_eq!(expected, "String or Number")
        }
        _ => panic!("expected a failure"),
    }
}

#[test]
fn variables_are_stored_listed_and_removed() {
    let mut ex = Executor::new();
    assert!(ex.list_variables().is_empty());
    ex.set_variable("a".to_string(), people());
    ex.set_variable("b".to_string(), people().head(Some(1)));
    ex.set_variable("a".to_string(), people().head(Some(2)));
    let mut listed = ex.list_variables();
    listed.sort();
    assert_eq!(listed, vec!["a", "b"]);
    assert_eq!(ex.get_variable("a").unwrap().height(), 2);
    assert!(ex.get_variable("c").is_none());
    let snapshot = ex.get_all_variables();
    ex.remove_variable("a");
    assert!(ex.get_variable("a").is_none());
    ex.restore_variables(snapshot);
    assert_eq!(ex.get_variable("a").unwrap().height(), 2);
    assert_eq!(ex.get_variable("b").unwrap().height(), 1);
}

fn numbers() -> DataFrame {
    DataFrame::new(
        3,
        vec![
            Column::new("a".into(), [6i64, 2, 9]),
            Column::new("b".into(), [3i64, 2, 12]),
            Column::new("yes".into(), [true, false, true]),
            Column::new("no".into(), [false, false, true]),
        ],
    )
    .unwrap()
}

fn bools(ex: &Executor, expr: &Expression) -> Vec<Option<bool>> {
    ex.evaluate_expression(expr, &numbers()).unwrap().bool().unwrap().iter().collect()
}

fn values(ex: &Executor, expr: &Expression) -> Vec<Option<f64>> {
    let s = ex.evaluate_expression(expr, &numbers()).unwrap();
    let cast = s.cast(&polars::prelude::DataType::Float64).unwrap();
    cast.f64().unwrap().iter().collect()
}

#[test]
fn arithmetic_goes_row_by_row() {
    let ex = Executor::new();
    assert_eq!(
        values(&ex, &binary(column("a"), BinOp::Add, column("b"))),
        vec![Some(9.0), Some(4.0), Some(21.0)]
    );
    assert_eq!(
        values(&ex, &binary(column("a"), BinOp::Sub, column("b"))),
        vec![Some(3.0), Some(0.0), Some(-3.0)]
    );
    assert_eq!(
        values(&ex, &binary(column("a"), BinOp::Mul, column("b"))),
        vec![Some(18.0), Some(4.0), Some(108.0)]
    );
    assert_eq!(
        values(&ex, &binary(column("a"), BinOp::Div, number("2"))),
        vec![Some(3.0), Some(1.0), Some(4.5)]
    );
}

#[test]
fn comparisons_give_booleans() {
    let ex = Executor::new();
    let cases = [
        (BinOp::Gt, [true, false, false]),
        (BinOp::Lt, [false, false, true]),
        (BinOp::Gte, [true, true, false]),
        (BinOp::Lte, [false, true, true]),
        (BinOp::Eq, [false, true, false]),
        (BinOp::Neq, [true, false, true]),
    ];
    for (op, expected) in cases {
        let got = bools(&ex, &binary(column("a"), op, column("b")));
        assert_eq!(got, expected.iter().map(|b| Some(*b)).collect::<Vec<_>>(), "{:?}", op);
    }
}

#[test]
fn and_and_or_need_booleans() {
    let ex = Executor::new();
    assert_eq!(
        bools(&ex, &binary(column("yes"), BinOp::And, column("no"))),
        vec![Some(false), Some(false), Some(true)]
    );
    assert_eq!(
        bools(&ex, &binary(column("yes"), BinOp::Or, column("no"))),
        vec![Some(true), Some(false), Some(true)]
    );
    assert!(matches!(
        ex.evaluate_expression(&binary(column("a"), BinOp::And, column("yes")), &numbers()),
        Err(DtransformError::PolarsError(_))
    ));
}

#[test]
fn literals_fill_the_height_of_the_table() {
    let ex = Executor::new();
    let null = ex.evaluate_expression(&Expression::Literal(Literal::Null), &numbers()).unwrap();
    assert_eq!((null.len(), null.null_count()), (3, 3));
    let word = ex.evaluate_expression(&text("x"), &numbers()).unwrap();
    let rows: Vec<Option<&str>> = word.str().unwrap().iter().collect();
    assert_eq!(rows, vec![Some("x"), Some("x"), Some("x")]);
    let flag = ex
        .evaluate_expression(&Expression::Literal(Literal::Boolean(true)), &numbers())
        .unwrap();
    let rows: Vec<Option<bool>> = flag.bool().unwrap().iter().collect();
    assert_eq!(rows, vec![Some(true), Some(true), Some(true)]);
    let none = ex.evaluate_expression(&number("4"), &numbers().head(Some(0))).unwrap();
    assert_eq!(none.len(), 0);
}

#[test]
fn a_list_is_typed_by_its_first_element() {
    let ex = Executor::new();
    let empty = ex.evaluate_expression(&Expression::List(vec![]), &numbers()).unwrap();
    assert_eq!(empty.len(), 0);
    assert_eq!(empty.name().as_str(), "list");
    let mixed = Expression::List(vec![
        Literal::String("a".to_string()),
        Literal::Boolean(true),
        Literal::Null,
    ]);
    let s = ex.evaluate_expression(&mixed, &numbers()).unwrap();
    let rows: Vec<Option<&str>> = s.str().unwrap().iter().collect();
    assert_eq!(rows, vec![Some("a"), Some(""), Some("")]);
    let mixed = Expression::List(vec![
        Literal::Number(Number {
            negative: false,
            whole: "2".to_string(),
            fraction: "5".to_string(),
            scale: Scale::One,
        }),
        Literal::String("a".to_string()),
    ]);
    let s = ex.evaluate_expression(&mixed, &numbers()).unwrap();
    let rows: Vec<Option<f64>> = s.f64().unwrap().iter().collect();
    assert_eq!(rows, vec![Some(2.5), Some(0.0)]);
    let mixed = Expression::List(vec![Literal::Boolean(true), Literal::Null]);
    let s = ex.evaluate_expression(&mixed, &numbers()).unwrap();
    let rows: Vec<Option<bool>> = s.bool().unwrap().iter().collect();
    assert_eq!(rows, vec![Some(true), Some(false)]);
    let nulls = Expression::List(vec![Literal::Null, Literal::Null]);
    let s = ex.evaluate_expression(&nulls, &numbers()).unwrap();
    assert_eq!((s.len(), s.null_count()), (2, 2));
}

#[test]
fn a_lookup_skips_rows_without_a_value_and_rejects_other_types() {
    let mut ex = Executor::new();
    let table = DataFrame::new(
        3,
        vec![
            Column::new("id".into(), [Some("a"), Some("a"), None]),
            Column::new("v".into(), [Some("first"), None, Some("lost")]),
            Column::new("flag".into(), [true, false, true]),
        ],
    )
    .unwrap();
    ex.set_variable("t".to_string(), table);
    let df = DataFrame::new(2, vec![Column::new("key".into(), [Some("a"), None])]).unwrap();
    let lookup = |on: &str, ret: &str, key: Expression| Expression::Lookup {
        table: "t".to_string(),
        key: Box::new(key),
        on: LookupField::Name(on.to_string()),
        return_field: LookupField::Name(ret.to_string()),
    };
    let out = ex.evaluate_expression(&lookup("id", "v", column("key")), &df).unwrap();
    let rows: Vec<Option<&str>> = out.str().unwrap().iter().collect();
    assert_eq!(rows, vec![Some("first"), None]);
    match ex.evaluate_expression(&lookup("id", "flag", column("key")), &df) {
        Err(DtransformError::InvalidOperation(m)) => {
            assert_eq!(m, "Unsupported lookup type combination: key=String, value=Boolean")
        }
        _ => panic!("expected a failure"),
    }
    match ex.evaluate_expression(&lookup("id", "v", number("1")), &df) {
        Err(DtransformError::TypeMismatch { expected, got }) => {
            assert_eq!((expected.as_str(), got.as_str()), ("String", "Float64"))
        }
        _ => panic!("expected a failure"),
    }
}

#[test]
fn split_and_replace_check_their_operands() {
    let ex = Executor::new();
    let df = numbers();
    let split = |string: Expression, delimiter: Expression| Expression::Split {
        string: Box::new(string),
        delimiter: Box::new(delimiter),
        index: 0,
    };
    let message = |r: Result<polars::prelude::Series, DtransformError>| match r {
        Err(DtransformError::InvalidOperation(m)) => m,
        _ => panic!("expected a failure"),
    };
    assert_eq!(
        message(ex.evaluate_expression(&split(text("a"), number("1")), &df)),
        "Delimiter must be a string"
    );
    assert_eq!(
        message(ex.evaluate_expression(&split(column("a"), text(":")), &df)),
        "Split can only be applied to string columns"
    );
    assert_eq!(
        message(ex.evaluate_expression(&split(text("a"), text(":")), &df.head(Some(0)))),
        "Delimiter is null"
    );
    let replace = |t: Expression, old: Expression, new: Expression| Expression::Replace {
        text: Box::new(t),
        old: Box::new(old),
        new: Box::new(new),
    };
    assert_eq!(
        message(ex.evaluate_expression(&replace(column("a"), text("x"), text("y")), &df)),
        "replace() can only be applied to string columns"
    );
    assert_eq!(
        message(ex.evaluate_expression(&replace(text("a"), text("x"), number("1")), &df)),
        "Replacement text must be a string"
    );
    assert_eq!(
        message(ex.evaluate_expression(&replace(text("a"), number("1"), text("y")), &df)),
        "Pattern must be a string"
    );
}

#[test]
fn a_filter_by_a_boolean_column_or_literal_succeeds() {
    let ex = Executor::new();
    let by_column = FilterOp { condition: column("yes") };
    let out = ex.execute_filter(numbers(), &by_column).unwrap();
    assert_eq!(floats(&out, "a"), vec![Some(6.0), Some(9.0)]);
    let by_position = FilterOp { condition: Expression::Column(ColumnRef::Position(4)) };
    let out = ex.execute_filter(numbers(), &by_position).unwrap();
    assert_eq!(floats(&out, "a"), vec![Some(9.0)]);
    let all = FilterOp { condition: Expression::Literal(Literal::Boolean(true)) };
    assert_eq!(ex.execute_filter(numbers(), &all).unwrap().height(), 3);
    let none = FilterOp { condition: Expression::Literal(Literal::Boolean(false)) };
    let out = ex.execute_filter(numbers(), &none).unwrap();
    assert_eq!(out.height(), 0);
    assert_eq!(names(&out), vec!["a", "b", "yes", "no"]);
    let not_a_mask = FilterOp { condition: column("a") };
    assert!(matches!(
        ex.execute_filter(numbers(), &not_a_mask),
        Err(DtransformError::PolarsError(_))
    ));
}

#[test]
fn a_mutate_without_assignments_or_with_plain_ones_succeeds() {
    let ex = Executor::new();
    let nothing = MutateOp { assignments: vec![] };
    assert!(ex.execute_mutate(numbers(), &nothing).unwrap().equals(&numbers()));
    let plain = MutateOp {
        assignments: vec![
            Assignment { column: AssignmentTarget::Name("tag".to_string()), expression: text("x") },
            Assignment { column: AssignmentTarget::Position(1), expression: column("b") },
            Assignment {
                column: AssignmentTarget::Name("copy".to_string()),
                expression: column("tag"),
            },
            Assignment {
                column: AssignmentTarget::Name("void".to_string()),
                expression: Expression::Literal(Literal::Null),
            },
        ],
    };
    let out = ex.execute_mutate(numbers(), &plain).unwrap();
    assert_eq!(names(&out), vec!["a", "b", "yes", "no", "tag", "copy", "void"]);
    assert_eq!(floats(&out, "a"), vec![Some(3.0), Some(2.0), Some(12.0)]);
    assert_eq!(
        strings(&out, "copy"),
        vec![Some("x".to_string()), Some("x".to_string()), Some("x".to_string())]
    );
    assert_eq!(out.column("void").unwrap().null_count(), 3);
    let empty = DataFrame::empty();
    let first = MutateOp {
        assignments: vec![Assignment {
            column: AssignmentTarget::Name("flag".to_string()),
            expression: Expression::Literal(Literal::Boolean(true)),
        }],
    };
    let out = ex.execute_mutate(empty, &first).unwrap();
    assert_eq!(names(&out), vec!["flag"]);
    assert_eq!(out.height(), 0);
}

#[test]
fn in_finds_a_null_only_by_a_null() {
    let ex = Executor::new();
    let df = DataFrame::new(
        4,
        vec![
            Column::new("left".into(), [Some(1i64), None, Some(3), Some(4)]),
            Column::new("none".into(), [Some(3.0f64), Some(1.0), Some(1.0), Some(1.0)]),
        ],
    )
    .unwrap();
    let mut with_stored = Executor::new();
    with_stored.set_variable(
        "wanted".to_string(),
        DataFrame::new(2, vec![Column::new("w".into(), [None, Some(3.0f64)])]).unwrap(),
    );
    let member = binary(column("left"), BinOp::In, column("wanted"));
    let out = with_stored.evaluate_expression(&member, &df).unwrap();
    let rows: Vec<Option<bool>> = out.bool().unwrap().iter().collect();
    assert_eq!(rows, vec![Some(false), Some(true), Some(true), Some(false)]);
    let member = binary(column("left"), BinOp::In, column("none"));
    let out = ex.evaluate_expression(&member, &df).unwrap();
    let rows: Vec<Option<bool>> = out.bool().unwrap().iter().collect();
    assert_eq!(rows, vec![Some(true), Some(false), Some(true), Some(false)]);
    let nothing = binary(column("left"), BinOp::In, Expression::List(vec![]));
    let out = ex.evaluate_expression(&nothing, &df).unwrap();
    let rows: Vec<Option<bool>> = out.bool().unwrap().iter().collect();
    assert_eq!(rows, vec![Some(false), Some(false), Some(false), Some(false)]);
}

#[test]
fn and_and_or_need_lengths_that_fit() {
    let ex = Executor::new();
    let pair = Expression::List(vec![Literal::Boolean(true), Literal::Boolean(false)]);
    for op in [BinOp::And, BinOp::Or] {
        match ex.evaluate_expression(&binary(column("yes"), op, pair.clone()), &numbers()) {
            Err(DtransformError::InvalidOperation(m)) => assert_eq!(
                m,
                "Boolean operands must have the same number of rows, or one of them a single row"
            ),
            _ => panic!("expected a failure"),
        }
    }
    let one = Expression::List(vec![Literal::Boolean(true)]);
    assert_eq!(
        bools(&ex, &binary(column("yes"), BinOp::And, one.clone())),
        vec![Some(true), Some(false), Some(true)]
    );
    assert_eq!(
        bools(&ex, &binary(one, BinOp::Or, column("no"))),
        vec![Some(true), Some(true), Some(true)]
    );
}

#[test]
fn sort_keeps_the_order_of_rows_with_equal_keys() {
    let ex = Executor::new();
    let by_city = SortOp { columns: vec![(ColumnRef::Name("city".to_string()), false)] };
    let out = ex.execute_sort(people(), &by_city).unwrap();
    assert_eq!(
        strings(&out, "name"),
        vec![
            Some("Ann".to_string()),
            Some("Cy".to_string()),
            Some("Bob".to_string()),
            Some("Dee".to_string())
        ]
    );
    let by_city_down = SortOp { columns: vec![(ColumnRef::Name("city".to_string()), true)] };
    let out = ex.execute_sort(people(), &by_city_down).unwrap();
    assert_eq!(
        strings(&out, "name"),
        vec![
            Some("Bob".to_string()),
            Some("Dee".to_string()),
            Some("Ann".to_string()),
            Some("Cy".to_string())
        ]
    );
}

#[test]
fn sort_without_keys_leaves_the_table() {
    let ex = Executor::new();
    let out = ex.execute_sort(people(), &SortOp { columns: vec![] }).unwrap();
    assert!(out.equals(&people()));
}

#[test]
fn distinct_has_one_row_for_every_group() {
    let ex = Executor::new();
    let on_city = DistinctOp {
        columns: Some(vec![ColumnSelector::Name("city".to_string())]),
    };
    let out = ex.execute_distinct(people(), &on_city).unwrap();
    assert_eq!(out.height(), 2);
    let mut cities = strings(&out, "city");
    cities.sort();
    assert_eq!(cities, vec![Some("Oslo".to_string()), Some("Rome".to_string())]);
    let all = ex.execute_distinct(people(), &DistinctOp { columns: None }).unwrap();
    assert_eq!(all.height(), 4);
}

#[test]
fn a_number_column_of_any_width_is_a_number() {
    let ex = Executor::new();
    let df = DataFrame::new(
        2,
        vec![
            Column::new("small".into(), [1u32, 2]),
            Column::new("wide".into(), [1i64, 2]),
            Column::new("word".into(), ["a", "b"]),
        ],
    )
    .unwrap();
    let op = SelectOp {
        selectors: vec![(ColumnSelector::Type(vec![data_transform::ast::DataType::Number]), None)],
    };
    let out = ex.execute_select(df, &op).unwrap();
    assert_eq!(names(&out), vec!["small", "wide"]);
}
