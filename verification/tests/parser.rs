use data_transform::ast::{
    Assignment, AssignmentTarget, BinOp, ColumnRef, ColumnSelector, DataType, Expression,
    Literal, LookupField, Number, Operation, Pipeline, ReadOp, RenameStrategy, Scale, Source,
    Statement,
};
use data_transform::error::DtransformError;
use data_transform::parser::{parse, parse_bin_op, parse_number, parse_number_as_usize, parse_program};

fn pipeline(input: &str) -> Pipeline {
    match parse(input).unwrap() {
        Statement::Pipeline(p) => p,
        Statement::Assignment { .. } => panic!("expected a pipeline"),
    }
}

fn only_operation(input: &str) -> Operation {
    let mut p = pipeline(input);
    assert!(p.source.is_none());
    assert_eq!(p.operations.len(), 1);
    p.operations.remove(0)
}

fn filter_condition(input: &str) -> Expression {
    match only_operation(input) {
        Operation::Filter(f) => f.condition,
        _ => panic!("expected a filter"),
    }
}

fn parse_error(input: &str) -> String {
    match parse(input) {
        Err(DtransformError::ParseError(m)) => m,
        Err(_) => panic!("expected a parse error"),
        Ok(_) => panic!("expected a failure for {}", input),
    }
}

fn whole(text: &str) -> Number {
    Number { negative: false, whole: text.to_string(), fraction: String::new(), scale: Scale::One }
}

fn name(n: &str) -> Expression {
    Expression::Column(ColumnRef::Name(n.to_string()))
}

fn binary(left: Expression, op: BinOp, right: Expression) -> Expression {
    Expression::BinaryOp { left: Box::new(left), op, right: Box::new(right) }
}

#[test]
fn parse_bin_op_knows_every_operator() {
    let all = [
        ("+", BinOp::Add),
        ("-", BinOp::Sub),
        ("*", BinOp::Mul),
        ("/", BinOp::Div),
        (">", BinOp::Gt),
        ("<", BinOp::Lt),
        (">=", BinOp::Gte),
        ("<=", BinOp::Lte),
        ("==", BinOp::Eq),
        ("!=", BinOp::Neq),
        ("and", BinOp::And),
        ("or", BinOp::Or),
        ("in", BinOp::In),
    ];
    for (text, op) in all {
        assert_eq!(parse_bin_op(text).unwrap(), op);
    }
    match parse_bin_op("%") {
        Err(DtransformError::ParseError(m)) => assert_eq!(m, "Unknown operator: %"),
        _ => panic!("expected a failure"),
    }
}

#[test]
fn parse_number_as_usize_reads_counts() {
    assert_eq!(parse_number_as_usize("12").unwrap(), 12);
    assert_eq!(parse_number_as_usize("0").unwrap(), 0);
    assert_eq!(parse_number_as_usize("-0").unwrap(), 0);
    assert_eq!(parse_number_as_usize("2.0").unwrap(), 2);
    assert_eq!(parse_number_as_usize("1.5k").unwrap(), 1500);
    assert_eq!(parse_number_as_usize("2M").unwrap(), 2_000_000);
    assert_eq!(parse_number_as_usize("3b").unwrap(), 3_000_000_000);
    assert_eq!(parse_number_as_usize("0.001k").unwrap(), 1);
    assert_eq!(
        parse_number_as_usize("99999999999999999999999999999").unwrap(),
        usize::MAX
    );
    match parse_number_as_usize("2.5") {
        Err(DtransformError::ParseError(m)) => {
            assert_eq!(m, "Expected positive integer, got: 2.5")
        }
        _ => panic!("expected a failure"),
    }
    match parse_number_as_usize("-3") {
        Err(DtransformError::ParseError(m)) => {
            assert_eq!(m, "Expected positive integer, got: -3")
        }
        _ => panic!("expected a failure"),
    }
    match parse_number_as_usize("0.0001k") {
        Err(DtransformError::ParseError(m)) => {
            assert_eq!(m, "Expected positive integer, got: 0.0001k")
        }
        _ => panic!("expected a failure"),
    }
    match parse_number_as_usize("abc") {
        Err(DtransformError::ParseError(m)) => assert_eq!(m, "Invalid number: abc"),
        _ => panic!("expected a failure"),
    }
}

#[test]
fn parse_number_keeps_the_literal_as_written() {
    assert_eq!(
        parse_number("-12.50K").unwrap(),
        Number {
            negative: true,
            whole: "12".to_string(),
            fraction: "50".to_string(),
            scale: Scale::Thousand
        }
    );
    assert_eq!(parse_number("7").unwrap(), whole("7"));
    for bad in ["", "-", "1.", ".5", "1..2", "k", "1e5", "1kk", "+1"] {
        assert!(parse_number(bad).is_err(), "{} should not be a number", bad);
    }
}

#[test]
fn parse_hoists_the_read_into_the_source() {
    let p = pipeline("read('data.csv') | select($1, $2, $3) | filter(age > 25)");
    assert_eq!(
        p.source,
        Some(Source::Read(ReadOp {
            path: "data.csv".to_string(),
            format: None,
            delimiter: None,
            header: None,
            skip_rows: None,
            trim_whitespace: None,
        }))
    );
    assert_eq!(p.operations.len(), 2);
    match &p.operations[0] {
        Operation::Select(s) => assert_eq!(
            s.selectors,
            vec![
                (ColumnSelector::Index(0), None),
                (ColumnSelector::Index(1), None),
                (ColumnSelector::Index(2), None)
            ]
        ),
        _ => panic!("expected a select"),
    }
    match &p.operations[1] {
        Operation::Filter(f) => assert_eq!(
            f.condition,
            binary(name("age"), BinOp::Gt, Expression::Literal(Literal::Number(whole("25"))))
        ),
        _ => panic!("expected a filter"),
    }
}

#[test]
fn parse_hoists_a_leading_variable() {
    let p = pipeline("data | take(3)");
    assert_eq!(p.source, Some(Source::Variable("data".to_string())));
    assert_eq!(p.operations.len(), 1);
    let p = pipeline("  data  ");
    assert_eq!(p.source, Some(Source::Variable("data".to_string())));
    assert!(p.operations.is_empty());
    let p = pipeline("take(3) | data");
    assert!(p.source.is_none());
    assert_eq!(p.operations.len(), 2);
    assert_eq!(p.operations[1], Operation::Variable("data".to_string()));
}

#[test]
fn parse_reads_an_assignment() {
    match parse("x = read('a.tsv', delimiter='\\t', header=false, skip_rows=2, trim_whitespace=true, format='tsv', other=1)").unwrap() {
        Statement::Assignment { name, pipeline } => {
            assert_eq!(name, "x");
            assert_eq!(
                pipeline.source,
                Some(Source::Read(ReadOp {
                    path: "a.tsv".to_string(),
                    format: Some("tsv".to_string()),
                    delimiter: Some('\t'),
                    header: Some(false),
                    skip_rows: Some(2),
                    trim_whitespace: Some(true),
                }))
            );
            assert!(pipeline.operations.is_empty());
        }
        _ => panic!("expected an assignment"),
    }
}

#[test]
fn parse_rejects_a_skip_rows_that_is_no_number() {
    assert_eq!(parse_error("read('a.csv', skip_rows=two)"), "Invalid skip_rows value: two");
    assert_eq!(parse_error("read('a.csv', skip_rows=1.5)"), "Invalid skip_rows value: 1.5");
}

#[test]
fn parse_reads_a_write() {
    match pipeline("t | write(\"out.txt\", delimiter='|', header=true)").operations.remove(0) {
        Operation::Write(w) => {
            assert_eq!(w.path, "out.txt");
            assert_eq!(w.delimiter, Some('|'));
            assert_eq!(w.header, Some(true));
            assert_eq!(w.format, None);
        }
        _ => panic!("expected a write"),
    }
}

#[test]
fn positions_count_from_one() {
    assert_eq!(parse_error("select($0)"), "Positional columns start at $1, not $0");
    assert_eq!(parse_error("select($0..$3)"), "Positional ranges start at $1, not $0");
    assert_eq!(parse_error("select($2..$0)"), "Positional ranges start at $1, not $0");
    assert_eq!(parse_error("filter($0 > 1)"), "Positional columns start at $1, not $0");
    assert_eq!(parse_error("sort($0)"), "Positional columns start at $1, not $0");
    assert_eq!(parse_error("rename($0 -> a)"), "Positional columns start at $1, not $0");
    assert_eq!(
        parse_error("mutate($0 = 1)"),
        "Column positions must be 1-based (e.g., $1, $2, ...)"
    );
    assert_eq!(
        parse_error("mutate(x = lookup(t, k, on=$0, return=$1))"),
        "Column positions must be 1-based (e.g., $1, $2, ...)"
    );
    match only_operation("select($1, $4..$6)") {
        Operation::Select(s) => assert_eq!(
            s.selectors,
            vec![(ColumnSelector::Index(0), None), (ColumnSelector::Range(3, 5), None)]
        ),
        _ => panic!("expected a select"),
    }
}

#[test]
fn selectors_of_every_kind() {
    match only_operation(
        "select(name, re('^Sales_'), types(Number, String), except(types(Date)), total as sum, alias = $2)",
    ) {
        Operation::Select(s) => assert_eq!(
            s.selectors,
            vec![
                (ColumnSelector::Name("name".to_string()), None),
                (ColumnSelector::Regex("^Sales_".to_string()), None),
                (ColumnSelector::Type(vec![DataType::Number, DataType::String]), None),
                (
                    ColumnSelector::Except(Box::new(ColumnSelector::Type(vec![DataType::Date]))),
                    None
                ),
                (ColumnSelector::Name("total".to_string()), Some("sum".to_string())),
                (ColumnSelector::Index(1), Some("alias".to_string())),
            ]
        ),
        _ => panic!("expected a select"),
    }
    assert_eq!(parse_error("select(types(Text))"), "Invalid data type");
    match only_operation("drop(a, $2)") {
        Operation::Drop(d) => assert_eq!(
            d.columns,
            vec![ColumnSelector::Name("a".to_string()), ColumnSelector::Index(1)]
        ),
        _ => panic!("expected a drop"),
    }
    match only_operation("distinct()") {
        Operation::Distinct(d) => assert_eq!(d.columns, None),
        _ => panic!("expected a distinct"),
    }
    match only_operation("distinct(city)") {
        Operation::Distinct(d) => {
            assert_eq!(d.columns, Some(vec![ColumnSelector::Name("city".to_string())]))
        }
        _ => panic!("expected a distinct"),
    }
}

#[test]
fn operators_bind_by_precedence_and_from_the_left() {
    let one = || Expression::Literal(Literal::Number(whole("1")));
    let two = || Expression::Literal(Literal::Number(whole("2")));
    let three = || Expression::Literal(Literal::Number(whole("3")));
    assert_eq!(
        filter_condition("filter(1 + 2 * 3)"),
        binary(one(), BinOp::Add, binary(two(), BinOp::Mul, three()))
    );
    assert_eq!(
        filter_condition("filter(1 - 2 - 3)"),
        binary(binary(one(), BinOp::Sub, two()), BinOp::Sub, three())
    );
    assert_eq!(
        filter_condition("filter(a > 1 and b <= 2 or c != 3)"),
        binary(
            binary(
                binary(name("a"), BinOp::Gt, one()),
                BinOp::And,
                binary(name("b"), BinOp::Lte, two())
            ),
            BinOp::Or,
            binary(name("c"), BinOp::Neq, three())
        )
    );
    assert_eq!(
        filter_condition("filter(a/2>=1)"),
        binary(binary(name("a"), BinOp::Div, two()), BinOp::Gte, one())
    );
    assert_eq!(
        filter_condition("filter(a == -1.5k)"),
        binary(
            name("a"),
            BinOp::Eq,
            Expression::Literal(Literal::Number(Number {
                negative: true,
                whole: "1".to_string(),
                fraction: "5".to_string(),
                scale: Scale::Thousand
            }))
        )
    );
}

#[test]
fn literals_and_lists() {
    assert_eq!(
        filter_condition("filter(city in ['Oslo', \"Rome\", true, null, 2])"),
        binary(
            name("city"),
            BinOp::In,
            Expression::List(vec![
                Literal::String("Oslo".to_string()),
                Literal::String("Rome".to_string()),
                Literal::Boolean(true),
                Literal::Null,
                Literal::Number(whole("2")),
            ])
        )
    );
    assert_eq!(
        filter_condition("filter(x in [])"),
        binary(name("x"), BinOp::In, Expression::List(vec![]))
    );
    assert_eq!(
        filter_condition("filter(flag == false)"),
        binary(name("flag"), BinOp::Eq, Expression::Literal(Literal::Boolean(false)))
    );
    assert_eq!(
        filter_condition("filter($3 == null)"),
        binary(
            Expression::Column(ColumnRef::Position(3)),
            BinOp::Eq,
            Expression::Literal(Literal::Null)
        )
    );
}

#[test]
fn strings_are_unescaped() {
    assert_eq!(
        filter_condition("filter(a == 'x\\ty\\n\\'z\\' \\\"q\\\" \\\\')"),
        binary(
            name("a"),
            BinOp::Eq,
            Expression::Literal(Literal::String("x\ty\n'z' \"q\" \\".to_string()))
        )
    );
}

#[test]
fn calls_of_the_expression_language() {
    match only_operation("mutate(part = split(text, ':')[1], 2 = replace(t, re('[0-9]+'), ''), $3 = lookup(people, key, on='id', return=$2))") {
        Operation::Mutate(m) => assert_eq!(
            m.assignments,
            vec![
                Assignment {
                    column: AssignmentTarget::Name("part".to_string()),
                    expression: Expression::Split {
                        string: Box::new(name("text")),
                        delimiter: Box::new(Expression::Literal(Literal::String(":".to_string()))),
                        index: 1,
                    },
                },
                Assignment {
                    column: AssignmentTarget::Name("col_2".to_string()),
                    expression: Expression::Replace {
                        text: Box::new(name("t")),
                        old: Box::new(Expression::Regex("[0-9]+".to_string())),
                        new: Box::new(Expression::Literal(Literal::String(String::new()))),
                    },
                },
                Assignment {
                    column: AssignmentTarget::Position(3),
                    expression: Expression::Lookup {
                        table: "people".to_string(),
                        key: Box::new(name("key")),
                        on: LookupField::Name("id".to_string()),
                        return_field: LookupField::Position(2),
                    },
                },
            ]
        ),
        _ => panic!("expected a mutate"),
    }
    assert_eq!(
        parse_error("mutate(x = split(text, ':'))"),
        "split() must be followed by [index]. Example: split(text, ':')[0]"
    );
    assert_eq!(
        parse_error("mutate(x = split(text, ':')[1.5])"),
        "Expected positive integer, got: 1.5"
    );
}

#[test]
fn method_calls_are_kept_for_their_error() {
    assert_eq!(
        filter_condition("filter(email.lower().trim(1, a) == 'x')"),
        binary(
            Expression::MethodCall {
                object: Box::new(Expression::MethodCall {
                    object: Box::new(name("email")),
                    method: "lower".to_string(),
                    args: vec![],
                }),
                method: "trim".to_string(),
                args: vec![Expression::Literal(Literal::Number(whole("1"))), name("a")],
            },
            BinOp::Eq,
            Expression::Literal(Literal::String("x".to_string()))
        )
    );
}

#[test]
fn the_other_operations() {
    match only_operation("rename(old -> new, $2 -> 'second name')") {
        Operation::Rename(r) => assert_eq!(
            r.mappings,
            vec![
                (ColumnRef::Name("old".to_string()), "new".to_string()),
                (ColumnRef::Position(2), "second name".to_string())
            ]
        ),
        _ => panic!("expected a rename"),
    }
    match only_operation("rename_all(replace('_', ' '))") {
        Operation::RenameAll(r) => assert_eq!(
            r.strategy,
            RenameStrategy::Replace { old: "_".to_string(), new: " ".to_string() }
        ),
        _ => panic!("expected a rename_all"),
    }
    match only_operation("rename_all(sequential('c', 1, 3))") {
        Operation::RenameAll(r) => assert_eq!(
            r.strategy,
            RenameStrategy::Sequential { prefix: "c".to_string(), start: 1, end: 3 }
        ),
        _ => panic!("expected a rename_all"),
    }
    match only_operation("sort(age desc, $1, name asc)") {
        Operation::Sort(s) => assert_eq!(
            s.columns,
            vec![
                (ColumnRef::Name("age".to_string()), true),
                (ColumnRef::Position(1), false),
                (ColumnRef::Name("name".to_string()), false)
            ]
        ),
        _ => panic!("expected a sort"),
    }
    match only_operation("take(1k)") {
        Operation::Take(t) => assert_eq!(t.n, 1000),
        _ => panic!("expected a take"),
    }
    match only_operation("skip( 5 )") {
        Operation::Skip(s) => assert_eq!(s.n, 5),
        _ => panic!("expected a skip"),
    }
    match only_operation("slice(2,10)") {
        Operation::Slice(s) => assert_eq!((s.start, s.end), (2, 10)),
        _ => panic!("expected a slice"),
    }
    assert_eq!(parse_error("take(-1)"), "Expected positive integer, got: -1");
}

#[test]
fn syntax_errors_say_where() {
    assert_eq!(parse_error(""), "Expected a statement at position 0");
    assert_eq!(parse_error("   | take(1)"), "Expected a statement at position 3");
    assert_eq!(parse_error("take(1) extra"), "Unexpected input at position 8");
    assert_eq!(parse_error("frobnicate(1)"), "Expected a statement at position 0");
    assert_eq!(parse_error("take(1) |"), "Expected a statement at position 0");
    assert_eq!(parse_error("x = "), "Expected a statement at position 0");
    assert_eq!(parse_error("filter(a >)"), "Expected a statement at position 0");
}

#[test]
fn a_program_is_a_list_of_statements() {
    let program = parse_program(
        "people = read('people.csv')\nadults = people | filter(age >= 18);\n\nadults | select(name) |\n  take(5)\n",
    )
    .unwrap();
    assert_eq!(program.statements.len(), 3);
    assert!(matches!(&program.statements[0], Statement::Assignment { name, .. } if name == "people"));
    match &program.statements[1] {
        Statement::Assignment { name, pipeline } => {
            assert_eq!(name, "adults");
            assert_eq!(pipeline.source, Some(Source::Variable("people".to_string())));
            assert_eq!(pipeline.operations.len(), 1);
        }
        _ => panic!("expected an assignment"),
    }
    match &program.statements[2] {
        Statement::Pipeline(p) => {
            assert_eq!(p.source, Some(Source::Variable("adults".to_string())));
            assert_eq!(p.operations.len(), 2);
        }
        _ => panic!("expected a pipeline"),
    }
    assert!(parse_program("").unwrap().statements.is_empty());
    assert!(parse_program(" ;\n ").unwrap().statements.is_empty());
    match parse_program("x = read('a')\n?") {
        Err(DtransformError::ParseError(m)) => assert_eq!(m, "Expected a statement at position 14"),
        _ => panic!("expected a failure"),
    }
    match parse_program("data | select($0)") {
        Err(DtransformError::ParseError(m)) => {
            assert_eq!(m, "Positional columns start at $1, not $0")
        }
        _ => panic!("expected a failure"),
    }
}
