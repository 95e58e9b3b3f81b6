use data_transform::error::DtransformError;
use data_transform::executor::run::Reply;
use data_transform::repl::{describe_statement, parse_command, Batch, Command, Reaction, Repl};
use polars::prelude::DataFrame;

const PEOPLE: &str = "name,age,city\nAnn,31,Oslo\nBob,25,Rome\nCy,47,Oslo\nDee,25,Rome\n";

fn finish(repl: &mut Repl, first: Result<Reaction, DtransformError>) -> Reaction {
    let mut reaction = first.unwrap();
    loop {
        match reaction {
            Reaction::Read(path) => {
                assert_eq!(path, "people.csv");
                reaction = repl.resume(Reply::Bytes(PEOPLE.as_bytes().to_vec())).unwrap();
            }
            Reaction::Write(_, _) => {
                reaction = repl.resume(Reply::Written).unwrap();
            }
            other => return other,
        }
    }
}

fn run(repl: &mut Repl, input: &str) -> Reaction {
    let first = repl.handle_input(input);
    finish(repl, first)
}

fn table(reaction: Reaction) -> DataFrame {
    match reaction {
        Reaction::Table(df) => df,
        Reaction::Stored(_, df) => df,
        _ => panic!("expected a table"),
    }
}

fn variables(repl: &Repl) -> Vec<(String, usize, usize)> {
    let mut shapes = repl.show_variables();
    shapes.sort();
    shapes
}

#[test]
fn undo_restores_the_table_and_the_variables_and_a_new_statement_discards_the_redo_branch() {
    let mut repl = Repl::new();
    let first = table(run(&mut repl, "x = read('people.csv')"));
    assert_eq!(first.shape(), (4, 3));
    let vars_after_first = variables(&repl);
    assert_eq!(vars_after_first, vec![("x".to_string(), 4, 3)]);

    let second = table(run(&mut repl, "y = x | filter(age > 30)"));
    assert_eq!(second.shape(), (2, 3));
    let third = table(run(&mut repl, "select(name, city)"));
    assert_eq!(third.shape(), (2, 2));
    let fourth = table(run(&mut repl, "z = y | sort(name desc)"));
    assert_eq!(fourth.shape(), (2, 3));
    assert_eq!(
        variables(&repl),
        vec![
            ("_".to_string(), 2, 3),
            ("x".to_string(), 4, 3),
            ("y".to_string(), 2, 3),
            ("z".to_string(), 2, 3)
        ]
    );

    // three steps back is the state after the first statement
    assert!(matches!(repl.handle_input(".undo 3"), Ok(Reaction::Undone(3))));
    assert!(repl.current().unwrap().equals(&first));
    assert_eq!(variables(&repl), vars_after_first);

    // forward again, then two steps back: the state after the second
    assert!(matches!(repl.handle_input(".redo 3"), Ok(Reaction::Redone(3))));
    assert!(repl.current().unwrap().equals(&fourth));
    assert!(matches!(repl.handle_input(".undo 2"), Ok(Reaction::Undone(2))));
    assert!(repl.current().unwrap().equals(&second));
    assert_eq!(variables(&repl), vec![("x".to_string(), 4, 3), ("y".to_string(), 2, 3)]);

    // a new statement discards the two undone entries for good
    let fresh = table(run(&mut repl, "take(1)"));
    assert_eq!(fresh.shape(), (1, 3));
    match repl.handle_input(".redo") {
        Err(DtransformError::InvalidOperation(m)) => assert_eq!(m, "No more history to redo"),
        _ => panic!("expected a failure"),
    }
    let history = repl.show_history();
    assert_eq!(
        history,
        vec![
            ("x = ...".to_string(), false),
            ("y = ...".to_string(), false),
            ("1 operation(s)".to_string(), true)
        ]
    );
}

#[test]
fn undo_and_redo_stop_at_the_ends_of_the_timeline() {
    let mut repl = Repl::new();
    match repl.handle_input(".undo") {
        Err(DtransformError::InvalidOperation(m)) => assert_eq!(m, "No more history to undo"),
        _ => panic!("expected a failure"),
    }
    run(&mut repl, "x = read('people.csv')");
    run(&mut repl, "take(2)");
    assert!(matches!(repl.handle_input(".undo 9"), Ok(Reaction::Undone(2))));
    assert!(repl.current().is_none());
    assert!(variables(&repl).is_empty());
    assert!(matches!(repl.handle_input(".redo notanumber"), Ok(Reaction::Redone(1))));
    assert_eq!(repl.current().unwrap().shape(), (4, 3));
    assert!(matches!(repl.handle_input(".redo 5"), Ok(Reaction::Redone(1))));
    assert_eq!(repl.current().unwrap().shape(), (2, 3));
}

#[test]
fn the_timeline_keeps_ten_snapshots() {
    let mut repl = Repl::new();
    run(&mut repl, "x = read('people.csv')");
    for _ in 0..14 {
        run(&mut repl, "x | take(3)");
    }
    assert_eq!(repl.show_history().len(), 10);
    assert!(matches!(repl.handle_input(".undo 50"), Ok(Reaction::Undone(10))));
    assert!(repl.current().is_none());
}

#[test]
fn a_failed_statement_leaves_the_session_as_it_was() {
    let mut repl = Repl::new();
    run(&mut repl, "x = read('people.csv')");
    run(&mut repl, "x | take(2)");
    let before = variables(&repl);
    assert!(matches!(
        repl.handle_input("select(nothing)"),
        Err(DtransformError::ColumnNotFound(n)) if n == "nothing"
    ));
    assert!(matches!(repl.handle_input("x | filter("), Err(DtransformError::ParseError(_))));
    assert!(matches!(
        repl.handle_input("missing | take(1)"),
        Err(DtransformError::VariableNotFound(n)) if n == "missing"
    ));
    assert_eq!(variables(&repl), before);
    assert_eq!(repl.show_history().len(), 2);
    assert_eq!(repl.current().unwrap().shape(), (2, 3));

    let first = repl.handle_input("y = read('other.csv')").unwrap();
    assert!(matches!(first, Reaction::Read(ref p) if p == "other.csv"));
    match repl.resume(Reply::Failed("No such file".to_string())) {
        Err(DtransformError::IoError(m)) => assert_eq!(m, "No such file"),
        _ => panic!("expected a failure"),
    }
    assert_eq!(variables(&repl), before);
    assert_eq!(repl.show_history().len(), 2);
}

#[test]
fn a_pipeline_without_a_source_needs_an_active_table() {
    let mut repl = Repl::new();
    match repl.handle_input("take(1)") {
        Err(DtransformError::InvalidOperation(m)) => {
            assert_eq!(m, "Pipeline must start with a data source (read() or variable)")
        }
        _ => panic!("expected a failure"),
    }
}

#[test]
fn clear_resets_the_session() {
    let mut repl = Repl::new();
    run(&mut repl, "x = read('people.csv')");
    assert!(matches!(repl.handle_input(".clear"), Ok(Reaction::Cleared)));
    assert!(repl.current().is_none());
    assert!(repl.show_history().is_empty());
    assert!(variables(&repl).is_empty());
}

#[test]
fn the_dot_commands_are_told_apart() {
    assert!(matches!(parse_command(".help"), Command::Help));
    assert!(matches!(parse_command(".exit"), Command::Exit));
    assert!(matches!(parse_command(".quit  "), Command::Exit));
    assert!(matches!(parse_command(".schema"), Command::Schema));
    assert!(matches!(parse_command(".undo"), Command::Undo(1)));
    assert!(matches!(parse_command(".undo 3"), Command::Undo(3)));
    assert!(matches!(parse_command(".undo\t+4 5"), Command::Undo(4)));
    assert!(matches!(parse_command(".undo -1"), Command::Undo(1)));
    assert!(matches!(parse_command(".redo 2"), Command::Redo(2)));
    assert!(matches!(parse_command(".history"), Command::History));
    assert!(matches!(parse_command(".vars"), Command::Variables));
    assert!(matches!(parse_command(".variables"), Command::Variables));
    assert!(matches!(parse_command(".clear"), Command::Clear));
    assert!(matches!(parse_command(".nope 1"), Command::Unknown(w) if w == ".nope"));
    let mut repl = Repl::new();
    assert!(matches!(repl.handle_input(".help"), Ok(Reaction::Help)));
    assert!(matches!(repl.handle_input(".exit"), Ok(Reaction::Exit)));
    assert!(matches!(repl.handle_input(".schema"), Ok(Reaction::Schema)));
    assert!(matches!(repl.handle_input(".history"), Ok(Reaction::History)));
    assert!(matches!(repl.handle_input(".vars"), Ok(Reaction::Variables)));
    assert!(matches!(repl.handle_input(".what"), Ok(Reaction::Unknown(w)) if w == ".what"));
}

#[test]
fn lines_that_end_in_a_pipe_go_on() {
    let mut repl = Repl::new();
    assert_eq!(repl.prompt(), ">> ");
    assert!(matches!(repl.feed_line("   "), Batch::Nothing));
    assert!(matches!(repl.feed_line("data = read('data.csv') |  "), Batch::More));
    assert_eq!(repl.prompt(), ".. ");
    assert!(matches!(repl.feed_line("filter(price > 100) |"), Batch::More));
    let mut repl = Repl::new();
    assert!(matches!(repl.feed_line("data = read('data.csv') |"), Batch::More));
    assert!(matches!(repl.feed_line("filter(price > 100) |"), Batch::More));
    match repl.feed_line("select(product, quantity)") {
        Batch::Complete { typed, statement } => {
            assert_eq!(
                typed,
                "data = read('data.csv') |\nfilter(price > 100) |\nselect(product, quantity)"
            );
            assert_eq!(
                statement,
                "data = read('data.csv') | filter(price > 100) | select(product, quantity)"
            );
        }
        _ => panic!("expected a complete statement"),
    }
    assert_eq!(repl.prompt(), ">> ");
    assert!(matches!(repl.feed_line("x |"), Batch::More));
    repl.interrupt();
    assert_eq!(repl.prompt(), ">> ");
    match repl.feed_line(".undo 2") {
        Batch::Complete { typed, statement } => {
            assert_eq!(typed, ".undo 2");
            assert_eq!(statement, ".undo 2");
        }
        _ => panic!("expected a complete statement"),
    }
}

#[test]
fn statements_are_described_for_the_log() {
    let assignment = data_transform::parser::parse("x = read('a.csv') | take(1)").unwrap();
    assert_eq!(describe_statement(&assignment), "x = ...");
    let source_only = data_transform::parser::parse("read('a.csv')").unwrap();
    assert_eq!(describe_statement(&source_only), "read(...)");
    let stages = data_transform::parser::parse("x | take(1) | skip(2)").unwrap();
    assert_eq!(describe_statement(&stages), "2 operation(s)");
}

#[test]
fn a_preview_shows_five_rows_and_counts_the_rest() {
    let mut repl = Repl::new();
    let df = table(run(&mut repl, "x = read('people.csv')"));
    let (head, more) = repl.preview_result(&df);
    assert_eq!((head.height(), more), (4, 0));
    let long = "n\n1\n2\n3\n4\n5\n6\n7\n";
    let mut other = Repl::new();
    let first = other.handle_input("read('long.csv')").unwrap();
    assert!(matches!(first, Reaction::Read(_)));
    let df = table(other.resume(Reply::Bytes(long.as_bytes().to_vec())).unwrap());
    let (head, more) = other.preview_result(&df);
    assert_eq!((head.height(), more), (5, 2));
}

#[test]
fn recording_a_table_behind_the_cursor_drops_what_was_undone() {
    let mut repl = Repl::new();
    let first = table(run(&mut repl, "x = read('people.csv')"));
    table(run(&mut repl, "y = x | filter(age > 30)"));
    table(run(&mut repl, "select(name, city)"));
    table(run(&mut repl, "z = y | sort(name desc)"));
    assert_eq!(repl.show_history().len(), 4);
    assert!(matches!(repl.handle_input(".undo 2"), Ok(Reaction::Undone(2))));
    let vars = variables(&repl);

    repl.save_to_history(first.clone(), "noted".to_string());
    assert_eq!(
        repl.show_history(),
        vec![
            ("x = ...".to_string(), false),
            ("y = ...".to_string(), false),
            ("noted".to_string(), true)
        ]
    );
    assert!(repl.current().unwrap().equals(&first));
    assert_eq!(variables(&repl), vars);
    assert!(repl.handle_input(".redo").is_err());
    // the new entry holds the table and the variables of its moment
    assert!(matches!(repl.handle_input(".undo"), Ok(Reaction::Undone(1))));
    assert!(matches!(repl.handle_input(".redo"), Ok(Reaction::Redone(1))));
    assert!(repl.current().unwrap().equals(&first));
    assert_eq!(variables(&repl), vars);
}
