use data_transform::ast::{ReadOp, WriteOp};
use data_transform::error::DtransformError;
use data_transform::executor::files::{
    check_names, file_extension, file_kind, plan_read, plan_write, trim_text, FileKind, ReadPlan,
};
use data_transform::executor::run::{Reply, Step};
use data_transform::executor::Executor;
use data_transform::parser::{parse, parse_program};
use polars::prelude::{Column, DataFrame};

fn read_op(path: &str) -> ReadOp {
    ReadOp {
        path: path.to_string(),
        format: None,
        delimiter: None,
        header: None,
        skip_rows: None,
        trim_whitespace: None,
    }
}

fn names(df: &DataFrame) -> Vec<String> {
    df.get_column_names().iter().map(|n| n.to_string()).collect()
}

#[test]
fn the_extension_is_what_stands_behind_the_last_dot_of_the_file_name() {
    assert_eq!(file_extension("data.csv"), Some("csv".to_string()));
    assert_eq!(file_extension("dir.d/data.tar.gz"), Some("gz".to_string()));
    assert_eq!(file_extension("dir.d/data"), None);
    assert_eq!(file_extension(".hidden"), None);
    assert_eq!(file_extension("a/.hidden.txt"), Some("txt".to_string()));
    assert_eq!(file_extension("data."), Some(String::new()));
    assert_eq!(file_extension(".."), None);
    assert_eq!(file_extension(""), None);
    for path in [
        "data.csv",
        "dir.d/data.tar.gz",
        "dir.d/data",
        ".hidden",
        "data.",
        "..",
        "a/b.c/d.e",
        "dir/data.csv/",
        "a/b.txt/.",
        "a//b.tar.gz//",
        "a/./",
        "a/..",
        "a/.../",
        ".",
        "./",
        "/",
        "/.",
        "./.x.y",
    ] {
        let expected = std::path::Path::new(path)
            .extension()
            .map(|e| e.to_string_lossy().to_string());
        assert_eq!(file_extension(path), expected, "{}", path);
    }
}

#[test]
fn the_format_decides_the_kind_of_file() {
    assert_eq!(file_kind(&Some("json".to_string())), FileKind::Json);
    assert_eq!(file_kind(&Some("parquet".to_string())), FileKind::Parquet);
    assert_eq!(file_kind(&Some("csv".to_string())), FileKind::Delimited);
    assert_eq!(file_kind(&Some("tsv".to_string())), FileKind::Delimited);
    assert_eq!(file_kind(&Some("dat".to_string())), FileKind::Delimited);
    assert_eq!(file_kind(&None), FileKind::Delimited);
}

#[test]
fn a_read_detects_what_the_operation_leaves_open() {
    let text = Some("a|b\n 1|2\n".to_string());
    let mut op = read_op("data.txt");
    assert_eq!(
        plan_read(&op, &Some("txt".to_string()), &text).unwrap(),
        ReadPlan { delimiter: '|', trim_whitespace: true, has_header: true, skip_rows: 0 }
    );
    op.delimiter = Some(';');
    op.header = Some(false);
    op.skip_rows = Some(3);
    assert_eq!(
        plan_read(&op, &None, &text).unwrap(),
        ReadPlan { delimiter: ';', trim_whitespace: true, has_header: false, skip_rows: 3 }
    );
    op.trim_whitespace = Some(false);
    assert_eq!(
        plan_read(&op, &None, &None).unwrap(),
        ReadPlan { delimiter: ';', trim_whitespace: false, has_header: false, skip_rows: 3 }
    );
    op.delimiter = None;
    match plan_read(&op, &None, &None) {
        Err(DtransformError::IoError(m)) => assert_eq!(m, "stream did not contain valid UTF-8"),
        _ => panic!("expected a failure"),
    }
    match plan_read(&op, &None, &Some(String::new())) {
        Err(DtransformError::InvalidOperation(m)) => {
            assert_eq!(m, "File is empty or contains no data")
        }
        _ => panic!("expected a failure"),
    }
}

#[test]
fn a_write_defaults_to_commas_a_header_and_tabs_for_tsv() {
    let mut op = WriteOp { path: "out.tsv".to_string(), format: None, header: None, delimiter: None };
    let plan = plan_write(&op);
    assert_eq!((plan.kind, plan.delimiter, plan.header), (FileKind::Delimited, '\t', true));
    op.path = "out.csv".to_string();
    op.header = Some(false);
    let plan = plan_write(&op);
    assert_eq!((plan.kind, plan.delimiter, plan.header), (FileKind::Delimited, ',', false));
    op.format = Some("json".to_string());
    assert_eq!(plan_write(&op).kind, FileKind::Json);
    op.format = None;
    op.path = "out.parquet".to_string();
    assert_eq!(plan_write(&op).kind, FileKind::Parquet);
    op.path = "out".to_string();
    op.delimiter = Some('|');
    let plan = plan_write(&op);
    assert_eq!((plan.kind, plan.delimiter), (FileKind::Delimited, '|'));
}

#[test]
fn repeated_column_names_are_rejected() {
    let ok: Vec<String> = vec!["a".to_string(), "b".to_string()];
    assert!(check_names(&ok).is_ok());
    assert!(check_names(&Vec::new()).is_ok());
    let twice: Vec<String> =
        ["a", "b", "a", "c", "b", "a"].iter().map(|s| s.to_string()).collect();
    match check_names(&twice) {
        Err(DtransformError::InvalidOperation(m)) => assert_eq!(
            m,
            "File contains duplicate column names: a, b, a. Malformed files with repeated columns are not allowed."
        ),
        _ => panic!("expected a failure"),
    }
}

#[test]
fn trimming_collapses_white_space_line_by_line() {
    assert_eq!(trim_text("  a   b \n\tc\t\td\n\n e"), "a b\nc d\n\ne");
    assert_eq!(trim_text("a b\r\nc\r\n"), "a b\nc");
    assert_eq!(trim_text(""), "");
}

#[test]
fn reading_decodes_delimited_text_with_the_detected_settings() {
    let ex = Executor::new();
    let df = ex
        .execute_read(&read_op("data.txt"), &b"a;b;c\n1;2;3\n4;5;6\n".to_vec())
        .unwrap();
    assert_eq!(names(&df), vec!["a", "b", "c"]);
    assert_eq!(df.height(), 2);
    let df = ex
        .execute_read(&read_op("spaced.txt"), &b"  x   y\n 1    2 \n3 4\n".to_vec())
        .unwrap();
    assert_eq!(names(&df), vec!["x", "y"]);
    assert_eq!(df.height(), 2);
    let mut op = read_op("data.csv");
    op.header = Some(false);
    op.skip_rows = Some(1);
    let df = ex.execute_read(&op, &b"junk\n1,2\n3,4\n".to_vec()).unwrap();
    assert_eq!(df.shape(), (2, 2));
    match ex.execute_read(&read_op("none.txt"), &Vec::new()) {
        Err(DtransformError::InvalidOperation(m)) => {
            assert_eq!(m, "File is empty or contains no data")
        }
        _ => panic!("expected a failure"),
    }
    match ex.execute_read(&read_op("bad.txt"), &vec![0xff, 0xfe, b'\n']) {
        Err(DtransformError::IoError(m)) => assert_eq!(m, "stream did not contain valid UTF-8"),
        _ => panic!("expected a failure"),
    }
}

#[test]
fn what_is_written_reads_back_as_the_same_table() {
    let ex = Executor::new();
    let df = DataFrame::new(
        3,
        vec![
            Column::new("name".into(), ["Ann", "Bob", "Cy"]),
            Column::new("age".into(), [31i64, 25, 47]),
            Column::new("score".into(), [1.5f64, 2.25, -3.0]),
        ],
    )
    .unwrap();
    for (delimiter, header) in [(',', true), ('|', true), ('\t', true), (';', true)] {
        let write = WriteOp {
            path: "out.txt".to_string(),
            format: None,
            header: Some(header),
            delimiter: Some(delimiter),
        };
        let bytes = ex.execute_write(&df, &write).unwrap();
        let mut read = read_op("out.txt");
        read.delimiter = Some(delimiter);
        read.header = Some(header);
        read.trim_whitespace = Some(false);
        let back = ex.execute_read(&read, &bytes).unwrap();
        assert!(back.equals(&df), "delimiter {:?}", delimiter);
    }
    let json = WriteOp { path: "out.json".to_string(), format: None, header: None, delimiter: None };
    let bytes = ex.execute_write(&df, &json).unwrap();
    let lines = String::from_utf8(bytes).unwrap();
    assert_eq!(lines.lines().count(), 3);
    assert!(lines.starts_with("{\"name\":\"Ann\""));
    let document = b"[{\"name\":\"Ann\",\"age\":31},{\"name\":\"Bob\",\"age\":25}]".to_vec();
    let back = ex.execute_read(&read_op("in.json"), &document).unwrap();
    assert_eq!(names(&back), vec!["name", "age"]);
    assert_eq!(back.height(), 2);
    let parquet =
        WriteOp { path: "out.bin".to_string(), format: Some("parquet".to_string()), header: None, delimiter: None };
    let bytes = ex.execute_write(&df, &parquet).unwrap();
    let mut read = read_op("out.bin");
    read.format = Some("parquet".to_string());
    let back = ex.execute_read(&read, &bytes).unwrap();
    assert!(back.equals(&df));
}

fn drive(ex: &mut Executor, first: Result<Step, DtransformError>, files: &mut Vec<(String, Vec<u8>)>) -> Result<Option<DataFrame>, DtransformError> {
    let mut step = first?;
    loop {
        match step {
            Step::Finished(result) => return Ok(result),
            Step::Read(path) => {
                let reply = match files.iter().find(|f| f.0 == path) {
                    Some(f) => Reply::Bytes(f.1.clone()),
                    None => Reply::Failed(format!("{}: not found", path)),
                };
                step = ex.resume(reply)?;
            }
            Step::Write(path, bytes) => {
                files.retain(|f| f.0 != path);
                files.push((path, bytes));
                step = ex.resume(Reply::Written)?;
            }
        }
    }
}

#[test]
fn a_program_reads_and_writes_through_its_caller() {
    let mut files = vec![("in.csv".to_string(), b"a,b\n1,x\n2,y\n3,z\n".to_vec())];
    let mut ex = Executor::new();
    let program = parse_program(
        "t = read('in.csv') | filter(a > 1)\nt | write('out.csv', delimiter=';') | take(1)\nback = read('out.csv', delimiter=';')\n",
    )
    .unwrap();
    let first = ex.execute_program(program);
    let result = drive(&mut ex, first, &mut files).unwrap().unwrap();
    assert_eq!(result.shape(), (1, 2));
    let written = files.iter().find(|f| f.0 == "out.csv").unwrap();
    assert_eq!(written.1, b"a;b\n2;y\n3;z\n".to_vec());
    assert_eq!(ex.get_variable("t").unwrap().shape(), (2, 2));
    assert_eq!(ex.get_variable("back").unwrap().shape(), (2, 2));
    let mut listed = ex.list_variables();
    listed.sort();
    assert_eq!(listed, vec!["back", "t"]);
}

#[test]
fn a_program_of_assignments_alone_yields_nothing() {
    let mut files = vec![("in.csv".to_string(), b"a\n1\n".to_vec())];
    let mut ex = Executor::new();
    let first = ex.execute_program(parse_program("t = read('in.csv')").unwrap());
    assert!(drive(&mut ex, first, &mut files).unwrap().is_none());
    let first = ex.execute_program(parse_program("").unwrap());
    assert!(drive(&mut ex, first, &mut files).unwrap().is_none());
    let first = ex.execute_statement(parse("u = t | take(0)").unwrap());
    let yielded = drive(&mut ex, first, &mut files).unwrap().unwrap();
    assert_eq!(yielded.shape(), (0, 1));
    assert_eq!(ex.get_variable("u").unwrap().shape(), (0, 1));
}

#[test]
fn the_first_failure_ends_a_run() {
    let mut files: Vec<(String, Vec<u8>)> = Vec::new();
    let mut ex = Executor::new();
    let first = ex.execute_program(parse_program("t = read('gone.csv')\nu = t").unwrap());
    match drive(&mut ex, first, &mut files) {
        Err(DtransformError::IoError(m)) => assert_eq!(m, "gone.csv: not found"),
        _ => panic!("expected a failure"),
    }
    assert!(ex.list_variables().is_empty());
    match ex.resume(Reply::Written) {
        Err(DtransformError::InvalidOperation(m)) => {
            assert_eq!(m, "No run is waiting for this reply")
        }
        _ => panic!("expected a failure"),
    }
    let statement = parse("take(1)").unwrap();
    match ex.execute_statement(statement) {
        Err(DtransformError::InvalidOperation(m)) => {
            assert_eq!(m, "Pipeline must start with a data source (read() or variable)")
        }
        _ => panic!("expected a failure"),
    }
    ex.set_variable(
        "t".to_string(),
        DataFrame::new(1, vec![Column::new("a".into(), [1i64])]).unwrap(),
    );
    match ex.execute_statement(parse("t | t").unwrap()) {
        Err(DtransformError::InvalidOperation(m)) => assert_eq!(
            m,
            "Variable references can only be used as pipeline sources, not as operations"
        ),
        _ => panic!("expected a failure"),
    }
    let first = ex.execute_statement(parse("read('a.csv')").unwrap());
    assert!(matches!(first, Ok(Step::Read(ref p)) if p == "a.csv"));
    match ex.resume(Reply::Written) {
        Err(DtransformError::InvalidOperation(m)) => {
            assert_eq!(m, "No run is waiting for this reply")
        }
        _ => panic!("expected a failure"),
    }
}

#[test]
fn rows_with_more_fields_come_with_a_hint_at_the_settings() {
    let ex = Executor::new();
    let mut op = read_op("ragged.csv");
    op.delimiter = Some(',');
    op.trim_whitespace = Some(false);
    match ex.execute_read(&op, &b"a,b\n1,2,3\n4,5\n".to_vec()) {
        Err(DtransformError::InvalidOperation(m)) => assert_eq!(
            m,
            "CSV parsing error: Rows have different numbers of fields.\n\nThe auto-detected settings may be incorrect:\n• Detected delimiter: ','\n• Detected trim_whitespace: false\n\nTry specifying explicitly:\n• read('ragged.csv', delimiter=' ')  # space-separated\n• read('ragged.csv', delimiter='\\t')  # tab-separated\n• read('ragged.csv', trim_whitespace=true)\n• read('ragged.csv', skip_rows=N)  # skip header lines"
        ),
        Err(other) => panic!("another failure: {}", other.message()),
        Ok(df) => panic!("read a table of shape {:?}", df.shape()),
    }
}

#[test]
fn the_written_bytes_follow_the_settings_of_the_write() {
    let ex = Executor::new();
    let df = DataFrame::new(
        2,
        vec![Column::new("k".into(), ["a", "b"]), Column::new("n".into(), [1i64, 2])],
    )
    .unwrap();
    let mut op = WriteOp { path: "out.csv".to_string(), format: None, header: None, delimiter: None };
    assert_eq!(ex.execute_write(&df, &op).unwrap(), b"k,n\na,1\nb,2\n".to_vec());
    op.header = Some(false);
    assert_eq!(ex.execute_write(&df, &op).unwrap(), b"a,1\nb,2\n".to_vec());
    op.path = "out.tsv".to_string();
    assert_eq!(ex.execute_write(&df, &op).unwrap(), b"a\t1\nb\t2\n".to_vec());
    op.delimiter = Some('|');
    op.header = Some(true);
    assert_eq!(ex.execute_write(&df, &op).unwrap(), b"k|n\na|1\nb|2\n".to_vec());
    op.format = Some("json".to_string());
    assert_eq!(
        ex.execute_write(&df, &op).unwrap(),
        b"{\"k\":\"a\",\"n\":1}\n{\"k\":\"b\",\"n\":2}\n".to_vec()
    );
    op.format = Some("parquet".to_string());
    let bytes = ex.execute_write(&df, &op).unwrap();
    assert_eq!(&bytes[..4], b"PAR1");
    assert_eq!(bytes, ex.execute_write(&df, &op).unwrap());
}
