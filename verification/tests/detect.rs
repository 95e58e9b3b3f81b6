use data_transform::error::DtransformError;
use data_transform::executor::detect::auto_detect_delimiter;

fn ambiguous() -> String {
    "Could not auto-detect delimiter. The file format is ambiguous.\n\nPlease specify the delimiter explicitly:\n• Comma: read('file', delimiter=',')\n• Tab: read('file', delimiter='\\t')\n• Pipe: read('file', delimiter='|')\n• Semicolon: read('file', delimiter=';')\n• Space: read('file', delimiter=' ')".to_string()
}

#[test]
fn detects_commas_without_trimming() {
    let found = auto_detect_delimiter("a,b,c\n1,2,3\n4,5,6\n", None).unwrap();
    assert_eq!(found, (',', false));
}

#[test]
fn an_inconsistent_mix_is_ambiguous() {
    let content = "a,b|c\n1|2|3|4|5\n4,5,6,7,8,9,1\nx\n";
    match auto_detect_delimiter(content, None) {
        Err(DtransformError::InvalidOperation(m)) => assert_eq!(m, ambiguous()),
        _ => panic!("expected the ambiguous-format failure"),
    }
}

#[test]
fn the_counts_decide_whatever_the_extension() {
    assert_eq!(auto_detect_delimiter("a|b|c\n1|2|3\n", Some("csv")).unwrap(), ('|', false));
    assert_eq!(auto_detect_delimiter("a|b\n 1|2\n", Some("csv")).unwrap(), ('|', true));
    assert_eq!(auto_detect_delimiter("a,b\n1,2\n", Some("tsv")).unwrap(), (',', false));
    assert_eq!(auto_detect_delimiter("a\tb\n1\t2\n", Some("tsv")).unwrap(), ('\t', false));
    assert_eq!(auto_detect_delimiter("a;b\n1;2\n", Some("txt")).unwrap(), (';', false));
    assert_eq!(auto_detect_delimiter("alpha\nbeta\n", Some("tsv")).unwrap(), (',', false));
}

#[test]
fn the_extension_breaks_a_tie_between_equal_candidates() {
    let content = "a,b\tc\n1,2\t3\n";
    assert_eq!(auto_detect_delimiter(content, None).unwrap(), (',', false));
    assert_eq!(auto_detect_delimiter(content, Some("csv")).unwrap(), (',', false));
    assert_eq!(auto_detect_delimiter(content, Some("tsv")).unwrap(), ('\t', false));
    assert_eq!(auto_detect_delimiter(content, Some("txt")).unwrap(), (',', false));
    let more_pipes = "a|b|c,d\n1|2|3,4\n";
    assert_eq!(auto_detect_delimiter(more_pipes, Some("csv")).unwrap(), ('|', false));
}

#[test]
fn an_empty_file_fails_whatever_the_extension() {
    for extension in ["csv", "tsv", "txt"] {
        match auto_detect_delimiter("\n  \n", Some(extension)) {
            Err(DtransformError::InvalidOperation(m)) => {
                assert_eq!(m, "File is empty or contains no data")
            }
            _ => panic!("expected a failure"),
        }
    }
}

#[test]
fn an_empty_file_fails() {
    for content in ["", "\n\n", "   \n\t\n"] {
        match auto_detect_delimiter(content, None) {
            Err(DtransformError::InvalidOperation(m)) => {
                assert_eq!(m, "File is empty or contains no data")
            }
            _ => panic!("expected a failure"),
        }
    }
}

#[test]
fn a_file_without_any_candidate_is_a_single_column() {
    assert_eq!(auto_detect_delimiter("alpha\nbeta\ngamma\n", None).unwrap(), (',', false));
}

#[test]
fn runs_of_spaces_call_for_trimming_and_count_as_one_space() {
    let content = "  a   b    c\n1 2   3\n4  5 6  \n";
    assert_eq!(auto_detect_delimiter(content, None).unwrap(), (' ', true));
}

#[test]
fn the_candidate_with_the_highest_total_count_wins() {
    // two semicolons in every line, one comma in every line
    assert_eq!(auto_detect_delimiter("a;b;c,d\n1;2;3,4\n", None).unwrap(), (';', false));
    // a tie goes to the candidate that comes first: comma before pipe
    assert_eq!(auto_detect_delimiter("a,b|c\n1,2|3\n", None).unwrap(), (',', false));
}

#[test]
fn a_small_spread_is_accepted_and_a_large_one_is_not() {
    // counts 10, 10, 10, 12: spread 2 / 10.5 < 0.3
    let steady = "a,a,a,a,a,a,a,a,a,a,a\n".repeat(3) + "a,a,a,a,a,a,a,a,a,a,a,a,a\n";
    assert_eq!(auto_detect_delimiter(&steady, None).unwrap(), (',', false));
    // counts 1 and 3: spread 2 / 2 = 1
    match auto_detect_delimiter("a,b\nc,d,e,f\n", None) {
        Err(DtransformError::InvalidOperation(m)) => assert_eq!(m, ambiguous()),
        _ => panic!("expected the ambiguous-format failure"),
    }
}

#[test]
fn only_the_first_hundred_lines_that_are_not_blank_are_sampled() {
    let mut content = String::new();
    for _ in 0..100 {
        content.push_str("a,b\n\n");
    }
    content.push_str("x|y|z|w\n");
    assert_eq!(auto_detect_delimiter(&content, None).unwrap(), (',', false));
}

#[test]
fn carriage_returns_before_line_feeds_are_not_part_of_the_line() {
    assert_eq!(auto_detect_delimiter("a,b\r\n1,2\r\n", None).unwrap(), (',', false));
}
