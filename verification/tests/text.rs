use data_transform::rows::{
    concat_rows, lookup_rows, membership_rows, replace_text, split_rows, split_text,
    text_contains,
};
use data_transform::text::{number_text, same_text, substring, to_chars, wide_number_text};

fn some(s: &str) -> Option<String> {
    Some(s.to_string())
}

#[test]
fn number_text_writes_decimal_digits() {
    assert_eq!(number_text(0), "0");
    assert_eq!(number_text(7), "7");
    assert_eq!(number_text(10), "10");
    assert_eq!(number_text(1234567890), "1234567890");
    assert_eq!(number_text(usize::MAX), usize::MAX.to_string());
    assert_eq!(wide_number_text(u128::MAX), u128::MAX.to_string());
}

#[test]
fn to_chars_keeps_every_character() {
    assert_eq!(to_chars("a,b"), vec!['a', ',', 'b']);
    assert_eq!(to_chars("é√"), vec!['é', '√']);
    assert_eq!(to_chars(""), Vec::<char>::new());
    assert_eq!(substring(&to_chars("héllo"), 1, 3), "él");
    assert!(same_text("día", "día"));
    assert!(!same_text("dia", "día"));
}

#[test]
fn split_text_gives_the_part_of_the_index() {
    assert_eq!(split_text("a:b:c", ":", 0), some("a"));
    assert_eq!(split_text("a:b:c", ":", 2), some("c"));
    assert_eq!(split_text("a:b:c", ":", 3), None);
    assert_eq!(split_text("a::c", ":", 1), some(""));
    assert_eq!(split_text("abc", ":", 0), some("abc"));
    assert_eq!(split_text("", ":", 0), some(""));
    assert_eq!(split_text("a--b---c", "--", 2), some("-c"));
    assert_eq!(split_text("aaa", "aa", 1), some("a"));
    assert_eq!(split_text(":a:", ":", 0), some(""));
    assert_eq!(split_text(":a:", ":", 2), some(""));
    // an empty delimiter cuts at every boundary
    assert_eq!(split_text("ab", "", 0), some(""));
    assert_eq!(split_text("ab", "", 1), some("a"));
    assert_eq!(split_text("ab", "", 2), some("b"));
    assert_eq!(split_text("ab", "", 3), some(""));
    assert_eq!(split_text("ab", "", 4), None);
    for (text, delim) in [("a:b:c", ":"), ("a--b---c", "--"), ("aaa", "aa"), ("ab", ""), ("", "x")] {
        let parts: Vec<&str> = text.split(delim).collect();
        for i in 0..parts.len() + 2 {
            assert_eq!(split_text(text, delim, i), parts.get(i).map(|p| p.to_string()));
        }
    }
}

#[test]
fn replace_text_replaces_every_occurrence() {
    assert_eq!(replace_text("a-b-c", "-", "+"), "a+b+c");
    assert_eq!(replace_text("aaa", "aa", "b"), "ba");
    assert_eq!(replace_text("abc", "x", "y"), "abc");
    assert_eq!(replace_text("abc", "", "-"), "-a-b-c-");
    assert_eq!(replace_text("", "", "-"), "-");
    assert_eq!(replace_text("sales_q1", "_", ""), "salesq1");
    for (text, old, new) in [("a-b-c", "-", "+"), ("aaa", "aa", "b"), ("abc", "", "-"), ("xyx", "x", "xx")] {
        assert_eq!(replace_text(text, old, new), text.replace(old, new));
    }
}

#[test]
fn text_contains_finds_a_part() {
    assert!(text_contains("found more fields than expected", "found more fields"));
    assert!(text_contains("abc", ""));
    assert!(text_contains("abc", "c"));
    assert!(!text_contains("abc", "cb"));
    assert!(!text_contains("", "a"));
}

#[test]
fn rows_are_split_joined_and_searched() {
    let rows = vec![some("a:b"), None, some("c")];
    assert_eq!(split_rows(&rows, ":", 1), vec![some("b"), None, None]);
    assert_eq!(
        concat_rows(&rows, &vec![some("x"), some("y"), None, some("z")]),
        vec![some("a:bx"), None, None]
    );
    assert_eq!(
        membership_rows(&rows, &vec![some("c"), None]),
        vec![false, true, true]
    );
    assert_eq!(membership_rows(&rows, &vec![]), vec![false, false, false]);
}

#[test]
fn lookup_rows_finds_the_last_row_with_a_value() {
    let keys = vec![some("a"), some("b"), some("a"), None, some("c"), some("b")];
    let value_nulls = vec![false, false, false, false, true, true];
    let inputs = vec![some("a"), some("b"), some("c"), None, some("z")];
    assert_eq!(
        lookup_rows(&inputs, &keys, &value_nulls),
        vec![Some(2), Some(1), None, None, None]
    );
}
