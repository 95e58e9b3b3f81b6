//! Reading and writing tables: the choice of format, the settings of a
//! delimited read, and the checks on what was read. The bytes themselves are
//! read and written by the caller.

use vstd::prelude::*;
use polars::error::PolarsError;
use polars::frame::DataFrame;
use crate::ast::{text_view, ReadOp, ReadOpView, WriteOp, WriteOpView};
use crate::error::{DtransformError, ErrorView};
use crate::executor::binary::engine_failure;
use crate::executor::detect::{
    all_collapsed, auto_detect_delimiter, collapse_lines, detected, line_views, split_lines,
    text_lines,
};
use crate::executor::Executor;
use crate::frame::{
    column_names, csv_decoded, csv_encoding, decode_csv, decode_json, decode_parquet,
    encode_csv, encode_json, encode_parquet, engine_error_text, frame_names, json_encoding,
    text_views,
};
use crate::rows::{contains_text, text_contains};
use crate::text::{char_debug, char_debug_text, collect_chars, decode_text, same_text, substring, to_chars};

verus! {

/// The index of the last `c` among the first `n` characters.
pub open spec fn last_index(s: Seq<char>, c: char, n: int) -> Option<int>
    decreases n,
{
    if n <= 0 || n > s.len() {
        None
    } else if s[n - 1] == c {
        Some(n - 1)
    } else {
        last_index(s, c, n - 1)
    }
}

/// Where the last component of a path ends, among its first `n`
/// characters: behind it only `/` and components that are a single `.` are
/// left out.
pub open spec fn path_end(path: Seq<char>, n: int) -> int
    decreases n,
{
    if n <= 0 || n > path.len() {
        0
    } else if path[n - 1] == '/' {
        path_end(path, n - 1)
    } else if path[n - 1] == '.' && (n == 1 || path[n - 2] == '/') {
        path_end(path, n - 1)
    } else {
        n
    }
}

/// The file name of a path: its last component, which is what stands
/// behind the last `/` of the path up to `path_end`.
pub open spec fn file_name(path: Seq<char>) -> Seq<char> {
    let kept = path.take(path_end(path, path.len() as int));
    match last_index(kept, '/', kept.len() as int) {
        Some(i) => kept.skip(i + 1),
        None => kept,
    }
}

/// The extension of a path: what stands behind the last `.` of the file
/// name, unless the name has no `.`, starts with its only `.`, or is `..`.
pub open spec fn extension_of(path: Seq<char>) -> Option<Seq<char>> {
    let name = file_name(path);
    match last_index(name, '.', name.len() as int) {
        Some(i) => if i == 0 || name == seq!['.', '.'] {
            None
        } else {
            Some(name.skip(i + 1))
        },
        None => None,
    }
}

/// The index of the last `c` in `chars[from..]`.
fn find_last(chars: &Vec<char>, c: char, from: usize) -> (r: Option<usize>)
    requires
        from <= chars.len(),
    ensures
        match last_index(chars@.skip(from as int), c, chars.len() - from) {
            Some(i) => r == Some((from + i) as usize) && 0 <= i < chars.len() - from,
            None => r is None,
        },
{
    let ghost s = chars@.skip(from as int);
    let mut n: usize = chars.len();
    while n > from
        invariant
            from <= n <= chars.len(),
            s == chars@.skip(from as int),
            last_index(s, c, chars.len() - from) == last_index(s, c, n - from),
        decreases n,
    {
        assert(s[n - from - 1] == chars@[n - 1]);
        if chars[n - 1] == c {
            return Some(n - 1);
        }
        n -= 1;
    }
    None
}

/// The extension of a path.
pub fn file_extension(path: &str) -> (r: Option<String>)
    ensures
        match extension_of(path@) {
            Some(e) => r matches Some(x) && x@ == e,
            None => r is None,
        },
{
    let all = to_chars(path);
    let mut end: usize = all.len();
    while end > 0 && (all[end - 1] == '/' || (all[end - 1] == '.' && (end == 1 || all[end - 2]
        == '/')))
        invariant
            end <= all.len(),
            path_end(all@, all.len() as int) == path_end(all@, end as int),
        decreases end,
    {
        end -= 1;
    }
    let kept = substring(&all, 0, end);
    let chars = to_chars(kept.as_str());
    assert(chars@ =~= path@.take(path_end(path@, path@.len() as int)));
    assert(chars@.skip(0) =~= chars@);
    let start = match find_last(&chars, '/', 0) {
        Some(i) => i + 1,
        None => 0,
    };
    let ghost name = file_name(path@);
    assert(name == chars@.skip(start as int));
    match find_last(&chars, '.', start) {
        Some(i) => {
            let dots = chars.len() - start == 2 && chars[start] == '.' && chars[start + 1] == '.';
            assert(dots == (name == seq!['.', '.'])) by {
                if dots {
                    assert(name =~= seq!['.', '.']);
                } else if name == seq!['.', '.'] {
                    assert(name[0] == '.' && name[1] == '.');
                }
            }
            if i == start || dots {
                None
            } else {
                let e = substring(&chars, i + 1, chars.len());
                assert(e@ =~= name.skip(i - start + 1));
                Some(e)
            }
        },
        None => None,
    }
}

/// The kinds of file that are read and written.
#[derive(Clone, Copy, Debug, PartialEq, Eq, Structural)]
pub enum FileKind {
    /// Delimited text: `csv`, `tsv`, no format at all, or any unknown one.
    Delimited,
    Json,
    Parquet,
}

/// The format of a file: the one given, else the extension of the path.
pub open spec fn format_of(given: Option<Seq<char>>, path: Seq<char>) -> Option<Seq<char>> {
    match given {
        Some(f) => Some(f),
        None => extension_of(path),
    }
}

/// The kind of file that a format stands for.
pub open spec fn kind_of(format: Option<Seq<char>>) -> FileKind {
    if format == Some("json"@) {
        FileKind::Json
    } else if format == Some("parquet"@) {
        FileKind::Parquet
    } else {
        FileKind::Delimited
    }
}

/// The format of a file: the one given, else the extension of the path.
pub fn choose_format(given: &Option<String>, path: &str) -> (r: Option<String>)
    ensures
        match format_of(text_view(*given), path@) {
            Some(f) => r matches Some(x) && x@ == f,
            None => r is None,
        },
{
    match given {
        Some(f) => Some(f.clone()),
        None => file_extension(path),
    }
}

/// The view of an optional format.
pub open spec fn format_view(f: Option<String>) -> Option<Seq<char>> {
    match f {
        Some(s) => Some(s@),
        None => None,
    }
}

/// The kind of file that a format stands for.
pub fn file_kind(format: &Option<String>) -> (r: FileKind)
    ensures
        r == kind_of(format_view(*format)),
{
    match format {
        Some(f) => {
            if same_text(f.as_str(), "json") {
                FileKind::Json
            } else if same_text(f.as_str(), "parquet") {
                FileKind::Parquet
            } else {
                FileKind::Delimited
            }
        },
        None => FileKind::Delimited,
    }
}

/// The settings of a delimited read.
#[derive(Clone, Copy, Debug, PartialEq, Eq, Structural)]
pub struct ReadPlan {
    pub delimiter: char,
    pub trim_whitespace: bool,
    pub has_header: bool,
    pub skip_rows: usize,
}

/// The message for a file that is needed as text and is not valid UTF-8.
pub open spec fn not_text_message() -> Seq<char> {
    "stream did not contain valid UTF-8"@
}

/// The settings of a delimited read. A header is assumed and no row skipped
/// unless the operation says otherwise. When the operation leaves the
/// delimiter or the trim policy open, both are detected in the file's text,
/// and what the operation does give stands. `text` is the file's content as
/// text, or nothing when it is not valid UTF-8.
pub open spec fn read_plan(op: ReadOpView, format: Option<Seq<char>>, text: Option<Seq<char>>) -> Result<
    ReadPlan,
    ErrorView,
> {
    let has_header = match op.header {
        Some(h) => h,
        None => true,
    };
    let skip_rows = match op.skip_rows {
        Some(n) => n,
        None => 0,
    };
    if op.delimiter is Some && op.trim_whitespace is Some {
        Ok(
            ReadPlan {
                delimiter: op.delimiter->0,
                trim_whitespace: op.trim_whitespace->0,
                has_header,
                skip_rows,
            },
        )
    } else {
        match text {
            None => Err(ErrorView::IoError(not_text_message())),
            Some(t) => match detected(t, format) {
                Err(e) => Err(e),
                Ok(found) => Ok(
                    ReadPlan {
                        delimiter: match op.delimiter {
                            Some(d) => d,
                            None => found.0,
                        },
                        trim_whitespace: match op.trim_whitespace {
                            Some(t) => t,
                            None => found.1,
                        },
                        has_header,
                        skip_rows,
                    },
                ),
            },
        }
    }
}

/// The settings of a delimited read.
pub fn plan_read(op: &ReadOp, format: &Option<String>, text: &Option<String>) -> (r: Result<
    ReadPlan,
    DtransformError,
>)
    ensures
        match read_plan(op@, format_view(*format), format_view(*text)) {
            Ok(plan) => r == Ok::<ReadPlan, DtransformError>(plan),
            Err(e) => r matches Err(x) && x@ == e,
        },
{
    let has_header = match op.header {
        Some(h) => h,
        None => true,
    };
    let skip_rows = match op.skip_rows {
        Some(n) => n,
        None => 0,
    };
    match (op.delimiter, op.trim_whitespace) {
        (Some(d), Some(t)) => Ok(
            ReadPlan { delimiter: d, trim_whitespace: t, has_header, skip_rows },
        ),
        _ => {
            let content = match text {
                Some(t) => t,
                None => {
                    return Err(
                        DtransformError::IoError(
                            String::from_str("stream did not contain valid UTF-8"),
                        ),
                    );
                },
            };
            let extension = match format {
                Some(f) => Some(f.as_str()),
                None => None,
            };
            let found = auto_detect_delimiter(content.as_str(), extension)?;
            Ok(
                ReadPlan {
                    delimiter: match op.delimiter {
                        Some(d) => d,
                        None => found.0,
                    },
                    trim_whitespace: match op.trim_whitespace {
                        Some(t) => t,
                        None => found.1,
                    },
                    has_header,
                    skip_rows,
                },
            )
        },
    }
}

/// The lines from index `from` on, each behind a line feed but the first of
/// all.
pub open spec fn joined_from(lines: Seq<Seq<char>>, from: int) -> Seq<char>
    decreases lines.len() - from,
{
    if from < 0 || from >= lines.len() {
        Seq::empty()
    } else if from == 0 {
        lines[0] + joined_from(lines, 1)
    } else {
        seq!['\n'] + lines[from] + joined_from(lines, from + 1)
    }
}

/// A text with every line trimmed and every run of white space in a line
/// collapsed to one space; the lines joined by line feeds.
pub open spec fn trimmed_text(text: Seq<char>) -> Seq<char> {
    joined_from(all_collapsed(text_lines(text)), 0)
}

/// A text with every line trimmed and every run of white space in a line
/// collapsed to one space.
pub fn trim_text(text: &str) -> (r: String)
    ensures
        r@ == trimmed_text(text@),
{
    let chars = to_chars(text);
    let lines = collapse_lines(&split_lines(&chars));
    let ghost all = line_views(lines@);
    let mut out: Vec<char> = Vec::new();
    let mut i: usize = 0;
    while i < lines.len()
        invariant
            i <= lines.len(),
            all == line_views(lines@),
            joined_from(all, 0) == out@ + joined_from(all, i as int),
        decreases lines.len() - i,
    {
        let ghost before = out@;
        if i > 0 {
            out.push('\n');
        }
        let line = &lines[i];
        assert(all[i as int] == line@);
        let ghost head = out@;
        let mut j: usize = 0;
        while j < line.len()
            invariant
                j <= line.len(),
                out@ == head + line@.take(j as int),
            decreases line.len() - j,
        {
            out.push(line[j]);
            j += 1;
            assert(out@ =~= head + line@.take(j as int));
        }
        assert(line@.take(line.len() as int) =~= line@);
        assert(out@ + joined_from(all, i + 1) =~= before + joined_from(all, i as int));
        i += 1;
    }
    assert(out@ =~= joined_from(all, 0));
    collect_chars(&out)
}

/// The names that stand a second time among the first `n`, in their order.
pub open spec fn duplicates(names: Seq<Seq<char>>, n: int) -> Seq<Seq<char>>
    decreases n,
{
    if n <= 0 || n > names.len() {
        Seq::empty()
    } else if names.take(n - 1).contains(names[n - 1]) {
        duplicates(names, n - 1).push(names[n - 1])
    } else {
        duplicates(names, n - 1)
    }
}

/// The names from index `from` on, joined by a comma and a space.
pub open spec fn listed_from(names: Seq<Seq<char>>, from: int) -> Seq<char>
    decreases names.len() - from,
{
    if from < 0 || from >= names.len() {
        Seq::empty()
    } else if from == 0 {
        names[0] + listed_from(names, 1)
    } else {
        ", "@ + names[from] + listed_from(names, from + 1)
    }
}

/// The message for a file with repeated column names.
pub open spec fn duplicates_message(repeated: Seq<Seq<char>>) -> Seq<char> {
    "File contains duplicate column names: "@ + listed_from(repeated, 0)
        + ". Malformed files with repeated columns are not allowed."@
}

/// What the check of the column names of a file says.
pub open spec fn names_checked(names: Seq<Seq<char>>) -> Result<(), ErrorView> {
    let repeated = duplicates(names, names.len() as int);
    if repeated.len() == 0 {
        Ok(())
    } else {
        Err(ErrorView::InvalidOperation(duplicates_message(repeated)))
    }
}

/// Rejects names of which one stands twice.
pub fn check_names(names: &Vec<String>) -> (r: Result<(), DtransformError>)
    ensures
        match names_checked(text_views(names@)) {
            Ok(_) => r is Ok,
            Err(e) => r matches Err(x) && x@ == e,
        },
{
    let ghost all = text_views(names@);
    let mut repeated: Vec<String> = Vec::new();
    let mut i: usize = 0;
    assert(text_views(repeated@) =~= Seq::<Seq<char>>::empty());
    while i < names.len()
        invariant
            i <= names.len(),
            all == text_views(names@),
            text_views(repeated@) == duplicates(all, i as int),
        decreases names.len() - i,
    {
        let mut seen = false;
        let mut j: usize = 0;
        while j < i && !seen
            invariant
                j <= i < names.len(),
                all == text_views(names@),
                seen ==> all.take(i as int).contains(all[i as int]),
                !seen ==> forall|k: int| 0 <= k < j ==> #[trigger] all[k] != all[i as int],
            decreases i - j + if seen { 0int } else { 1int },
        {
            assert(all[j as int] == names@[j as int]@ && all[i as int] == names@[i as int]@);
            if names[j] == names[i] {
                seen = true;
                assert(all.take(i as int)[j as int] == all[i as int]);
            } else {
                j += 1;
            }
        }
        proof {
            if !seen && all.take(i as int).contains(all[i as int]) {
                let k = choose|k: int| 0 <= k < i && all.take(i as int)[k] == all[i as int];
                assert(all[k] == all[i as int]);
            }
        }
        if seen {
            let ghost before = repeated@;
            repeated.push(names[i].clone());
            assert(text_views(repeated@) =~= text_views(before).push(all[i as int]));
        }
        i += 1;
    }
    if repeated.len() == 0 {
        return Ok(());
    }
    let ghost list = text_views(repeated@);
    let mut m = String::from_str("File contains duplicate column names: ");
    let ghost head = m@;
    let mut k: usize = 0;
    while k < repeated.len()
        invariant
            k <= repeated.len(),
            list == text_views(repeated@),
            head + listed_from(list, 0) == m@ + listed_from(list, k as int),
        decreases repeated.len() - k,
    {
        let ghost before = m@;
        if k > 0 {
            m.append(", ");
        }
        m.append(repeated[k].as_str());
        assert(list[k as int] == repeated@[k as int]@);
        assert(m@ + listed_from(list, k + 1) =~= before + listed_from(list, k as int));
        k += 1;
    }
    assert(m@ =~= head + listed_from(list, 0));
    m.append(". Malformed files with repeated columns are not allowed.");
    Err(DtransformError::InvalidOperation(m))
}

/// The text of a boolean.
pub open spec fn bool_text(b: bool) -> Seq<char> {
    if b {
        "true"@
    } else {
        "false"@
    }
}

/// The message for a delimited file whose rows differ in their number of
/// fields.
pub open spec fn fields_message(plan: ReadPlan, path: Seq<char>) -> Seq<char> {
    "CSV parsing error: Rows have different numbers of fields.\n\nThe auto-detected settings may be incorrect:\n• Detected delimiter: "@
        + char_debug(plan.delimiter) + "\n• Detected trim_whitespace: "@ + bool_text(
        plan.trim_whitespace,
    ) + "\n\nTry specifying explicitly:\n• read('"@ + path + "', delimiter=' ')  # space-separated\n• read('"@
        + path + "', delimiter='\\t')  # tab-separated\n• read('"@ + path
        + "', trim_whitespace=true)\n• read('"@ + path + "', skip_rows=N)  # skip header lines"@
}

/// Whether the engine's text speaks of rows with more fields or of a schema.
pub open spec fn speaks_of_fields(text: Seq<char>) -> bool {
    contains_text(text, "found more fields"@) || contains_text(text, "Schema"@)
}

/// The failure of a delimited read, given the engine's failure and its text:
/// a hint at the settings when the text speaks of fields or of a schema, and
/// the engine's failure itself otherwise.
pub fn explain_failure(e: PolarsError, text: &str, plan: &ReadPlan, path: &str) -> (r:
    DtransformError)
    ensures
        r@ == if speaks_of_fields(text@) {
            ErrorView::InvalidOperation(fields_message(*plan, path@))
        } else {
            ErrorView::PolarsError
        },
{
    if text_contains(text, "found more fields") || text_contains(text, "Schema") {
        let mut m = String::from_str(
            "CSV parsing error: Rows have different numbers of fields.\n\nThe auto-detected settings may be incorrect:\n• Detected delimiter: ",
        );
        m.append(char_debug_text(plan.delimiter).as_str());
        m.append("\n• Detected trim_whitespace: ");
        if plan.trim_whitespace {
            m.append("true");
        } else {
            m.append("false");
        }
        m.append("\n\nTry specifying explicitly:\n• read('");
        m.append(path);
        m.append("', delimiter=' ')  # space-separated\n• read('");
        m.append(path);
        m.append("', delimiter='\\t')  # tab-separated\n• read('");
        m.append(path);
        m.append("', trim_whitespace=true)\n• read('");
        m.append(path);
        m.append("', skip_rows=N)  # skip header lines");
        DtransformError::InvalidOperation(m)
    } else {
        DtransformError::PolarsError(e)
    }
}

/// The settings of a delimited write.
#[derive(Clone, Copy, Debug, PartialEq, Eq, Structural)]
pub struct WritePlan {
    pub kind: FileKind,
    pub delimiter: char,
    pub header: bool,
}

/// The settings of a write: the kind of file from the format given or the
/// path's extension; a header unless the operation says otherwise; the
/// delimiter given, else a tab for `tsv` and a comma for everything else.
pub open spec fn write_plan(op: WriteOpView) -> WritePlan {
    let format = format_of(op.format, op.path);
    WritePlan {
        kind: kind_of(format),
        delimiter: match op.delimiter {
            Some(d) => d,
            None => if format == Some("tsv"@) {
                '\t'
            } else {
                ','
            },
        },
        header: match op.header {
            Some(h) => h,
            None => true,
        },
    }
}

/// The settings of a write.
pub fn plan_write(op: &WriteOp) -> (r: WritePlan)
    ensures
        r == write_plan(op@),
{
    let format = choose_format(&op.format, op.path.as_str());
    let tabbed = match &format {
        Some(f) => same_text(f.as_str(), "tsv"),
        None => false,
    };
    WritePlan {
        kind: file_kind(&format),
        delimiter: match op.delimiter {
            Some(d) => d,
            None => if tabbed {
                '\t'
            } else {
                ','
            },
        },
        header: match op.header {
            Some(h) => h,
            None => true,
        },
    }
}

/// The byte that stands for a delimiter in a file: its code, cut to eight
/// bits.
pub open spec fn byte_of(c: char) -> u8 {
    (c as u32 % 256) as u8
}

/// The bytes that the engine's writer gives, or its failure.
pub open spec fn encoded_value(bytes: Option<Seq<u8>>) -> Result<Seq<u8>, ErrorView> {
    match bytes {
        Some(b) => Ok(b),
        None => Err(ErrorView::PolarsError),
    }
}

/// Whether `v` is what writing a table with the given settings gives: for
/// JSON and for delimited text the engine's encoding of the table, for
/// delimited text with the delimiter's byte as separator and with or without
/// the header line. Of the bytes of a Parquet file nothing is said.
pub open spec fn writes_as(v: Result<Seq<u8>, ErrorView>, df: DataFrame, plan: WritePlan) -> bool {
    match plan.kind {
        FileKind::Json => v == encoded_value(json_encoding(df)),
        FileKind::Parquet => v is Ok || v == Err::<Seq<u8>, ErrorView>(ErrorView::PolarsError),
        FileKind::Delimited => v == encoded_value(
            csv_encoding(df, byte_of(plan.delimiter), plan.header),
        ),
    }
}

/// The view of what a write hands back.
pub open spec fn bytes_view(r: Result<Vec<u8>, DtransformError>) -> Result<Seq<u8>, ErrorView> {
    match r {
        Ok(bytes) => Ok(bytes@),
        Err(e) => Err(e@),
    }
}

/// The byte that stands for a delimiter: its code, cut to eight bits.
pub fn delimiter_byte(c: char) -> (r: u8)
    ensures
        r == byte_of(c),
{
    let code = c as u32;
    (code % 256) as u8
}

/// The view of the content of a file as text.
pub open spec fn content_text(content: Seq<u8>) -> Option<Seq<char>> {
    if vstd::utf8::valid_utf8(content) {
        Some(vstd::utf8::decode_utf8(content))
    } else {
        None
    }
}

/// What becomes of a decoder's outcome: a table whose column names pass is
/// the result; one in which a name stands twice is refused; the engine's
/// failure is passed on.
pub open spec fn checked_value(decoded: Option<DataFrame>) -> Result<DataFrame, ErrorView> {
    match decoded {
        Some(table) => match names_checked(frame_names(table)) {
            Ok(_) => Ok(table),
            Err(e) => Err(e),
        },
        None => Err(ErrorView::PolarsError),
    }
}

/// What a decoder handed back, as a table or none.
pub open spec fn decoded_view(decoded: Result<DataFrame, PolarsError>) -> Option<DataFrame> {
    match decoded {
        Ok(table) => Some(table),
        Err(_) => None,
    }
}

/// The bytes that a delimited read decodes: the content, or with trimming
/// the trimmed text, which needs the content to be text.
pub open spec fn delimited_bytes(content: Seq<u8>, plan: ReadPlan) -> Option<Seq<u8>> {
    if plan.trim_whitespace {
        match content_text(content) {
            Some(t) => Some(vstd::utf8::encode_utf8(trimmed_text(t))),
            None => None,
        }
    } else {
        Some(content)
    }
}

/// Whether `v` is what a delimited read with the settings `plan` gives.
/// Content that is no text fails where the text is needed. A table that the
/// decoder makes must pass with its column names. A failure of the decoder
/// is passed on, or becomes a hint at the settings when the decoder's own text
/// speaks of fields or of a schema.
pub open spec fn delimited_as(
    v: Result<DataFrame, ErrorView>,
    content: Seq<u8>,
    plan: ReadPlan,
    path: Seq<char>,
) -> bool {
    match delimited_bytes(content, plan) {
        None => v == Err::<DataFrame, ErrorView>(ErrorView::IoError(not_text_message())),
        Some(bytes) => match csv_decoded(
            bytes,
            byte_of(plan.delimiter),
            plan.has_header,
            plan.skip_rows,
        ) {
            Some(table) => v == checked_value(Some(table)),
            None => v == Err::<DataFrame, ErrorView>(ErrorView::PolarsError) || v == Err::<
                DataFrame,
                ErrorView,
            >(ErrorView::InvalidOperation(fields_message(plan, path))),
        },
    }
}

/// Whether `v` is what some outcome of a decoder becomes once the column
/// names are tested.
pub open spec fn decoded_as(v: Result<DataFrame, ErrorView>) -> bool {
    exists|decoded: Option<DataFrame>| #[trigger] checked_value(decoded) == v
}

/// Whether `v` is what reading the content of a file gives. The format
/// decides the decoder. For delimited text the settings are completed by
/// detection where the operation leaves them open, and the decoder's table is
/// the one that the bytes and the settings decide. For JSON and Parquet the
/// table is whatever the decoder makes. In every format the column names of
/// the table must pass.
pub open spec fn reads_as(v: Result<DataFrame, ErrorView>, op: ReadOpView, content: Seq<u8>) -> bool {
    match kind_of(format_of(op.format, op.path)) {
        FileKind::Json => decoded_as(v),
        FileKind::Parquet => decoded_as(v),
        FileKind::Delimited => match read_plan(
            op,
            format_of(op.format, op.path),
            content_text(content),
        ) {
            Err(x) => v == Err::<DataFrame, ErrorView>(x),
            Ok(plan) => delimited_as(v, content, plan, op.path),
        },
    }
}

/// The view of what a read hands back.
pub open spec fn table_view(r: Result<DataFrame, DtransformError>) -> Result<DataFrame, ErrorView> {
    match r {
        Ok(table) => Ok(table),
        Err(e) => Err(e@),
    }
}

/// Tests the column names of what a decoder handed back.
pub fn check_decoded(decoded: Result<DataFrame, PolarsError>) -> (r: Result<
    DataFrame,
    DtransformError,
>)
    ensures
        table_view(r) == checked_value(decoded_view(decoded)),
{
    match decoded {
        Ok(table) => {
            let names = column_names(&table);
            match check_names(&names) {
                Ok(_) => Ok(table),
                Err(e) => Err(e),
            }
        },
        Err(e) => Err(DtransformError::PolarsError(e)),
    }
}

impl Executor {
    /// Rejects a table in which a column name stands twice.
    pub fn check_duplicate_columns(&self, df: &DataFrame) -> (r: Result<(), DtransformError>)
        ensures
            match names_checked(frame_names(*df)) {
                Ok(_) => r is Ok,
                Err(e) => r matches Err(x) && x@ == e,
            },
    {
        let names = column_names(df);
        check_names(&names)
    }

    /// Decodes a delimited file with the settings `plan`.
    fn read_delimited(&self, content: &Vec<u8>, text: &Option<String>, plan: &ReadPlan, path: &str) -> (r:
        Result<DataFrame, DtransformError>)
        requires
            format_view(*text) == content_text(content@),
        ensures
            delimited_as(table_view(r), content@, *plan, path@),
    {
        let separator = delimiter_byte(plan.delimiter);
        let result = if plan.trim_whitespace {
            match text {
                Some(t) => {
                    let trimmed = trim_text(t.as_str());
                    decode_csv(
                        trimmed.as_str().as_bytes(),
                        separator,
                        plan.has_header,
                        plan.skip_rows,
                    )
                },
                None => {
                    return Err(
                        DtransformError::IoError(
                            String::from_str("stream did not contain valid UTF-8"),
                        ),
                    );
                },
            }
        } else {
            decode_csv(content.as_slice(), separator, plan.has_header, plan.skip_rows)
        };
        match result {
            Ok(df) => check_decoded(Ok(df)),
            Err(e) => {
                let text = engine_error_text(&e);
                Err(explain_failure(e, text.as_str(), plan, path))
            },
        }
    }

    /// Reads a table from the content of a file. The format given, or else
    /// the path's extension, decides the decoder; for delimited text the
    /// delimiter and the trimming are detected where the operation leaves them
    /// open. A table in which a column name stands twice is refused.
    pub fn execute_read(&self, op: &ReadOp, content: &Vec<u8>) -> (r: Result<
        DataFrame,
        DtransformError,
    >)
        ensures
            reads_as(table_view(r), op@, content@),
            r matches Ok(df) ==> names_checked(frame_names(df)) is Ok,
    {
        let format = choose_format(&op.format, op.path.as_str());
        match file_kind(&format) {
            FileKind::Json => {
                let decoded = decode_json(content);
                let r = check_decoded(decoded);
                assert(checked_value(decoded_view(decoded)) == table_view(r));
                r
            },
            FileKind::Parquet => {
                let decoded = decode_parquet(content);
                let r = check_decoded(decoded);
                assert(checked_value(decoded_view(decoded)) == table_view(r));
                r
            },
            FileKind::Delimited => {
                let text = decode_text(content);
                let plan = plan_read(op, &format, &text)?;
                self.read_delimited(content, &text, &plan, op.path.as_str())
            },
        }
    }

    /// Encodes a table as the write operation asks, with the settings of
    /// `write_plan`. The bytes are for the caller to write to the operation's
    /// path.
    pub fn execute_write(&self, df: &DataFrame, op: &WriteOp) -> (r: Result<
        Vec<u8>,
        DtransformError,
    >)
        ensures
            writes_as(bytes_view(r), *df, write_plan(op@)),
    {
        let plan = plan_write(op);
        match plan.kind {
            FileKind::Json => engine_failure(encode_json(df)),
            FileKind::Parquet => engine_failure(encode_parquet(df)),
            FileKind::Delimited => engine_failure(
                encode_csv(df, delimiter_byte(plan.delimiter), plan.header),
            ),
        }
    }
}

} // verus!
