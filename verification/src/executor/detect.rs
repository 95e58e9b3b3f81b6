//! Auto-detection of the delimiter and the whitespace-trim policy of a
//! delimited text file, from a sample of its lines.

use vstd::prelude::*;
use crate::error::{DtransformError, ErrorView};
use crate::text::{same_text, to_chars};

verus! {

/// Whether `c` is white space: the characters with the Unicode property
/// `White_Space`.
pub open spec fn is_space(c: char) -> bool {
    ('\u{9}' <= c <= '\u{d}') || c == ' ' || c == '\u{85}' || c == '\u{a0}' || c == '\u{1680}' || (
    '\u{2000}' <= c <= '\u{200a}') || c == '\u{2028}' || c == '\u{2029}' || c == '\u{202f}' || c
        == '\u{205f}' || c == '\u{3000}'
}

/// Whether `c` is white space.
pub fn char_is_space(c: char) -> (r: bool)
    ensures
        r == is_space(c),
{
    ('\u{9}' <= c && c <= '\u{d}') || c == ' ' || c == '\u{85}' || c == '\u{a0}' || c
        == '\u{1680}' || ('\u{2000}' <= c && c <= '\u{200a}') || c == '\u{2028}' || c == '\u{2029}'
        || c == '\u{202f}' || c == '\u{205f}' || c == '\u{3000}'
}

/// A line without the carriage return that stood before its line feed.
pub open spec fn without_return(line: Seq<char>) -> Seq<char> {
    if line.len() > 0 && line.last() == '\r' {
        line.drop_last()
    } else {
        line
    }
}

/// The lines of `s` from the line that starts at `start`, with the search
/// for its end at `at`. A line ends at a line feed, which is not part of it,
/// nor is a carriage return just before the line feed. Text behind the last
/// line feed is a line if it is not empty.
pub open spec fn lines_from(s: Seq<char>, start: int, at: int) -> Seq<Seq<char>>
    decreases s.len() - at,
{
    if at < 0 || at >= s.len() {
        if 0 <= start < s.len() {
            seq![s.subrange(start, s.len() as int)]
        } else {
            Seq::empty()
        }
    } else if s[at] == '\n' {
        seq![without_return(s.subrange(start, at))] + lines_from(s, at + 1, at + 1)
    } else {
        lines_from(s, start, at + 1)
    }
}

/// The lines of a text.
pub open spec fn text_lines(s: Seq<char>) -> Seq<Seq<char>> {
    lines_from(s, 0, 0)
}

/// Whether a line holds nothing but white space.
pub open spec fn is_blank(line: Seq<char>) -> bool {
    forall|i: int| 0 <= i < line.len() ==> is_space(#[trigger] line[i])
}

/// Whether two spaces stand side by side in the line.
pub open spec fn has_double_space(line: Seq<char>) -> bool {
    exists|i: int| 0 <= i < line.len() - 1 && #[trigger] line[i] == ' ' && line[i + 1] == ' '
}

/// Whether a line calls for trimming: it starts or ends with white space, or
/// holds a run of two or more spaces.
pub open spec fn needs_trim(line: Seq<char>) -> bool {
    (line.len() > 0 && (is_space(line[0]) || is_space(line.last()))) || has_double_space(line)
}

/// Whether one of the first `n` lines calls for trimming.
pub open spec fn any_needs_trim(lines: Seq<Seq<char>>, n: int) -> bool {
    exists|i: int| 0 <= i < n && i < lines.len() && needs_trim(#[trigger] lines[i])
}

/// The largest number of lines that are sampled.
pub open spec fn sample_limit() -> nat {
    100
}

/// The sample: behind `acc`, the lines from index `from` on that are not
/// blank, until the sample is full.
pub open spec fn sample_from(lines: Seq<Seq<char>>, from: int, acc: Seq<Seq<char>>) -> Seq<
    Seq<char>,
>
    decreases lines.len() - from,
{
    if from < 0 || from >= lines.len() || acc.len() >= sample_limit() {
        acc
    } else if is_blank(lines[from]) {
        sample_from(lines, from + 1, acc)
    } else {
        sample_from(lines, from + 1, acc.push(lines[from]))
    }
}

/// A line trimmed, with every run of white space inside it collapsed to one
/// space.
pub open spec fn collapsed(line: Seq<char>) -> Seq<char>
    decreases line.len(),
{
    if line.len() == 0 {
        Seq::empty()
    } else if is_space(line.last()) {
        collapsed(line.drop_last())
    } else if collapsed(line.drop_last()).len() > 0 && line.len() >= 2 && is_space(
        line[line.len() - 2],
    ) {
        collapsed(line.drop_last()).push(' ').push(line.last())
    } else {
        collapsed(line.drop_last()).push(line.last())
    }
}

/// Every line collapsed.
pub open spec fn all_collapsed(lines: Seq<Seq<char>>) -> Seq<Seq<char>> {
    lines.map_values(|l: Seq<char>| collapsed(l))
}

/// How often `d` stands in the line.
pub open spec fn count_char(line: Seq<char>, d: char) -> nat
    decreases line.len(),
{
    if line.len() == 0 {
        0
    } else {
        count_char(line.drop_last(), d) + if line.last() == d {
            1nat
        } else {
            0nat
        }
    }
}

/// How often `d` stands in the first `n` lines together.
pub open spec fn total(lines: Seq<Seq<char>>, d: char, n: int) -> nat
    decreases n,
{
    if n <= 0 || n > lines.len() {
        0
    } else {
        total(lines, d, n - 1) + count_char(lines[n - 1], d)
    }
}

/// How many of the first `n` lines hold `d`.
pub open spec fn present(lines: Seq<Seq<char>>, d: char, n: int) -> nat
    decreases n,
{
    if n <= 0 || n > lines.len() {
        0
    } else {
        present(lines, d, n - 1) + if count_char(lines[n - 1], d) > 0 {
            1nat
        } else {
            0nat
        }
    }
}

/// The largest count of `d` in one of the first `n` lines.
pub open spec fn largest(lines: Seq<Seq<char>>, d: char, n: int) -> nat
    decreases n,
{
    if n <= 0 || n > lines.len() {
        0
    } else if count_char(lines[n - 1], d) > largest(lines, d, n - 1) {
        count_char(lines[n - 1], d)
    } else {
        largest(lines, d, n - 1)
    }
}

/// The smallest count of `d` among those of the first `n` lines that hold
/// it; 0 when none does.
pub open spec fn smallest(lines: Seq<Seq<char>>, d: char, n: int) -> nat
    decreases n,
{
    if n <= 0 || n > lines.len() {
        0
    } else if count_char(lines[n - 1], d) > 0 && (smallest(lines, d, n - 1) == 0 || count_char(
        lines[n - 1],
        d,
    ) < smallest(lines, d, n - 1)) {
        count_char(lines[n - 1], d)
    } else {
        smallest(lines, d, n - 1)
    }
}

/// Whether `d` is accepted as a delimiter of the lines: some line holds it,
/// and over the lines that hold it the count is the same everywhere, or its
/// spread `(max - min) / avg` is below 0.3.
pub open spec fn accepted(lines: Seq<Seq<char>>, d: char) -> bool {
    let n = lines.len() as int;
    &&& present(lines, d, n) > 0
    &&& (smallest(lines, d, n) == largest(lines, d, n) || (largest(lines, d, n) - smallest(
        lines,
        d,
        n,
    )) * present(lines, d, n) * 10 < 3 * total(lines, d, n))
}

/// The score of a candidate on lines of which there are `lines.len()`: its
/// average count over the lines that hold it, times the fraction of the lines
/// that hold it, which is its total count by the number of lines. With the
/// number of lines fixed, scores compare as the total counts do.
pub open spec fn score(lines: Seq<Seq<char>>, d: char) -> nat {
    total(lines, d, lines.len() as int)
}

/// The candidate delimiters, in the order in which ties are decided.
pub open spec fn candidates() -> Seq<char> {
    seq![',', '\t', '|', ';', ' ']
}

/// The best of the first `n` candidates: the accepted candidate with the
/// highest score, and of several with that score the first.
pub open spec fn best_of(lines: Seq<Seq<char>>, n: int) -> Option<char>
    decreases n,
{
    if n <= 0 || n > candidates().len() {
        None
    } else {
        let d = candidates()[n - 1];
        match best_of(lines, n - 1) {
            None => if accepted(lines, d) {
                Some(d)
            } else {
                None
            },
            Some(b) => if accepted(lines, d) && score(lines, d) > score(lines, b) {
                Some(d)
            } else {
                Some(b)
            },
        }
    }
}

/// Whether none of the first `n` candidates stands in any line.
pub open spec fn none_present(lines: Seq<Seq<char>>, n: int) -> bool {
    forall|i: int|
        0 <= i < n && i < candidates().len() ==> total(
            lines,
            #[trigger] candidates()[i],
            lines.len() as int,
        ) == 0
}

/// The message for a file without a line that is not blank.
pub open spec fn empty_message() -> Seq<char> {
    "File is empty or contains no data"@
}

/// The message for a file on which no candidate is consistent.
pub open spec fn ambiguous_message() -> Seq<char> {
    "Could not auto-detect delimiter. The file format is ambiguous.\n\nPlease specify the delimiter explicitly:\n• Comma: read('file', delimiter=',')\n• Tab: read('file', delimiter='\\t')\n• Pipe: read('file', delimiter='|')\n• Semicolon: read('file', delimiter=';')\n• Space: read('file', delimiter=' ')"@
}

/// The lines on which the candidates are counted: the sample, collapsed when
/// it calls for trimming.
pub open spec fn detection_lines(sample: Seq<Seq<char>>) -> Seq<Seq<char>> {
    if any_needs_trim(sample, sample.len() as int) {
        all_collapsed(sample)
    } else {
        sample
    }
}

/// The delimiter that an extension speaks for: the tab for `tsv`, the comma
/// for `csv`.
pub open spec fn preferred(extension: Option<Seq<char>>) -> Option<char> {
    if extension == Some("tsv"@) {
        Some('\t')
    } else if extension == Some("csv"@) {
        Some(',')
    } else {
        None
    }
}

/// The winner among the candidates: the best of them, or the delimiter that
/// the extension speaks for when that one is accepted and scores as high.
pub open spec fn winner(lines: Seq<Seq<char>>, best: char, extension: Option<Seq<char>>) -> char {
    match preferred(extension) {
        Some(p) => if accepted(lines, p) && score(lines, p) == score(lines, best) {
            p
        } else {
            best
        },
        None => best,
    }
}

/// The delimiter and the trim policy detected in a text.
///
/// Both come from the sample of the first hundred lines that are not blank:
/// a text without such a line fails; the best accepted candidate wins, and the
/// extension decides only between candidates that score alike; without an
/// accepted candidate, a text in which no candidate occurs at all is a single
/// column (the comma is returned), and any other text is ambiguous.
pub open spec fn detected(content: Seq<char>, extension: Option<Seq<char>>) -> Result<
    (char, bool),
    ErrorView,
> {
    let sample = sample_from(text_lines(content), 0, Seq::empty());
    if sample.len() == 0 {
        Err(ErrorView::InvalidOperation(empty_message()))
    } else {
        let trim = any_needs_trim(sample, sample.len() as int);
        let counted = detection_lines(sample);
        match best_of(counted, candidates().len() as int) {
            Some(d) => Ok((winner(counted, d, extension), trim)),
            None => if none_present(counted, candidates().len() as int) {
                Ok((',', trim))
            } else {
                Err(ErrorView::InvalidOperation(ambiguous_message()))
            },
        }
    }
}

/// The best candidate is accepted, and no accepted candidate scores higher.
pub proof fn best_is_maximal(lines: Seq<Seq<char>>, n: int)
    requires
        0 <= n <= candidates().len(),
    ensures
        match best_of(lines, n) {
            Some(b) => accepted(lines, b) && forall|i: int|
                0 <= i < n && accepted(lines, #[trigger] candidates()[i]) ==> score(
                    lines,
                    candidates()[i],
                ) <= score(lines, b),
            None => forall|i: int| 0 <= i < n ==> !accepted(lines, #[trigger] candidates()[i]),
        },
    decreases n,
{
    if n > 0 {
        best_is_maximal(lines, n - 1);
    }
}

/// The views of a list of lines.
pub open spec fn line_views(lines: Seq<Vec<char>>) -> Seq<Seq<char>> {
    lines.map_values(|l: Vec<char>| l@)
}

/// The part `chars[from..to]`.
fn part(chars: &Vec<char>, from: usize, to: usize) -> (r: Vec<char>)
    requires
        from <= to <= chars.len(),
    ensures
        r@ == chars@.subrange(from as int, to as int),
{
    let mut out: Vec<char> = Vec::new();
    let mut i: usize = from;
    while i < to
        invariant
            from <= i <= to <= chars.len(),
            out@ == chars@.subrange(from as int, i as int),
        decreases to - i,
    {
        out.push(chars[i]);
        i += 1;
        assert(out@ =~= chars@.subrange(from as int, i as int));
    }
    out
}

/// The lines of a text.
pub fn split_lines(chars: &Vec<char>) -> (r: Vec<Vec<char>>)
    ensures
        line_views(r@) == text_lines(chars@),
{
    let mut out: Vec<Vec<char>> = Vec::new();
    let mut start: usize = 0;
    let mut at: usize = 0;
    assert(line_views(out@) =~= Seq::<Seq<char>>::empty());
    while at < chars.len()
        invariant
            start <= at <= chars.len(),
            text_lines(chars@) == line_views(out@) + lines_from(chars@, start as int, at as int),
        decreases chars.len() - at,
    {
        if chars[at] == '\n' {
            let end = if at > start && chars[at - 1] == '\r' {
                at - 1
            } else {
                at
            };
            let line = part(chars, start, end);
            proof {
                let whole = chars@.subrange(start as int, at as int);
                assert(line@ =~= without_return(whole));
            }
            let ghost before = out@;
            out.push(line);
            assert(line_views(out@) =~= line_views(before).push(line@));
            assert(line_views(out@) + lines_from(chars@, at + 1, at + 1) =~= line_views(before)
                + lines_from(chars@, start as int, at as int));
            at += 1;
            start = at;
        } else {
            at += 1;
        }
    }
    if start < chars.len() {
        let line = part(chars, start, chars.len());
        let ghost before = out@;
        out.push(line);
        assert(line_views(out@) =~= line_views(before).push(line@));
        assert(line_views(out@) =~= text_lines(chars@));
    } else {
        assert(line_views(out@) =~= text_lines(chars@));
    }
    out
}

/// Whether a line holds nothing but white space.
pub fn line_is_blank(line: &Vec<char>) -> (r: bool)
    ensures
        r == is_blank(line@),
{
    let mut i: usize = 0;
    while i < line.len()
        invariant
            i <= line.len(),
            forall|j: int| 0 <= j < i ==> is_space(#[trigger] line@[j]),
        decreases line.len() - i,
    {
        if !char_is_space(line[i]) {
            return false;
        }
        i += 1;
    }
    true
}

/// Whether a line calls for trimming.
pub fn line_needs_trim(line: &Vec<char>) -> (r: bool)
    ensures
        r == needs_trim(line@),
{
    if line.len() > 0 && (char_is_space(line[0]) || char_is_space(line[line.len() - 1])) {
        return true;
    }
    let mut i: usize = 0;
    while line.len() >= 2 && i < line.len() - 1
        invariant
            i <= line.len(),
            forall|j: int| 0 <= j < i && j < line.len() - 1 ==> !(#[trigger] line@[j] == ' '
                && line@[j + 1] == ' '),
        decreases line.len() - i,
    {
        if line[i] == ' ' && line[i + 1] == ' ' {
            return true;
        }
        i += 1;
    }
    false
}

/// Whether one of the first `n` lines calls for trimming.
pub fn lines_need_trim(lines: &Vec<Vec<char>>, n: usize) -> (r: bool)
    ensures
        r == any_needs_trim(line_views(lines@), n as int),
{
    let mut i: usize = 0;
    while i < n && i < lines.len()
        invariant
            forall|j: int| 0 <= j < i && j < lines.len() ==> !needs_trim(
                #[trigger] line_views(lines@)[j],
            ),
        decreases lines.len() - i,
    {
        if line_needs_trim(&lines[i]) {
            assert(needs_trim(line_views(lines@)[i as int]));
            return true;
        }
        i += 1;
    }
    false
}

/// The first hundred lines that are not blank.
pub fn sample_lines(lines: &Vec<Vec<char>>) -> (r: Vec<Vec<char>>)
    ensures
        line_views(r@) == sample_from(line_views(lines@), 0, Seq::empty()),
        r.len() <= sample_limit(),
{
    let ghost all = line_views(lines@);
    let mut out: Vec<Vec<char>> = Vec::new();
    let mut i: usize = 0;
    assert(line_views(out@) =~= Seq::<Seq<char>>::empty());
    while i < lines.len() && out.len() < 100
        invariant
            i <= lines.len(),
            out.len() <= 100,
            all == line_views(lines@),
            sample_from(all, 0, Seq::empty()) == sample_from(all, i as int, line_views(out@)),
        decreases lines.len() - i,
    {
        assert(all[i as int] == lines@[i as int]@);
        if !line_is_blank(&lines[i]) {
            let ghost before = out@;
            out.push(part(&lines[i], 0, lines[i].len()));
            assert(lines@[i as int]@.subrange(0, lines@[i as int]@.len() as int) =~= lines@[i as int]@);
            assert(line_views(out@) =~= line_views(before).push(all[i as int]));
        }
        i += 1;
    }
    out
}

/// A line trimmed, with every run of white space inside it collapsed to one
/// space.
pub fn collapse_line(line: &Vec<char>) -> (r: Vec<char>)
    ensures
        r@ == collapsed(line@),
{
    let mut out: Vec<char> = Vec::new();
    let mut i: usize = 0;
    assert(line@.take(0) =~= Seq::<char>::empty());
    while i < line.len()
        invariant
            i <= line.len(),
            out@ == collapsed(line@.take(i as int)),
        decreases line.len() - i,
    {
        proof {
            let next = line@.take(i + 1);
            assert(next.drop_last() =~= line@.take(i as int));
            assert(next.last() == line@[i as int]);
            if i >= 1 {
                assert(next[next.len() - 2] == line@[i - 1]);
            }
        }
        let c = line[i];
        if !char_is_space(c) {
            if out.len() > 0 && i >= 1 && char_is_space(line[i - 1]) {
                out.push(' ');
            }
            out.push(c);
        }
        i += 1;
    }
    assert(line@.take(line.len() as int) =~= line@);
    out
}

/// Every line collapsed.
pub fn collapse_lines(lines: &Vec<Vec<char>>) -> (r: Vec<Vec<char>>)
    ensures
        line_views(r@) == all_collapsed(line_views(lines@)),
        r.len() == lines.len(),
{
    let mut out: Vec<Vec<char>> = Vec::new();
    let mut i: usize = 0;
    while i < lines.len()
        invariant
            i <= lines.len(),
            out.len() == i,
            forall|j: int| 0 <= j < i ==> (#[trigger] out@[j])@ == collapsed(lines@[j]@),
        decreases lines.len() - i,
    {
        out.push(collapse_line(&lines[i]));
        i += 1;
    }
    assert(line_views(out@) =~= all_collapsed(line_views(lines@)));
    out
}

/// How often `d` stands in the line.
pub fn count_in_line(line: &Vec<char>, d: char) -> (r: usize)
    ensures
        r == count_char(line@, d),
{
    let mut n: usize = 0;
    let mut i: usize = 0;
    assert(line@.take(0) =~= Seq::<char>::empty());
    while i < line.len()
        invariant
            i <= line.len(),
            n <= i,
            n == count_char(line@.take(i as int), d),
        decreases line.len() - i,
    {
        proof {
            let next = line@.take(i + 1);
            assert(next.drop_last() =~= line@.take(i as int));
            assert(next.last() == line@[i as int]);
        }
        if line[i] == d {
            n += 1;
        }
        i += 1;
    }
    assert(line@.take(line.len() as int) =~= line@);
    n
}

/// The counts of one candidate over the lines.
pub struct Tally {
    /// How often it stands in all lines together.
    pub total: u128,
    /// How many lines hold it.
    pub present: u128,
    /// Its smallest count among the lines that hold it.
    pub smallest: u128,
    /// Its largest count in one line.
    pub largest: u128,
}

/// The counts of a candidate over at most a hundred lines.
pub fn tally(lines: &Vec<Vec<char>>, d: char) -> (r: Tally)
    requires
        lines.len() <= sample_limit(),
    ensures
        r.total == total(line_views(lines@), d, lines.len() as int),
        r.present == present(line_views(lines@), d, lines.len() as int),
        r.smallest == smallest(line_views(lines@), d, lines.len() as int),
        r.largest == largest(line_views(lines@), d, lines.len() as int),
        r.present <= lines.len(),
        r.smallest <= r.largest <= usize::MAX,
        r.total <= lines.len() * usize::MAX,
{
    let ghost all = line_views(lines@);
    let mut t = Tally { total: 0, present: 0, smallest: 0, largest: 0 };
    let mut i: usize = 0;
    while i < lines.len()
        invariant
            i <= lines.len() <= 100,
            all == line_views(lines@),
            t.total == total(all, d, i as int),
            t.present == present(all, d, i as int),
            t.smallest == smallest(all, d, i as int),
            t.largest == largest(all, d, i as int),
            t.present <= i,
            t.smallest <= t.largest <= usize::MAX,
            t.total <= i * usize::MAX,
        decreases lines.len() - i,
    {
        assert(all[i as int] == lines@[i as int]@);
        let c = count_in_line(&lines[i], d) as u128;
        assert((i + 1) * usize::MAX == i * usize::MAX + usize::MAX) by (nonlinear_arith);
        assert(i * usize::MAX <= 100 * usize::MAX) by (nonlinear_arith)
            requires
                i <= 100,
        ;
        let smallest = if c > 0 && (t.smallest == 0 || c < t.smallest) {
            c
        } else {
            t.smallest
        };
        t = Tally {
            total: t.total + c,
            present: if c > 0 {
                t.present + 1
            } else {
                t.present
            },
            smallest,
            largest: if c > t.largest {
                c
            } else {
                t.largest
            },
        };
        i += 1;
    }
    t
}

/// Whether a candidate with these counts is accepted.
fn tally_accepted(t: &Tally, lines: Ghost<Seq<Seq<char>>>, d: Ghost<char>) -> (r: bool)
    requires
        lines@.len() <= sample_limit(),
        t.total == total(lines@, d@, lines@.len() as int),
        t.present == present(lines@, d@, lines@.len() as int),
        t.smallest == smallest(lines@, d@, lines@.len() as int),
        t.largest == largest(lines@, d@, lines@.len() as int),
        t.present <= lines@.len(),
        t.smallest <= t.largest <= usize::MAX,
        t.total <= lines@.len() * usize::MAX,
    ensures
        r == accepted(lines@, d@),
{
    if t.present == 0 {
        return false;
    }
    if t.smallest == t.largest {
        return true;
    }
    let spread = t.largest - t.smallest;
    assert(spread * t.present <= usize::MAX * 100) by (nonlinear_arith)
        requires
            spread <= usize::MAX,
            t.present <= 100,
    ;
    assert(lines@.len() * usize::MAX <= 100 * usize::MAX) by (nonlinear_arith)
        requires
            lines@.len() <= 100,
    ;
    let left = spread * t.present * 10;
    let right = 3 * t.total;
    left < right
}

/// The candidate that wins on the lines, if one is accepted.
pub fn choose_delimiter(lines: &Vec<Vec<char>>) -> (r: (Option<char>, bool))
    requires
        lines.len() <= sample_limit(),
    ensures
        r.0 == best_of(line_views(lines@), candidates().len() as int),
        r.1 == none_present(line_views(lines@), candidates().len() as int),
{
    let ghost all = line_views(lines@);
    let list: [char; 5] = [',', '\t', '|', ';', ' '];
    assert(list@ =~= candidates());
    let mut best: Option<char> = None;
    let mut best_score: u128 = 0;
    let mut absent = true;
    let mut i: usize = 0;
    while i < 5
        invariant
            i <= 5,
            lines.len() <= 100,
            all == line_views(lines@),
            list@ == candidates(),
            best == best_of(all, i as int),
            best matches Some(b) ==> best_score == score(all, b),
            absent == none_present(all, i as int),
        decreases 5 - i,
    {
        let d = list[i];
        let t = tally(lines, d);
        let ok = tally_accepted(&t, Ghost(all), Ghost(d));
        if t.total != 0 {
            absent = false;
        }
        let better = match best {
            None => ok,
            Some(_) => ok && t.total > best_score,
        };
        if better {
            best = Some(d);
            best_score = t.total;
        }
        i += 1;
    }
    (best, absent)
}

/// Detects the delimiter and the trim policy of a delimited text. The
/// extension, where the caller knows one, is the file's extension or the
/// format that the caller named.
pub fn auto_detect_delimiter(content: &str, file_extension: Option<&str>) -> (r: Result<
    (char, bool),
    DtransformError,
>)
    ensures
        match detected(
            content@,
            match file_extension {
                Some(e) => Some(e@),
                None => None,
            },
        ) {
            Ok(found) => r == Ok::<(char, bool), DtransformError>(found),
            Err(e) => r matches Err(x) && x@ == e,
        },
{
    let chars = to_chars(content);
    let lines = split_lines(&chars);
    let sample = sample_lines(&lines);
    if sample.len() == 0 {
        return Err(
            DtransformError::InvalidOperation(String::from_str("File is empty or contains no data")),
        );
    }
    let trim = lines_need_trim(&sample, sample.len());
    let counted = if trim {
        collapse_lines(&sample)
    } else {
        sample
    };
    let choice = choose_delimiter(&counted);
    let wanted: Option<char> = match file_extension {
        Some(e) => {
            if same_text(e, "tsv") {
                Some('\t')
            } else if same_text(e, "csv") {
                Some(',')
            } else {
                None
            }
        },
        None => None,
    };
    match choice.0 {
        Some(d) => {
            match wanted {
                Some(p) => {
                    let mine = tally(&counted, p);
                    let best = tally(&counted, d);
                    if tally_accepted(&mine, Ghost(line_views(counted@)), Ghost(p)) && mine.total
                        == best.total {
                        Ok((p, trim))
                    } else {
                        Ok((d, trim))
                    }
                },
                None => Ok((d, trim)),
            }
        },
        None => {
            if choice.1 {
                Ok((',', trim))
            } else {
                Err(
                    DtransformError::InvalidOperation(
                        String::from_str(
                            "Could not auto-detect delimiter. The file format is ambiguous.\n\nPlease specify the delimiter explicitly:\n• Comma: read('file', delimiter=',')\n• Tab: read('file', delimiter='\\t')\n• Pipe: read('file', delimiter='|')\n• Semicolon: read('file', delimiter=';')\n• Space: read('file', delimiter=' ')",
                        ),
                    ),
                )
            }
        },
    }
}

} // verus!
