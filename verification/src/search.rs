//! The search itself: the lines of a text that contain a query, each with
//! its line number.

use vstd::prelude::*;
use vstd::slice::slice_subrange;
use crate::lines::{first_line, lines};
use crate::text::{chars_of, contains, is_substring, lowercase, string_of};

verus! {

/// What the search says, on the output sink, when nothing was found.
pub const NO_RESULTS: &'static str = "---> No results found";

/// One line that matched, with its position in the text.
#[derive(Debug, PartialEq, Eq)]
pub struct SearchResult {
    /// The whole line, as it stands in the text.
    pub line: String,
    /// The line's number in the text; the first line has number 1.
    pub line_number: usize,
}

/// A `SearchResult` as a mathematical value.
pub struct Match {
    /// The characters of the line.
    pub line: Seq<char>,
    /// The line's number in the text, counted from 1.
    pub line_number: nat,
}

impl View for SearchResult {
    type V = Match;

    open spec fn view(&self) -> Match {
        Match { line: self.line@, line_number: self.line_number as nat }
    }
}

impl DeepView for SearchResult {
    type V = Match;

    open spec fn deep_view(&self) -> Match {
        self@
    }
}

impl SearchResult {
    /// A result for the line `line`, found at line number `line_number`.
    pub fn new(line: String, line_number: usize) -> (result: SearchResult)
        ensures
            result.line == line,
            result.line_number == line_number,
    {
        SearchResult { line, line_number }
    }
}

/// Whether `line` matches `query`: it contains the query as it is written
/// or, where case is ignored, its lowercase form contains the lowercase form
/// of the query.
pub open spec fn line_matches(query: Seq<char>, line: Seq<char>, ignore_case: bool) -> bool {
    if ignore_case {
        is_substring(lowercase(query), lowercase(line))
    } else {
        is_substring(query, line)
    }
}

/// The test that a search for `query` applies to each numbered line.
pub open spec fn hit(query: Seq<char>, ignore_case: bool) -> spec_fn(Match) -> bool {
    |m: Match| line_matches(query, m.line, ignore_case)
}

/// Each of `lines` with its number, counted from 1.
pub open spec fn numbered(lines: Seq<Seq<char>>) -> Seq<Match> {
    Seq::new(lines.len(), |i: int| Match { line: lines[i], line_number: (i + 1) as nat })
}

/// What a search for `query` in `text` finds: the numbered lines of `text`
/// that match, in the order of the text.
pub open spec fn matching(query: Seq<char>, text: Seq<char>, ignore_case: bool) -> Seq<Match> {
    numbered(lines(text)).filter(hit(query, ignore_case))
}

/// What a search that found `found` writes to the output sink: one notice
/// where it found nothing, and nothing else.
pub open spec fn notice(found: Seq<Match>) -> Seq<Seq<char>> {
    if found.len() == 0 {
        seq![NO_RESULTS@]
    } else {
        Seq::empty()
    }
}

/// The matches among numbered lines keep the numbers of those lines, and
/// stand in ascending order of them.
proof fn lemma_hits_in_order(ls: Seq<Seq<char>>, pred: spec_fn(Match) -> bool)
    ensures
        forall|i: int|
            0 <= i < numbered(ls).filter(pred).len() ==> 1 <= (#[trigger] numbered(ls).filter(
                pred,
            )[i]).line_number <= ls.len(),
        forall|i: int, j: int|
            0 <= i < j < numbered(ls).filter(pred).len() ==> (#[trigger] numbered(ls).filter(
                pred,
            )[i]).line_number < (#[trigger] numbered(ls).filter(pred)[j]).line_number,
    decreases ls.len(),
{
    if ls.len() == 0 {
        numbered(ls).lemma_filter_len(pred);
    } else {
        let front = ls.drop_last();
        let last = Match { line: ls.last(), line_number: ls.len() };
        assert(numbered(ls) =~= numbered(front).push(last));
        numbered(front).lemma_filter_push(last, pred);
        lemma_hits_in_order(front, pred);
    }
}

/// A search reports only lines of the text that match the query, each
/// under the number at which it stands in the text.
pub proof fn lemma_matching_sound(query: Seq<char>, text: Seq<char>, ignore_case: bool, i: int)
    requires
        0 <= i < matching(query, text, ignore_case).len(),
    ensures
        1 <= matching(query, text, ignore_case)[i].line_number <= lines(text).len(),
        matching(query, text, ignore_case)[i].line == lines(text)[matching(
            query,
            text,
            ignore_case,
        )[i].line_number - 1],
        line_matches(query, matching(query, text, ignore_case)[i].line, ignore_case),
{
    let all = numbered(lines(text));
    let found = matching(query, text, ignore_case);
    all.lemma_filter_pred(hit(query, ignore_case), i);
    all.lemma_filter_contains_rev(hit(query, ignore_case), found[i]);
}

/// A search reports its findings in ascending order of line numbers, so no
/// line is reported twice.
pub proof fn lemma_matching_ascending(
    query: Seq<char>,
    text: Seq<char>,
    ignore_case: bool,
    i: int,
    j: int,
)
    requires
        0 <= i < j < matching(query, text, ignore_case).len(),
    ensures
        matching(query, text, ignore_case)[i].line_number < matching(
            query,
            text,
            ignore_case,
        )[j].line_number,
{
    lemma_hits_in_order(lines(text), hit(query, ignore_case));
}

/// A search reports every line of the text that matches the query: line
/// `k + 1` of the text, if it matches, is among the findings, with its text
/// and under its number.
pub proof fn lemma_matching_complete(query: Seq<char>, text: Seq<char>, ignore_case: bool, k: int)
    requires
        0 <= k < lines(text).len(),
        line_matches(query, lines(text)[k], ignore_case),
    ensures
        matching(query, text, ignore_case).contains(
            Match { line: lines(text)[k], line_number: (k + 1) as nat },
        ),
{
    numbered(lines(text)).lemma_filter_contains(hit(query, ignore_case), k);
}

/// A search that ignores case reports line `k + 1` of the text exactly if
/// the lowercase form of that line contains the lowercase form of the query.
pub proof fn lemma_ignore_case_compares_lowercase(query: Seq<char>, text: Seq<char>, k: int)
    requires
        0 <= k < lines(text).len(),
    ensures
        matching(query, text, true).contains(
            Match { line: lines(text)[k], line_number: (k + 1) as nat },
        ) <==> is_substring(lowercase(query), lowercase(lines(text)[k])),
{
    let all = numbered(lines(text));
    let found = matching(query, text, true);
    if found.contains(all[k]) {
        let i = choose|i: int| 0 <= i < found.len() && found[i] == all[k];
        all.lemma_filter_pred(hit(query, true), i);
    }
    if is_substring(lowercase(query), lowercase(lines(text)[k])) {
        lemma_matching_complete(query, text, true, k);
    }
}

/// A search finds nothing exactly if no line of the text matches the query,
/// and it is then that it writes its notice.
pub proof fn lemma_nothing_found(query: Seq<char>, text: Seq<char>, ignore_case: bool)
    ensures
        matching(query, text, ignore_case) == Seq::<Match>::empty() <==> (forall|k: int|
            0 <= k < lines(text).len() ==> !line_matches(
                query,
                #[trigger] lines(text)[k],
                ignore_case,
            )),
        matching(query, text, ignore_case) == Seq::<Match>::empty() <==> notice(
            matching(query, text, ignore_case),
        ) == seq![NO_RESULTS@],
        matching(query, text, ignore_case) != Seq::<Match>::empty() <==> notice(
            matching(query, text, ignore_case),
        ) == Seq::<Seq<char>>::empty(),
{
    let found = matching(query, text, ignore_case);
    if found.len() == 0 {
        assert(found =~= Seq::<Match>::empty());
        assert forall|k: int| 0 <= k < lines(text).len() implies !line_matches(
            query,
            #[trigger] lines(text)[k],
            ignore_case,
        ) by {
            if line_matches(query, lines(text)[k], ignore_case) {
                lemma_matching_complete(query, text, ignore_case, k);
            }
        }
    } else {
        lemma_matching_sound(query, text, ignore_case, 0);
    }
}

/// Searching twice for the same query in the same text finds the same both
/// times, and writes the same: the findings depend on nothing else.
pub proof fn lemma_search_repeatable(
    query: Seq<char>,
    text: Seq<char>,
    ignore_case: bool,
    first: Seq<Match>,
    second: Seq<Match>,
)
    requires
        first == matching(query, text, ignore_case),
        second == matching(query, text, ignore_case),
    ensures
        first == second,
        notice(first) == notice(second),
{
}

/// Whether `line` matches a query of which `needle` holds the characters,
/// in lowercase where case is ignored.
fn is_hit(line: &[char], needle: &[char], ignore_case: bool) -> (found: bool)
    ensures
        found == if ignore_case {
            is_substring(needle@, lowercase(line@))
        } else {
            is_substring(needle@, line@)
        },
{
    if ignore_case {
        let lower = string_of(line).as_str().to_lowercase();
        let folded = chars_of(lower.as_str());
        contains(folded.as_slice(), needle)
    } else {
        contains(line, needle)
    }
}

/// Walks through `contents` line by line and keeps the lines that match.
fn scan(query: &str, contents: &str, ignore_case: bool) -> (results: Vec<SearchResult>)
    ensures
        results.deep_view() == matching(query@, contents@, ignore_case),
{
    let text = chars_of(contents);
    let needle = if ignore_case {
        let lower = query.to_lowercase();
        chars_of(lower.as_str())
    } else {
        chars_of(query)
    };
    let mut results: Vec<SearchResult> = Vec::new();
    let mut start: usize = 0;
    let mut number: usize = 0;
    let ghost mut done: Seq<Seq<char>> = Seq::empty();
    assert(text@.skip(0) =~= text@);
    while start < text.len()
        invariant
            start <= text.len(),
            number <= start,
            number == done.len(),
            needle@ == if ignore_case {
                lowercase(query@)
            } else {
                query@
            },
            lines(text@) == done + lines(text@.skip(start as int)),
            results.deep_view() == numbered(done).filter(hit(query@, ignore_case)),
        decreases text.len() - start,
    {
        let (stop, next) = first_line(text.as_slice(), start);
        let line = slice_subrange(text.as_slice(), start, stop);
        number += 1;
        let ghost m = Match { line: line@, line_number: number as nat };
        if is_hit(line, needle.as_slice(), ignore_case) {
            results.push(SearchResult::new(string_of(line), number));
        }
        proof {
            assert(numbered(done.push(line@)) =~= numbered(done).push(m));
            numbered(done).lemma_filter_push(m, hit(query@, ignore_case));
            done = done.push(line@);
        }
        start = next;
    }
    results
}

/// Writes the notice to `out` if `results` is empty.
fn report_empty(results: &Vec<SearchResult>, out: &mut Vec<String>)
    ensures
        final(out).deep_view() == old(out).deep_view() + notice(results.deep_view()),
{
    if results.len() == 0 {
        out.push(NO_RESULTS.to_owned());
    }
}

/// Searches `contents` for the lines that contain `query`, letter for
/// letter. Returns them in the order of the text, each with its line number.
/// Where there are none, one notice is written to `out`.
pub fn search(query: &str, contents: &str, out: &mut Vec<String>) -> (results: Vec<SearchResult>)
    ensures
        results.deep_view() == matching(query@, contents@, false),
        final(out).deep_view() == old(out).deep_view() + notice(results.deep_view()),
{
    let results = scan(query, contents, false);
    report_empty(&results, out);
    results
}

/// Searches `contents` for the lines whose lowercase form contains the
/// lowercase form of `query`. Returns them as they stand in the text, in its
/// order, each with its line number. Where there are none, one notice is
/// written to `out`.
pub fn search_case_insensitive(query: &str, contents: &str, out: &mut Vec<String>) -> (results:
    Vec<SearchResult>)
    ensures
        results.deep_view() == matching(query@, contents@, true),
        final(out).deep_view() == old(out).deep_view() + notice(results.deep_view()),
{
    let results = scan(query, contents, true);
    report_empty(&results, out);
    results
}

} // verus!
