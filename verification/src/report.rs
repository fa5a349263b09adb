//! One search run: the search that the configuration asks for, and the
//! lines that report what it found.

use vstd::prelude::*;
use crate::config::{Config, ConfigView};
use crate::search::{matching, notice, search, search_case_insensitive, Match, SearchResult};

verus! {

/// The character for the digit `d`.
pub open spec fn digit(d: nat) -> char {
    ('0' as nat + d) as char
}

/// `n` written in decimal digits, without sign or leading zeros.
pub open spec fn decimal(n: nat) -> Seq<char>
    decreases n,
{
    if n < 10 {
        seq![digit(n)]
    } else {
        decimal(n / 10).push(digit(n % 10))
    }
}

/// The line that reports the match `m` as finding number `index`.
pub open spec fn finding(index: nat, m: Match) -> Seq<char> {
    "Finding #"@ + decimal(index) + " at line "@ + decimal(m.line_number) + " :: "@ + m.line
}

/// The lines that report the matches `found`: one for each, in their order,
/// numbered from 1.
pub open spec fn findings(found: Seq<Match>) -> Seq<Seq<char>> {
    Seq::new(found.len(), |i: int| finding((i + 1) as nat, found[i]))
}

/// Everything that a run with `config` over a file that holds `contents`
/// writes to the output sink.
pub open spec fn transcript(config: ConfigView, contents: Seq<char>) -> Seq<Seq<char>> {
    let found = matching(config.query, contents, config.ignore_case);
    notice(found) + findings(found)
}

/// Appends `n` in decimal digits to `s`.
fn push_decimal(s: &mut String, n: usize)
    ensures
        final(s)@ == old(s)@ + decimal(n as nat),
    decreases n,
{
    if n >= 10 {
        push_decimal(s, n / 10);
    }
    let d: u8 = (n % 10) as u8;
    s.push((48u8 + d) as char);
}

/// The line that reports `result` as finding number `index`.
pub fn finding_line(index: usize, result: &SearchResult) -> (line: String)
    ensures
        line@ == finding(index as nat, result@),
{
    let mut line = "Finding #".to_owned();
    push_decimal(&mut line, index);
    line.append(" at line ");
    push_decimal(&mut line, result.line_number);
    line.append(" :: ");
    line.append(result.line.as_str());
    line
}

/// Runs the search that `config` asks for. `file` is what reading the file
/// that `config` names gave: its text, or why it could not be read.
///
/// Where the file was read, a line for each finding is written to `out`, or
/// the notice that there is none. Where it was not, nothing is searched or
/// written, and the failure of the read is returned as it came.
pub fn run<E>(config: Config, file: Result<String, E>, out: &mut Vec<String>) -> (result: Result<
    (),
    E,
>)
    ensures
        match file {
            Ok(contents) => result is Ok && final(out).deep_view() == old(out).deep_view()
                + transcript(config@, contents@),
            Err(failure) => result == Err::<(), E>(failure) && final(out).deep_view() == old(
                out,
            ).deep_view(),
        },
{
    let contents = match file {
        Ok(contents) => contents,
        Err(failure) => {
            return Err(failure);
        },
    };
    let ghost before = out.deep_view();
    let results = if config.ignore_case {
        search_case_insensitive(config.query.as_str(), contents.as_str(), out)
    } else {
        search(config.query.as_str(), contents.as_str(), out)
    };
    let ghost found = results.deep_view();
    let mut i: usize = 0;
    while i < results.len()
        invariant
            i <= results.len(),
            found == results.deep_view(),
            out.deep_view() == before + notice(found) + findings(found).take(i as int),
        decreases results.len() - i,
    {
        let ghost so_far = out.deep_view();
        out.push(finding_line(i + 1, &results[i]));
        assert(out.deep_view() =~= so_far.push(finding((i + 1) as nat, found[i as int])));
        i += 1;
    }
    Ok(())
}

} // verus!
