use minigrep::search::NO_RESULTS;
use minigrep::{search, search_case_insensitive, SearchResult};

fn found(line_number: usize, line: &str) -> SearchResult {
    SearchResult::new(line.to_string(), line_number)
}

fn all_lines(contents: &str) -> Vec<String> {
    let mut out = Vec::new();
    search("", contents, &mut out).into_iter().map(|r| r.line).collect()
}

#[test]
fn run_test() {
    let query = "needle";
    let content = "\
Rust:
safe, fast, productive.
needle in the haystack
Pick three.";
    let mut out = Vec::new();
    let result = search(query, content, &mut out);
    assert_eq!(result.len(), 1);
    assert_eq!(result[0].line, "needle in the haystack");
    assert_eq!(result[0].line_number, 3);
}

#[test]
fn run_test_no_results() {
    let query = "needle";
    let content = "\
Rust:
safe, fast, productive.
Pick three.";
    let mut out = Vec::new();
    let result = search(query, content, &mut out);
    assert_eq!(result.len(), 0);
}

#[test]
fn run_case_insensitive_search() {
    let query = "NEEDLE";
    let content = "\
Rust:
safe, fast, productive.
needle in the haystack
Pick three.";
    let mut out = Vec::new();
    let result = search_case_insensitive(query, content, &mut out);
    assert_eq!(result.len(), 1, "Expected 1 result, got {}", result.len());
    assert_eq!(
        result[0].line, "needle in the haystack",
        "Expected 'needle in the haystack', got {}",
        result[0].line
    );
    assert_eq!(
        result[0].line_number, 3,
        "Expected line number 3, got {}",
        result[0].line_number
    );
}

#[test]
fn search_result_new_keeps_its_arguments() {
    let result = SearchResult::new(String::from("Hello world!"), 1);
    assert_eq!(result.line, "Hello world!");
    assert_eq!(result.line_number, 1);
}

#[test]
fn a_search_without_results_writes_the_notice() {
    let mut out = vec!["earlier".to_string()];
    let result = search("needle", "Rust:\nsafe, fast, productive.\nPick three.", &mut out);
    assert!(result.is_empty());
    assert_eq!(out, vec!["earlier".to_string(), "---> No results found".to_string()]);
    assert_eq!(NO_RESULTS, "---> No results found");

    let mut out = Vec::new();
    let result = search_case_insensitive("NEEDLE", "hay\nmore hay\n", &mut out);
    assert!(result.is_empty());
    assert_eq!(out, vec!["---> No results found".to_string()]);
}

#[test]
fn a_search_with_results_writes_nothing() {
    let mut out = vec!["earlier".to_string()];
    let result = search("hay", "hay\nmore hay\n", &mut out);
    assert_eq!(result, vec![found(1, "hay"), found(2, "more hay")]);
    assert_eq!(out, vec!["earlier".to_string()]);

    let result = search_case_insensitive("HAY", "hay\nmore hay\n", &mut out);
    assert_eq!(result, vec![found(1, "hay"), found(2, "more hay")]);
    assert_eq!(out, vec!["earlier".to_string()]);
}

#[test]
fn an_empty_text_has_no_lines() {
    let mut out = Vec::new();
    assert!(search("", "", &mut out).is_empty());
    assert_eq!(out, vec![NO_RESULTS.to_string()]);
    assert!(search("a", "", &mut out).is_empty());
    assert!(search_case_insensitive("", "", &mut out).is_empty());
    assert_eq!(out.len(), 3);
}

#[test]
fn the_empty_query_matches_every_line() {
    let mut out = Vec::new();
    assert_eq!(
        search("", "one\n\nthree", &mut out),
        vec![found(1, "one"), found(2, ""), found(3, "three")]
    );
    assert_eq!(
        search_case_insensitive("", "One\n\nTHREE", &mut out),
        vec![found(1, "One"), found(2, ""), found(3, "THREE")]
    );
    assert!(out.is_empty());
}

#[test]
fn a_final_line_feed_adds_no_line() {
    assert_eq!(all_lines("one\ntwo\n"), vec!["one", "two"]);
    assert_eq!(all_lines("one\ntwo"), vec!["one", "two"]);
    assert_eq!(all_lines("one\ntwo\n\n"), vec!["one", "two", ""]);
    assert_eq!(all_lines("\n"), vec![""]);
    assert_eq!(all_lines("\n\n"), vec!["", ""]);
    assert_eq!(all_lines("\nx"), vec!["", "x"]);
}

#[test]
fn a_carriage_return_before_a_line_feed_ends_the_line_too() {
    assert_eq!(all_lines("one\r\ntwo\r\n"), vec!["one", "two"]);
    assert_eq!(all_lines("\r\n"), vec![""]);
    assert_eq!(all_lines("one\r\n\r\ntwo"), vec!["one", "", "two"]);
    assert_eq!(all_lines("one\r\r\ntwo"), vec!["one\r", "two"]);
}

#[test]
fn a_carriage_return_alone_stays_in_its_line() {
    assert_eq!(all_lines("one\rtwo\nthree"), vec!["one\rtwo", "three"]);
    assert_eq!(all_lines("one\r"), vec!["one\r"]);
    assert_eq!(all_lines("\r"), vec!["\r"]);
    assert_eq!(all_lines("one\ntwo\r"), vec!["one", "two\r"]);
    assert_eq!(all_lines("\n\r"), vec!["", "\r"]);
}

#[test]
fn lines_are_those_of_the_standard_library() {
    let texts = [
        "",
        "a",
        "\n",
        "\r",
        "\r\n",
        "\n\r",
        "a\nb",
        "a\nb\n",
        "a\r\nb\r\n",
        "a\rb\r\nc\n\rd\r",
        "\n\n\n",
        "\r\n\r\n",
        "\r\r\n\n",
        "foo\nbar\n\r\nbaz",
        "foo\nbar\n\r\nbaz\n",
        "foo\r\nbar\n\nbaz\r",
        "  leading\n\ttab\n trailing \n",
        "grüße\nΣίσυφος\r\n日本語\n",
    ];
    for text in texts {
        let expected: Vec<String> = text.lines().map(|l| l.to_string()).collect();
        assert_eq!(all_lines(text), expected, "text {:?}", text);
        let mut out = Vec::new();
        let numbers: Vec<usize> =
            search("", text, &mut out).iter().map(|r| r.line_number).collect();
        assert_eq!(numbers, (1..=expected.len()).collect::<Vec<usize>>(), "text {:?}", text);
    }
}

#[test]
fn the_search_is_case_sensitive() {
    let contents = "Needle\nneedle\nNEEDLE\nneedLe in here";
    let mut out = Vec::new();
    assert_eq!(search("needle", contents, &mut out), vec![found(2, "needle")]);
    assert_eq!(search("NEEDLE", contents, &mut out), vec![found(3, "NEEDLE")]);
    assert_eq!(search("eedL", contents, &mut out), vec![found(4, "needLe in here")]);
    assert!(out.is_empty());
}

#[test]
fn the_case_insensitive_search_ignores_case_on_both_sides() {
    let contents = "Needle\nneedle\nNEEDLE\nneedLe in here\nnothing";
    let expected = vec![
        found(1, "Needle"),
        found(2, "needle"),
        found(3, "NEEDLE"),
        found(4, "needLe in here"),
    ];
    let mut out = Vec::new();
    assert_eq!(search_case_insensitive("needle", contents, &mut out), expected);
    assert_eq!(search_case_insensitive("NEEDLE", contents, &mut out), expected);
    assert_eq!(search_case_insensitive("nEeDlE", contents, &mut out), expected);
    assert!(out.is_empty());
}

#[test]
fn the_case_insensitive_search_compares_lowercase_forms() {
    let contents = "ÄPFEL und Birnen\näpfel\nApfel\nΟΔΟΣ\nοδος\nοδοσ";
    let mut out = Vec::new();
    assert_eq!(
        search_case_insensitive("Äpfel", contents, &mut out),
        vec![found(1, "ÄPFEL und Birnen"), found(2, "äpfel")]
    );
    for (i, line) in contents.lines().enumerate() {
        for query in ["ΟΔΟΣ", "οδος", "οδοσ", "Σ", "ς", "σ", "ä", "Ä", "a"] {
            let expected = line.to_lowercase().contains(&query.to_lowercase());
            let got = search_case_insensitive(query, contents, &mut Vec::new())
                .iter()
                .any(|r| r.line_number == i + 1);
            assert_eq!(got, expected, "query {:?}, line {:?}", query, line);
        }
    }
}

#[test]
fn results_hold_the_line_as_it_stands_in_the_text() {
    let mut out = Vec::new();
    assert_eq!(
        search_case_insensitive("mixed", "  A MiXeD line  \r\nother", &mut out),
        vec![found(1, "  A MiXeD line  ")]
    );
}

#[test]
fn a_query_is_found_anywhere_in_a_line() {
    let contents = "needle first\nlast needle\nin the needle middle\nneedle\nneedl\nneedl e";
    let mut out = Vec::new();
    assert_eq!(
        search("needle", contents, &mut out),
        vec![
            found(1, "needle first"),
            found(2, "last needle"),
            found(3, "in the needle middle"),
            found(4, "needle"),
        ]
    );
}

#[test]
fn a_query_longer_than_the_line_is_not_found() {
    let mut out = Vec::new();
    assert!(search("needles", "needle\nneedle", &mut out).is_empty());
    assert_eq!(out.len(), 1);
}

#[test]
fn a_query_with_a_repeated_prefix_is_found() {
    let mut out = Vec::new();
    assert_eq!(search("aab", "aaab\nabab\naaaa", &mut out), vec![found(1, "aaab")]);
    assert_eq!(search("abab", "ababab\nabaab", &mut out), vec![found(1, "ababab")]);
}

#[test]
fn a_query_does_not_match_across_lines() {
    let mut out = Vec::new();
    assert!(search("ab", "a\nb", &mut out).is_empty());
    assert!(search("a\nb", "a\nb", &mut out).is_empty());
    assert!(search("\n", "a\nb\n", &mut out).is_empty());
    assert!(search("a\r", "a\r\nb", &mut out).is_empty());
}

#[test]
fn results_come_in_ascending_line_order() {
    let mut contents = String::new();
    for i in 0..200 {
        if i % 3 == 0 {
            contents.push_str("a hit here\n");
        } else {
            contents.push_str("nothing\n");
        }
    }
    let mut out = Vec::new();
    let results = search("hit", &contents, &mut out);
    assert_eq!(results.len(), 67);
    for (k, r) in results.iter().enumerate() {
        assert_eq!(r.line_number, 3 * k + 1);
        assert_eq!(r.line, "a hit here");
    }
    for pair in results.windows(2) {
        assert!(pair[0].line_number < pair[1].line_number);
    }
}

#[test]
fn searching_twice_gives_the_same() {
    let contents = "Rust:\nsafe, fast, productive.\nneedle in the haystack\nPick three.";
    let mut first_out = Vec::new();
    let mut second_out = Vec::new();
    assert_eq!(
        search("e", contents, &mut first_out),
        search("e", contents, &mut second_out)
    );
    assert_eq!(first_out, second_out);
    assert_eq!(
        search_case_insensitive("RUST", contents, &mut first_out),
        search_case_insensitive("RUST", contents, &mut second_out)
    );
    assert_eq!(
        search("absent", contents, &mut first_out),
        search("absent", contents, &mut second_out)
    );
    assert_eq!(first_out, second_out);
    assert_eq!(first_out, vec![NO_RESULTS.to_string()]);
}

#[test]
fn characters_outside_ascii_are_compared_whole() {
    let mut out = Vec::new();
    assert_eq!(search("ß", "Straße\nStrasse", &mut out), vec![found(1, "Straße")]);
    assert_eq!(search("本", "日本語\n日语", &mut out), vec![found(1, "日本語")]);
    assert!(search("é", "e\u{301}", &mut out).is_empty());
}
