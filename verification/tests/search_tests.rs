use minigrep::contains_substring;
use minigrep::search;
use minigrep::search_case_insensive;
use minigrep::search_lines;
use minigrep::split_lines;
use minigrep::uppercase;

#[test]
fn test_search() {
    let query = "duct";
    let text = "\
Rust:
safe, fast, productive.
Pick three.";

    assert_eq!(search(query, text), vec!["safe, fast, productive."])
}

#[test]
fn test_search_case_insensive() {
    let query = "rUsT";
    let text = "\
Rust:
safe, fast, productive.
Pick three.
Trust me";

    assert_eq!(search_case_insensive(query, text), vec!["Rust:", "Trust me"])
}

#[test]
fn search_returns_lines_in_source_order() {
    let text = "one match\ntwo\nanother match\nthree\nlast match";
    assert_eq!(
        search("match", text),
        vec!["one match", "another match", "last match"]
    );
}

#[test]
fn search_empty_query_returns_every_line() {
    let text = "alpha\n\nbeta\ngamma";
    assert_eq!(search("", text), vec!["alpha", "", "beta", "gamma"]);
    assert_eq!(
        search_case_insensive("", text),
        vec!["alpha", "", "beta", "gamma"]
    );
}

#[test]
fn search_empty_text_returns_nothing() {
    assert_eq!(search("q", ""), Vec::<&str>::new());
    assert_eq!(search("", ""), Vec::<&str>::new());
    assert_eq!(search_case_insensive("q", ""), Vec::<&str>::new());
}

#[test]
fn search_insensitive_returns_at_least_the_sensitive_matches() {
    let text = "Rust:\nsafe, fast, productive.\nPick three.\nTrust me";
    let query = "rust";
    let sensitive = search(query, text);
    let insensitive = search_case_insensive(query, text);
    assert!(insensitive.len() >= sensitive.len());
    for line in &sensitive {
        assert!(insensitive.contains(line));
    }
    assert_eq!(sensitive, vec!["Trust me"]);
    assert_eq!(insensitive, vec!["Rust:", "Trust me"]);
}

#[test]
fn search_no_match_returns_nothing() {
    let text = "alpha\nbeta";
    assert_eq!(search("gamma", text), Vec::<&str>::new());
    assert_eq!(search_case_insensive("gamma", text), Vec::<&str>::new());
}

#[test]
fn search_lines_selects_matcher() {
    let text = "Rust:\nTrust me";
    assert_eq!(search_lines("rUsT", text, false), Vec::<&str>::new());
    assert_eq!(search_lines("rUsT", text, true), vec!["Rust:", "Trust me"]);
    assert_eq!(search_lines("Rust", text, false), vec!["Rust:"]);
}

#[test]
fn split_lines_handles_terminators() {
    assert_eq!(split_lines("a\nb\nc"), vec!["a", "b", "c"]);
    assert_eq!(split_lines("a\nb\n"), vec!["a", "b"]);
    assert_eq!(split_lines("a\r\nb\r\n"), vec!["a", "b"]);
    assert_eq!(split_lines("a\n\nb"), vec!["a", "", "b"]);
    assert_eq!(split_lines(""), Vec::<&str>::new());
    assert_eq!(split_lines("\n"), vec![""]);
    assert_eq!(split_lines("bare\rreturn"), vec!["bare\rreturn"]);
}

#[test]
fn contains_substring_is_exact() {
    assert!(contains_substring("hello world", "lo wo"));
    assert!(contains_substring("hello", ""));
    assert!(contains_substring("", ""));
    assert!(!contains_substring("", "a"));
    assert!(!contains_substring("hello", "Hello"));
    assert!(!contains_substring("abc", "abcd"));
}

#[test]
fn uppercase_maps_each_character() {
    assert_eq!(uppercase("hello, World!"), "HELLO, WORLD!");
    assert_eq!(uppercase(""), "");
    assert_eq!(uppercase("straße"), "STRASSE");
}

#[test]
fn search_insensitive_matches_expanding_characters() {
    let text = "weiße Wand\nWEISSE WAND\nandere";
    assert_eq!(
        search_case_insensive("weiße", text),
        vec!["weiße Wand", "WEISSE WAND"]
    );
}
