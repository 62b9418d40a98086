use rgrep::config::{Options, OutputMode};
use rgrep::matcher::{Matcher, PatternError};
use rgrep::pipeline::run;
use rgrep::record::{format_line, LineInfo};

fn lines(texts: &[&str]) -> Vec<String> {
    texts.iter().map(|t| t.to_string()).collect()
}

fn options(files: &[&str], pattern: &str, output_mode: OutputMode, regex: bool) -> Options {
    Options {
        files: files.iter().map(|f| f.to_string()).collect(),
        pattern: pattern.to_string(),
        output_mode,
        regex,
    }
}

#[test]
fn order_preservation() {
    let opts = options(&["F1", "F2"], "", OutputMode::Print, false);
    let contents = vec![lines(&["a", "b", "c"]), lines(&["d", "e"])];
    let out = run(&opts, contents).unwrap();
    assert_eq!(out, vec!["F1:0:a", "F1:1:b", "F1:2:c", "F2:0:d", "F2:1:e"]);
}

#[test]
fn filter_literal() {
    let opts = options(&["f"], "let", OutputMode::Print, false);
    let contents = vec![lines(&["let x = 1;", "var"])];
    let out = run(&opts, contents).unwrap();
    assert_eq!(out, vec!["f:0:let x = 1;"]);

    let m = Matcher::new("let", false).unwrap();
    assert!(m.matches("let x = 1;"));
    assert!(!m.matches("var"));
    assert!(m.matches("sublet"));
}

#[test]
fn filter_regex() {
    let m = Matcher::new("^[0-9]+$", true).unwrap();
    assert!(m.matches("42"));
    assert!(!m.matches("42a"));

    let opts = options(&["n"], "^[0-9]+$", OutputMode::Print, true);
    let contents = vec![lines(&["42", "42a", "7"])];
    let out = run(&opts, contents).unwrap();
    assert_eq!(out, vec!["n:0:42", "n:2:7"]);
}

#[test]
fn count_correctness() {
    let opts = options(&["f"], "x", OutputMode::Count, false);
    let contents = vec![lines(&["x1", "no", "axb", "none", "x"])];
    let out = run(&opts, contents).unwrap();
    assert_eq!(out, vec!["3 hits x"]);
}

#[test]
fn count_of_nothing() {
    let opts = options(&[], "x", OutputMode::Count, false);
    let out = run(&opts, vec![]).unwrap();
    assert_eq!(out, vec!["0 hits x"]);
}

#[test]
fn sort_and_print_sorts() {
    let opts = options(&["f"], "", OutputMode::SortAndPrint, false);
    let contents = vec![lines(&["b", "a", "c"])];
    let out = run(&opts, contents).unwrap();
    assert_eq!(out, vec!["f:1:a", "f:0:b", "f:2:c"]);
}

#[test]
fn sort_stability() {
    let opts = options(&["X", "Y"], "same", OutputMode::SortAndPrint, false);
    let contents = vec![lines(&["same"]), lines(&["same"])];
    let out = run(&opts, contents).unwrap();
    assert_eq!(out, vec!["X:0:same", "Y:0:same"]);
}

#[test]
fn round_trip_idempotence() {
    let contents1 = vec![lines(&["ab", "cd", "abab"]), lines(&["ba", "ab"])];
    let contents2 = contents1.clone();
    let opts1 = options(&["p", "q"], "ab", OutputMode::SortAndPrint, false);
    let opts2 = options(&["p", "q"], "ab", OutputMode::SortAndPrint, false);
    let out1 = run(&opts1, contents1).unwrap();
    let out2 = run(&opts2, contents2).unwrap();
    assert_eq!(out1, out2);
}

#[test]
fn invalid_regex_is_rejected() {
    assert!(matches!(Matcher::new("[", true), Err(PatternError::InvalidRegex)));
    let opts = options(&["f"], "[", OutputMode::Print, true);
    let contents = vec![lines(&["a"])];
    assert_eq!(run(&opts, contents).unwrap_err(), PatternError::InvalidRegex);
}

#[test]
fn literal_bracket_is_no_error() {
    let opts = options(&["f"], "[", OutputMode::Print, false);
    let contents = vec![lines(&["a[b", "ab"])];
    let out = run(&opts, contents).unwrap();
    assert_eq!(out, vec!["f:0:a[b"]);
}

#[test]
fn line_format() {
    let line = LineInfo { file: "dir/file.txt".to_string(), line: 10, text: "hello".to_string() };
    assert_eq!(format_line(&line), "dir/file.txt:10:hello");
}

#[test]
fn empty_pattern_matches_everything() {
    let m = Matcher::new("", false).unwrap();
    assert!(m.matches(""));
    assert!(m.matches("anything"));
    let n = Matcher::new("zz", false).unwrap();
    assert!(!n.matches(""));
    assert!(!n.matches("z"));
    assert!(n.matches("azz"));
}
