use shu::builtins::cat::Cat;
use shu::builtins::grep::Grep;
use shu::builtins::head_tail::HeadTail;
use shu::text::{decimal_text, text_contains};

fn words(v: &[&str]) -> Vec<String> {
    v.iter().map(|s| s.to_string()).collect()
}

fn grep(args: &[&str]) -> Grep {
    match Grep::new_obj(&words(args), false) {
        Ok(g) => g,
        Err(_) => panic!("grep failed to build"),
    }
}

#[test]
fn decimal_and_contains() {
    assert_eq!(decimal_text(0), "0");
    assert_eq!(decimal_text(1907), "1907");
    assert!(text_contains("an error here", "error"));
    assert!(text_contains("abc", ""));
    assert!(!text_contains("ab", "abc"));
    assert!(!text_contains("Error", "error"));
}

#[test]
fn grep_selects_and_numbers_lines() {
    let lines = words(&["error one", "fine", "another error", "ERROR loud"]);
    assert_eq!(grep(&["error"]).select(&lines), words(&["error one", "another error"]));
    assert_eq!(grep(&["-n", "error"]).select(&lines), words(&["1. error one", "3. another error"]));
    assert_eq!(grep(&["-c", "error"]).select(&lines), words(&["2"]));
}

#[test]
fn grep_ignore_case_folds_line_and_pattern() {
    let lines = words(&["error one", "fine", "ERROR loud"]);
    assert_eq!(grep(&["-i", "Error"]).select(&lines), words(&["error one", "ERROR loud"]));
    assert_eq!(grep(&["-i", "-c", "ERROR"]).select(&lines), words(&["2"]));
}

#[test]
fn head_tail_window() {
    let lines = words(&["a", "", "b", "c", "", "d"]);
    let head = |args: &[&str]| match HeadTail::new_obj(&words(args), false) {
        Ok(h) => h,
        Err(_) => panic!("head-tail failed to build"),
    };
    assert_eq!(head(&["-c", "2"]).select(&lines), words(&["a", ""]));
    assert_eq!(head(&["-c", "2", "-s"]).select(&lines), words(&["a", "b"]));
    assert_eq!(head(&["-t", "-c", "2"]).select(&lines), words(&["", "d"]));
    assert_eq!(head(&["-t", "-s", "-c", "3"]).select(&lines), words(&["b", "c", "d"]));
    assert_eq!(head(&["-c", "0"]).select(&lines), Vec::<String>::new());
    assert_eq!(head(&["-t"]).select(&lines), lines);
}

#[test]
fn cat_formats_lines() {
    let cat = |args: &[&str]| match Cat::new_obj(&words(args), false) {
        Ok(c) => c,
        Err(_) => panic!("cat failed to build"),
    };
    let lines = words(&["x", "", "  ", "", "y"]);
    assert_eq!(cat(&[]).format(&lines, false), (lines.clone(), false));
    assert_eq!(cat(&["-s"]).format(&lines, false).0, words(&["x", "", "y"]));
    assert_eq!(cat(&["-s"]).format(&words(&["", "\u{A0}\u{3000}", "w"]), false).0, words(&["", "w"]));
    assert_eq!(cat(&["-s"]).format(&words(&["", "z"]), true).0, words(&["z"]));
    assert_eq!(cat(&["-s"]).format(&words(&["z", ""]), false).1, true);
    assert_eq!(cat(&["-n", "-E"]).format(&words(&["p", "q"]), false).0, words(&["0. p$", "1. q$"]));
    assert_eq!(cat(&["-b"]).format(&words(&["p", "", "q"]), false).0, words(&["0. p", "", "1. q"]));
}
