use shu::builtins::cat::Cat;
use shu::builtins::grep::{Grep, GrepError};
use shu::builtins::head_tail::{HeadTail, HeadTailError};
use shu::builtins::ls::Ls;
use shu::builtins::mkdir::Mkdir;
use shu::builtins::rm::Rm;
use shu::command::{CommandError, InputFile};
use shu::redirect::BuildError;

fn words(v: &[&str]) -> Vec<String> {
    v.iter().map(|s| s.to_string()).collect()
}

fn file_name(f: &InputFile) -> Option<&str> {
    match f {
        InputFile::File(n) => Some(n.as_str()),
        _ => None,
    }
}

#[test]
fn grep_pattern_then_files() {
    let g = match Grep::new_obj(&words(&["-n", "err", "a.log", "-", "-f", "b.log", "-i"]), false) {
        Ok(g) => g,
        Err(_) => panic!("grep failed to build"),
    };
    assert_eq!(g.pattern, "err");
    assert!(g.line_number && g.ignore_case && !g.count);
    assert_eq!(g.input_files.len(), 3);
    assert_eq!(file_name(&g.input_files[0]), Some("a.log"));
    assert!(matches!(g.input_files[1], InputFile::Stdin));
    assert_eq!(file_name(&g.input_files[2]), Some("b.log"));
}

#[test]
fn grep_reads_pipe_as_sole_input() {
    let g = match Grep::new_obj(&words(&["-p", "x", "-c"]), true) {
        Ok(g) => g,
        Err(_) => panic!("grep failed to build"),
    };
    assert_eq!(g.pattern, "x");
    assert!(g.count);
    assert_eq!(g.input_files.len(), 1);
    assert!(matches!(g.input_files[0], InputFile::Pipe));
}

#[test]
fn grep_defaults_to_stdin() {
    let g = match Grep::new_obj(&words(&["x"]), false) {
        Ok(g) => g,
        Err(_) => panic!("grep failed to build"),
    };
    assert_eq!(g.input_files.len(), 1);
    assert!(matches!(g.input_files[0], InputFile::Stdin));
}

#[test]
fn grep_errors() {
    assert!(matches!(
        Grep::new_obj(&words(&["-n"]), false),
        Err(CommandError::Other(ref n, GrepError::NoPattern)) if n == "grep"
    ));
    assert!(matches!(
        Grep::new_obj(&words(&["x", "-z"]), false),
        Err(CommandError::BuildError(BuildError::UnexpectedArg(ref s))) if s == "-z"
    ));
    assert!(matches!(
        Grep::new_obj(&words(&["-p"]), false),
        Err(CommandError::BuildError(BuildError::NoArgument(ref s))) if s == "-p"
    ));
    assert!(matches!(Grep::new_obj(&words(&["x", "--help"]), false), Err(CommandError::Help)));
}

#[test]
fn cat_options_and_inputs() {
    let c = match Cat::new_obj(&words(&["-n", "-b", "-E", "-s", "a", "--from", "b"]), true) {
        Ok(c) => c,
        Err(_) => panic!("cat failed to build"),
    };
    assert!(!c.line_number && c.count_non_empty && c.show_end && c.squize_blank);
    assert_eq!(c.input_files.len(), 3);
    assert!(matches!(c.input_files[0], InputFile::Pipe));
    assert_eq!(file_name(&c.input_files[1]), Some("a"));
    assert_eq!(file_name(&c.input_files[2]), Some("b"));
    let c = match Cat::new_obj(&words(&["-n"]), false) {
        Ok(c) => c,
        Err(_) => panic!("cat failed to build"),
    };
    assert!(c.line_number);
    assert!(matches!(c.input_files[0], InputFile::Stdin));
    assert!(matches!(Cat::new_obj(&words(&["-f"]), false), Err(CommandError::BuildError(BuildError::NoArgument(_)))));
    assert!(matches!(Cat::new_obj(&words(&["-q"]), false), Err(CommandError::BuildError(BuildError::UnexpectedArg(_)))));
}

#[test]
fn head_tail_counts() {
    assert_eq!(HeadTail::parse_arg(&"25".to_string()).ok(), Some(25));
    assert_eq!(HeadTail::parse_arg(&"+7".to_string()).ok(), Some(7));
    assert_eq!(HeadTail::parse_arg(&"0".to_string()).ok(), Some(0));
    assert_eq!(HeadTail::parse_arg(&usize::MAX.to_string()).ok(), Some(usize::MAX));
    for bad in ["", "+", "-3", "1a", "18446744073709551616999"] {
        assert!(matches!(
            HeadTail::parse_arg(&bad.to_string()),
            Err(CommandError::Other(ref n, HeadTailError::ParseError(ref s))) if n == "head-tail" && s == bad
        ));
    }
}

#[test]
fn head_tail_options() {
    let h = match HeadTail::new_obj(&words(&[]), false) {
        Ok(h) => h,
        Err(_) => panic!("head-tail failed to build"),
    };
    assert!(h.mode && !h.skip_empty && h.count == 10);
    assert!(matches!(h.inputfile, InputFile::Stdin));
    let h = match HeadTail::new_obj(&words(&["-t", "notes.txt", "3", "-s"]), true) {
        Ok(h) => h,
        Err(_) => panic!("head-tail failed to build"),
    };
    assert!(!h.mode && h.skip_empty && h.count == 3);
    assert_eq!(file_name(&h.inputfile), Some("notes.txt"));
    let h = match HeadTail::new_obj(&words(&["-c", "4"]), true) {
        Ok(h) => h,
        Err(_) => panic!("head-tail failed to build"),
    };
    assert_eq!(h.count, 4);
    assert!(matches!(h.inputfile, InputFile::Pipe));
    assert!(matches!(
        HeadTail::new_obj(&words(&["-c", "many"]), false),
        Err(CommandError::Other(_, HeadTailError::ParseError(ref s))) if s == "many"
    ));
    assert!(matches!(HeadTail::new_obj(&words(&["-c"]), false), Err(CommandError::BuildError(BuildError::NoArgument(_)))));
}

#[test]
fn ls_options() {
    let l = match Ls::new_obj(&words(&["-l", "-a"])) {
        Ok(l) => l,
        Err(_) => panic!("ls failed to build"),
    };
    assert_eq!(l.dire, ".");
    assert!(l.full_info && l.show_hide && !l.classify && !l.show_hide_and);
    let l = match Ls::new_obj(&words(&["src", "-F", "-A", "docs"])) {
        Ok(l) => l,
        Err(_) => panic!("ls failed to build"),
    };
    assert_eq!(l.dire, "docs");
    assert!(l.classify && l.show_hide_and);
    assert!(matches!(Ls::new_obj(&words(&["-he"])), Err(CommandError::Help)));
}

#[test]
fn mkdir_and_rm_options() {
    let m = match Mkdir::new_obj(&words(&["-p", "a/b", "c", "-v"])) {
        Ok(m) => m,
        Err(_) => panic!("mkdir failed to build"),
    };
    assert_eq!(m.command_format, words(&["a/b", "c"]));
    assert!(m.parents && m.verbose);
    assert!(matches!(Mkdir::new_obj(&words(&["-p"])), Err(CommandError::Help)));
    assert!(matches!(Mkdir::new_obj(&words(&["-x", "a"])), Err(CommandError::BuildError(BuildError::UnexpectedArg(_)))));
    let r = match Rm::new_obj(&words(&["-rf", "old"])) {
        Ok(r) => r,
        Err(_) => panic!("rm failed to build"),
    };
    assert!(r.dir);
    assert_eq!(r.names, words(&["old"]));
    assert!(matches!(Rm::new_obj(&words(&[])), Err(CommandError::Help)));
    assert!(matches!(Rm::new_obj(&words(&["--help", "x"])), Err(CommandError::BuildError(BuildError::UnexpectedArg(_)))));
}
