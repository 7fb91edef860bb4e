use shu::redirect::{BuildError, CommandBackPack, ErrorSink, OutputSink};

fn words(v: &[&str]) -> Vec<String> {
    v.iter().map(|s| s.to_string()).collect()
}

#[test]
fn truncate_and_append_sinks() {
    let (pack, rest, down) = match CommandBackPack::new(&words(&["cmd", ">", "out.txt"])) {
        Ok(r) => r,
        Err(_) => panic!("resolve failed"),
    };
    assert!(matches!(pack.stdout, OutputSink::File { ref name, append: false } if name == "out.txt"));
    assert!(matches!(pack.stderr, ErrorSink::Stderr));
    assert!(rest.is_empty());
    assert!(down.is_none());
    let (pack, _, _) = match CommandBackPack::new(&words(&["cmd", ">>", "out.txt"])) {
        Ok(r) => r,
        Err(_) => panic!("resolve failed"),
    };
    assert!(matches!(pack.stdout, OutputSink::File { ref name, append: true } if name == "out.txt"));
}

#[test]
fn pipe_hands_the_rest_downstream() {
    let (pack, rest, down) = match CommandBackPack::new(&words(&["cmdA", "-x", "|", "cmdB", "args", ">", "f"])) {
        Ok(r) => r,
        Err(_) => panic!("resolve failed"),
    };
    assert!(matches!(pack.stdout, OutputSink::Pipe));
    assert_eq!(rest, words(&["-x"]));
    assert_eq!(down, Some(words(&["cmdB", "args", ">", "f"])));
}

#[test]
fn named_file_gives_way_to_pipe() {
    let (pack, _, down) = match CommandBackPack::new(&words(&["cmd", ">", "f", "|", "x"])) {
        Ok(r) => r,
        Err(_) => panic!("resolve failed"),
    };
    assert!(matches!(pack.stdout, OutputSink::Pipe));
    assert_eq!(down, Some(words(&["x"])));
}

#[test]
fn trailing_pipe_is_an_error() {
    assert!(matches!(
        CommandBackPack::new(&words(&["cmd", "a", "|"])),
        Err(BuildError::NoArgument(ref s)) if s == "|"
    ));
    assert!(matches!(
        CommandBackPack::new(&words(&["c", "--pipe-mode"])),
        Err(BuildError::NoArgument(ref s)) if s == "--pipe-mode"
    ));
}

#[test]
fn stderr_and_add_mode() {
    let (pack, rest, _) = match CommandBackPack::new(&words(&["cmd", "2>>", "e.log", "-add", "--output", "o", "keep"])) {
        Ok(r) => r,
        Err(_) => panic!("resolve failed"),
    };
    assert!(matches!(pack.stderr, ErrorSink::File { ref name, append: true } if name == "e.log"));
    assert!(matches!(pack.stdout, OutputSink::File { ref name, append: true } if name == "o"));
    assert_eq!(rest, words(&["keep"]));
    let (pack, _, _) = match CommandBackPack::new(&words(&["cmd", "--stderr", "e"])) {
        Ok(r) => r,
        Err(_) => panic!("resolve failed"),
    };
    assert!(matches!(pack.stderr, ErrorSink::File { ref name, append: false } if name == "e"));
}

#[test]
fn dangling_redirection_is_an_error() {
    assert!(matches!(
        CommandBackPack::new(&words(&["cmd", "x", ">"])),
        Err(BuildError::NoArgument(ref s)) if s == ">"
    ));
    assert!(matches!(
        CommandBackPack::new(&words(&["cmd", "2>"])),
        Err(BuildError::NoArgument(ref s)) if s == "2>"
    ));
}

#[test]
fn get_next_reads_the_flag_value() {
    let args = words(&["-p", "pat"]);
    assert!(matches!(CommandBackPack::get_next(&args, 0), Ok(ref s) if s == "pat"));
    assert!(matches!(CommandBackPack::get_next(&args, 1), Err(BuildError::NoArgument(ref s)) if s == "pat"));
}
