//! Resolving the redirection and pipe directives of one command segment.
use vstd::prelude::*;

use crate::text::{same_text, texts};

verus! {

/// Why a command segment could not be built.
pub enum BuildError {
    /// A flag that the command does not know.
    UnexpectedArg(String),
    /// A flag that takes a value came last.
    NoArgument(String),
    /// A file could not be opened: its path and the reason.
    UnopenedFile(String, String),
    /// The pipe to the next command could not be created: the reason.
    PipeError(String),
}

impl crate::command::Describe for BuildError {
    open spec fn described(&self) -> Seq<char> {
        match self {
            BuildError::PipeError(e) => "shu: error with build pipe command: "@ + e@ + "\n"@,
            BuildError::UnexpectedArg(s) => "shu: unexpected arg: "@ + s@ + "\n"@,
            BuildError::UnopenedFile(n, e) => "shu: can't open the file ("@ + n@ + "): "@ + e@
                + "\n"@,
            BuildError::NoArgument(s) => "shu: no argument after: "@ + s@ + "\n"@,
        }
    }

    fn describe(&self) -> (r: String) {
        match self {
            BuildError::PipeError(e) => {
                let mut r = String::from_str("shu: error with build pipe command: ");
                r.append(e.as_str());
                r.append("\n");
                r
            },
            BuildError::UnexpectedArg(s) => {
                let mut r = String::from_str("shu: unexpected arg: ");
                r.append(s.as_str());
                r.append("\n");
                r
            },
            BuildError::UnopenedFile(n, e) => {
                let mut r = String::from_str("shu: can't open the file (");
                r.append(n.as_str());
                r.append("): ");
                r.append(e.as_str());
                r.append("\n");
                r
            },
            BuildError::NoArgument(s) => {
                let mut r = String::from_str("shu: no argument after: ");
                r.append(s.as_str());
                r.append("\n");
                r
            },
        }
    }
}

/// Where a command's standard output goes.
pub enum OutputSink {
    /// The process's own standard output.
    Stdout,
    /// A file named relative to the working directory, appended to or
    /// truncated.
    File { name: String, append: bool },
    /// The write end of a pipe to the next command of the line.
    Pipe,
}

/// Where a command's error output goes; it never goes into a pipe.
pub enum ErrorSink {
    /// The process's own standard error.
    Stderr,
    /// A file named relative to the working directory, appended to or
    /// truncated.
    File { name: String, append: bool },
}

/// The output and error sinks of one command invocation.
pub struct CommandBackPack {
    pub stdout: OutputSink,
    pub stderr: ErrorSink,
}

pub open spec fn is_out_flag(t: Seq<char>) -> bool {
    t == ">"@ || t == "--output"@ || t == "-out"@
}

pub open spec fn is_append_flag(t: Seq<char>) -> bool {
    t == ">>"@
}

pub open spec fn is_pipe_flag(t: Seq<char>) -> bool {
    t == "|"@ || t == "--pipe"@ || t == "--pipe-mode"@
}

pub open spec fn is_err_flag(t: Seq<char>) -> bool {
    t == "--err"@ || t == "--stderr"@ || t == "2>"@ || t == "--error"@
}

pub open spec fn is_err_append_flag(t: Seq<char>) -> bool {
    t == "2>>"@
}

pub open spec fn is_add_flag(t: Seq<char>) -> bool {
    t == "-add"@ || t == "--add-mode"@
}

/// What the scan of a segment's tokens has found so far.
pub struct Redirection {
    pub out_name: Option<Seq<char>>,
    pub add: bool,
    pub err_name: Option<Seq<char>>,
    pub err_add: bool,
    pub residual: Seq<Seq<char>>,
    pub downstream: Option<Seq<Seq<char>>>,
}

pub open spec fn no_redirection() -> Redirection {
    Redirection {
        out_name: None,
        add: false,
        err_name: None,
        err_add: false,
        residual: Seq::empty(),
        downstream: None,
    }
}

/// Scans the tokens `a` from `i`. A flag that names a file takes the next
/// token; when there is none the scan fails with that flag. A pipe marker
/// hands all the tokens after it, unread, to the next command and ends the
/// scan; a pipe marker that comes last fails the scan like any other
/// operator without a token after it. Any other token is kept for the
/// command.
pub open spec fn scan_redirection(a: Seq<Seq<char>>, i: int, st: Redirection) -> Result<
    Redirection,
    Seq<char>,
>
    decreases a.len() - i,
{
    if i < 0 || i >= a.len() {
        Ok(st)
    } else {
        let t = a[i];
        let has_next = i + 1 < a.len();
        if is_out_flag(t) {
            if !has_next {
                Err(t)
            } else {
                scan_redirection(a, i + 2, Redirection { out_name: Some(a[i + 1]), ..st })
            }
        } else if is_append_flag(t) {
            if !has_next {
                Err(t)
            } else {
                scan_redirection(a, i + 2, Redirection { out_name: Some(a[i + 1]), add: true, ..st })
            }
        } else if is_pipe_flag(t) {
            if !has_next {
                Err(t)
            } else {
                Ok(Redirection { downstream: Some(a.skip(i + 1)), ..st })
            }
        } else if is_err_flag(t) {
            if !has_next {
                Err(t)
            } else {
                scan_redirection(a, i + 2, Redirection { err_name: Some(a[i + 1]), ..st })
            }
        } else if is_err_append_flag(t) {
            if !has_next {
                Err(t)
            } else {
                scan_redirection(
                    a,
                    i + 2,
                    Redirection { err_name: Some(a[i + 1]), err_add: true, ..st },
                )
            }
        } else if is_add_flag(t) {
            scan_redirection(a, i + 1, Redirection { add: true, ..st })
        } else {
            scan_redirection(a, i + 1, Redirection { residual: st.residual.push(t), ..st })
        }
    }
}

/// The redirection of a segment whose first token is the command's name.
pub open spec fn redirection_of(a: Seq<Seq<char>>) -> Result<Redirection, Seq<char>> {
    scan_redirection(a, 1, no_redirection())
}

/// Whether `out` is the standard output that `r` describes: the pipe when
/// there is a downstream command, else the named file, else the terminal.
pub open spec fn stdout_of(out: OutputSink, r: Redirection) -> bool {
    match r.downstream {
        Some(_) => out is Pipe,
        None => match r.out_name {
            Some(n) => out matches OutputSink::File { name, append } && name@ == n && append
                == r.add,
            None => out is Stdout,
        },
    }
}

/// Whether `err` is the error output that `r` describes.
pub open spec fn stderr_of(err: ErrorSink, r: Redirection) -> bool {
    match r.err_name {
        Some(n) => err matches ErrorSink::File { name, append } && name@ == n && append
            == r.err_add,
        None => err is Stderr,
    }
}

impl CommandBackPack {
    /// The token after position `i`, which names the value of the flag at `i`.
    pub fn get_next(args: &Vec<String>, i: usize) -> (r: Result<String, BuildError>)
        requires
            i < args.len(),
        ensures
            i + 1 < args.len() ==> (r matches Ok(s) && s@ == args[i + 1]@),
            i + 1 >= args.len() ==> (r matches Err(BuildError::NoArgument(s)) && s@
                == args[i as int]@),
    {
        if i + 1 >= args.len() {
            Err(BuildError::NoArgument(args[i].clone()))
        } else {
            Ok(args[i + 1].clone())
        }
    }

    /// Resolves the redirection of a segment whose first token is the
    /// command's name. Returns the sinks, the tokens left for the command
    /// (without its name), and the tokens of the next command when the
    /// segment pipes into one. Standard output is a named file, a pipe or the
    /// terminal, never two of them.
    pub fn new(args: &Vec<String>) -> (r: Result<
        (CommandBackPack, Vec<String>, Option<Vec<String>>),
        BuildError,
    >)
        ensures
            match redirection_of(texts(args@)) {
                Ok(red) => r matches Ok((pack, rest, down)) && stdout_of(pack.stdout, red)
                    && stderr_of(pack.stderr, red) && texts(rest@) == red.residual && match
                    red.downstream {
                    Some(d) => down matches Some(dv) && texts(dv@) == d,
                    None => down is None,
                },
                Err(flag) => r matches Err(BuildError::NoArgument(s)) && s@ == flag,
            },
            r matches Ok((pack, rest, down)) ==> (down is Some <==> pack.stdout is Pipe),
            r matches Ok((pack, rest, down)) ==> !(pack.stdout is File && down is Some),
    {
        let ghost a = texts(args@);
        let mut rest: Vec<String> = Vec::new();
        let mut out_name: Option<String> = None;
        let mut add = false;
        let mut err_name: Option<String> = None;
        let mut err_add = false;
        let mut down: Option<Vec<String>> = None;
        let mut i: usize = 1;
        assert(texts(rest@) =~= Seq::<Seq<char>>::empty());
        while i < args.len()
            invariant_except_break
                down is None,
            invariant
                1 <= i,
                a == texts(args@),
                redirection_of(a) == scan_redirection(
                    a,
                    i as int,
                    Redirection {
                        out_name: match out_name {
                            Some(n) => Some(n@),
                            None => None,
                        },
                        add,
                        err_name: match err_name {
                            Some(n) => Some(n@),
                            None => None,
                        },
                        err_add,
                        residual: texts(rest@),
                        downstream: None,
                    },
                ),
            ensures
                down matches Some(d) ==> redirection_of(a) == Ok::<Redirection, Seq<char>>(
                    Redirection {
                        out_name: match out_name {
                            Some(n) => Some(n@),
                            None => None,
                        },
                        add,
                        err_name: match err_name {
                                Some(n) => Some(n@),
                                None => None,
                            },
                        err_add,
                        residual: texts(rest@),
                        downstream: Some(texts(d@)),
                    },
                ),
                down is None ==> i >= args.len(),
            decreases args.len() - i,
        {
            let t = &args[i];
            assert(t@ == a[i as int]);
            if same_text(t, ">") || same_text(t, "--output") || same_text(t, "-out") {
                out_name = Some(Self::get_next(args, i)?);
                i += 2;
            } else if same_text(t, ">>") {
                out_name = Some(Self::get_next(args, i)?);
                add = true;
                i += 2;
            } else if same_text(t, "|") || same_text(t, "--pipe") || same_text(t, "--pipe-mode") {
                if i + 1 >= args.len() {
                    return Err(BuildError::NoArgument(t.clone()));
                } else {
                    let mut d: Vec<String> = Vec::new();
                    let mut j: usize = i + 1;
                    while j < args.len()
                        invariant
                            i + 1 <= j <= args.len(),
                            a == texts(args@),
                            texts(d@) == a.subrange(i + 1, j as int),
                        decreases args.len() - j,
                    {
                        let ghost before = texts(d@);
                        let s = args[j].clone();
                        d.push(s);
                        assert(texts(d@) =~= before.push(a[j as int]));
                        assert(a.subrange(i + 1, j + 1) =~= a.subrange(i + 1, j as int).push(
                            a[j as int],
                        ));
                        j += 1;
                    }
                    assert(a.subrange(i + 1, args.len() as int) =~= a.skip(i + 1));
                    down = Some(d);
                    break;
                }
            } else if same_text(t, "--err") || same_text(t, "--stderr") || same_text(t, "2>")
                || same_text(t, "--error") {
                err_name = Some(Self::get_next(args, i)?);
                i += 2;
            } else if same_text(t, "2>>") {
                err_name = Some(Self::get_next(args, i)?);
                err_add = true;
                i += 2;
            } else if same_text(t, "-add") || same_text(t, "--add-mode") {
                add = true;
                i += 1;
            } else {
                let ghost before = texts(rest@);
                rest.push(t.clone());
                assert(texts(rest@) =~= before.push(a[i as int]));
                i += 1;
            }
        }
        let stderr = match err_name {
            Some(name) => ErrorSink::File { name, append: err_add },
            None => ErrorSink::Stderr,
        };
        let stdout = if down.is_some() {
            OutputSink::Pipe
        } else {
            match out_name {
                Some(name) => OutputSink::File { name, append: add },
                None => OutputSink::Stdout,
            }
        };
        Ok((CommandBackPack { stdout, stderr }, rest, down))
    }
}

} // verus!
