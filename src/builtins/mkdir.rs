//! `mkdir`: creates directories.
use vstd::prelude::*;

use crate::command::{fails_as, flag_like, help_flag, is_flag, is_help_flag, CommandError, ParseFailure};
use crate::redirect::BuildError;
use crate::text::{same_text, texts};

verus! {

/// The errors of `mkdir` itself.
pub enum MkdirError {
    /// A directory could not be created: its path and the reason.
    CantCreateDir(String, String),
    /// A brace group was left open.
    UnclosedBrecker,
}

impl crate::command::Describe for MkdirError {
    open spec fn described(&self) -> Seq<char> {
        match self {
            MkdirError::CantCreateDir(p, e) => "can't create the directory("@ + p@ + "): "@ + e@,
            MkdirError::UnclosedBrecker => "unclosed brecker\n"@,
        }
    }

    fn describe(&self) -> (r: String) {
        match self {
            MkdirError::CantCreateDir(p, e) => {
                let mut r = String::from_str("can't create the directory(");
                r.append(p.as_str());
                r.append("): ");
                r.append(e.as_str());
                r
            },
            MkdirError::UnclosedBrecker => String::from_str("unclosed brecker\n"),
        }
    }
}

/// A `mkdir` invocation, ready to run.
pub struct Mkdir {
    /// The directories to create, relative to the working directory.
    pub command_format: Vec<String>,
    /// Create missing parent directories too.
    pub parents: bool,
    /// Report each directory created.
    pub verbose: bool,
}

pub struct MkdirOptions {
    pub names: Seq<Seq<char>>,
    pub parents: bool,
    pub verbose: bool,
}

pub open spec fn is_parents_flag(t: Seq<char>) -> bool {
    t == "-p"@ || t == "--parents"@
}

pub open spec fn is_verbose_flag(t: Seq<char>) -> bool {
    t == "-v"@ || t == "--verbose"@
}

/// Reads `mkdir`'s arguments from `i`: flags, and the directories to create.
pub open spec fn mkdir_scan(a: Seq<Seq<char>>, i: int, st: MkdirOptions) -> Result<
    MkdirOptions,
    ParseFailure,
>
    decreases a.len() - i,
{
    if i < 0 || i >= a.len() {
        Ok(st)
    } else {
        let t = a[i];
        if flag_like(t) {
            if is_help_flag(t) {
                Err(ParseFailure::Help)
            } else if is_parents_flag(t) {
                mkdir_scan(a, i + 1, MkdirOptions { parents: true, ..st })
            } else if is_verbose_flag(t) {
                mkdir_scan(a, i + 1, MkdirOptions { verbose: true, ..st })
            } else {
                Err(ParseFailure::Unexpected(t))
            }
        } else {
            mkdir_scan(a, i + 1, MkdirOptions { names: st.names.push(t), ..st })
        }
    }
}

/// The options of `mkdir` with arguments `a`; without a directory to create,
/// help is all it gives.
pub open spec fn mkdir_options(a: Seq<Seq<char>>) -> Result<MkdirOptions, ParseFailure> {
    let scanned = mkdir_scan(a, 0, MkdirOptions { names: Seq::empty(), parents: false, verbose: false });
    if scanned is Ok && scanned->Ok_0.names.len() == 0 {
        Err(ParseFailure::Help)
    } else {
        scanned
    }
}

impl Mkdir {
    pub open spec fn has_options(&self, o: MkdirOptions) -> bool {
        &&& texts(self.command_format@) == o.names
        &&& self.parents == o.parents
        &&& self.verbose == o.verbose
    }

    /// Builds a `mkdir` from its arguments.
    pub fn new_obj(args: &Vec<String>) -> (r: Result<Mkdir, CommandError<MkdirError>>)
        ensures
            match mkdir_options(texts(args@)) {
                Ok(o) => r matches Ok(m) && m.has_options(o),
                Err(f) => r matches Err(e) && fails_as(e, f, "mkdir"@, |x: MkdirError, t: Seq<char>| false),
            },
    {
        let ghost a = texts(args@);
        let ghost init = MkdirOptions { names: Seq::empty(), parents: false, verbose: false };
        let mut i: usize = 0;
        let mut names: Vec<String> = Vec::new();
        let mut parents = false;
        let mut verbose = false;
        assert(texts(names@) =~= Seq::<Seq<char>>::empty());
        while i < args.len()
            invariant
                a == texts(args@),
                init == (MkdirOptions { names: Seq::empty(), parents: false, verbose: false }),
                mkdir_scan(a, 0, init) == mkdir_scan(
                    a,
                    i as int,
                    MkdirOptions { names: texts(names@), parents, verbose },
                ),
            decreases args.len() - i,
        {
            let t = &args[i];
            assert(t@ == a[i as int]);
            if is_flag(t) {
                if help_flag(t) {
                    return Err(CommandError::Help);
                } else if same_text(t, "-p") || same_text(t, "--parents") {
                    parents = true;
                } else if same_text(t, "-v") || same_text(t, "--verbose") {
                    verbose = true;
                } else {
                    return Err(CommandError::BuildError(BuildError::UnexpectedArg(t.clone())));
                }
            } else {
                let ghost before = texts(names@);
                names.push(t.clone());
                assert(texts(names@) =~= before.push(a[i as int]));
            }
            i += 1;
        }
        if names.len() == 0 {
            return Err(CommandError::Help);
        }
        Ok(Mkdir { command_format: names, parents, verbose })
    }
}

} // verus!
