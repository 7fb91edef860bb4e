//! `rm`: removes files and directories.
use vstd::prelude::*;

use crate::command::{fails_as, flag_like, is_flag, CommandError, ParseFailure};
use crate::redirect::BuildError;
use crate::text::{same_text, texts};

verus! {

/// The errors of `rm` itself.
pub enum RmError {
    /// A path could not be removed: the path and the reason.
    RmError(String, String),
    /// The path is a directory, and directories were not asked for.
    IsDir(String),
}

impl crate::command::Describe for RmError {
    open spec fn described(&self) -> Seq<char> {
        match self {
            RmError::RmError(p, e) => "error with remove element("@ + p@ + "): "@ + e@,
            RmError::IsDir(p) => "the ("@ + p@ + ") is dir, can't remove it (use -rf for do it)\n"@,
        }
    }

    fn describe(&self) -> (r: String) {
        match self {
            RmError::RmError(p, e) => {
                let mut r = String::from_str("error with remove element(");
                r.append(p.as_str());
                r.append("): ");
                r.append(e.as_str());
                r
            },
            RmError::IsDir(p) => {
                let mut r = String::from_str("the (");
                r.append(p.as_str());
                r.append(") is dir, can't remove it (use -rf for do it)\n");
                r
            },
        }
    }
}

/// An `rm` invocation, ready to run.
pub struct Rm {
    /// What to remove, relative to the working directory.
    pub names: Vec<String>,
    /// Remove directories with all they hold.
    pub dir: bool,
}

pub struct RmOptions {
    pub names: Seq<Seq<char>>,
    pub dir: bool,
}

pub open spec fn is_recursive_flag(t: Seq<char>) -> bool {
    t == "-rf"@ || t == "--rf"@
}

/// Reads `rm`'s arguments from `i`: flags, and the paths to remove.
pub open spec fn rm_scan(a: Seq<Seq<char>>, i: int, st: RmOptions) -> Result<RmOptions, ParseFailure>
    decreases a.len() - i,
{
    if i < 0 || i >= a.len() {
        Ok(st)
    } else {
        let t = a[i];
        if flag_like(t) {
            if is_recursive_flag(t) {
                rm_scan(a, i + 1, RmOptions { dir: true, ..st })
            } else {
                Err(ParseFailure::Unexpected(t))
            }
        } else {
            rm_scan(a, i + 1, RmOptions { names: st.names.push(t), ..st })
        }
    }
}

/// The options of `rm` with arguments `a`; without a path to remove, help is
/// all it gives.
pub open spec fn rm_options(a: Seq<Seq<char>>) -> Result<RmOptions, ParseFailure> {
    let scanned = rm_scan(a, 0, RmOptions { names: Seq::empty(), dir: false });
    if scanned is Ok && scanned->Ok_0.names.len() == 0 {
        Err(ParseFailure::Help)
    } else {
        scanned
    }
}

impl Rm {
    pub open spec fn has_options(&self, o: RmOptions) -> bool {
        texts(self.names@) == o.names && self.dir == o.dir
    }

    /// Builds an `rm` from its arguments.
    pub fn new_obj(args: &Vec<String>) -> (r: Result<Rm, CommandError<RmError>>)
        ensures
            match rm_options(texts(args@)) {
                Ok(o) => r matches Ok(m) && m.has_options(o),
                Err(f) => r matches Err(e) && fails_as(e, f, "rm"@, |x: RmError, t: Seq<char>| false),
            },
    {
        let ghost a = texts(args@);
        let ghost init = RmOptions { names: Seq::empty(), dir: false };
        let mut i: usize = 0;
        let mut names: Vec<String> = Vec::new();
        let mut dir = false;
        assert(texts(names@) =~= Seq::<Seq<char>>::empty());
        while i < args.len()
            invariant
                a == texts(args@),
                init == (RmOptions { names: Seq::empty(), dir: false }),
                rm_scan(a, 0, init) == rm_scan(a, i as int, RmOptions { names: texts(names@), dir }),
            decreases args.len() - i,
        {
            let t = &args[i];
            assert(t@ == a[i as int]);
            if is_flag(t) {
                if same_text(t, "-rf") || same_text(t, "--rf") {
                    dir = true;
                } else {
                    return Err(CommandError::BuildError(BuildError::UnexpectedArg(t.clone())));
                }
            } else {
                let ghost before = texts(names@);
                names.push(t.clone());
                assert(texts(names@) =~= before.push(a[i as int]));
            }
            i += 1;
        }
        if names.len() == 0 {
            return Err(CommandError::Help);
        }
        Ok(Rm { names, dir })
    }
}

} // verus!
