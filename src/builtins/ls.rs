//! `ls`: lists a directory.
use vstd::prelude::*;

use crate::command::{fails_as, flag_like, help_flag, is_flag, is_help_flag, CommandError, ParseFailure};
use crate::redirect::BuildError;
use crate::text::{same_text, string_of, texts};

verus! {

/// The errors of `ls` itself.
pub enum LsError {
    /// The path is no directory.
    NotDir(String),
    /// The directory could not be read: its path and the reason.
    ReadDirError(String, String),
}

impl crate::command::Describe for LsError {
    open spec fn described(&self) -> Seq<char> {
        match self {
            LsError::NotDir(d) => "not the dir: "@ + d@,
            LsError::ReadDirError(d, e) => "error with reading dire ("@ + d@ + "): "@ + e@,
        }
    }

    fn describe(&self) -> (r: String) {
        match self {
            LsError::NotDir(d) => {
                let mut r = String::from_str("not the dir: ");
                r.append(d.as_str());
                r
            },
            LsError::ReadDirError(d, e) => {
                let mut r = String::from_str("error with reading dire (");
                r.append(d.as_str());
                r.append("): ");
                r.append(e.as_str());
                r
            },
        }
    }
}

/// An `ls` invocation, ready to run.
pub struct Ls {
    /// The directory to list, relative to the working directory.
    pub dire: String,
    pub show_hide: bool,
    pub classify: bool,
    pub full_info: bool,
    pub show_hide_and: bool,
}

pub struct LsOptions {
    pub dir: Option<Seq<char>>,
    pub show_hide: bool,
    pub classify: bool,
    pub full_info: bool,
    pub show_hide_and: bool,
}

pub open spec fn is_classify_flag(t: Seq<char>) -> bool {
    t == "-F"@ || t == "--classify"@
}

pub open spec fn is_long_flag(t: Seq<char>) -> bool {
    t == "-l"@ || t == "--long-format"@
}

pub open spec fn is_all_flag(t: Seq<char>) -> bool {
    t == "-a"@ || t == "-all"@
}

pub open spec fn is_almost_all_flag(t: Seq<char>) -> bool {
    t == "-A"@ || t == "--almost-all"@
}

/// Reads `ls`'s arguments from `i`: flags, and the directory (the last word
/// that is no flag).
pub open spec fn ls_scan(a: Seq<Seq<char>>, i: int, st: LsOptions) -> Result<LsOptions, ParseFailure>
    decreases a.len() - i,
{
    if i < 0 || i >= a.len() {
        Ok(st)
    } else {
        let t = a[i];
        if flag_like(t) {
            if is_help_flag(t) {
                Err(ParseFailure::Help)
            } else if is_classify_flag(t) {
                ls_scan(a, i + 1, LsOptions { classify: true, ..st })
            } else if is_long_flag(t) {
                ls_scan(a, i + 1, LsOptions { full_info: true, ..st })
            } else if is_all_flag(t) {
                ls_scan(a, i + 1, LsOptions { show_hide: true, ..st })
            } else if is_almost_all_flag(t) {
                ls_scan(a, i + 1, LsOptions { show_hide_and: true, ..st })
            } else {
                Err(ParseFailure::Unexpected(t))
            }
        } else {
            ls_scan(a, i + 1, LsOptions { dir: Some(t), ..st })
        }
    }
}

pub open spec fn ls_options(a: Seq<Seq<char>>) -> Result<LsOptions, ParseFailure> {
    ls_scan(
        a,
        0,
        LsOptions {
            dir: None,
            show_hide: false,
            classify: false,
            full_info: false,
            show_hide_and: false,
        },
    )
}

impl Ls {
    /// Whether this `ls` has options `o`; without a directory it lists `.`.
    pub open spec fn has_options(&self, o: LsOptions) -> bool {
        &&& self.dire@ == match o.dir {
            Some(d) => d,
            None => "."@,
        }
        &&& self.show_hide == o.show_hide
        &&& self.classify == o.classify
        &&& self.full_info == o.full_info
        &&& self.show_hide_and == o.show_hide_and
    }

    /// Builds an `ls` from its arguments.
    pub fn new_obj(args: &Vec<String>) -> (r: Result<Ls, CommandError<LsError>>)
        ensures
            match ls_options(texts(args@)) {
                Ok(o) => r matches Ok(l) && l.has_options(o),
                Err(f) => r matches Err(e) && fails_as(e, f, "ls"@, |x: LsError, t: Seq<char>| false),
            },
    {
        let ghost a = texts(args@);
        let ghost init = LsOptions {
            dir: None,
            show_hide: false,
            classify: false,
            full_info: false,
            show_hide_and: false,
        };
        let mut i: usize = 0;
        let mut dir: Option<String> = None;
        let mut show_hide = false;
        let mut classify = false;
        let mut full_info = false;
        let mut show_hide_and = false;
        while i < args.len()
            invariant
                a == texts(args@),
                init == (LsOptions {
                    dir: None,
                    show_hide: false,
                    classify: false,
                    full_info: false,
                    show_hide_and: false,
                }),
                ls_scan(a, 0, init) == ls_scan(
                    a,
                    i as int,
                    LsOptions {
                        dir: match dir {
                            Some(d) => Some(d@),
                            None => None,
                        },
                        show_hide,
                        classify,
                        full_info,
                        show_hide_and,
                    },
                ),
            decreases args.len() - i,
        {
            let t = &args[i];
            assert(t@ == a[i as int]);
            if is_flag(t) {
                if help_flag(t) {
                    return Err(CommandError::Help);
                } else if same_text(t, "-F") || same_text(t, "--classify") {
                    classify = true;
                } else if same_text(t, "-l") || same_text(t, "--long-format") {
                    full_info = true;
                } else if same_text(t, "-a") || same_text(t, "-all") {
                    show_hide = true;
                } else if same_text(t, "-A") || same_text(t, "--almost-all") {
                    show_hide_and = true;
                } else {
                    return Err(CommandError::BuildError(BuildError::UnexpectedArg(t.clone())));
                }
            } else {
                dir = Some(t.clone());
            }
            i += 1;
        }
        let dire = match dir {
            Some(d) => d,
            None => String::from_str("."),
        };
        Ok(Ls { dire, show_hide, classify, full_info, show_hide_and })
    }
}

/// The character that marks a permission bit: `c` when `bit` is set in
/// `mode`, `-` otherwise.
pub open spec fn perm_char(mode: u32, bit: u32, c: char) -> char {
    if mode & bit != 0 {
        c
    } else {
        '-'
    }
}

/// The long listing's permission text: `d` or `-`, then read, write and
/// execute for owner, group and others.
pub open spec fn permissions_of(is_dir: bool, mode: u32) -> Seq<char> {
    seq![
        if is_dir {
            'd'
        } else {
            '-'
        },
        perm_char(mode, 0o400, 'r'),
        perm_char(mode, 0o200, 'w'),
        perm_char(mode, 0o100, 'x'),
        perm_char(mode, 0o040, 'r'),
        perm_char(mode, 0o020, 'w'),
        perm_char(mode, 0o010, 'x'),
        perm_char(mode, 0o004, 'r'),
        perm_char(mode, 0o002, 'w'),
        perm_char(mode, 0o001, 'x'),
    ]
}

fn bit_char(mode: u32, bit: u32, c: char) -> (r: char)
    ensures
        r == perm_char(mode, bit, c),
{
    if mode & bit != 0 {
        c
    } else {
        '-'
    }
}

/// The type marks of `ls -F`.
pub open spec fn mark_of(
    is_dir: bool,
    is_symlink: bool,
    is_fifo: bool,
    is_socket: bool,
    executable: bool,
) -> char {
    if is_dir {
        '/'
    } else if is_symlink {
        '@'
    } else if is_fifo {
        '|'
    } else if is_socket {
        '='
    } else if executable {
        '*'
    } else {
        ' '
    }
}

impl Ls {
    /// The permission text of an entry with mode bits `mode`.
    pub fn permission_text(is_dir: bool, mode: u32) -> (r: String)
        ensures
            r@ == permissions_of(is_dir, mode),
    {
        let mut cs: Vec<char> = Vec::new();
        cs.push(
            if is_dir {
                'd'
            } else {
                '-'
            },
        );
        cs.push(bit_char(mode, 0o400, 'r'));
        cs.push(bit_char(mode, 0o200, 'w'));
        cs.push(bit_char(mode, 0o100, 'x'));
        cs.push(bit_char(mode, 0o040, 'r'));
        cs.push(bit_char(mode, 0o020, 'w'));
        cs.push(bit_char(mode, 0o010, 'x'));
        cs.push(bit_char(mode, 0o004, 'r'));
        cs.push(bit_char(mode, 0o002, 'w'));
        cs.push(bit_char(mode, 0o001, 'x'));
        assert(cs@ =~= permissions_of(is_dir, mode));
        string_of(&cs)
    }

    /// The mark `ls -F` puts after an entry of the given type; `executable`
    /// tells whether a writable entry has an execute bit.
    pub fn classify_mark(
        is_dir: bool,
        is_symlink: bool,
        is_fifo: bool,
        is_socket: bool,
        executable: bool,
    ) -> (r: char)
        ensures
            r == mark_of(is_dir, is_symlink, is_fifo, is_socket, executable),
    {
        if is_dir {
            '/'
        } else if is_symlink {
            '@'
        } else if is_fifo {
            '|'
        } else if is_socket {
            '='
        } else if executable {
            '*'
        } else {
            ' '
        }
    }

    /// Whether `.` and `..` are listed first: with `-a` and without `-A`.
    pub fn lists_dot_entries(&self) -> (r: bool)
        ensures
            r == (self.show_hide && !self.show_hide_and),
    {
        self.show_hide && !self.show_hide_and
    }

    /// Whether the entry named `name` is listed: hidden entries (those whose
    /// name starts with `.`) only with `-a` or `-A`.
    pub fn shows_entry(&self, name: &str) -> (r: bool)
        ensures
            r == (!(name@.len() > 0 && name@[0] == '.') || self.show_hide || self.show_hide_and),
    {
        let hidden = name.unicode_len() > 0 && name.get_char(0) == '.';
        !hidden || self.show_hide || self.show_hide_and
    }
}

} // verus!
