//! `grep`: keeps the lines that contain a pattern.
use vstd::prelude::*;

use crate::command::{
    fails_as, flag_like, help_flag, input_names, is_flag, is_help_flag, CommandError, InputFile,
    InputName, ParseFailure,
};
use crate::redirect::{BuildError, CommandBackPack};
use crate::text::{contains, decimal, decimal_text, same_text, text_contains, texts};

verus! {

/// The errors of `grep` itself.
pub enum GrepError {
    /// No pattern was given.
    NoPattern,
}

impl crate::command::Describe for GrepError {
    open spec fn described(&self) -> Seq<char> {
        "no pattern"@
    }

    fn describe(&self) -> (r: String) {
        String::from_str("no pattern")
    }
}

/// A `grep` invocation, ready to run.
pub struct Grep {
    pub pattern: String,
    pub input_files: Vec<InputFile>,
    pub count: bool,
    pub ignore_case: bool,
    pub line_number: bool,
}

/// The options of a `grep` invocation, as the contracts see them.
pub struct GrepOptions {
    pub pattern: Option<Seq<char>>,
    pub inputs: Seq<InputName>,
    pub count: bool,
    pub ignore_case: bool,
    pub line_number: bool,
}

pub open spec fn is_grep_input_flag(t: Seq<char>) -> bool {
    t == "-in"@ || t == "--input-file"@ || t == "-f"@ || t == "--from"@
}

pub open spec fn is_grep_pattern_flag(t: Seq<char>) -> bool {
    t == "-p"@ || t == "--pattern"@ || t == "--pat"@
}

pub open spec fn is_grep_count_flag(t: Seq<char>) -> bool {
    t == "-c"@ || t == "--count"@ || t == "--count-lines"@
}

pub open spec fn is_grep_number_flag(t: Seq<char>) -> bool {
    t == "-n"@ || t == "-ln"@ || t == "--line-number"@
}

pub open spec fn is_grep_ignore_flag(t: Seq<char>) -> bool {
    t == "-i"@ || t == "--ignore-case"@ || t == "--ignore"@
}

/// Reads `grep`'s arguments from `i`. The first word that is no flag is the
/// pattern, unless a pattern flag gave it; the other words name input files.
pub open spec fn grep_scan(a: Seq<Seq<char>>, i: int, st: GrepOptions) -> Result<
    GrepOptions,
    ParseFailure,
>
    decreases a.len() - i,
{
    if i < 0 || i >= a.len() {
        Ok(st)
    } else {
        let t = a[i];
        if flag_like(t) {
            if t == "-"@ {
                grep_scan(a, i + 1, GrepOptions { inputs: st.inputs.push(InputName::Stdin), ..st })
            } else if is_grep_input_flag(t) {
                if i + 1 >= a.len() {
                    Err(ParseFailure::NoArgument(t))
                } else {
                    grep_scan(
                        a,
                        i + 2,
                        GrepOptions { inputs: st.inputs.push(InputName::File(a[i + 1])), ..st },
                    )
                }
            } else if is_grep_pattern_flag(t) {
                if i + 1 >= a.len() {
                    Err(ParseFailure::NoArgument(t))
                } else {
                    grep_scan(a, i + 2, GrepOptions { pattern: Some(a[i + 1]), ..st })
                }
            } else if is_grep_count_flag(t) {
                grep_scan(a, i + 1, GrepOptions { count: true, ..st })
            } else if is_help_flag(t) {
                Err(ParseFailure::Help)
            } else if is_grep_number_flag(t) {
                grep_scan(a, i + 1, GrepOptions { line_number: true, ..st })
            } else if is_grep_ignore_flag(t) {
                grep_scan(a, i + 1, GrepOptions { ignore_case: true, ..st })
            } else {
                Err(ParseFailure::Unexpected(t))
            }
        } else if st.pattern is None {
            grep_scan(a, i + 1, GrepOptions { pattern: Some(t), ..st })
        } else {
            grep_scan(a, i + 1, GrepOptions { inputs: st.inputs.push(InputName::File(t)), ..st })
        }
    }
}

/// The options before any argument is read.
pub open spec fn grep_initial(pipe: bool) -> GrepOptions {
    GrepOptions {
        pattern: None,
        inputs: if pipe {
            seq![InputName::Pipe]
        } else {
            Seq::empty()
        },
        count: false,
        ignore_case: false,
        line_number: false,
    }
}

/// The options of `grep` with arguments `a`; `pipe` tells whether a previous
/// command pipes into it, which makes the pipe its first input. Without any
/// input, `grep` reads standard input; without a pattern it fails.
pub open spec fn grep_options(a: Seq<Seq<char>>, pipe: bool) -> Result<GrepOptions, ParseFailure> {
    let scanned = grep_scan(a, 0, grep_initial(pipe));
    if scanned is Err {
        scanned
    } else {
        let o = scanned->Ok_0;
        if o.pattern is None {
            Err(ParseFailure::Own(Seq::empty()))
        } else if o.inputs.len() == 0 {
            Ok(GrepOptions { inputs: seq![InputName::Stdin], ..o })
        } else {
            Ok(o)
        }
    }
}

impl Grep {
    pub open spec fn has_options(&self, o: GrepOptions) -> bool {
        &&& o.pattern == Some(self.pattern@)
        &&& input_names(self.input_files@) == o.inputs
        &&& self.count == o.count
        &&& self.ignore_case == o.ignore_case
        &&& self.line_number == o.line_number
    }

    /// Builds a `grep` from its arguments; `pipe` tells whether a previous
    /// command pipes into it.
    pub fn new_obj(args: &Vec<String>, pipe: bool) -> (r: Result<Grep, CommandError<GrepError>>)
        ensures
            match grep_options(crate::text::texts(args@), pipe) {
                Ok(o) => r matches Ok(g) && g.has_options(o),
                Err(f) => r matches Err(e) && fails_as(e, f, "grep"@, |x: GrepError, t: Seq<char>| x is NoPattern),
            },
    {
        let ghost a = crate::text::texts(args@);
        let mut i: usize = 0;
        let mut pattern: Option<String> = None;
        let mut input_files: Vec<InputFile> = Vec::new();
        if pipe {
            input_files.push(InputFile::Pipe);
        }
        let mut count = false;
        let mut ignore_case = false;
        let mut line_number = false;
        let ghost init = grep_initial(pipe);
        assert(input_names(input_files@) =~= init.inputs);
        while i < args.len()
            invariant
                a == crate::text::texts(args@),
                init == grep_initial(pipe),
                grep_scan(a, 0, init) == grep_scan(
                    a,
                    i as int,
                    GrepOptions {
                        pattern: match pattern {
                            Some(p) => Some(p@),
                            None => None,
                        },
                        inputs: input_names(input_files@),
                        count,
                        ignore_case,
                        line_number,
                    },
                ),
            decreases args.len() - i,
        {
            let t = &args[i];
            assert(t@ == a[i as int]);
            let ghost before = input_names(input_files@);
            if is_flag(t) {
                if same_text(t, "-") {
                    input_files.push(InputFile::Stdin);
                    assert(input_names(input_files@) =~= before.push(InputName::Stdin));
                } else if same_text(t, "-in") || same_text(t, "--input-file") || same_text(t, "-f")
                    || same_text(t, "--from") {
                    match CommandBackPack::get_next(args, i) {
                        Ok(name) => {
                            let ghost v = name@;
                            input_files.push(InputFile::File(name));
                            assert(input_names(input_files@) =~= before.push(InputName::File(v)));
                            i += 1;
                        },
                        Err(e) => return Err(CommandError::BuildError(e)),
                    }
                } else if same_text(t, "-p") || same_text(t, "--pattern") || same_text(t, "--pat") {
                    match CommandBackPack::get_next(args, i) {
                        Ok(p) => {
                            pattern = Some(p);
                            i += 1;
                        },
                        Err(e) => return Err(CommandError::BuildError(e)),
                    }
                } else if same_text(t, "-c") || same_text(t, "--count") || same_text(
                    t,
                    "--count-lines",
                ) {
                    count = true;
                } else if help_flag(t) {
                    return Err(CommandError::Help);
                } else if same_text(t, "-n") || same_text(t, "-ln") || same_text(
                    t,
                    "--line-number",
                ) {
                    line_number = true;
                } else if same_text(t, "-i") || same_text(t, "--ignore-case") || same_text(
                    t,
                    "--ignore",
                ) {
                    ignore_case = true;
                } else {
                    return Err(CommandError::BuildError(BuildError::UnexpectedArg(t.clone())));
                }
            } else if pattern.is_none() {
                pattern = Some(t.clone());
            } else {
                let ghost v = t@;
                input_files.push(InputFile::File(t.clone()));
                assert(input_names(input_files@) =~= before.push(InputName::File(v)));
            }
            i += 1;
        }
        match pattern {
            None => Err(CommandError::Other(String::from_str("grep"), GrepError::NoPattern)),
            Some(pattern) => {
                if input_files.len() == 0 {
                    input_files.push(InputFile::Stdin);
                    assert(input_names(input_files@) =~= seq![InputName::Stdin]);
                }
                Ok(Grep { pattern, input_files, count, ignore_case, line_number })
            },
        }
    }
}

/// The lowercase form of a text.
pub uninterp spec fn lower_of(s: Seq<char>) -> Seq<char>;

/// Relies on `str::to_lowercase`: the lowercase form depends on the
/// characters alone.
#[verifier::external_body]
fn lowercase(s: &str) -> (r: String)
    ensures
        r@ == lower_of(s@),
{
    s.to_lowercase()
}

/// The line `grep` writes for the matching line `line`, the `n`-th of its
/// input.
pub open spec fn output_line(line: Seq<char>, n: nat, line_number: bool) -> Seq<char> {
    if line_number {
        decimal(n) + ". "@ + line
    } else {
        line
    }
}

/// What `grep` writes for the first `n` lines of an input, where `m` tells
/// the matching lines apart.
pub open spec fn matching_output(
    lines: Seq<Seq<char>>,
    n: int,
    m: spec_fn(Seq<char>) -> bool,
    line_number: bool,
) -> Seq<Seq<char>>
    decreases n,
{
    if n <= 0 || n > lines.len() {
        Seq::empty()
    } else {
        let before = matching_output(lines, n - 1, m, line_number);
        if m(lines[n - 1]) {
            before.push(output_line(lines[n - 1], n as nat, line_number))
        } else {
            before
        }
    }
}

impl Grep {
    /// Whether this `grep` keeps the line `line`.
    pub open spec fn keeps(&self, line: Seq<char>) -> bool {
        if self.ignore_case {
            contains(lower_of(line), lower_of(self.pattern@))
        } else {
            contains(line, self.pattern@)
        }
    }

    /// What this `grep` writes for an input with lines `lines`: the count of
    /// matching lines, or each matching line, numbered from one when asked.
    pub open spec fn output(&self, lines: Seq<Seq<char>>) -> Seq<Seq<char>> {
        if self.count {
            seq![decimal(lines.filter(|l: Seq<char>| self.keeps(l)).len())]
        } else {
            matching_output(lines, lines.len() as int, |l: Seq<char>| self.keeps(l), self.line_number)
        }
    }

    /// The lines this `grep` writes for an input with lines `lines`.
    pub fn select(&self, lines: &Vec<String>) -> (r: Vec<String>)
        ensures
            texts(r@) == self.output(texts(lines@)),
    {
        let ghost all = texts(lines@);
        let ghost m = |l: Seq<char>| self.keeps(l);
        let folded = lowercase(self.pattern.as_str());
        let mut out: Vec<String> = Vec::new();
        let mut found: usize = 0;
        let mut i: usize = 0;
        assert(texts(out@) =~= Seq::<Seq<char>>::empty());
        while i < lines.len()
            invariant
                i <= lines.len(),
                all == texts(lines@),
                m == (|l: Seq<char>| self.keeps(l)),
                folded@ == lower_of(self.pattern@),
                found as int == all.take(i as int).filter(m).len(),
                found <= i,
                !self.count ==> texts(out@) == matching_output(all, i as int, m, self.line_number),
            decreases lines.len() - i,
        {
            let line = &lines[i];
            let hit = if self.ignore_case {
                let low = lowercase(line.as_str());
                text_contains(low.as_str(), folded.as_str())
            } else {
                text_contains(line.as_str(), self.pattern.as_str())
            };
            assert(hit == m(all[i as int]));
            assert(all.take(i + 1).drop_last() =~= all.take(i as int));
            assert(all.take(i + 1).last() == all[i as int]);
            proof {
                reveal(Seq::filter);
            }
            if hit {
                found += 1;
                if !self.count {
                    let text = if self.line_number {
                        let mut t = decimal_text(i + 1);
                        t.append(". ");
                        t.append(line.as_str());
                        t
                    } else {
                        line.clone()
                    };
                    let ghost before = texts(out@);
                    let ghost tv = text@;
                    out.push(text);
                    assert(texts(out@) =~= before.push(tv));
                }
            }
            i += 1;
        }
        assert(all.take(lines.len() as int) =~= all);
        if self.count {
            let mut r: Vec<String> = Vec::new();
            r.push(decimal_text(found));
            assert(texts(r@) =~= seq![decimal(found as nat)]);
            r
        } else {
            out
        }
    }
}

} // verus!
