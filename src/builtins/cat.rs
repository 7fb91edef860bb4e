//! `cat`: copies its inputs to its output.
use vstd::prelude::*;

use crate::command::{
    fails_as, flag_like, help_flag, input_names, is_flag, is_help_flag, CommandError, InputFile,
    InputName, ParseFailure,
};
use crate::redirect::{BuildError, CommandBackPack};
use crate::job::{is_space, space_char};
use crate::text::{decimal, decimal_text, same_text, texts};

verus! {

/// The errors of `cat` itself; no parse or run step produces one.
pub enum CatError {
    Unknown,
}

impl crate::command::Describe for CatError {
    open spec fn described(&self) -> Seq<char> {
        "unknown Error\n"@
    }

    fn describe(&self) -> (r: String) {
        String::from_str("unknown Error\n")
    }
}

/// A `cat` invocation, ready to run.
pub struct Cat {
    pub input_files: Vec<InputFile>,
    pub show_end: bool,
    pub squize_blank: bool,
    pub count_non_empty: bool,
    pub line_number: bool,
}

pub struct CatOptions {
    pub inputs: Seq<InputName>,
    pub show_end: bool,
    pub squize_blank: bool,
    pub count_non_empty: bool,
    pub line_number: bool,
}

pub open spec fn is_cat_input_flag(t: Seq<char>) -> bool {
    t == "-in"@ || t == "--input-file"@ || t == "-f"@ || t == "--from"@
}

pub open spec fn is_cat_number_flag(t: Seq<char>) -> bool {
    t == "-n"@ || t == "-ln"@ || t == "--line-number"@
}

pub open spec fn is_show_end_flag(t: Seq<char>) -> bool {
    t == "-E"@ || t == "--show-ends"@ || t == "--show"@
}

pub open spec fn is_non_blank_flag(t: Seq<char>) -> bool {
    t == "-b"@ || t == "--non-blank"@
}

pub open spec fn is_squeeze_flag(t: Seq<char>) -> bool {
    t == "-s"@ || t == "--squeze"@
}

/// Reads `cat`'s arguments from `i`: flags, and the inputs in order.
pub open spec fn cat_scan(a: Seq<Seq<char>>, i: int, st: CatOptions) -> Result<CatOptions, ParseFailure>
    decreases a.len() - i,
{
    if i < 0 || i >= a.len() {
        Ok(st)
    } else {
        let t = a[i];
        if flag_like(t) {
            if t == "-"@ {
                cat_scan(a, i + 1, CatOptions { inputs: st.inputs.push(InputName::Stdin), ..st })
            } else if is_cat_input_flag(t) {
                if i + 1 >= a.len() {
                    Err(ParseFailure::NoArgument(t))
                } else {
                    cat_scan(
                        a,
                        i + 2,
                        CatOptions { inputs: st.inputs.push(InputName::File(a[i + 1])), ..st },
                    )
                }
            } else if is_help_flag(t) {
                Err(ParseFailure::Help)
            } else if is_cat_number_flag(t) {
                cat_scan(a, i + 1, CatOptions { line_number: true, ..st })
            } else if is_show_end_flag(t) {
                cat_scan(a, i + 1, CatOptions { show_end: true, ..st })
            } else if is_non_blank_flag(t) {
                cat_scan(a, i + 1, CatOptions { count_non_empty: true, ..st })
            } else if is_squeeze_flag(t) {
                cat_scan(a, i + 1, CatOptions { squize_blank: true, ..st })
            } else {
                Err(ParseFailure::Unexpected(t))
            }
        } else {
            cat_scan(a, i + 1, CatOptions { inputs: st.inputs.push(InputName::File(t)), ..st })
        }
    }
}

pub open spec fn cat_initial(pipe: bool) -> CatOptions {
    CatOptions {
        inputs: if pipe {
            seq![InputName::Pipe]
        } else {
            Seq::empty()
        },
        show_end: false,
        squize_blank: false,
        count_non_empty: false,
        line_number: false,
    }
}

/// The options of `cat` with arguments `a`; `pipe` tells whether a previous
/// command pipes into it, which makes the pipe its first input. Without any
/// input it reads standard input; numbering the non-empty lines overrides
/// numbering them all.
pub open spec fn cat_options(a: Seq<Seq<char>>, pipe: bool) -> Result<CatOptions, ParseFailure> {
    let scanned = cat_scan(a, 0, cat_initial(pipe));
    if scanned is Err {
        scanned
    } else {
        let o = scanned->Ok_0;
        Ok(
            CatOptions {
                inputs: if o.inputs.len() == 0 {
                    seq![InputName::Stdin]
                } else {
                    o.inputs
                },
                line_number: o.line_number && !o.count_non_empty,
                ..o
            },
        )
    }
}

impl Cat {
    pub open spec fn has_options(&self, o: CatOptions) -> bool {
        &&& input_names(self.input_files@) == o.inputs
        &&& self.show_end == o.show_end
        &&& self.squize_blank == o.squize_blank
        &&& self.count_non_empty == o.count_non_empty
        &&& self.line_number == o.line_number
    }

    /// Builds a `cat` from its arguments; `pipe` tells whether a previous
    /// command pipes into it.
    pub fn new_obj(args: &Vec<String>, pipe: bool) -> (r: Result<Cat, CommandError<CatError>>)
        ensures
            match cat_options(texts(args@), pipe) {
                Ok(o) => r matches Ok(c) && c.has_options(o),
                Err(f) => r matches Err(e) && fails_as(e, f, "cat"@, |x: CatError, t: Seq<char>| false),
            },
    {
        let ghost a = texts(args@);
        let ghost init = cat_initial(pipe);
        let mut i: usize = 0;
        let mut input_files: Vec<InputFile> = Vec::new();
        if pipe {
            input_files.push(InputFile::Pipe);
        }
        let mut show_end = false;
        let mut line_number = false;
        let mut count_non_empty = false;
        let mut squize_blank = false;
        assert(input_names(input_files@) =~= init.inputs);
        while i < args.len()
            invariant
                a == texts(args@),
                init == cat_initial(pipe),
                cat_scan(a, 0, init) == cat_scan(
                    a,
                    i as int,
                    CatOptions {
                        inputs: input_names(input_files@),
                        show_end,
                        squize_blank,
                        count_non_empty,
                        line_number,
                    },
                ),
            decreases args.len() - i,
        {
            let t = &args[i];
            assert(t@ == a[i as int]);
            let ghost before = input_names(input_files@);
            if is_flag(t) {
                if same_text(t, "-") {
                    input_files.push(InputFile::Stdin);
                    assert(input_names(input_files@) =~= before.push(InputName::Stdin));
                } else if same_text(t, "-in") || same_text(t, "--input-file") || same_text(t, "-f")
                    || same_text(t, "--from") {
                    match CommandBackPack::get_next(args, i) {
                        Ok(name) => {
                            let ghost v = name@;
                            input_files.push(InputFile::File(name));
                            assert(input_names(input_files@) =~= before.push(InputName::File(v)));
                            i += 1;
                        },
                        Err(e) => return Err(CommandError::BuildError(e)),
                    }
                } else if help_flag(t) {
                    return Err(CommandError::Help);
                } else if same_text(t, "-n") || same_text(t, "-ln") || same_text(
                    t,
                    "--line-number",
                ) {
                    line_number = true;
                } else if same_text(t, "-E") || same_text(t, "--show-ends") || same_text(
                    t,
                    "--show",
                ) {
                    show_end = true;
                } else if same_text(t, "-b") || same_text(t, "--non-blank") {
                    count_non_empty = true;
                } else if same_text(t, "-s") || same_text(t, "--squeze") {
                    squize_blank = true;
                } else {
                    return Err(CommandError::BuildError(BuildError::UnexpectedArg(t.clone())));
                }
            } else {
                let ghost v = t@;
                input_files.push(InputFile::File(t.clone()));
                assert(input_names(input_files@) =~= before.push(InputName::File(v)));
            }
            i += 1;
        }
        if line_number && count_non_empty {
            line_number = false;
        }
        if input_files.len() == 0 {
            input_files.push(InputFile::Stdin);
            assert(input_names(input_files@) =~= seq![InputName::Stdin]);
        }
        Ok(Cat { input_files, show_end, squize_blank, count_non_empty, line_number })
    }
}

/// A line of blanks only.
pub open spec fn blank_line(line: Seq<char>) -> bool {
    forall|i: int| 0 <= i < line.len() ==> is_space(#[trigger] line[i])
}

fn is_blank_line(line: &str) -> (r: bool)
    ensures
        r == blank_line(line@),
{
    let n = line.unicode_len();
    let mut i: usize = 0;
    while i < n
        invariant
            i <= n,
            n == line@.len(),
            forall|j: int| 0 <= j < i ==> is_space(#[trigger] line@[j]),
        decreases n - i,
    {
        let c = line.get_char(i);
        if !space_char(c) {
            return false;
        }
        i += 1;
    }
    true
}

/// What `cat` has written after the first `n` lines of an input: the lines
/// written, whether the last line read was a squeezed blank one, and the
/// number of the next numbered line. `last_blank` tells whether the previous
/// input ended with a squeezed blank line.
pub open spec fn cat_progress(
    c: Cat,
    lines: Seq<Seq<char>>,
    n: int,
    last_blank: bool,
) -> (Seq<Seq<char>>, bool, nat)
    decreases n,
{
    if n <= 0 || n > lines.len() {
        (Seq::empty(), last_blank, 0)
    } else {
        let (out, was_blank, index) = cat_progress(c, lines, n - 1, last_blank);
        let line = lines[n - 1];
        let blank = c.squize_blank && blank_line(line);
        if blank && was_blank {
            (out, was_blank, index)
        } else {
            let numbered = c.line_number || (c.count_non_empty && line.len() > 0);
            let text = (if numbered {
                decimal(index) + ". "@
            } else {
                Seq::empty()
            }) + line + (if c.show_end {
                "$"@
            } else {
                Seq::empty()
            });
            (out.push(text), blank, if numbered {
                index + 1
            } else {
                index
            })
        }
    }
}

impl Cat {
    /// The lines this `cat` writes for an input with lines `lines`, and
    /// whether it ended on a squeezed blank line; `last_blank` tells whether
    /// the previous input did. Runs of blank lines shrink to one when
    /// squeezing; numbers count from zero in each input.
    pub fn format(&self, lines: &Vec<String>, last_blank: bool) -> (r: (Vec<String>, bool))
        ensures
            texts(r.0@) == cat_progress(*self, texts(lines@), lines.len() as int, last_blank).0,
            r.1 == cat_progress(*self, texts(lines@), lines.len() as int, last_blank).1,
    {
        let ghost all = texts(lines@);
        let mut out: Vec<String> = Vec::new();
        let mut was_blank = last_blank;
        let mut index: usize = 0;
        let mut i: usize = 0;
        assert(texts(out@) =~= Seq::<Seq<char>>::empty());
        while i < lines.len()
            invariant
                i <= lines.len(),
                index <= i,
                all == texts(lines@),
                cat_progress(*self, all, i as int, last_blank) == (texts(out@), was_blank, index as nat),
            decreases lines.len() - i,
        {
            let line = &lines[i];
            assert(line@ == all[i as int]);
            let blank = self.squize_blank && is_blank_line(line.as_str());
            if !(blank && was_blank) {
                let numbered = self.line_number || (self.count_non_empty && line.as_str().unicode_len() > 0);
                let mut text = String::new();
                if numbered {
                    text.append(decimal_text(index).as_str());
                    text.append(". ");
                    index += 1;
                }
                text.append(line.as_str());
                if self.show_end {
                    text.append("$");
                }
                assert(text@ =~= (if numbered {
                    decimal((index - 1) as nat) + ". "@
                } else {
                    Seq::empty()
                }) + line@ + (if self.show_end {
                    "$"@
                } else {
                    Seq::empty()
                })) by {
                    if numbered {
                        assert(index - 1 + 1 == index);
                    }
                }
                let ghost before = texts(out@);
                let ghost tv = text@;
                out.push(text);
                assert(texts(out@) =~= before.push(tv));
                was_blank = blank;
            }
            i += 1;
        }
        (out, was_blank)
    }
}

} // verus!
