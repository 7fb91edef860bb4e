//! `head-tail`: the first or the last lines of an input.
use vstd::prelude::*;

use crate::command::{fails_as, flag_like, help_flag, is_flag, is_help_flag, CommandError, InputFile, InputName, ParseFailure};
use crate::redirect::BuildError;
use crate::text::{same_text, texts};

verus! {

/// The errors of `head-tail` itself.
pub enum HeadTailError {
    /// A line count that is no number: the text given.
    ParseError(String),
}

impl crate::command::Describe for HeadTailError {
    open spec fn described(&self) -> Seq<char> {
        match self {
            HeadTailError::ParseError(s) => "can't parse argument: "@ + s@ + "\n"@,
        }
    }

    fn describe(&self) -> (r: String) {
        match self {
            HeadTailError::ParseError(s) => {
                let mut r = String::from_str("can't parse argument: ");
                r.append(s.as_str());
                r.append("\n");
                r
            },
        }
    }
}

/// A `head-tail` invocation, ready to run.
pub struct HeadTail {
    /// The first lines when set, the last ones otherwise.
    pub mode: bool,
    pub skip_empty: bool,
    pub count: usize,
    pub inputfile: InputFile,
}

pub struct HeadTailOptions {
    pub input: Option<Seq<char>>,
    pub head: bool,
    pub skip_empty: bool,
    pub count: int,
}

/// The value of a string of decimal digits.
pub open spec fn digits_value(d: Seq<char>) -> int
    decreases d.len(),
{
    if d.len() == 0 {
        0
    } else {
        10 * digits_value(d.drop_last()) + (d.last() as int - '0' as int)
    }
}

pub open spec fn all_digits(d: Seq<char>) -> bool {
    forall|i: int| 0 <= i < d.len() ==> '0' <= #[trigger] d[i] <= '9'
}

/// `s` without a leading `+`.
pub open spec fn unsigned_digits(s: Seq<char>) -> Seq<char> {
    if s.len() > 0 && s[0] == '+' {
        s.drop_first()
    } else {
        s
    }
}

/// The line count that `s` writes: decimal digits, after an optional `+`,
/// whose value fits in a `usize`.
pub open spec fn count_value(s: Seq<char>) -> Option<int> {
    let d = unsigned_digits(s);
    if d.len() > 0 && all_digits(d) && digits_value(d) <= usize::MAX {
        Some(digits_value(d))
    } else {
        None
    }
}

pub open spec fn is_input_flag(t: Seq<char>) -> bool {
    t == "-i"@ || t == "--input-file"@ || t == "-f"@ || t == "--from"@
}

pub open spec fn is_count_flag(t: Seq<char>) -> bool {
    t == "-c"@ || t == "--count"@ || t == "--count-lines"@
}

pub open spec fn is_tail_flag(t: Seq<char>) -> bool {
    t == "-t"@ || t == "--tail-mode"@
}

pub open spec fn is_head_flag(t: Seq<char>) -> bool {
    t == "-h"@ || t == "--head-mode"@
}

pub open spec fn is_skip_flag(t: Seq<char>) -> bool {
    t == "-s"@ || t == "--skip-empty"@ || t == "--skip"@
}

/// Reads `head-tail`'s arguments from `i`. The first word that is no flag
/// names the input, the next ones give the line count.
pub open spec fn head_tail_scan(a: Seq<Seq<char>>, i: int, st: HeadTailOptions) -> Result<
    HeadTailOptions,
    ParseFailure,
>
    decreases a.len() - i,
{
    if i < 0 || i >= a.len() {
        Ok(st)
    } else {
        let t = a[i];
        if flag_like(t) {
            if t == "-"@ {
                head_tail_scan(a, i + 1, HeadTailOptions { input: None, ..st })
            } else if is_input_flag(t) {
                if i + 1 >= a.len() {
                    Err(ParseFailure::NoArgument(t))
                } else {
                    head_tail_scan(a, i + 2, HeadTailOptions { input: Some(a[i + 1]), ..st })
                }
            } else if is_count_flag(t) {
                if i + 1 >= a.len() {
                    Err(ParseFailure::NoArgument(t))
                } else {
                    match count_value(a[i + 1]) {
                        Some(n) => head_tail_scan(a, i + 2, HeadTailOptions { count: n, ..st }),
                        None => Err(ParseFailure::Own(a[i + 1])),
                    }
                }
            } else if is_tail_flag(t) {
                head_tail_scan(a, i + 1, HeadTailOptions { head: false, ..st })
            } else if is_head_flag(t) {
                head_tail_scan(a, i + 1, HeadTailOptions { head: true, ..st })
            } else if is_skip_flag(t) {
                head_tail_scan(a, i + 1, HeadTailOptions { skip_empty: true, ..st })
            } else if is_help_flag(t) {
                Err(ParseFailure::Help)
            } else {
                Err(ParseFailure::Unexpected(t))
            }
        } else if st.input is None {
            head_tail_scan(a, i + 1, HeadTailOptions { input: Some(t), ..st })
        } else {
            match count_value(t) {
                Some(n) => head_tail_scan(a, i + 1, HeadTailOptions { count: n, ..st }),
                None => Err(ParseFailure::Own(t)),
            }
        }
    }
}

/// The options of `head-tail` with arguments `a`: by default the first ten
/// lines.
pub open spec fn head_tail_options(a: Seq<Seq<char>>) -> Result<HeadTailOptions, ParseFailure> {
    head_tail_scan(a, 0, HeadTailOptions { input: None, head: true, skip_empty: false, count: 10 })
}

/// The error of `head-tail` about the text `t`.
pub open spec fn is_parse_error(e: HeadTailError, t: Seq<char>) -> bool {
    e matches HeadTailError::ParseError(s) && s@ == t
}

proof fn lemma_digits_prefix_grows(d: Seq<char>, j: int, k: int)
    requires
        0 <= j <= k <= d.len(),
        all_digits(d),
    ensures
        digits_value(d.take(j)) <= digits_value(d.take(k)),
    decreases k - j,
{
    if j < k {
        lemma_digits_prefix_grows(d, j, k - 1);
        assert(d.take(k).drop_last() =~= d.take(k - 1));
        assert(d.take(k).last() == d[k - 1]);
        lemma_digits_nonneg(d.take(k - 1));
    }
}

proof fn lemma_digits_nonneg(d: Seq<char>)
    requires
        all_digits(d),
    ensures
        digits_value(d) >= 0,
    decreases d.len(),
{
    if d.len() > 0 {
        assert(all_digits(d.drop_last())) by {
            assert forall|i: int| 0 <= i < d.drop_last().len() implies '0' <= #[trigger] d.drop_last()[i] <= '9' by {
                assert(d.drop_last()[i] == d[i]);
            }
        }
        lemma_digits_nonneg(d.drop_last());
        assert(d.last() == d[d.len() - 1]);
    }
}

impl HeadTail {
    pub open spec fn has_options(&self, o: HeadTailOptions, pipe: bool) -> bool {
        &&& self.mode == o.head
        &&& self.skip_empty == o.skip_empty
        &&& self.count as int == o.count
        &&& self.inputfile@ == match o.input {
            Some(name) => InputName::File(name),
            None => if pipe {
                InputName::Pipe
            } else {
                InputName::Stdin
            },
        }
    }

    /// Reads a line count.
    pub fn parse_arg(arg: &String) -> (r: Result<usize, CommandError<HeadTailError>>)
        ensures
            match count_value(arg@) {
                Some(n) => r matches Ok(v) && v as int == n,
                None => r matches Err(CommandError::Other(n, e)) && n@ == "head-tail"@ && is_parse_error(
                    e,
                    arg@,
                ),
            },
    {
        let s: &str = arg.as_str();
        let n = s.unicode_len();
        let mut start: usize = 0;
        if n > 0 && s.get_char(0) == '+' {
            start = 1;
        }
        let ghost d = unsigned_digits(arg@);
        assert(d =~= arg@.skip(start as int));
        if start >= n {
            return Err(CommandError::Other(String::from_str("head-tail"), HeadTailError::ParseError(arg.clone())));
        }
        let mut value: usize = 0;
        let mut i: usize = start;
        while i < n
            invariant
                start <= i <= n,
                n == arg@.len(),
                s@ == arg@,
                d == arg@.skip(start as int),
                d == unsigned_digits(arg@),
                forall|j: int| start <= j < i ==> '0' <= #[trigger] arg@[j] <= '9',
                value as int == digits_value(d.take(i - start)),
            decreases n - i,
        {
            let c = s.get_char(i);
            assert(d.take(i + 1 - start).drop_last() =~= d.take(i - start));
            assert(d[i - start] == c);
            if c < '0' || c > '9' {
                assert(!all_digits(d)) by {
                    assert(d[i - start] == c);
                }
                return Err(CommandError::Other(String::from_str("head-tail"), HeadTailError::ParseError(arg.clone())));
            }
            let digit = (c as u32 - '0' as u32) as usize;
            let next = match value.checked_mul(10) {
                Some(v) => v.checked_add(digit),
                None => None,
            };
            match next {
                Some(v) => {
                    value = v;
                },
                None => {
                    assert(all_digits(d) ==> digits_value(d) > usize::MAX) by {
                        if all_digits(d) {
                            lemma_digits_prefix_grows(d, i + 1 - start, d.len() as int);
                            assert(d.take(d.len() as int) =~= d);
                        }
                    }
                    return Err(CommandError::Other(String::from_str("head-tail"), HeadTailError::ParseError(arg.clone())));
                },
            }
            i += 1;
        }
        assert(d.take(n - start) =~= d);
        assert(all_digits(d)) by {
            assert forall|j: int| 0 <= j < d.len() implies '0' <= #[trigger] d[j] <= '9' by {
                assert(d[j] == arg@[j + start]);
            }
        }
        Ok(value)
    }

    /// Builds a `head-tail` from its arguments; `pipe` tells whether a
    /// previous command pipes into it, which it then reads unless an input
    /// file is named.
    pub fn new_obj(args: &Vec<String>, pipe: bool) -> (r: Result<HeadTail, CommandError<HeadTailError>>)
        ensures
            match head_tail_options(texts(args@)) {
                Ok(o) => r matches Ok(h) && h.has_options(o, pipe),
                Err(f) => r matches Err(e) && fails_as(e, f, "head-tail"@, |x: HeadTailError, t: Seq<char>| is_parse_error(x, t)),
            },
    {
        let ghost a = texts(args@);
        let ghost init = HeadTailOptions { input: None, head: true, skip_empty: false, count: 10 };
        let mut i: usize = 0;
        let mut mode = true;
        let mut input_name: Option<String> = None;
        let mut skip = false;
        let mut count: usize = 10;
        while i < args.len()
            invariant
                a == texts(args@),
                init == (HeadTailOptions { input: None, head: true, skip_empty: false, count: 10 }),
                head_tail_scan(a, 0, init) == head_tail_scan(
                    a,
                    i as int,
                    HeadTailOptions {
                        input: match input_name {
                            Some(n) => Some(n@),
                            None => None,
                        },
                        head: mode,
                        skip_empty: skip,
                        count: count as int,
                    },
                ),
            decreases args.len() - i,
        {
            let t = &args[i];
            assert(t@ == a[i as int]);
            if is_flag(t) {
                if same_text(t, "-") {
                    input_name = None;
                } else if same_text(t, "-i") || same_text(t, "--input-file") || same_text(t, "-f")
                    || same_text(t, "--from") {
                    if i + 1 >= args.len() {
                        return Err(CommandError::BuildError(BuildError::NoArgument(t.clone())));
                    }
                    i += 1;
                    input_name = Some(args[i].clone());
                } else if same_text(t, "-c") || same_text(t, "--count") || same_text(
                    t,
                    "--count-lines",
                ) {
                    if i + 1 >= args.len() {
                        return Err(CommandError::BuildError(BuildError::NoArgument(t.clone())));
                    }
                    i += 1;
                    count = Self::parse_arg(&args[i])?;
                } else if same_text(t, "-t") || same_text(t, "--tail-mode") {
                    mode = false;
                } else if same_text(t, "-h") || same_text(t, "--head-mode") {
                    mode = true;
                } else if same_text(t, "-s") || same_text(t, "--skip-empty") || same_text(t, "--skip") {
                    skip = true;
                } else if help_flag(t) {
                    return Err(CommandError::Help);
                } else {
                    return Err(CommandError::BuildError(BuildError::UnexpectedArg(t.clone())));
                }
            } else if input_name.is_none() {
                input_name = Some(t.clone());
            } else {
                count = Self::parse_arg(t)?;
            }
            i += 1;
        }
        let inputfile = match input_name {
            Some(name) => InputFile::File(name),
            None => if pipe {
                InputFile::Pipe
            } else {
                InputFile::Stdin
            },
        };
        Ok(HeadTail { mode, skip_empty: skip, count, inputfile })
    }
}

/// The lines that `head-tail` keeps: without empty lines when asked, then
/// the first `count` of them in head mode, the last `count` in tail mode.
pub open spec fn window(lines: Seq<Seq<char>>, head: bool, skip_empty: bool, count: nat) -> Seq<
    Seq<char>,
> {
    let kept = if skip_empty {
        lines.filter(|l: Seq<char>| l.len() > 0)
    } else {
        lines
    };
    let n = if count < kept.len() {
        count as int
    } else {
        kept.len() as int
    };
    if head {
        kept.take(n)
    } else {
        kept.skip(kept.len() - n)
    }
}

impl HeadTail {
    /// The lines of its input that this `head-tail` writes, in order.
    pub fn select(&self, lines: &Vec<String>) -> (r: Vec<String>)
        ensures
            texts(r@) == window(texts(lines@), self.mode, self.skip_empty, self.count as nat),
    {
        let ghost all = texts(lines@);
        let mut kept: Vec<String> = Vec::new();
        let mut i: usize = 0;
        assert(texts(kept@) =~= Seq::<Seq<char>>::empty());
        while i < lines.len()
            invariant
                i <= lines.len(),
                all == texts(lines@),
                texts(kept@) == if self.skip_empty {
                    all.take(i as int).filter(|l: Seq<char>| l.len() > 0)
                } else {
                    all.take(i as int)
                },
            decreases lines.len() - i,
        {
            let line = &lines[i];
            assert(all.take(i + 1).drop_last() =~= all.take(i as int));
            assert(all.take(i + 1).last() == line@);
            proof {
                reveal(Seq::filter);
            }
            if !(self.skip_empty && line.as_str().unicode_len() == 0) {
                let ghost before = texts(kept@);
                kept.push(line.clone());
                assert(texts(kept@) =~= before.push(line@));
            }
            i += 1;
        }
        assert(all.take(lines.len() as int) =~= all);
        let n = if self.count < kept.len() {
            self.count
        } else {
            kept.len()
        };
        let (lo, hi) = if self.mode {
            (0, n)
        } else {
            (kept.len() - n, kept.len())
        };
        let mut r: Vec<String> = Vec::new();
        let mut j: usize = lo;
        let ghost k = texts(kept@);
        assert(texts(r@) =~= Seq::<Seq<char>>::empty());
        while j < hi
            invariant
                lo <= j <= hi <= kept.len(),
                k == texts(kept@),
                texts(r@) == k.subrange(lo as int, j as int),
            decreases hi - j,
        {
            let ghost before = texts(r@);
            r.push(kept[j].clone());
            assert(texts(r@) =~= before.push(k[j as int]));
            assert(k.subrange(lo as int, j + 1) =~= k.subrange(lo as int, j as int).push(k[j as int]));
            j += 1;
        }
        assert(k.take(n as int) =~= k.subrange(0, n as int));
        assert(k.skip(k.len() - n) =~= k.subrange(k.len() - n, k.len() as int));
        r
    }
}

} // verus!
