//! Splitting a command line into argument tokens.
use vstd::prelude::*;

use crate::brace::{expand, expand_chars, unmark_all, unmarked, Mark};
use crate::text::{chars_of, push_range, strings_of, texts, views};

verus! {

pub open spec fn is_quote(c: char) -> bool {
    c == '\'' || c == '"'
}

pub open spec fn is_blank(c: char) -> bool {
    c == ' ' || c == '\t'
}

/// Characters that start an operator token.
pub open spec fn is_operator_char(c: char) -> bool {
    c == '|' || c == '>' || c == '<' || c == '&'
}

/// Length of the operator token that starts at `i`: two for `>>`, `>=`,
/// `<<`, `<>` and `&&`, one otherwise.
pub open spec fn operator_len(s: Seq<char>, i: int) -> int {
    if i + 1 < s.len() && ((s[i] == '>' && (s[i + 1] == '>' || s[i + 1] == '=')) || (s[i]
        == '<' && (s[i + 1] == '<' || s[i + 1] == '>')) || (s[i] == '&' && s[i + 1] == '&')) {
        2
    } else {
        1
    }
}

/// `out` followed by the expansions of the pending word `buf`, if any;
/// quoted characters of `buf` take no part in brace expansion.
pub open spec fn flush(out: Seq<Seq<char>>, buf: Seq<Mark>) -> Seq<Seq<char>> {
    if buf.len() == 0 {
        out
    } else {
        out + unmarked(expand(buf))
    }
}

/// The tokens of `s` read from position `i`, where `buf` is the word being
/// read (each character marked when it was quoted), `quote` the open quote character (if any), `depth` the number of
/// open braces and `out` the tokens already emitted.
pub open spec fn scan(
    s: Seq<char>,
    i: int,
    buf: Seq<Mark>,
    quote: Option<char>,
    depth: nat,
    out: Seq<Seq<char>>,
) -> Seq<Seq<char>>
    decreases s.len() - i,
{
    if i < 0 || i >= s.len() {
        flush(out, buf)
    } else {
        let c = s[i];
        match quote {
            Some(q) => {
                if c == q {
                    scan(s, i + 1, buf, None, depth, out)
                } else {
                    scan(s, i + 1, buf.push((c, true)), quote, depth, out)
                }
            },
            None => {
                if c == '#' {
                    flush(out, buf)
                } else if is_quote(c) {
                    scan(s, i + 1, buf, Some(c), depth, out)
                } else if c == '{' {
                    scan(s, i + 1, buf.push((c, false)), None, depth + 1, out)
                } else if c == '}' {
                    scan(
                        s,
                        i + 1,
                        buf.push((c, false)),
                        None,
                        if depth > 0 {
                            (depth - 1) as nat
                        } else {
                            0
                        },
                        out,
                    )
                } else if depth == 0 && is_blank(c) {
                    scan(s, i + 1, Seq::empty(), None, 0, flush(out, buf))
                } else if depth == 0 && is_operator_char(c) {
                    let n = operator_len(s, i);
                    scan(s, i + n, Seq::empty(), None, 0, flush(out, buf).push(s.subrange(i, i + n)))
                } else {
                    scan(s, i + 1, buf.push((c, false)), None, depth, out)
                }
            },
        }
    }
}

/// The tokens of a command line.
pub open spec fn tokens_of(line: Seq<char>) -> Seq<Seq<char>> {
    scan(line, 0, Seq::empty(), None, 0, Seq::empty())
}

fn flush_into(out: &mut Vec<Vec<char>>, buf: &Vec<Mark>)
    ensures
        views(final(out)@) == flush(views(old(out)@), buf@),
{
    if buf.len() > 0 {
        let mut words = unmark_all(&expand_chars(buf));
        let ghost before = views(out@);
        let ghost added = views(words@);
        out.append(&mut words);
        assert(views(out@) =~= before + added);
    }
}

/// Splits a command line into tokens. Outside quotes, `#` ends the line;
/// blanks and the operators `|`, `>`, `>>`, `>=`, `<`, `<<`, `<>`, `&`, `&&`
/// separate words when no brace group is open, and each operator is a token
/// of its own. Quote characters are dropped and keep what they enclose in
/// one word, as plain text. Each word is brace-expanded, where only the
/// braces, commas and spaces outside quotes count.
pub fn split_args(command: &str) -> (r: Vec<String>)
    ensures
        texts(r@) == tokens_of(command@),
{
    let s = chars_of(command);
    let n = s.len();
    let mut out: Vec<Vec<char>> = Vec::new();
    let mut buf: Vec<Mark> = Vec::new();
    let mut quote: Option<char> = None;
    let mut depth: usize = 0;
    let mut i: usize = 0;
    assert(views(out@) =~= Seq::<Seq<char>>::empty());
    while i < n
        invariant
            n == s.len(),
            s@ == command@,
            i <= n,
            depth <= i,
            tokens_of(s@) == scan(s@, i as int, buf@, quote, depth as nat, views(out@)),
        decreases n - i,
    {
        let c = s[i];
        match quote {
            Some(q) => {
                if c == q {
                    quote = None;
                } else {
                    buf.push((c, true));
                }
                i += 1;
            },
            None => {
                if c == '#' {
                    i = n;
                } else if c == '\'' || c == '"' {
                    quote = Some(c);
                    i += 1;
                } else if c == '{' {
                    buf.push((c, false));
                    depth += 1;
                    i += 1;
                } else if c == '}' {
                    buf.push((c, false));
                    if depth > 0 {
                        depth -= 1;
                    }
                    i += 1;
                } else if depth == 0 && (c == ' ' || c == '\t') {
                    flush_into(&mut out, &buf);
                    buf = Vec::new();
                    assert(buf@ =~= Seq::<Mark>::empty());
                    i += 1;
                } else if depth == 0 && (c == '|' || c == '>' || c == '<' || c == '&') {
                    flush_into(&mut out, &buf);
                    buf = Vec::new();
                    assert(buf@ =~= Seq::<Mark>::empty());
                    let len: usize = if i + 1 < n && ((c == '>' && (s[i + 1] == '>' || s[i + 1]
                        == '=')) || (c == '<' && (s[i + 1] == '<' || s[i + 1] == '>')) || (c
                        == '&' && s[i + 1] == '&')) {
                        2
                    } else {
                        1
                    };
                    let mut op: Vec<char> = Vec::new();
                    push_range(&mut op, &s, i, i + len);
                    let ghost before = views(out@);
                    let ghost op_view = op@;
                    out.push(op);
                    assert(views(out@) =~= before.push(op_view));
                    i += len;
                } else {
                    buf.push((c, false));
                    i += 1;
                }
            },
        }
    }
    flush_into(&mut out, &buf);
    strings_of(&out)
}

} // verus!
