//! Brace expansion: `pre{a,b}post` becomes `preapost`, `prebpost`.
use vstd::prelude::*;

use crate::text::{chars_of, push_range, strings_of, texts, views};

verus! {

/// A character of a word, and whether it was quoted: quoted characters are
/// plain text to brace expansion.
pub type Mark = (char, bool);

/// Whether `m` is the character `c`, unquoted.
pub open spec fn structural(m: Mark, c: char) -> bool {
    m.0 == c && !m.1
}

fn is_structural(m: Mark, c: char) -> (r: bool)
    ensures
        r == structural(m, c),
{
    m.0 == c && !m.1
}

/// Index of the first `{` at or after `i`, or `w.len()` when there is none.
pub open spec fn first_open(w: Seq<Mark>, i: int) -> int
    decreases w.len() - i,
{
    if i < 0 || i >= w.len() {
        w.len() as int
    } else if structural(w[i], '{') {
        i
    } else {
        first_open(w, i + 1)
    }
}

/// Scanning from `i` with `depth` braces open, the index of the `}` that closes
/// the outermost one, or `w.len()` when the text ends first.
pub open spec fn matching_close(w: Seq<Mark>, i: int, depth: nat) -> int
    decreases w.len() - i,
{
    if i < 0 || i >= w.len() {
        w.len() as int
    } else if structural(w[i], '{') {
        matching_close(w, i + 1, depth + 1)
    } else if structural(w[i], '}') {
        if depth <= 1 {
            i
        } else {
            matching_close(w, i + 1, (depth - 1) as nat)
        }
    } else {
        matching_close(w, i + 1, depth)
    }
}

/// `acc` with `cur` added as a part, unless `cur` is empty.
pub open spec fn keep_part(acc: Seq<Seq<Mark>>, cur: Seq<Mark>) -> Seq<Seq<Mark>> {
    if cur.len() == 0 {
        acc
    } else {
        acc.push(cur)
    }
}

/// Splits `c` from `i` on commas and spaces that stand outside any nested
/// brace group; `cur` is the part being read, `acc` the parts already read.
/// Empty parts are dropped.
pub open spec fn split_top(
    c: Seq<Mark>,
    i: int,
    depth: nat,
    cur: Seq<Mark>,
    acc: Seq<Seq<Mark>>,
) -> Seq<Seq<Mark>>
    decreases c.len() - i,
{
    if i < 0 || i >= c.len() {
        keep_part(acc, cur)
    } else if structural(c[i], '{') {
        split_top(c, i + 1, depth + 1, cur.push(c[i]), acc)
    } else if structural(c[i], '}') {
        split_top(c, i + 1, if depth > 0 { (depth - 1) as nat } else { 0 }, cur.push(c[i]), acc)
    } else if depth == 0 && (structural(c[i], ',') || structural(c[i], ' ')) {
        split_top(c, i + 1, depth, Seq::empty(), keep_part(acc, cur))
    } else {
        split_top(c, i + 1, depth, cur.push(c[i]), acc)
    }
}

/// The top-level parts of the text between two matching braces.
pub open spec fn parts_of(c: Seq<Mark>) -> Seq<Seq<Mark>> {
    split_top(c, 0, 0, Seq::empty(), Seq::empty())
}

/// All words that `w` expands to, left to right.
pub open spec fn expand(w: Seq<Mark>) -> Seq<Seq<Mark>>
    decreases w.len(), 1nat, 0nat,
{
    let o = first_open(w, 0);
    let m = matching_close(w, o + 1, 1);
    if o >= w.len() || m >= w.len() {
        seq![w]
    } else {
        expand_parts(w.take(o), parts_of(w.subrange(o + 1, m)), w.skip(m + 1), w.len())
    }
}

/// The expansions of `prefix + p + suffix` for each part `p`, concatenated in
/// order; `bound` is the length of the word the parts were taken from.
pub open spec fn expand_parts(
    prefix: Seq<Mark>,
    parts: Seq<Seq<Mark>>,
    suffix: Seq<Mark>,
    bound: nat,
) -> Seq<Seq<Mark>>
    decreases bound, 0nat, parts.len(),
{
    if parts.len() == 0 {
        Seq::empty()
    } else {
        let word = prefix + parts[0] + suffix;
        let head = if word.len() < bound {
            expand(word)
        } else {
            Seq::empty()
        };
        head + expand_parts(prefix, parts.drop_first(), suffix, bound)
    }
}

} // verus!

verus! {

proof fn lemma_first_open_bounds(w: Seq<Mark>, i: int)
    requires
        0 <= i <= w.len(),
    ensures
        i <= first_open(w, i) <= w.len(),
        first_open(w, i) < w.len() ==> structural(w[first_open(w, i)], '{'),
    decreases w.len() - i,
{
    if i < w.len() && !structural(w[i], '{') {
        lemma_first_open_bounds(w, i + 1);
    }
}

proof fn lemma_close_bounds(w: Seq<Mark>, i: int, depth: nat)
    requires
        0 <= i <= w.len(),
    ensures
        i <= matching_close(w, i, depth) <= w.len(),
    decreases w.len() - i,
{
    if i < w.len() {
        if structural(w[i], '{') {
            lemma_close_bounds(w, i + 1, depth + 1);
        } else if structural(w[i], '}') {
            if depth > 1 {
                lemma_close_bounds(w, i + 1, (depth - 1) as nat);
            }
        } else {
            lemma_close_bounds(w, i + 1, depth);
        }
    }
}

proof fn lemma_split_short(
    c: Seq<Mark>,
    i: int,
    depth: nat,
    cur: Seq<Mark>,
    acc: Seq<Seq<Mark>>,
)
    requires
        0 <= i <= c.len(),
        cur.len() <= i,
        forall|k: int| 0 <= k < acc.len() ==> acc[k].len() <= c.len(),
    ensures
        forall|k: int|
            0 <= k < split_top(c, i, depth, cur, acc).len() ==> split_top(
                c,
                i,
                depth,
                cur,
                acc,
            )[k].len() <= c.len(),
    decreases c.len() - i,
{
    let kept = keep_part(acc, cur);
    assert forall|k: int| 0 <= k < kept.len() implies kept[k].len() <= c.len() by {
        if k < acc.len() {
            assert(kept[k] == acc[k]);
        }
    }
    if i < c.len() {
        let ch = c[i];
        let next_depth: nat = if structural(ch, '{') {
            depth + 1
        } else if structural(ch, '}') {
            if depth > 0 {
                (depth - 1) as nat
            } else {
                0
            }
        } else {
            depth
        };
        if depth == 0 && !structural(ch, '{') && !structural(ch, '}') && (structural(ch, ',')
            || structural(ch, ' ')) {
            assert(split_top(c, i, depth, cur, acc) == split_top(
                c,
                i + 1,
                depth,
                Seq::empty(),
                kept,
            ));
            lemma_split_short(c, i + 1, depth, Seq::empty(), kept);
        } else {
            assert(split_top(c, i, depth, cur, acc) == split_top(
                c,
                i + 1,
                next_depth,
                cur.push(ch),
                acc,
            ));
            lemma_split_short(c, i + 1, next_depth, cur.push(ch), acc);
        }
    }
}

fn find_open(w: &Vec<Mark>) -> (o: usize)
    ensures
        o == first_open(w@, 0),
{
    let mut i: usize = 0;
    while i < w.len()
        invariant
            i <= w.len(),
            first_open(w@, 0) == first_open(w@, i as int),
        decreases w.len() - i,
    {
        if is_structural(w[i], '{') {
            return i;
        }
        i += 1;
    }
    i
}

fn find_close(w: &Vec<Mark>, start: usize) -> (m: usize)
    requires
        1 <= start <= w.len(),
    ensures
        m == matching_close(w@, start as int, 1),
{
    let mut i: usize = start;
    let mut depth: usize = 1;
    while i < w.len()
        invariant
            1 <= start <= i <= w.len(),
            1 <= depth <= i - start + 1,
            matching_close(w@, start as int, 1) == matching_close(w@, i as int, depth as nat),
        decreases w.len() - i,
    {
        if is_structural(w[i], '{') {
            depth += 1;
        } else if is_structural(w[i], '}') {
            if depth <= 1 {
                return i;
            }
            depth -= 1;
        }
        i += 1;
    }
    i
}

fn split_parts(w: &Vec<Mark>, lo: usize, hi: usize) -> (r: Vec<Vec<Mark>>)
    requires
        lo <= hi <= w.len(),
    ensures
        views(r@) == parts_of(w@.subrange(lo as int, hi as int)),
{
    let ghost c = w@.subrange(lo as int, hi as int);
    let mut acc: Vec<Vec<Mark>> = Vec::new();
    let mut cur: Vec<Mark> = Vec::new();
    let mut depth: usize = 0;
    let mut i: usize = lo;
    assert(views(acc@) =~= Seq::<Seq<Mark>>::empty());
    while i < hi
        invariant
            lo <= i <= hi <= w.len(),
            c == w@.subrange(lo as int, hi as int),
            depth <= i - lo,
            parts_of(c) == split_top(c, i - lo, depth as nat, cur@, views(acc@)),
        decreases hi - i,
    {
        let ch = w[i];
        assert(ch == c[i - lo]);
        if is_structural(ch, '{') {
            cur.push(ch);
            depth += 1;
        } else if is_structural(ch, '}') {
            cur.push(ch);
            if depth > 0 {
                depth -= 1;
            }
        } else if depth == 0 && (is_structural(ch, ',') || is_structural(ch, ' ')) {
            if cur.len() > 0 {
                let ghost before = views(acc@);
                acc.push(cur);
                assert(views(acc@) =~= before.push(cur@));
            }
            cur = Vec::new();
            assert(cur@ =~= Seq::<Mark>::empty());
        } else {
            cur.push(ch);
        }
        i += 1;
    }
    if cur.len() > 0 {
        let ghost before = views(acc@);
        acc.push(cur);
        assert(views(acc@) =~= before.push(cur@));
    }
    acc
}

/// The words `w` expands to.
pub fn expand_chars(w: &Vec<Mark>) -> (r: Vec<Vec<Mark>>)
    ensures
        views(r@) == expand(w@),
    decreases w.len(),
{
    let mut r: Vec<Vec<Mark>> = Vec::new();
    let o = find_open(w);
    proof {
        lemma_first_open_bounds(w@, 0);
    }
    if o >= w.len() {
        let mut copy: Vec<Mark> = Vec::new();
        push_range(&mut copy, w, 0, w.len());
        assert(copy@ =~= w@);
        r.push(copy);
        assert(views(r@) =~= seq![w@]);
        return r;
    }
    let m = find_close(w, o + 1);
    proof {
        lemma_close_bounds(w@, o + 1, 1);
    }
    if m >= w.len() {
        let mut copy: Vec<Mark> = Vec::new();
        push_range(&mut copy, w, 0, w.len());
        assert(copy@ =~= w@);
        r.push(copy);
        assert(views(r@) =~= seq![w@]);
        return r;
    }
    let parts = split_parts(w, o + 1, m);
    let ghost prefix = w@.take(o as int);
    let ghost suffix = w@.skip(m + 1);
    let ghost ps = views(parts@);
    proof {
        lemma_split_short(w@.subrange(o + 1, m as int), 0, 0, Seq::empty(), Seq::empty());
    }
    let mut k: usize = 0;
    assert(ps.skip(0) =~= ps);
    assert(views(r@) =~= Seq::<Seq<Mark>>::empty());
    while k < parts.len()
        invariant
            o < m < w.len(),
            prefix == w@.take(o as int),
            suffix == w@.skip(m + 1),
            ps == views(parts@),
            k <= parts.len(),
            forall|j: int| 0 <= j < ps.len() ==> ps[j].len() <= m - o - 1,
            expand(w@) == views(r@) + expand_parts(prefix, ps.skip(k as int), suffix, w@.len()),
        decreases parts.len() - k,
    {
        let mut word: Vec<Mark> = Vec::new();
        push_range(&mut word, w, 0, o);
        push_range(&mut word, &parts[k], 0, parts[k].len());
        push_range(&mut word, w, m + 1, w.len());
        assert(ps[k as int] == parts@[k as int]@);
        assert(word@ =~= prefix + ps[k as int] + suffix);
        assert(word.len() < w.len());
        let mut sub = expand_chars(&word);
        let ghost before = views(r@);
        let ghost sub_views = views(sub@);
        r.append(&mut sub);
        assert(views(r@) =~= before + sub_views);
        assert(ps.skip(k as int).drop_first() =~= ps.skip(k + 1));
        assert(ps.skip(k as int)[0] == ps[k as int]);
        k += 1;
    }
    assert(ps.skip(k as int) =~= Seq::<Seq<Mark>>::empty());
    assert(views(r@) + Seq::<Seq<Mark>>::empty() =~= views(r@));
    r
}

/// `s` with no character quoted.
pub open spec fn plain(s: Seq<char>) -> Seq<Mark> {
    s.map_values(|c: char| (c, false))
}

/// The characters of a marked word.
pub open spec fn unmark(w: Seq<Mark>) -> Seq<char> {
    w.map_values(|m: Mark| m.0)
}

/// The characters of each marked word.
pub open spec fn unmarked(ws: Seq<Seq<Mark>>) -> Seq<Seq<char>> {
    ws.map_values(|w: Seq<Mark>| unmark(w))
}

/// The characters of each marked word.
pub fn unmark_all(ws: &Vec<Vec<Mark>>) -> (r: Vec<Vec<char>>)
    ensures
        views(r@) == unmarked(views(ws@)),
{
    let mut r: Vec<Vec<char>> = Vec::new();
    let mut i: usize = 0;
    assert(views(r@) =~= unmarked(views(ws@)).take(0));
    while i < ws.len()
        invariant
            i <= ws.len(),
            views(r@) == unmarked(views(ws@)).take(i as int),
        decreases ws.len() - i,
    {
        let w = &ws[i];
        let mut cs: Vec<char> = Vec::new();
        let mut j: usize = 0;
        while j < w.len()
            invariant
                j <= w.len(),
                cs@ == unmark(w@).take(j as int),
            decreases w.len() - j,
        {
            cs.push(w[j].0);
            assert(unmark(w@).take(j + 1) =~= unmark(w@).take(j as int).push(w@[j as int].0));
            j += 1;
        }
        assert(unmark(w@).take(w.len() as int) =~= unmark(w@));
        let ghost before = views(r@);
        let ghost cv = cs@;
        r.push(cs);
        assert(views(r@) =~= before.push(cv));
        assert(unmarked(views(ws@)).take(i + 1) =~= unmarked(views(ws@)).take(i as int).push(
            unmark(ws@[i as int]@),
        ));
        i += 1;
    }
    assert(unmarked(views(ws@)).take(ws.len() as int) =~= unmarked(views(ws@)));
    r
}

/// The words that `word` expands to, left to right: the first brace group
/// with its matching `}` is replaced by each of its comma- or
/// space-separated parts in turn, and each result is expanded again. A word
/// without a complete brace group is its own only expansion.
pub fn expand_braces(word: &str) -> (r: Vec<String>)
    ensures
        texts(r@) == unmarked(expand(plain(word@))),
{
    let cs = chars_of(word);
    let mut marked: Vec<Mark> = Vec::new();
    let mut i: usize = 0;
    while i < cs.len()
        invariant
            i <= cs.len(),
            cs@ == word@,
            marked@ == plain(cs@).take(i as int),
        decreases cs.len() - i,
    {
        marked.push((cs[i], false));
        assert(plain(cs@).take(i + 1) =~= plain(cs@).take(i as int).push((cs@[i as int], false)));
        i += 1;
    }
    assert(plain(cs@).take(cs.len() as int) =~= plain(cs@));
    let words = expand_chars(&marked);
    strings_of(&unmark_all(&words))
}

/// A word without a `{`, or whose first `{` is never closed, expands to
/// itself alone.
pub proof fn lemma_unmatched_brace_is_literal(w: Seq<Mark>)
    requires
        first_open(w, 0) >= w.len() || matching_close(w, first_open(w, 0) + 1, 1) >= w.len(),
    ensures
        expand(w) == seq![w],
{
}

} // verus!
