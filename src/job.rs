//! A command line as a job: its `&&` segments, whether it runs in the
//! background, and the order in which its segments run and are logged.
use vstd::prelude::*;

use crate::text::{chars_of, push_range, string_of, strings_of, texts, views};

verus! {

/// White space: the characters with Unicode's White_Space property, the set
/// that `char::is_whitespace` and `str::trim` go by.
pub open spec fn is_space(c: char) -> bool {
    ||| '\t' <= c <= '\r'
    ||| c == ' '
    ||| c == '\u{85}'
    ||| c == '\u{A0}'
    ||| c == '\u{1680}'
    ||| '\u{2000}' <= c <= '\u{200A}'
    ||| c == '\u{2028}'
    ||| c == '\u{2029}'
    ||| c == '\u{202F}'
    ||| c == '\u{205F}'
    ||| c == '\u{3000}'
}

/// Whether `c` is white space.
pub fn space_char(c: char) -> (r: bool)
    ensures
        r == is_space(c),
{
    ('\t' <= c && c <= '\r') || c == ' ' || c == '\u{85}' || c == '\u{A0}' || c == '\u{1680}'
        || ('\u{2000}' <= c && c <= '\u{200A}') || c == '\u{2028}' || c == '\u{2029}' || c
        == '\u{202F}' || c == '\u{205F}' || c == '\u{3000}'
}

pub open spec fn is_amp(c: char) -> bool {
    c == '&'
}

/// `s` without the characters satisfying `p` at either end.
pub open spec fn strip(s: Seq<char>, p: spec_fn(char) -> bool) -> Seq<char>
    decreases s.len(),
{
    if s.len() > 0 && p(s[0]) {
        strip(s.drop_first(), p)
    } else if s.len() > 0 && p(s.last()) {
        strip(s.drop_last(), p)
    } else {
        s
    }
}

/// The pieces of `s` between occurrences of `&&`, read from `i`, where `cur`
/// is the piece being read and `acc` the pieces already read. Occurrences are
/// taken left to right and do not overlap; empty pieces are kept.
pub open spec fn split_and(s: Seq<char>, i: int, cur: Seq<char>, acc: Seq<Seq<char>>) -> Seq<
    Seq<char>,
>
    decreases s.len() - i,
{
    if i < 0 || i >= s.len() {
        acc.push(cur)
    } else if s[i] == '&' && i + 1 < s.len() && s[i + 1] == '&' {
        split_and(s, i + 2, Seq::empty(), acc.push(cur))
    } else {
        split_and(s, i + 1, cur.push(s[i]), acc)
    }
}

/// Whether the trimmed line `t` ends with the background marker ` &`.
pub open spec fn ends_in_background(t: Seq<char>) -> bool {
    t.len() >= 2 && t[t.len() - 1] == '&' && t[t.len() - 2] == ' '
}

/// The segments of a command line, each trimmed, and whether the line runs in
/// the background. A background line loses its `&` marks before it is split.
pub open spec fn segments_of(line: Seq<char>) -> Seq<Seq<char>> {
    let t = strip(line, |c: char| is_space(c));
    let body = if ends_in_background(t) {
        strip(t, |c: char| is_amp(c))
    } else {
        t
    };
    split_and(body, 0, Seq::empty(), Seq::empty()).map_values(
        |x: Seq<char>| strip(x, |c: char| is_space(c)),
    )
}

/// A command line split into the segments that run one after another.
pub struct Job {
    pub segments: Vec<String>,
    pub background: bool,
}

/// Whether `c` is an `&` (with `amp`) or a blank (without).
fn strippable(c: char, amp: bool) -> (r: bool)
    ensures
        r == (if amp {
            is_amp(c)
        } else {
            is_space(c)
        }),
{
    if amp {
        c == '&'
    } else {
        space_char(c)
    }
}

fn strip_range(s: &Vec<char>, lo: usize, hi: usize, amp: bool) -> (r: (usize, usize))
    requires
        lo <= hi <= s.len(),
    ensures
        lo <= r.0 <= r.1 <= hi,
        s@.subrange(r.0 as int, r.1 as int) == strip(
            s@.subrange(lo as int, hi as int),
            if amp {
                |c: char| is_amp(c)
            } else {
                |c: char| is_space(c)
            },
        ),
{
    let ghost p = if amp {
        |c: char| is_amp(c)
    } else {
        |c: char| is_space(c)
    };
    let ghost whole = strip(s@.subrange(lo as int, hi as int), p);
    let mut a: usize = lo;
    let mut b: usize = hi;
    while a < b && strippable(s[a], amp)
        invariant
            lo <= a <= b <= hi <= s.len(),
            b == hi,
            p == (if amp {
                |c: char| is_amp(c)
            } else {
                |c: char| is_space(c)
            }),
            whole == strip(s@.subrange(lo as int, hi as int), p),
            whole == strip(s@.subrange(a as int, b as int), p),
        decreases b - a,
    {
        assert(s@.subrange(a as int, b as int).drop_first() =~= s@.subrange(a + 1, b as int));
        a += 1;
    }
    while a < b && strippable(s[b - 1], amp)
        invariant
            lo <= a <= b <= hi <= s.len(),
            p == (if amp {
                |c: char| is_amp(c)
            } else {
                |c: char| is_space(c)
            }),
            a < b ==> !p(s@[a as int]),
            whole == strip(s@.subrange(a as int, b as int), p),
        decreases b - a,
    {
        assert(s@.subrange(a as int, b as int).drop_last() =~= s@.subrange(a as int, b - 1));
        assert(s@.subrange(a as int, b as int)[0] == s@[a as int]);
        b -= 1;
    }
    if a < b {
        assert(s@.subrange(a as int, b as int)[0] == s@[a as int]);
        assert(s@.subrange(a as int, b as int).last() == s@[b - 1]);
    }
    (a, b)
}

fn split_segments(s: &Vec<char>, lo: usize, hi: usize) -> (r: Vec<Vec<char>>)
    requires
        lo <= hi <= s.len(),
    ensures
        views(r@) == split_and(s@.subrange(lo as int, hi as int), 0, Seq::empty(), Seq::empty()),
{
    let ghost body = s@.subrange(lo as int, hi as int);
    let mut acc: Vec<Vec<char>> = Vec::new();
    let mut cur: Vec<char> = Vec::new();
    let mut i: usize = lo;
    assert(views(acc@) =~= Seq::<Seq<char>>::empty());
    while i < hi
        invariant
            lo <= i <= hi <= s.len(),
            body == s@.subrange(lo as int, hi as int),
            split_and(body, 0, Seq::empty(), Seq::empty()) == split_and(
                body,
                i - lo,
                cur@,
                views(acc@),
            ),
        decreases hi - i,
    {
        if s[i] == '&' && i + 1 < hi && s[i + 1] == '&' {
            let ghost before = views(acc@);
            let ghost piece = cur@;
            acc.push(cur);
            assert(views(acc@) =~= before.push(piece));
            cur = Vec::new();
            assert(cur@ =~= Seq::<char>::empty());
            i += 2;
        } else {
            cur.push(s[i]);
            i += 1;
        }
    }
    let ghost before = views(acc@);
    let ghost piece = cur@;
    acc.push(cur);
    assert(views(acc@) =~= before.push(piece));
    acc
}

/// Splits a command line into its `&&` segments, each trimmed; a line whose
/// trimmed text ends with ` &` runs in the background and loses its `&` marks
/// at both ends first.
pub fn parse_job(line: &str) -> (r: Job)
    ensures
        texts(r.segments@) == segments_of(line@),
        r.background == ends_in_background(strip(line@, |c: char| is_space(c))),
{
    let s = chars_of(line);
    let (lo, hi) = strip_range(&s, 0, s.len(), false);
    assert(s@.subrange(0, s.len() as int) =~= line@);
    let ghost t = s@.subrange(lo as int, hi as int);
    let background = hi - lo >= 2 && s[hi - 1] == '&' && s[hi - 2] == ' ';
    let (blo, bhi) = if background {
        let r = strip_range(&s, lo, hi, true);
        r
    } else {
        (lo, hi)
    };
    let pieces = split_segments(&s, blo, bhi);
    let mut trimmed: Vec<Vec<char>> = Vec::new();
    let mut k: usize = 0;
    let ghost all = views(pieces@);
    while k < pieces.len()
        invariant
            k <= pieces.len(),
            all == views(pieces@),
            views(trimmed@) == all.take(k as int).map_values(
                |x: Seq<char>| strip(x, |c: char| is_space(c)),
            ),
        decreases pieces.len() - k,
    {
        let piece = &pieces[k];
        let (a, b) = strip_range(piece, 0, piece.len(), false);
        assert(piece@.subrange(0, piece.len() as int) =~= piece@);
        let mut cut: Vec<char> = Vec::new();
        push_range(&mut cut, piece, a, b);
        assert(cut@ =~= piece@.subrange(a as int, b as int));
        let ghost before = views(trimmed@);
        let ghost cv = cut@;
        trimmed.push(cut);
        assert(views(trimmed@) =~= before.push(cv));
        assert(all.take(k + 1) =~= all.take(k as int).push(all[k as int]));
        assert(all[k as int] == pieces@[k as int]@);
        assert(all.take(k + 1).map_values(|x: Seq<char>| strip(x, |c: char| is_space(c)))
            =~= all.take(k as int).map_values(|x: Seq<char>| strip(x, |c: char| is_space(c))).push(
            strip(all[k as int], |c: char| is_space(c)),
        ));
        k += 1;
    }
    assert(all.take(pieces.len() as int) =~= all);
    Job { segments: strings_of(&trimmed), background }
}

/// One line of the history log: a segment's text and whether it succeeded.
pub struct HistoryEntry {
    pub command: String,
    pub ok: bool,
}

/// The text of the history line for `command` with status `ok`: the command,
/// a space, and `ERROR` when it failed.
pub open spec fn history_line(command: Seq<char>, ok: bool) -> Seq<char> {
    command + " "@ + if ok {
        ""@
    } else {
        "ERROR"@
    }
}

impl HistoryEntry {
    /// The line this entry writes to the history log.
    pub fn line(&self) -> (r: String)
        ensures
            r@ == history_line(self.command@, self.ok),
    {
        proof {
            reveal_strlit("");
        }
        let mut r = self.command.clone();
        r.append(" ");
        if !self.ok {
            r.append("ERROR");
        }
        r
    }
}

/// The entries of an `&&` chain over `segments` whose segments end with the
/// statuses `statuses`, from segment `i` on: each segment runs after the
/// previous one succeeded, and the chain stops after the first failure.
pub open spec fn chain_history(segments: Seq<Seq<char>>, statuses: Seq<bool>, i: int) -> Seq<
    (Seq<char>, bool),
>
    decreases segments.len() - i,
{
    if i < 0 || i >= segments.len() || i >= statuses.len() {
        Seq::empty()
    } else if statuses[i] {
        seq![(segments[i], true)] + chain_history(segments, statuses, i + 1)
    } else {
        seq![(segments[i], false)]
    }
}

/// An `&&` chain being run: its segments, and the history entries of the
/// segments run so far.
pub struct JobRun {
    pub segments: Vec<String>,
    pub history: Vec<HistoryEntry>,
}

impl JobRun {
    /// The entries so far, as texts and statuses.
    pub open spec fn entries(&self) -> Seq<(Seq<char>, bool)> {
        self.history@.map_values(|e: HistoryEntry| (e.command@, e.ok))
    }

    /// The statuses recorded so far.
    pub open spec fn statuses(&self) -> Seq<bool> {
        self.history@.map_values(|e: HistoryEntry| e.ok)
    }

    /// Segments ran in order, one entry each, and only after every earlier
    /// one succeeded.
    pub open spec fn wf(&self) -> bool {
        &&& self.history.len() <= self.segments.len()
        &&& forall|j: int|
            0 <= j < self.history.len() ==> #[trigger] self.history[j].command@
                == self.segments[j]@
        &&& forall|j: int| 0 <= j < self.history.len() - 1 ==> #[trigger] self.history[j].ok
    }

    /// Whether a segment is still to run: one is left, and the last one run
    /// succeeded.
    pub open spec fn pending(&self) -> bool {
        &&& self.history.len() < self.segments.len()
        &&& (self.history.len() == 0 || self.history[self.history.len() - 1].ok)
    }

    /// A run of the segments of `job` in which none has run yet.
    pub fn new(job: Job) -> (r: JobRun)
        ensures
            r.wf(),
            r.segments@ == job.segments@,
            r.history@.len() == 0,
    {
        JobRun { segments: job.segments, history: Vec::new() }
    }

    /// The segment to run next, if any.
    pub fn next_segment(&self) -> (r: Option<String>)
        requires
            self.wf(),
        ensures
            self.pending() ==> (r matches Some(s) && s@ == self.segments[self.history.len() as int]@),
            !self.pending() ==> r is None,
    {
        let n = self.history.len();
        if n < self.segments.len() && (n == 0 || self.history[n - 1].ok) {
            Some(self.segments[n].clone())
        } else {
            None
        }
    }

    /// Records the status of the segment that ran last, and returns its
    /// history entry.
    pub fn record(&mut self, ok: bool) -> (r: HistoryEntry)
        requires
            old(self).wf(),
            old(self).pending(),
        ensures
            final(self).wf(),
            final(self).segments@ == old(self).segments@,
            r.command@ == old(self).segments[old(self).history.len() as int]@,
            r.ok == ok,
            final(self).history@ == old(self).history@.push(r),
    {
        let n = self.history.len();
        let command = self.segments[n].clone();
        let entry = HistoryEntry { command: command.clone(), ok };
        self.history.push(HistoryEntry { command, ok });
        entry
    }
}

/// Once a segment of an `&&` chain fails, nothing after it runs: its entry is
/// the last one, and no segment is left pending.
pub proof fn lemma_failure_ends_chain(run: JobRun, k: int)
    requires
        run.wf(),
        0 <= k < run.history.len(),
        !run.history[k].ok,
    ensures
        run.history.len() == k + 1,
        !run.pending(),
{
}

/// A finished `&&` chain either ran every segment or stopped at a failure,
/// and its entries are those of the chain whose segments ended with the
/// statuses it recorded.
pub proof fn lemma_finished_chain(run: JobRun)
    requires
        run.wf(),
        !run.pending(),
    ensures
        run.history.len() == run.segments.len() || !run.history[run.history.len() - 1].ok,
        run.entries() == chain_history(texts(run.segments@), run.statuses(), 0),
{
    lemma_chain_history_from(run, 0);
    assert(run.entries().skip(0) =~= run.entries());
}

/// When segment `k` of an `&&` chain is the first to fail, the history holds
/// exactly the entries of segments `0` to `k`, in order, the last one failed;
/// no later segment runs.
pub proof fn lemma_chain_stops_at_first_failure(
    segments: Seq<Seq<char>>,
    statuses: Seq<bool>,
    k: int,
)
    requires
        0 <= k < segments.len(),
        k < statuses.len(),
        forall|j: int| 0 <= j < k ==> #[trigger] statuses[j],
        !statuses[k],
    ensures
        chain_history(segments, statuses, 0).len() == k + 1,
        forall|j: int|
            0 <= j <= k ==> #[trigger] chain_history(segments, statuses, 0)[j] == (
                segments[j],
                j < k,
            ),
{
    lemma_chain_suffix(segments, statuses, k, 0);
    assert forall|j: int| 0 <= j <= k implies #[trigger] chain_history(segments, statuses, 0)[j]
        == (segments[j], j < k) by {
        assert(chain_history(segments, statuses, 0)[j - 0] == (segments[j], j < k));
    }
}

proof fn lemma_chain_suffix(segments: Seq<Seq<char>>, statuses: Seq<bool>, k: int, i: int)
    requires
        0 <= i <= k < segments.len(),
        k < statuses.len(),
        forall|j: int| 0 <= j < k ==> #[trigger] statuses[j],
        !statuses[k],
    ensures
        chain_history(segments, statuses, i).len() == k + 1 - i,
        forall|j: int|
            i <= j <= k ==> #[trigger] chain_history(segments, statuses, i)[j - i] == (
                segments[j],
                j < k,
            ),
    decreases k - i,
{
    if i < k {
        lemma_chain_suffix(segments, statuses, k, i + 1);
        assert(statuses[i]);
        let rest = chain_history(segments, statuses, i + 1);
        assert(chain_history(segments, statuses, i) == seq![(segments[i], true)] + rest);
        assert forall|j: int| i <= j <= k implies #[trigger] chain_history(segments, statuses, i)[j
            - i] == (segments[j], j < k) by {
            if j > i {
                assert(chain_history(segments, statuses, i)[j - i] == rest[j - (i + 1)]);
            }
        }
    }
}

proof fn lemma_chain_history_from(run: JobRun, i: int)
    requires
        run.wf(),
        !run.pending(),
        0 <= i <= run.history.len(),
    ensures
        chain_history(texts(run.segments@), run.statuses(), i) == run.entries().skip(i),
    decreases run.history.len() - i,
{
    let segs = texts(run.segments@);
    let st = run.statuses();
    if i < run.history.len() {
        lemma_chain_history_from(run, i + 1);
        assert(st[i] == run.history[i].ok);
        assert(segs[i] == run.history[i].command@);
        if run.history[i].ok {
            assert(run.entries().skip(i) =~= seq![(segs[i], true)] + run.entries().skip(i + 1));
        } else {
            assert(i == run.history.len() - 1);
            assert(run.entries().skip(i) =~= seq![(segs[i], false)]);
        }
    } else {
        assert(run.entries().skip(i) =~= Seq::<(Seq<char>, bool)>::empty());
    }
}

} // verus!
