//! Inline emphasis in question text: `**bold**`, `*italic*` and `_italic_`.
use vstd::prelude::*;
use crate::document::{RunSpec, RunV, plain_run, run, runs_view};
use crate::text::{first_index_of, find_char, lemma_first_index_of_bounds, string_of_range, to_chars};

verus! {

/// An emphasis mark: `*` or `_`.
pub open spec fn is_mark(c: char) -> bool {
    c == '*' || c == '_'
}

/// `s` without its leading and trailing emphasis marks.
pub open spec fn trim_marks_end(s: Seq<char>) -> Seq<char>
    decreases s.len(),
{
    if s.len() > 0 && is_mark(s.last()) {
        trim_marks_end(s.drop_last())
    } else {
        s
    }
}

pub open spec fn trim_marks_start(s: Seq<char>) -> Seq<char>
    decreases s.len(),
{
    if s.len() > 0 && is_mark(s[0]) {
        trim_marks_start(s.drop_first())
    } else {
        s
    }
}

pub open spec fn trim_marks(s: Seq<char>) -> Seq<char> {
    trim_marks_start(trim_marks_end(s))
}

/// The emphasis that starts at `p`, if any, as its end and whether it is
/// bold: `**` text `**` (bold), or `*` text `*` or `_` text `_` (italic),
/// where the text is not empty and holds no character of the closing mark.
pub open spec fn emphasis_at(s: Seq<char>, p: int) -> Option<(int, bool)> {
    if 0 <= p && p + 1 < s.len() && s[p] == '*' && s[p + 1] == '*' {
        let k = first_index_of(s, '*', p + 2);
        if k > p + 2 && k + 1 < s.len() && s[k + 1] == '*' {
            Some((k + 2, true))
        } else {
            None
        }
    } else if 0 <= p < s.len() && s[p] == '*' {
        let k = first_index_of(s, '*', p + 1);
        if k > p + 1 && k < s.len() {
            Some((k + 1, false))
        } else {
            None
        }
    } else if 0 <= p < s.len() && s[p] == '_' {
        let k = first_index_of(s, '_', p + 1);
        if k > p + 1 && k < s.len() {
            Some((k + 1, false))
        } else {
            None
        }
    } else {
        None
    }
}

/// The leftmost emphasis that starts at or after `q`: (start, end, bold).
pub open spec fn next_emphasis(s: Seq<char>, q: int) -> Option<(int, int, bool)>
    decreases s.len() - q,
{
    if q < 0 || q >= s.len() {
        None
    } else {
        match emphasis_at(s, q) {
            Some((e, b)) => Some((q, e, b)),
            None => next_emphasis(s, q + 1),
        }
    }
}

pub proof fn lemma_emphasis_bounds(s: Seq<char>, p: int)
    ensures
        emphasis_at(s, p) matches Some((e, b)) ==> 0 <= p < e <= s.len(),
{
    if 0 <= p && p + 1 < s.len() {
        lemma_first_index_of_bounds(s, '*', p + 2);
    }
    if 0 <= p < s.len() {
        lemma_first_index_of_bounds(s, '*', p + 1);
        lemma_first_index_of_bounds(s, '_', p + 1);
    }
}

pub proof fn lemma_next_emphasis_bounds(s: Seq<char>, q: int)
    ensures
        next_emphasis(s, q) matches Some((st, e, b)) ==> 0 <= q <= st < e <= s.len(),
    decreases s.len() - q,
{
    if 0 <= q < s.len() {
        lemma_emphasis_bounds(s, q);
        if emphasis_at(s, q) is None {
            lemma_next_emphasis_bounds(s, q + 1);
        }
    }
}

/// The run of an emphasis: its text without marks, bold or italic.
pub open spec fn emphasis_run(text: Seq<char>, bold: bool) -> RunV {
    RunV { bold, italic: !bold, ..plain_run(trim_marks(text)) }
}

/// The runs of `s` from `q` on: plain text between emphases, and one run
/// per emphasis.
pub open spec fn runs_from(s: Seq<char>, q: int) -> Seq<RunV>
    decreases s.len() - q,
{
    proof {
        lemma_next_emphasis_bounds(s, q);
    }
    if q < 0 || q > s.len() {
        Seq::empty()
    } else {
        match next_emphasis(s, q) {
            Some((st, e, b)) => (if st > q {
                seq![plain_run(s.subrange(q, st))]
            } else {
                Seq::empty()
            }) + seq![emphasis_run(s.subrange(st, e), b)] + runs_from(s, e),
            None => if q < s.len() {
                seq![plain_run(s.subrange(q, s.len() as int))]
            } else {
                Seq::empty()
            },
        }
    }
}

/// The runs of a text with inline emphasis.
pub open spec fn markdown_runs(s: Seq<char>) -> Seq<RunV> {
    runs_from(s, 0)
}

fn emphasis_at_exec(v: &Vec<char>, p: usize) -> (r: Option<(usize, bool)>)
    requires
        p < v.len(),
    ensures
        match r {
            Some((e, b)) => emphasis_at(v@, p as int) == Some((e as int, b)),
            None => emphasis_at(v@, p as int) is None,
        },
{
    proof {
        lemma_emphasis_bounds(v@, p as int);
        assert(v@.take(v.len() as int) =~= v@);
    }
    if p + 1 < v.len() && v[p] == '*' && v[p + 1] == '*' {
        let k = find_char(v, v.len(), '*', p + 2);
        if k > p + 2 && k < v.len() - 1 && v[k + 1] == '*' {
            Some((k + 2, true))
        } else {
            None
        }
    } else if v[p] == '*' {
        let k = find_char(v, v.len(), '*', p + 1);
        if k > p + 1 && k < v.len() {
            Some((k + 1, false))
        } else {
            None
        }
    } else if v[p] == '_' {
        let k = find_char(v, v.len(), '_', p + 1);
        if k > p + 1 && k < v.len() {
            Some((k + 1, false))
        } else {
            None
        }
    } else {
        None
    }
}

fn next_emphasis_exec(v: &Vec<char>, q: usize) -> (r: Option<(usize, usize, bool)>)
    requires
        q <= v.len(),
    ensures
        match r {
            Some((st, e, b)) => next_emphasis(v@, q as int) == Some((st as int, e as int, b)),
            None => next_emphasis(v@, q as int) is None,
        },
{
    let mut p = q;
    while p < v.len()
        invariant
            q <= p <= v.len(),
            next_emphasis(v@, q as int) == next_emphasis(v@, p as int),
        decreases v.len() - p,
    {
        match emphasis_at_exec(v, p) {
            Some((e, b)) => {
                return Some((p, e, b));
            },
            None => {},
        }
        p = p + 1;
    }
    None
}

/// `s[lo..hi]` without its leading and trailing emphasis marks.
fn trim_marks_range(v: &Vec<char>, lo: usize, hi: usize) -> (r: (usize, usize))
    requires
        lo <= hi <= v.len(),
    ensures
        lo <= r.0 <= r.1 <= hi,
        v@.subrange(r.0 as int, r.1 as int) == trim_marks(v@.subrange(lo as int, hi as int)),
{
    let mut e = hi;
    while e > lo && (v[e - 1] == '*' || v[e - 1] == '_')
        invariant
            lo <= e <= hi <= v.len(),
            trim_marks_end(v@.subrange(lo as int, hi as int)) == trim_marks_end(
                v@.subrange(lo as int, e as int),
            ),
        decreases e,
    {
        assert(v@.subrange(lo as int, e as int).drop_last() =~= v@.subrange(lo as int, e - 1));
        e = e - 1;
    }
    let mut b = lo;
    while b < e && (v[b] == '*' || v[b] == '_')
        invariant
            lo <= b <= e <= hi <= v.len(),
            trim_marks_start(v@.subrange(lo as int, e as int)) == trim_marks_start(
                v@.subrange(b as int, e as int),
            ),
        decreases e - b,
    {
        assert(v@.subrange(b as int, e as int).drop_first() =~= v@.subrange(b + 1, e as int));
        b = b + 1;
    }
    (b, e)
}

/// Appends the runs of a text with inline emphasis.
pub fn add_markdown_runs(runs: &mut Vec<RunSpec>, text: &str)
    ensures
        runs_view(final(runs)@) == runs_view(old(runs)@) + markdown_runs(text@),
{
    let v = to_chars(text);
    let ghost s = v@;
    let ghost start = runs_view(runs@);
    let mut q: usize = 0;
    assert(start + runs_from(s, 0) =~= start + markdown_runs(text@));
    while q < v.len()
        invariant
            q <= v.len(),
            s == v@,
            s == text@,
            start + markdown_runs(s) == runs_view(runs@) + runs_from(s, q as int),
        decreases v.len() - q,
    {
        proof {
            lemma_next_emphasis_bounds(s, q as int);
        }
        let ghost before = runs_view(runs@);
        match next_emphasis_exec(&v, q) {
            Some((st, e, b)) => {
                let ghost pre = if st > q {
                    seq![plain_run(s.subrange(q as int, st as int))]
                } else {
                    Seq::<RunV>::empty()
                };
                if st > q {
                    runs.push(run(string_of_range(&v, q, st)));
                }
                assert(runs_view(runs@) =~= before + pre);
                let (cb, ce) = trim_marks_range(&v, st, e);
                let r = RunSpec {
                    text: string_of_range(&v, cb, ce),
                    bold: b,
                    italic: !b,
                    underline: false,
                    size: None,
                    page_break: false,
                };
                let ghost rv = r@;
                assert(rv == emphasis_run(s.subrange(st as int, e as int), b));
                runs.push(r);
                assert(runs_view(runs@) =~= before + pre + seq![rv]);
                assert(runs_from(s, q as int) == pre + seq![rv] + runs_from(s, e as int));
                q = e;
            },
            None => {
                runs.push(run(string_of_range(&v, q, v.len())));
                assert(runs_view(runs@) =~= before + seq![plain_run(s.subrange(q as int, s.len() as int))]);
                q = v.len();
                assert(runs_from(s, q as int) =~= Seq::<RunV>::empty());
            },
        }
    }
    assert(runs_from(s, q as int) =~= Seq::<RunV>::empty());
    assert(runs_view(runs@) + Seq::<RunV>::empty() =~= runs_view(runs@));
}

// ---------------------------------------------------------------------------
// Laws
// ---------------------------------------------------------------------------

proof fn lemma_no_emphasis(s: Seq<char>, q: int)
    requires
        forall|i: int| 0 <= i < s.len() ==> !is_mark(#[trigger] s[i]),
    ensures
        next_emphasis(s, q) is None,
    decreases s.len() - q,
{
    if 0 <= q < s.len() {
        assert(!is_mark(s[q]));
        lemma_no_emphasis(s, q + 1);
    }
}

/// A text without emphasis marks is kept whole, as one plain run (and an
/// empty text gives no run).
pub proof fn law_plain_text_is_one_run(s: Seq<char>)
    requires
        forall|i: int| 0 <= i < s.len() ==> !is_mark(#[trigger] s[i]),
    ensures
        markdown_runs(s) == (if s.len() == 0 { Seq::empty() } else { seq![plain_run(s)] }),
{
    lemma_no_emphasis(s, 0);
    assert(s.subrange(0, s.len() as int) =~= s);
}

} // verus!
