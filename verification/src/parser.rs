//! The structured markdown grammar of a test description, and its parser.
//!
//! A description is read line by line. Blank lines and `# Test` lines are
//! skipped; `Subject:` and `Title:` set the test's metadata; `## Section:`
//! opens a section; `Type:`, `Subtitle:`, `Oral:` and `Separate Sheet:` set
//! the open section's options; `- ` lines are questions and indented `- `
//! lines are sub-points of the last oral question.
use vstd::prelude::*;
use crate::text::{
    all_white_space, first_index_of, find_char, has_prefix, is_digit,
    is_decimal_digit_char, is_white_space, is_whitespace_char, lemma_first_index_of_bounds,
    lemma_first_index_shift,
    lemma_trim_empty_iff_blank, starts_with, string_of_range,
    sub_vec, to_chars, trim, trim_end, trim_start, trim_end_index, trim_range,
};
use crate::types::{
    BlankQuestion, MatchingQuestion, OralQuestion, Question, QuestionV, Section, SectionType,
    SectionV, TestData, TestDataV, TextQuestion, questions_view, sections_view, strings_view,
};

verus! {

broadcast use vstd::string::group_string_axioms;

// ---------------------------------------------------------------------------
// Line splitting
// ---------------------------------------------------------------------------

/// `s` without one trailing carriage return.
pub open spec fn strip_cr(s: Seq<char>) -> Seq<char> {
    if s.len() > 0 && s.last() == '\r' {
        s.drop_last()
    } else {
        s
    }
}

/// The lines of `s`: split after each `\n`; a line that ended in `\n` loses
/// it and then one `\r` before it; a last piece without `\n` is kept as is.
pub open spec fn split_lines(s: Seq<char>) -> Seq<Seq<char>>
    decreases s.len(),
{
    if s.len() == 0 {
        Seq::empty()
    } else {
        let k = first_index_of(s, '\n', 0);
        proof {
            lemma_first_index_of_bounds(s, '\n', 0);
        }
        if k >= s.len() {
            seq![s]
        } else {
            seq![strip_cr(s.take(k))] + split_lines(s.skip(k + 1))
        }
    }
}

pub open spec fn chars_view(v: Seq<Vec<char>>) -> Seq<Seq<char>> {
    v.map_values(|l: Vec<char>| l@)
}

/// The lines of `v`, each as its own vector of characters.
pub fn lines_of(v: &Vec<char>) -> (r: Vec<Vec<char>>)
    ensures
        chars_view(r@) == split_lines(v@),
{
    let mut r: Vec<Vec<char>> = Vec::new();
    let mut start: usize = 0;
    assert(v@.skip(0) =~= v@);
    assert(chars_view(r@) + split_lines(v@) =~= split_lines(v@));
    while start < v.len()
        invariant
            start <= v.len(),
            split_lines(v@) == chars_view(r@) + split_lines(v@.skip(start as int)),
        decreases v.len() - start,
    {
        let k = find_char(v, v.len(), '\n', start);
        proof {
            assert(v@.take(v.len() as int) =~= v@);
            lemma_split_step(v@, start as int);
        }
        let ghost before = chars_view(r@);
        if k >= v.len() {
            let line = sub_vec(v, start, v.len());
            r.push(line);
            assert(chars_view(r@) =~= before.push(line@));
            start = v.len();
            assert(v@.skip(start as int) =~= Seq::<char>::empty());
            assert(split_lines(v@) =~= chars_view(r@) + split_lines(v@.skip(start as int)));
        } else {
            let mut e = k;
            if e > start && v[e - 1] == '\r' {
                e = e - 1;
            }
            let line = sub_vec(v, start, e);
            assert(line@ =~= strip_cr(v@.subrange(start as int, k as int)));
            r.push(line);
            assert(chars_view(r@) =~= before.push(line@));
            start = k + 1;
            assert(split_lines(v@) =~= chars_view(r@) + split_lines(v@.skip(start as int)));
        }
    }
    assert(v@.skip(start as int) =~= Seq::<char>::empty());
    assert(chars_view(r@) + Seq::<Seq<char>>::empty() =~= chars_view(r@));
    r
}

/// One step of `split_lines` on the suffix of `s` from `start`.
proof fn lemma_split_step(s: Seq<char>, start: int)
    requires
        0 <= start < s.len(),
    ensures
        ({
            let k = first_index_of(s, '\n', start);
            &&& start <= k <= s.len()
            &&& k >= s.len() ==> split_lines(s.skip(start)) == seq![s.skip(start)]
            &&& k < s.len() ==> split_lines(s.skip(start)) == seq![
                strip_cr(s.subrange(start, k)),
            ] + split_lines(s.skip(k + 1))
        }),
{
    lemma_first_index_of_bounds(s, '\n', start);
    lemma_first_index_shift(s, '\n', start);
    let t = s.skip(start);
    let k = first_index_of(s, '\n', start);
    if k < s.len() {
        assert(t.take(k - start) =~= s.subrange(start, k));
        assert(t.skip(k - start + 1) =~= s.skip(k + 1));
    }
}

// ---------------------------------------------------------------------------
// Question grammar
// ---------------------------------------------------------------------------

/// The end of the run of decimal digits that starts at `i`.
pub open spec fn digit_run_end(s: Seq<char>, i: int) -> int
    decreases s.len() - i,
{
    if i < 0 || i >= s.len() || !is_digit(s[i]) {
        i
    } else {
        digit_run_end(s, i + 1)
    }
}

/// The end of the run of whitespace that starts at `i`.
pub open spec fn space_run_end(s: Seq<char>, i: int) -> int
    decreases s.len() - i,
{
    if i < 0 || i >= s.len() || !is_white_space(s[i]) {
        i
    } else {
        space_run_end(s, i + 1)
    }
}

proof fn lemma_digit_run(s: Seq<char>, i: int)
    requires
        0 <= i <= s.len(),
    ensures
        i <= digit_run_end(s, i) <= s.len(),
        forall|j: int| i <= j < digit_run_end(s, i) ==> is_digit(#[trigger] s[j]),
        digit_run_end(s, i) < s.len() ==> !is_digit(s[digit_run_end(s, i)]),
    decreases s.len() - i,
{
    if i < s.len() && is_digit(s[i]) {
        lemma_digit_run(s, i + 1);
    }
}

proof fn lemma_space_run(s: Seq<char>, i: int)
    requires
        0 <= i <= s.len(),
    ensures
        i <= space_run_end(s, i) <= s.len(),
    decreases s.len() - i,
{
    if i < s.len() && is_white_space(s[i]) {
        lemma_space_run(s, i + 1);
    }
}

/// The line-count annotation `(N line)` or `(N lines)` starting at `p`: one
/// or more decimal digits after `(`, then whitespace, then `line`, an
/// optional `s` and `)`. Gives the end of the digits and of the annotation.
pub open spec fn annotation_at(s: Seq<char>, p: int) -> Option<(int, int)> {
    if 0 <= p < s.len() && s[p] == '(' {
        let d = digit_run_end(s, p + 1);
        let w = space_run_end(s, d);
        if d > p + 1 && w > d && w + 4 <= s.len() && s.subrange(w, w + 4) == seq![
            'l',
            'i',
            'n',
            'e',
        ] {
            if w + 6 <= s.len() && s[w + 4] == 's' && s[w + 5] == ')' {
                Some((d, w + 6))
            } else if w + 5 <= s.len() && s[w + 4] == ')' {
                Some((d, w + 5))
            } else {
                None
            }
        } else {
            None
        }
    } else {
        None
    }
}

/// The leftmost line-count annotation at or after `p`, as (start, end of
/// digits, end).
pub open spec fn find_annotation(s: Seq<char>, p: int) -> Option<(int, int, int)>
    decreases s.len() - p,
{
    if p < 0 || p >= s.len() {
        None
    } else {
        match annotation_at(s, p) {
            Some((d, e)) => Some((p, d, e)),
            None => find_annotation(s, p + 1),
        }
    }
}

/// The value of a run of decimal digits, read as base ten.
pub open spec fn decimal_value(s: Seq<char>) -> nat
    decreases s.len(),
{
    if s.len() == 0 {
        0
    } else {
        decimal_value(s.drop_last()) * 10 + ((s.last() as u32) - 48) as nat
    }
}

pub open spec fn all_ascii_digits(s: Seq<char>) -> bool {
    forall|i: int| 0 <= i < s.len() ==> '0' <= #[trigger] s[i] <= '9'
}

/// A run of decimal digits read as a `usize`: only ASCII digits are
/// understood, and a value above `usize::MAX` is none.
pub open spec fn digits_to_usize(s: Seq<char>) -> Option<usize> {
    if s.len() > 0 && all_ascii_digits(s) && decimal_value(s) <= usize::MAX {
        Some(decimal_value(s) as usize)
    } else {
        None
    }
}

proof fn lemma_decimal_value_monotone(s: Seq<char>, k: int)
    requires
        all_ascii_digits(s),
        0 <= k <= s.len(),
    ensures
        decimal_value(s.take(k)) <= decimal_value(s),
    decreases s.len(),
{
    if k < s.len() {
        let t = s.drop_last();
        assert(all_ascii_digits(t)) by {
            assert forall|i: int| 0 <= i < t.len() implies '0' <= #[trigger] t[i] <= '9' by {
                assert(t[i] == s[i]);
            }
        }
        lemma_decimal_value_monotone(t, k);
        assert(t.take(k) =~= s.take(k));
    } else {
        assert(s.take(k) =~= s);
    }
}

/// The text of a short or long answer question: a leftmost line-count
/// annotation gives the number of answer lines and is cut out of the text.
pub open spec fn text_question(q: Seq<char>) -> QuestionV {
    match find_annotation(q, 0) {
        Some((p, d, e)) => QuestionV::Text {
            text: trim(q.take(p) + q.skip(e)),
            lines: digits_to_usize(q.subrange(p + 1, d)),
        },
        None => QuestionV::Text { text: trim(q), lines: None },
    }
}

/// The separator ` -> ` starts at `i`.
pub open spec fn arrow_at(s: Seq<char>, i: int) -> bool {
    0 <= i && i + 4 <= s.len() && s.subrange(i, i + 4) == seq![' ', '-', '>', ' ']
}

/// The leftmost separator at or after `i`.
pub open spec fn find_arrow(s: Seq<char>, i: int) -> Option<int>
    decreases s.len() - i,
{
    if i < 0 || i + 4 > s.len() {
        None
    } else if arrow_at(s, i) {
        Some(i)
    } else {
        find_arrow(s, i + 1)
    }
}

/// A matching question: the text splits at ` -> ` into exactly two parts.
pub open spec fn matching_question(q: Seq<char>) -> Option<QuestionV> {
    match find_arrow(q, 0) {
        Some(i) => match find_arrow(q, i + 4) {
            None => Some(QuestionV::Matching { left: trim(q.take(i)), right: trim(q.skip(i + 4)) }),
            Some(_) => None,
        },
        None => None,
    }
}

/// The question that the text `q` of a `- ` line makes in a section of the
/// given kind.
pub open spec fn question_of(q: Seq<char>, kind: Option<SectionType>) -> Option<QuestionV> {
    match kind {
        Some(SectionType::MatchingV) | Some(SectionType::MatchingH) => matching_question(q),
        Some(SectionType::Blanks) => Some(QuestionV::Blank { text: q }),
        Some(SectionType::Oral) => Some(QuestionV::Oral { text: q, sub_points: Seq::empty() }),
        _ => Some(text_question(q)),
    }
}

pub open spec fn opt_question_view(o: Option<Question>) -> Option<QuestionV> {
    match o {
        Some(q) => Some(q@),
        None => None,
    }
}

/// The end of the digit run starting at `i` in `v`.
fn digit_run(v: &Vec<char>, i: usize) -> (k: usize)
    requires
        i <= v.len(),
    ensures
        k == digit_run_end(v@, i as int),
{
    let mut k = i;
    while k < v.len() && is_decimal_digit_char(v[k])
        invariant
            i <= k <= v.len(),
            digit_run_end(v@, i as int) == digit_run_end(v@, k as int),
        decreases v.len() - k,
    {
        k = k + 1;
    }
    k
}

/// The end of the whitespace run starting at `i` in `v`.
fn space_run(v: &Vec<char>, i: usize) -> (k: usize)
    requires
        i <= v.len(),
    ensures
        k == space_run_end(v@, i as int),
{
    let mut k = i;
    while k < v.len() && is_whitespace_char(v[k])
        invariant
            i <= k <= v.len(),
            space_run_end(v@, i as int) == space_run_end(v@, k as int),
        decreases v.len() - k,
    {
        k = k + 1;
    }
    k
}

fn annotation_at_exec(v: &Vec<char>, p: usize) -> (r: Option<(usize, usize)>)
    requires
        p < v.len(),
    ensures
        match r {
            Some((d, e)) => annotation_at(v@, p as int) == Some((d as int, e as int)),
            None => annotation_at(v@, p as int) is None,
        },
        r matches Some((d, e)) ==> p + 1 < d <= e <= v.len(),
{
    if v[p] != '(' {
        return None;
    }
    proof {
        lemma_digit_run(v@, p + 1);
    }
    let d = digit_run(v, p + 1);
    if d <= p + 1 {
        return None;
    }
    proof {
        lemma_space_run(v@, d as int);
    }
    let w = space_run(v, d);
    if w <= d || v.len() - w < 4 {
        return None;
    }
    let is_line = v[w] == 'l' && v[w + 1] == 'i' && v[w + 2] == 'n' && v[w + 3] == 'e';
    assert(is_line == (v@.subrange(w as int, w + 4) == seq!['l', 'i', 'n', 'e'])) by {
        if v@.subrange(w as int, w + 4) == seq!['l', 'i', 'n', 'e'] {
            assert(v@.subrange(w as int, w + 4)[0] == v@[w as int]);
            assert(v@.subrange(w as int, w + 4)[1] == v@[w + 1]);
            assert(v@.subrange(w as int, w + 4)[2] == v@[w + 2]);
            assert(v@.subrange(w as int, w + 4)[3] == v@[w + 3]);
        }
        if is_line {
            assert(v@.subrange(w as int, w + 4) =~= seq!['l', 'i', 'n', 'e']);
        }
    }
    if !is_line {
        return None;
    }
    if v.len() - w >= 6 && v[w + 4] == 's' && v[w + 5] == ')' {
        Some((d, w + 6))
    } else if v.len() - w >= 5 && v[w + 4] == ')' {
        Some((d, w + 5))
    } else {
        None
    }
}

fn find_annotation_exec(v: &Vec<char>) -> (r: Option<(usize, usize, usize)>)
    ensures
        match r {
            Some((p, d, e)) => find_annotation(v@, 0) == Some((p as int, d as int, e as int)),
            None => find_annotation(v@, 0) is None,
        },
        r matches Some((p, d, e)) ==> p + 1 < d <= e <= v.len(),
{
    let mut p: usize = 0;
    while p < v.len()
        invariant
            p <= v.len(),
            find_annotation(v@, 0) == find_annotation(v@, p as int),
        decreases v.len() - p,
    {
        match annotation_at_exec(v, p) {
            Some((d, e)) => {
                return Some((p, d, e));
            },
            None => {},
        }
        p = p + 1;
    }
    None
}

/// Reads a run of decimal digits as a `usize`.
fn digits_value(v: &Vec<char>, lo: usize, hi: usize) -> (r: Option<usize>)
    requires
        lo < hi <= v.len(),
    ensures
        r == digits_to_usize(v@.subrange(lo as int, hi as int)),
{
    let ghost s = v@.subrange(lo as int, hi as int);
    let mut acc: usize = 0;
    let mut overflow = false;
    let mut i = lo;
    while i < hi
        invariant
            lo <= i <= hi <= v.len(),
            s == v@.subrange(lo as int, hi as int),
            all_ascii_digits(s.take(i - lo)),
            !overflow ==> acc == decimal_value(s.take(i - lo)),
            overflow ==> decimal_value(s.take(i - lo)) > usize::MAX,
        decreases hi - i,
    {
        let c = v[i];
        if !('0' <= c && c <= '9') {
            assert(s[i - lo] == c);
            assert(!all_ascii_digits(s));
            return None;
        }
        let ghost t = s.take(i + 1 - lo);
        assert(t.drop_last() =~= s.take(i - lo));
        assert(t.last() == c);
        assert(all_ascii_digits(t)) by {
            assert forall|j: int| 0 <= j < t.len() implies '0' <= #[trigger] t[j] <= '9' by {
                if j < t.len() - 1 {
                    assert(t[j] == s.take(i - lo)[j]);
                }
            }
        }
        let d = (c as u32 - 48) as usize;
        if !overflow {
            if acc > (usize::MAX - d) / 10 {
                overflow = true;
                assert(decimal_value(t) > usize::MAX) by (nonlinear_arith)
                    requires
                        decimal_value(t) == acc * 10 + d,
                        acc > (usize::MAX - d) / 10,
                        d <= 9,
                ;
            } else {
                assert(acc * 10 + d <= usize::MAX) by (nonlinear_arith)
                    requires
                        acc <= (usize::MAX - d) / 10,
                        d <= 9,
                ;
                acc = acc * 10 + d;
            }
        } else {
            proof {
                lemma_decimal_value_monotone(t, (i - lo) as int);
                assert(t.take(i - lo) =~= s.take(i - lo));
            }
        }
        i = i + 1;
    }
    assert(s.take(hi - lo) =~= s);
    if overflow {
        None
    } else {
        Some(acc)
    }
}

/// The question made of the text of a short or long answer line.
fn text_question_exec(q: &Vec<char>) -> (r: TextQuestion)
    ensures
        Question::Text(r)@ == text_question(q@),
{
    match find_annotation_exec(q) {
        Some((p, d, e)) => {
            let lines = digits_value(q, p + 1, d);
            let mut joined: Vec<char> = sub_vec(q, 0, p);
            let tail = sub_vec(q, e, q.len());
            let mut k: usize = 0;
            let ghost head = joined@;
            while k < tail.len()
                invariant
                    k <= tail.len(),
                    joined@ == head + tail@.take(k as int),
                decreases tail.len() - k,
            {
                joined.push(tail[k]);
                k = k + 1;
                assert(joined@ =~= head + tail@.take(k as int));
            }
            assert(tail@.take(tail.len() as int) =~= tail@);
            assert(head =~= q@.take(p as int));
            assert(tail@ =~= q@.skip(e as int));
            let (b, f) = trim_range(&joined, 0, joined.len());
            assert(joined@.subrange(0, joined.len() as int) =~= joined@);
            TextQuestion { text: string_of_range(&joined, b, f), lines }
        },
        None => {
            let (b, f) = trim_range(q, 0, q.len());
            assert(q@.subrange(0, q.len() as int) =~= q@);
            TextQuestion { text: string_of_range(q, b, f), lines: None }
        },
    }
}

fn find_arrow_exec(v: &Vec<char>, i: usize) -> (r: Option<usize>)
    requires
        i <= v.len(),
    ensures
        match r {
            Some(k) => find_arrow(v@, i as int) == Some(k as int) && i <= k && k + 4 <= v.len(),
            None => find_arrow(v@, i as int) is None,
        },
{
    let mut k = i;
    while v.len() >= 4 && k <= v.len() - 4
        invariant
            i <= k <= v.len(),
            find_arrow(v@, i as int) == find_arrow(v@, k as int),
        decreases v.len() - k,
    {
        let hit = v[k] == ' ' && v[k + 1] == '-' && v[k + 2] == '>' && v[k + 3] == ' ';
        assert(hit == arrow_at(v@, k as int)) by {
            if arrow_at(v@, k as int) {
                assert(v@.subrange(k as int, k + 4)[0] == v@[k as int]);
                assert(v@.subrange(k as int, k + 4)[1] == v@[k + 1]);
                assert(v@.subrange(k as int, k + 4)[2] == v@[k + 2]);
                assert(v@.subrange(k as int, k + 4)[3] == v@[k + 3]);
            }
            if hit {
                assert(v@.subrange(k as int, k + 4) =~= seq![' ', '-', '>', ' ']);
            }
        }
        if hit {
            return Some(k);
        }
        k = k + 1;
    }
    None
}

/// The question that the text `q` of a `- ` line makes in a section of the
/// given kind; a matching section drops a line that does not split at ` -> `
/// into exactly two parts.
pub fn parse_question(q: &Vec<char>, kind: Option<SectionType>) -> (r: Option<Question>)
    ensures
        opt_question_view(r) == question_of(q@, kind),
{
    match kind {
        Some(SectionType::MatchingV) | Some(SectionType::MatchingH) => {
            match find_arrow_exec(q, 0) {
                Some(i) => match find_arrow_exec(q, i + 4) {
                    None => {
                        let (a, b) = trim_range(q, 0, i);
                        let (c, d) = trim_range(q, i + 4, q.len());
                        assert(q@.subrange(0, i as int) =~= q@.take(i as int));
                        assert(q@.subrange(i + 4, q.len() as int) =~= q@.skip(i + 4));
                        Some(
                            Question::Matching(
                                MatchingQuestion {
                                    left: string_of_range(q, a, b),
                                    right: string_of_range(q, c, d),
                                },
                            ),
                        )
                    },
                    Some(_) => None,
                },
                None => None,
            }
        },
        Some(SectionType::Blanks) => {
            assert(q@.subrange(0, q.len() as int) =~= q@);
            Some(Question::Blank(BlankQuestion { text: string_of_range(q, 0, q.len()) }))
        },
        Some(SectionType::Oral) => {
            assert(q@.subrange(0, q.len() as int) =~= q@);
            let sub_points: Vec<String> = Vec::new();
            let r = Question::Oral(
                OralQuestion { text: string_of_range(q, 0, q.len()), sub_points },
            );
            assert(strings_view(sub_points@) =~= Seq::<Seq<char>>::empty());
            Some(r)
        },
        _ => Some(Question::Text(text_question_exec(q))),
    }
}

// ---------------------------------------------------------------------------
// The line-by-line parser
// ---------------------------------------------------------------------------

/// What the parser knows after some lines: the test's subject and title,
/// the sections already closed, and the open section, if any.
pub struct ParseState {
    pub subject: Seq<char>,
    pub title: Seq<char>,
    pub closed: Seq<SectionV>,
    pub open: Option<SectionV>,
}

pub open spec fn initial_state() -> ParseState {
    ParseState { subject: Seq::empty(), title: Seq::empty(), closed: Seq::empty(), open: None }
}

/// A new section named `name`, with no questions and default options.
pub open spec fn new_section(name: Seq<char>) -> SectionV {
    SectionV {
        name,
        questions: Seq::empty(),
        section_type: None,
        separate_sheet: false,
        subtitle: None,
    }
}

/// The section kind that a `Type:` value names.
pub open spec fn section_type_named(s: Seq<char>) -> Option<SectionType> {
    if s == "short"@ {
        Some(SectionType::Short)
    } else if s == "long"@ {
        Some(SectionType::Long)
    } else if s == "matching_v"@ {
        Some(SectionType::MatchingV)
    } else if s == "matching_h"@ {
        Some(SectionType::MatchingH)
    } else if s == "blanks"@ {
        Some(SectionType::Blanks)
    } else if s == "oral"@ {
        Some(SectionType::Oral)
    } else {
        None
    }
}

/// The lower-case form of `s`, as `str::to_lowercase` gives it.
pub uninterp spec fn lowercase(s: Seq<char>) -> Seq<char>;

/// A yes/no option value: `yes` in any letter case is yes (the lower case
/// of ASCII text is its ASCII lower case).
pub open spec fn is_yes(v: Seq<char>) -> bool {
    if is_ascii_text(v) {
        v.map_values(|c: char| ascii_lower(c)) == "yes"@
    } else {
        lowercase(v) == "yes"@
    }
}

/// The trimmed value of a `Key: value` line: all that follows the key.
pub open spec fn value_of(line: Seq<char>, key: Seq<char>) -> Seq<char> {
    trim(line.skip(key.len() as int))
}

/// The text of an indented sub-point line.
pub open spec fn sub_point_of(line: Seq<char>) -> Seq<char> {
    let t = trim(line);
    if starts_with(t, "- "@) {
        trim(t.skip(2))
    } else {
        Seq::empty()
    }
}

/// `line` is an indented sub-point line.
pub open spec fn is_sub_point_line(line: Seq<char>) -> bool {
    starts_with(line, "    - "@) || starts_with(line, "\t- "@)
}

/// What a line that is neither metadata nor a section header does to the
/// open section `c`.
pub open spec fn section_step(c: SectionV, line: Seq<char>) -> SectionV {
    if starts_with(line, "Type:"@) {
        SectionV { section_type: section_type_named(value_of(line, "Type:"@)), ..c }
    } else if starts_with(line, "Subtitle:"@) {
        SectionV { subtitle: Some(value_of(line, "Subtitle:"@)), ..c }
    } else if starts_with(line, "Oral:"@) {
        if is_yes(value_of(line, "Oral:"@)) {
            SectionV { section_type: Some(SectionType::Oral), ..c }
        } else {
            c
        }
    } else if starts_with(line, "Separate Sheet:"@) {
        SectionV { separate_sheet: is_yes(value_of(line, "Separate Sheet:"@)), ..c }
    } else if is_sub_point_line(line) {
        if c.section_type == Some(SectionType::Oral) && c.questions.len() > 0 {
            match c.questions.last() {
                QuestionV::Oral { text, sub_points } => SectionV {
                    questions: c.questions.update(
                        c.questions.len() - 1,
                        QuestionV::Oral { text, sub_points: sub_points.push(sub_point_of(line)) },
                    ),
                    ..c
                },
                _ => c,
            }
        } else {
            c
        }
    } else if starts_with(line, "- "@) {
        match question_of(trim(line.skip(2)), c.section_type) {
            Some(q) => SectionV { questions: c.questions.push(q), ..c },
            None => c,
        }
    } else {
        c
    }
}

/// What one raw line of the description does to the parser's state.
pub open spec fn step(st: ParseState, raw: Seq<char>) -> ParseState {
    let line = trim_end(raw);
    if trim(line).len() == 0 || starts_with(line, "# Test"@) {
        st
    } else if starts_with(line, "Subject:"@) {
        ParseState { subject: value_of(line, "Subject:"@), ..st }
    } else if starts_with(line, "Title:"@) {
        ParseState { title: value_of(line, "Title:"@), ..st }
    } else if starts_with(line, "## Section:"@) {
        ParseState {
            closed: match st.open {
                Some(c) => st.closed.push(c),
                None => st.closed,
            },
            open: Some(new_section(value_of(line, "## Section:"@))),
            ..st
        }
    } else {
        ParseState {
            open: match st.open {
                Some(c) => Some(section_step(c, line)),
                None => None,
            },
            ..st
        }
    }
}

/// The state after the given lines, read in order.
pub open spec fn run_lines(lines: Seq<Seq<char>>) -> ParseState
    decreases lines.len(),
{
    if lines.len() == 0 {
        initial_state()
    } else {
        step(run_lines(lines.drop_last()), lines.last())
    }
}

/// The test that a finished state describes: the open section is closed.
pub open spec fn finish(st: ParseState) -> TestDataV {
    TestDataV {
        subject: st.subject,
        title: st.title,
        sections: match st.open {
            Some(c) => st.closed.push(c),
            None => st.closed,
        },
    }
}

/// The test that a description describes.
pub open spec fn parse_spec(text: Seq<char>) -> TestDataV {
    finish(run_lines(split_lines(text)))
}

/// ASCII lower case of one character: `A`..`Z` become `a`..`z`, every
/// other character is kept.
pub open spec fn ascii_lower(c: char) -> char {
    if 'A' <= c <= 'Z' {
        ((c as u32) + 32) as char
    } else {
        c
    }
}

/// Every character of `s` is ASCII.
pub open spec fn is_ascii_text(s: Seq<char>) -> bool {
    forall|i: int| 0 <= i < s.len() ==> (#[trigger] s[i] as u32) < 128
}

/// `str::to_lowercase`: the lower-case form of a string under Unicode's
/// case mapping. Its result is named (`lowercase`), as the whole mapping
/// takes pages to state; what is claimed of it is what the documentation
/// plainly gives for ASCII text, where it is the ASCII lower case.
#[verifier::external_body]
fn to_lowercase(s: &str) -> (r: String)
    ensures
        r@ == lowercase(s@),
        is_ascii_text(s@) ==> r@ == s@.map_values(|c: char| ascii_lower(c)),
{
    s.to_lowercase()
}

/// Whether the lower-case form of an option value says yes.
pub fn lowered_is_yes(low: &String) -> (b: bool)
    ensures
        b == (low@ == "yes"@),
{
    let yes = String::from_str("yes");
    *low == yes
}

/// Whether the value `v[lo..hi]` is `yes` in any letter case.
fn value_is_yes(v: &Vec<char>, lo: usize, hi: usize) -> (b: bool)
    requires
        lo <= hi <= v.len(),
    ensures
        b == is_yes(v@.subrange(lo as int, hi as int)),
{
    let s = string_of_range(v, lo, hi);
    let low = to_lowercase(s.as_str());
    lowered_is_yes(&low)
}

/// The section kind named by `v[lo..hi]`.
fn section_type_of(v: &Vec<char>, lo: usize, hi: usize) -> (k: Option<SectionType>)
    requires
        lo <= hi <= v.len(),
    ensures
        k == section_type_named(v@.subrange(lo as int, hi as int)),
{
    let s = string_of_range(v, lo, hi);
    if s == String::from_str("short") {
        Some(SectionType::Short)
    } else if s == String::from_str("long") {
        Some(SectionType::Long)
    } else if s == String::from_str("matching_v") {
        Some(SectionType::MatchingV)
    } else if s == String::from_str("matching_h") {
        Some(SectionType::MatchingH)
    } else if s == String::from_str("blanks") {
        Some(SectionType::Blanks)
    } else if s == String::from_str("oral") {
        Some(SectionType::Oral)
    } else {
        None
    }
}

/// The range of `value_of(v[0..end], key)` in a line that starts with `key`.
fn value_range(v: &Vec<char>, end: usize, key: &str) -> (r: (usize, usize))
    requires
        end <= v.len(),
        starts_with(v@.take(end as int), key@),
    ensures
        r.0 <= r.1 <= end,
        v@.subrange(r.0 as int, r.1 as int) == value_of(v@.take(end as int), key@),
{
    let k = to_chars(key).len();
    assert(v@.subrange(k as int, end as int) =~= v@.take(end as int).skip(k as int));
    trim_range(v, k, end)
}

/// The parser's state while it reads a description.
pub struct Parser {
    pub subject: String,
    pub title: String,
    pub closed: Vec<Section>,
    pub open: Option<Section>,
}

pub open spec fn opt_section_view(o: Option<Section>) -> Option<SectionV> {
    match o {
        Some(s) => Some(s@),
        None => None,
    }
}

impl View for Parser {
    type V = ParseState;

    open spec fn view(&self) -> ParseState {
        ParseState {
            subject: self.subject@,
            title: self.title@,
            closed: sections_view(self.closed@),
            open: opt_section_view(self.open),
        }
    }
}

/// What the line `v[0..end]` does to the open section `c`.
fn section_step_exec(c: Section, v: &Vec<char>, end: usize) -> (r: Section)
    requires
        end <= v.len(),
    ensures
        r@ == section_step(c@, v@.take(end as int)),
{
    let ghost line = v@.take(end as int);
    let mut c = c;
    if has_prefix(v, end, "Type:") {
        let (a, b) = value_range(v, end, "Type:");
        c.section_type = section_type_of(v, a, b);
        c
    } else if has_prefix(v, end, "Subtitle:") {
        let (a, b) = value_range(v, end, "Subtitle:");
        c.subtitle = Some(string_of_range(v, a, b));
        c
    } else if has_prefix(v, end, "Oral:") {
        let (a, b) = value_range(v, end, "Oral:");
        if value_is_yes(v, a, b) {
            c.section_type = Some(SectionType::Oral);
        }
        c
    } else if has_prefix(v, end, "Separate Sheet:") {
        let (a, b) = value_range(v, end, "Separate Sheet:");
        c.separate_sheet = value_is_yes(v, a, b);
        c
    } else if has_prefix(v, end, "    - ") || has_prefix(v, end, "\t- ") {
        if c.section_type == Some(SectionType::Oral) && c.questions.len() > 0 {
            let ghost before = c@;
            let last = c.questions.pop().unwrap();
            assert(questions_view(c.questions@) =~= before.questions.drop_last());
            match last {
                Question::Oral(o) => {
                    let mut o = o;
                    let sub = sub_point_exec(v, end);
                    let ghost old_subs = strings_view(o.sub_points@);
                    o.sub_points.push(sub);
                    assert(strings_view(o.sub_points@) =~= old_subs.push(sub@));
                    c.questions.push(Question::Oral(o));
                    assert(questions_view(c.questions@) =~= before.questions.update(
                        before.questions.len() - 1,
                        QuestionV::Oral { text: o.text@, sub_points: old_subs.push(sub@) },
                    ));
                },
                other => {
                    c.questions.push(other);
                    assert(questions_view(c.questions@) =~= before.questions);
                },
            }
        }
        c
    } else if has_prefix(v, end, "- ") {
        proof {
            reveal_strlit("- ");
        }
        let (a, b) = trim_range(v, 2, end);
        let q = sub_vec(v, a, b);
        assert(v@.subrange(2, end as int) =~= line.skip(2));
        match parse_question(&q, c.section_type) {
            Some(question) => {
                let ghost before = questions_view(c.questions@);
                c.questions.push(question);
                assert(questions_view(c.questions@) =~= before.push(question@));
                c
            },
            None => c,
        }
    } else {
        c
    }
}

/// The text of the sub-point line `v[0..end]`.
fn sub_point_exec(v: &Vec<char>, end: usize) -> (s: String)
    requires
        end <= v.len(),
    ensures
        s@ == sub_point_of(v@.take(end as int)),
{
    proof {
        reveal_strlit("- ");
    }
    let (a, b) = trim_range(v, 0, end);
    assert(v@.subrange(0, end as int) =~= v@.take(end as int));
    let ghost t = v@.subrange(a as int, b as int);
    if b - a >= 2 && v[a] == '-' && v[a + 1] == ' ' {
        assert(t.take(2) =~= "- "@);
        let (c, d) = trim_range(v, a + 2, b);
        assert(v@.subrange(a + 2, b as int) =~= t.skip(2));
        string_of_range(v, c, d)
    } else {
        assert(!starts_with(t, "- "@)) by {
            if starts_with(t, "- "@) {
                assert(t.take(2)[0] == t[0]);
                assert(t.take(2)[1] == t[1]);
            }
        }
        String::new()
    }
}

impl Parser {
    pub fn new() -> (p: Parser)
        ensures
            p@ == initial_state(),
    {
        let p = Parser {
            subject: String::new(),
            title: String::new(),
            closed: Vec::new(),
            open: None,
        };
        assert(sections_view(p.closed@) =~= Seq::<SectionV>::empty());
        p
    }

    /// Reads one raw line of the description.
    pub fn read_line(&mut self, v: &Vec<char>)
        ensures
            final(self)@ == step(old(self)@, v@),
    {
        let end = trim_end_index(v, 0, v.len());
        assert(v@.subrange(0, v.len() as int) =~= v@);
        assert(v@.subrange(0, end as int) =~= v@.take(end as int));
        let ghost line = v@.take(end as int);
        let (b, f) = trim_range(v, 0, end);
        assert(v@.subrange(0, end as int) =~= line);
        if b == f || has_prefix(v, end, "# Test") {
            return;
        }
        if has_prefix(v, end, "Subject:") {
            let (a, b) = value_range(v, end, "Subject:");
            self.subject = string_of_range(v, a, b);
        } else if has_prefix(v, end, "Title:") {
            let (a, b) = value_range(v, end, "Title:");
            self.title = string_of_range(v, a, b);
        } else if has_prefix(v, end, "## Section:") {
            let (a, b) = value_range(v, end, "## Section:");
            let name = string_of_range(v, a, b);
            let ghost before = sections_view(self.closed@);
            match self.open.take() {
                Some(c) => {
                    self.closed.push(c);
                    assert(sections_view(self.closed@) =~= before.push(c@));
                },
                None => {},
            }
            let s = Section {
                name,
                questions: Vec::new(),
                section_type: None,
                separate_sheet: false,
                subtitle: None,
            };
            assert(questions_view(s.questions@) =~= Seq::<QuestionV>::empty());
            self.open = Some(s);
        } else {
            match self.open.take() {
                Some(c) => {
                    self.open = Some(section_step_exec(c, v, end));
                },
                None => {},
            }
        }
    }

    /// The test read so far; the open section, if any, is closed.
    pub fn finish(self) -> (t: TestData)
        ensures
            t@ == finish(self@),
    {
        let mut closed = self.closed;
        let ghost before = sections_view(closed@);
        match self.open {
            Some(c) => {
                closed.push(c);
                assert(sections_view(closed@) =~= before.push(c@));
            },
            None => {},
        }
        TestData { subject: self.subject, title: self.title, sections: closed }
    }
}

/// Parses a structured markdown test description.
pub fn parse_template(content: &str) -> (t: TestData)
    ensures
        t@ == parse_spec(content@),
{
    let chars = to_chars(content);
    let lines = lines_of(&chars);
    let mut p = Parser::new();
    let mut i: usize = 0;
    while i < lines.len()
        invariant
            i <= lines.len(),
            chars_view(lines@) == split_lines(content@),
            p@ == run_lines(chars_view(lines@).take(i as int)),
        decreases lines.len() - i,
    {
        proof {
            let ls = chars_view(lines@);
            assert(ls.take(i + 1).drop_last() =~= ls.take(i as int));
            assert(ls.take(i + 1).last() == lines@[i as int]@);
        }
        p.read_line(&lines[i]);
        i = i + 1;
    }
    assert(chars_view(lines@).take(lines.len() as int) =~= chars_view(lines@));
    p.finish()
}

// ---------------------------------------------------------------------------
// Laws
// ---------------------------------------------------------------------------

/// The raw line opens a section: without trailing whitespace, it starts
/// with `## Section:`.
pub open spec fn is_section_header(raw: Seq<char>) -> bool {
    starts_with(trim_end(raw), "## Section:"@)
}

/// The names that the section headers among `lines` give, in order.
pub open spec fn header_names(lines: Seq<Seq<char>>) -> Seq<Seq<char>>
    decreases lines.len(),
{
    if lines.len() == 0 {
        Seq::empty()
    } else {
        header_names(lines.drop_last()) + if is_section_header(lines.last()) {
            seq![value_of(trim_end(lines.last()), "## Section:"@)]
        } else {
            Seq::empty()
        }
    }
}

pub open spec fn section_names(s: Seq<SectionV>) -> Seq<Seq<char>> {
    s.map_values(|c: SectionV| c.name)
}

/// The names of the sections a parser state holds, closed and open.
pub open spec fn state_names(st: ParseState) -> Seq<Seq<char>> {
    section_names(st.closed) + match st.open {
        Some(c) => seq![c.name],
        None => Seq::empty(),
    }
}

proof fn lemma_section_step_keeps_name(c: SectionV, line: Seq<char>)
    ensures
        section_step(c, line).name == c.name,
{
}

/// A section header line is not blank and is none of the other line kinds
/// that the parser checks before it.
proof fn lemma_header_line_kind(line: Seq<char>)
    requires
        starts_with(line, "## Section:"@),
    ensures
        trim(line).len() != 0,
        !starts_with(line, "# Test"@),
        !starts_with(line, "Subject:"@),
        !starts_with(line, "Title:"@),
{
    reveal_strlit("## Section:");
    reveal_strlit("# Test");
    reveal_strlit("Subject:");
    reveal_strlit("Title:");
    assert(line[0] == '#') by {
        assert(line.take(11)[0] == line[0]);
    }
    assert(line[1] == '#') by {
        assert(line.take(11)[1] == line[1]);
    }
    lemma_trim_empty_iff_blank(line);
    assert(!is_white_space(line[0]));
    if starts_with(line, "# Test"@) {
        assert(line.take(6)[1] == line[1]);
    }
    if starts_with(line, "Subject:"@) {
        assert(line.take(8)[0] == line[0]);
    }
    if starts_with(line, "Title:"@) {
        assert(line.take(6)[0] == line[0]);
    }
}

proof fn lemma_run_lines_names(lines: Seq<Seq<char>>)
    ensures
        state_names(run_lines(lines)) == header_names(lines),
    decreases lines.len(),
{
    if lines.len() == 0 {
        assert(state_names(initial_state()) =~= Seq::<Seq<char>>::empty());
    } else {
        let prev = run_lines(lines.drop_last());
        lemma_run_lines_names(lines.drop_last());
        let raw = lines.last();
        let line = trim_end(raw);
        let st = step(prev, raw);
        if is_section_header(raw) {
            lemma_header_line_kind(line);
            match prev.open {
                Some(c) => {
                    assert(section_names(prev.closed.push(c)) =~= section_names(prev.closed).push(c.name));
                },
                None => {},
            }
            assert(state_names(st) =~= state_names(prev) + seq![value_of(line, "## Section:"@)]);
        } else {
            match prev.open {
                Some(c) => {
                    lemma_section_step_keeps_name(c, line);
                },
                None => {},
            }
            assert(state_names(st) =~= state_names(prev));
            assert(header_names(lines) =~= header_names(lines.drop_last()));
        }
    }
}

/// The sections of a parsed test are the sections that its `## Section:`
/// lines open, in order and under the names those lines give.
pub proof fn law_sections_follow_headers(text: Seq<char>)
    ensures
        section_names(parse_spec(text).sections) == header_names(split_lines(text)),
{
    let st = run_lines(split_lines(text));
    lemma_run_lines_names(split_lines(text));
    match st.open {
        Some(c) => {
            assert(section_names(st.closed.push(c)) =~= section_names(st.closed) + seq![c.name]);
        },
        None => {
            assert(section_names(st.closed) =~= state_names(st));
        },
    }
}

/// The state after reading `ys` from the state `st`.
pub open spec fn run_from(st: ParseState, ys: Seq<Seq<char>>) -> ParseState
    decreases ys.len(),
{
    if ys.len() == 0 {
        st
    } else {
        step(run_from(st, ys.drop_last()), ys.last())
    }
}

proof fn lemma_run_lines_concat(xs: Seq<Seq<char>>, ys: Seq<Seq<char>>)
    ensures
        run_lines(xs + ys) == run_from(run_lines(xs), ys),
    decreases ys.len(),
{
    if ys.len() == 0 {
        assert(xs + ys =~= xs);
    } else {
        lemma_run_lines_concat(xs, ys.drop_last());
        assert((xs + ys).drop_last() =~= xs + ys.drop_last());
        assert((xs + ys).last() == ys.last());
    }
}

proof fn lemma_run_lines_is_run_from(ys: Seq<Seq<char>>)
    ensures
        run_lines(ys) == run_from(initial_state(), ys),
{
    lemma_run_lines_concat(Seq::empty(), ys);
    assert(Seq::<Seq<char>>::empty() + ys =~= ys);
}

/// The sections a state holds, the open one last.
pub open spec fn all_sections(st: ParseState) -> Seq<SectionV> {
    match st.open {
        Some(c) => st.closed.push(c),
        None => st.closed,
    }
}

proof fn lemma_step_sections(st1: ParseState, st2: ParseState, prefix: Seq<SectionV>, raw: Seq<char>)
    requires
        st1.closed == prefix + st2.closed,
        st1.open == st2.open,
    ensures
        step(st1, raw).closed == prefix + step(st2, raw).closed,
        step(st1, raw).open == step(st2, raw).open,
{
    match st1.open {
        Some(c) => {
            assert(st1.closed.push(c) =~= prefix + st2.closed.push(c));
        },
        None => {},
    }
}

proof fn lemma_run_from_header_first(st: ParseState, ys: Seq<Seq<char>>)
    requires
        ys.len() > 0,
        is_section_header(ys[0]),
    ensures
        run_from(st, ys).closed == all_sections(st) + run_from(initial_state(), ys).closed,
        run_from(st, ys).open == run_from(initial_state(), ys).open,
    decreases ys.len(),
{
    if ys.len() == 1 {
        let raw = ys[0];
        lemma_header_line_kind(trim_end(raw));
        assert(ys.drop_last() =~= Seq::<Seq<char>>::empty());
        assert(ys.last() == raw);
        assert(run_from(st, ys.drop_last()) == st);
        assert(run_from(initial_state(), ys.drop_last()) == initial_state());
        assert(run_from(st, ys) == step(st, raw));
        assert(run_from(initial_state(), ys) == step(initial_state(), raw));
        assert(step(st, raw).closed == all_sections(st));
        assert(step(initial_state(), raw).closed == Seq::<SectionV>::empty());
        assert(all_sections(st) + Seq::<SectionV>::empty() =~= all_sections(st));
    } else {
        let zs = ys.drop_last();
        assert(zs[0] == ys[0]);
        lemma_run_from_header_first(st, zs);
        lemma_step_sections(
            run_from(st, zs),
            run_from(initial_state(), zs),
            all_sections(st),
            ys.last(),
        );
    }
}

proof fn lemma_first_index_of_concat(a: Seq<char>, b: Seq<char>, c: char, i: int)
    requires
        0 <= i <= a.len(),
        first_index_of(a, c, i) < a.len(),
    ensures
        first_index_of(a + b, c, i) == first_index_of(a, c, i),
    decreases a.len() - i,
{
    if i < a.len() && a[i] != c {
        lemma_first_index_of_concat(a, b, c, i + 1);
    }
}

proof fn lemma_split_lines_concat(a: Seq<char>, b: Seq<char>)
    requires
        a.len() == 0 || a.last() == '\n',
    ensures
        split_lines(a + b) == split_lines(a) + split_lines(b),
    decreases a.len(),
{
    if a.len() == 0 {
        assert(a + b =~= b);
        assert(split_lines(a) =~= Seq::<Seq<char>>::empty());
        assert(Seq::<Seq<char>>::empty() + split_lines(b) =~= split_lines(b));
    } else {
        lemma_first_index_of_bounds(a, '\n', 0);
        assert(first_index_of(a, '\n', 0) < a.len()) by {
            if first_index_of(a, '\n', 0) >= a.len() {
                assert(a[a.len() - 1] != '\n');
            }
        }
        let k = first_index_of(a, '\n', 0);
        lemma_first_index_of_concat(a, b, '\n', 0);
        lemma_first_index_of_bounds(a + b, '\n', 0);
        let rest = a.skip(k + 1);
        assert((a + b).take(k) =~= a.take(k));
        assert((a + b).skip(k + 1) =~= rest + b);
        if rest.len() > 0 {
            assert(rest.last() == a.last());
        }
        lemma_split_lines_concat(rest, b);
        assert(split_lines(a + b) =~= seq![strip_cr(a.take(k))] + (split_lines(rest) + split_lines(b)));
    }
}

/// Descriptions compose section by section: when `a` ends at a line break
/// and `b` begins with a section header, the sections of `a` then `b` are
/// the sections of `a` followed by the sections of `b`.
pub proof fn law_sections_concatenate(a: Seq<char>, b: Seq<char>)
    requires
        a.len() == 0 || a.last() == '\n',
        split_lines(b).len() > 0,
        is_section_header(split_lines(b)[0]),
    ensures
        parse_spec(a + b).sections == parse_spec(a).sections + parse_spec(b).sections,
{
    let xs = split_lines(a);
    let ys = split_lines(b);
    lemma_split_lines_concat(a, b);
    lemma_run_lines_concat(xs, ys);
    lemma_run_lines_is_run_from(ys);
    let sa = run_lines(xs);
    lemma_run_from_header_first(sa, ys);
    let whole = run_from(sa, ys);
    let sb = run_from(initial_state(), ys);
    match sb.open {
        Some(c) => {
            assert(whole.closed.push(c) =~= all_sections(sa) + sb.closed.push(c));
        },
        None => {},
    }
    assert(parse_spec(a).sections == all_sections(sa));
}

/// Trailing whitespace does not change what `trim_end` keeps.
proof fn lemma_trim_end_ignores_white_tail(raw: Seq<char>, ws: Seq<char>)
    requires
        all_white_space(ws),
    ensures
        trim_end(raw + ws) == trim_end(raw),
    decreases ws.len(),
{
    if ws.len() > 0 {
        assert((raw + ws).last() == ws.last());
        assert((raw + ws).drop_last() =~= raw + ws.drop_last());
        lemma_trim_end_ignores_white_tail(raw, ws.drop_last());
    } else {
        assert(raw + ws =~= raw);
    }
}

/// A blank line does not change the parser's state.
proof fn lemma_blank_step(st: ParseState, blank: Seq<char>)
    requires
        all_white_space(blank),
    ensures
        step(st, blank) == st,
{
    lemma_trim_empty_iff_blank(blank);
    assert(trim_end(blank).len() == 0);
    assert(trim(trim_end(blank)).len() == 0) by {
        assert(trim_end(trim_end(blank)) =~= trim_end(blank));
        assert(trim_start(trim_end(blank)) =~= trim_end(blank));
    }
}

/// Inserting a blank (empty or whitespace-only) line anywhere among the
/// lines of a description leaves what is read unchanged.
pub proof fn law_blank_lines_ignored(lines: Seq<Seq<char>>, i: int, blank: Seq<char>)
    requires
        0 <= i <= lines.len(),
        all_white_space(blank),
    ensures
        run_lines(lines.insert(i, blank)) == run_lines(lines),
    decreases lines.len(),
{
    let l2 = lines.insert(i, blank);
    if i == lines.len() {
        assert(l2.drop_last() =~= lines);
        assert(l2.last() == blank);
        lemma_blank_step(run_lines(lines), blank);
    } else {
        assert(l2.drop_last() =~= lines.drop_last().insert(i, blank));
        assert(l2.last() == lines.last());
        law_blank_lines_ignored(lines.drop_last(), i, blank);
    }
}

/// Appending whitespace to the end of any line of a description leaves
/// what is read unchanged.
pub proof fn law_trailing_whitespace_ignored(lines: Seq<Seq<char>>, i: int, ws: Seq<char>)
    requires
        0 <= i < lines.len(),
        all_white_space(ws),
    ensures
        run_lines(lines.update(i, lines[i] + ws)) == run_lines(lines),
    decreases lines.len(),
{
    let l2 = lines.update(i, lines[i] + ws);
    if i == lines.len() - 1 {
        assert(l2.drop_last() =~= lines.drop_last());
        lemma_trim_end_ignores_white_tail(lines[i], ws);
        assert(step(run_lines(lines.drop_last()), l2.last()) == step(run_lines(lines.drop_last()), lines.last()));
    } else {
        assert(l2.drop_last() =~= lines.drop_last().update(i, lines[i] + ws));
        assert(l2.last() == lines.last());
        law_trailing_whitespace_ignored(lines.drop_last(), i, ws);
    }
}

/// The lines of a piece that ends with its first line feed: that one line.
proof fn lemma_split_one_line(line: Seq<char>)
    requires
        !line.contains('\n'),
    ensures
        split_lines(line + seq!['\n']) == seq![strip_cr(line)],
{
    let x = line + seq!['\n'];
    lemma_first_index_of_bounds(x, '\n', 0);
    let k = first_index_of(x, '\n', 0);
    if k < line.len() {
        assert(x[k] == line[k]);
        assert(line.contains(line[k]));
    }
    assert(x[line.len() as int] == '\n');
    assert(k == line.len());
    assert(x.take(k) =~= line);
    assert(x.skip(k + 1) =~= Seq::<char>::empty());
    assert(split_lines(x.skip(k + 1)) =~= Seq::<Seq<char>>::empty());
    assert(split_lines(x) =~= seq![strip_cr(line)]);
}

/// The lines of a piece with no line feed: the piece itself, unless empty.
proof fn lemma_split_last_line(line: Seq<char>)
    requires
        !line.contains('\n'),
        line.len() > 0,
    ensures
        split_lines(line) == seq![line],
{
    lemma_first_index_of_bounds(line, '\n', 0);
    let k = first_index_of(line, '\n', 0);
    if k < line.len() {
        assert(line.contains(line[k]));
    }
}

/// What a line does to the parser depends only on the line without its
/// trailing whitespace.
proof fn lemma_run_lines_trim_equiv(l1: Seq<Seq<char>>, l2: Seq<Seq<char>>)
    requires
        l1.len() == l2.len(),
        forall|i: int| 0 <= i < l1.len() ==> trim_end(#[trigger] l1[i]) == trim_end(l2[i]),
    ensures
        run_lines(l1) == run_lines(l2),
    decreases l1.len(),
{
    if l1.len() > 0 {
        lemma_run_lines_trim_equiv(l1.drop_last(), l2.drop_last());
        assert(trim_end(l1.last()) == trim_end(l2.last()));
    }
}

/// Dropping a carriage return before a line feed does not change what the
/// line says once its trailing whitespace is gone.
proof fn lemma_trim_end_strip_cr(s: Seq<char>)
    ensures
        trim_end(strip_cr(s)) == trim_end(s),
{
    if s.len() > 0 && s.last() == '\r' {
        assert(is_white_space(s.last()));
    }
}

/// Inserting a blank (empty or whitespace-only) line into the text of a
/// description, at the start or after any line feed, leaves the parsed
/// test unchanged.
pub proof fn law_blank_line_in_text_ignored(a: Seq<char>, blank: Seq<char>, b: Seq<char>)
    requires
        a.len() == 0 || a.last() == '\n',
        all_white_space(blank),
        !blank.contains('\n'),
    ensures
        parse_spec(a + (blank + seq!['\n'] + b)) == parse_spec(a + b),
{
    let x = blank + seq!['\n'];
    lemma_split_lines_concat(a, x + b);
    lemma_split_lines_concat(a, b);
    lemma_split_lines_concat(x, b);
    lemma_split_one_line(blank);
    let la = split_lines(a);
    let lb = split_lines(b);
    let w = strip_cr(blank);
    assert(all_white_space(w)) by {
        assert forall|i: int| 0 <= i < w.len() implies is_white_space(#[trigger] w[i]) by {
            assert(w[i] == blank[i]);
        }
    }
    assert(blank + seq!['\n'] + b =~= x + b);
    assert(la + (seq![w] + lb) =~= (la + lb).insert(la.len() as int, w));
    law_blank_lines_ignored(la + lb, la.len() as int, w);
}

/// Appending whitespace to a line of the text of a description leaves the
/// parsed test unchanged: `line` starts the text or follows a line feed,
/// and ends it or is followed by one.
pub proof fn law_trailing_whitespace_in_text_ignored(a: Seq<char>, line: Seq<char>, ws: Seq<char>, rest: Seq<char>)
    requires
        a.len() == 0 || a.last() == '\n',
        !line.contains('\n'),
        all_white_space(ws),
        !ws.contains('\n'),
        rest.len() == 0 || rest[0] == '\n',
    ensures
        parse_spec(a + (line + ws + rest)) == parse_spec(a + (line + rest)),
{
    let long = line + ws;
    assert(!long.contains('\n')) by {
        if long.contains('\n') {
            let i = choose|i: int| 0 <= i < long.len() && long[i] == '\n';
            if i < line.len() {
                assert(line[i] == long[i]);
                assert(line.contains('\n'));
            } else {
                assert(ws[i - line.len()] == long[i]);
                assert(ws.contains('\n'));
            }
        }
    }
    lemma_trim_end_ignores_white_tail(line, ws);
    lemma_split_lines_concat(a, long + rest);
    lemma_split_lines_concat(a, line + rest);
    let la = split_lines(a);
    if rest.len() == 0 {
        assert(long + rest =~= long);
        assert(line + rest =~= line);
        if line.len() == 0 {
            assert(long =~= ws);
            if ws.len() > 0 {
                lemma_split_last_line(ws);
                assert(split_lines(line) =~= Seq::<Seq<char>>::empty());
                assert(la + seq![ws] =~= la.insert(la.len() as int, ws));
                assert(la + Seq::<Seq<char>>::empty() =~= la);
                law_blank_lines_ignored(la, la.len() as int, ws);
            }
        } else {
            lemma_split_last_line(long);
            lemma_split_last_line(line);
            let l1 = la + seq![long];
            let l2 = la + seq![line];
            assert forall|i: int| 0 <= i < l1.len() implies trim_end(#[trigger] l1[i]) == trim_end(l2[i]) by {
                if i < la.len() {
                    assert(l1[i] == l2[i]);
                }
            }
            lemma_run_lines_trim_equiv(l1, l2);
        }
    } else {
        let r = rest.skip(1);
        assert(long + rest =~= (long + seq!['\n']) + r);
        assert(line + rest =~= (line + seq!['\n']) + r);
        lemma_split_lines_concat(long + seq!['\n'], r);
        lemma_split_lines_concat(line + seq!['\n'], r);
        lemma_split_one_line(long);
        lemma_split_one_line(line);
        lemma_trim_end_strip_cr(long);
        lemma_trim_end_strip_cr(line);
        let lr = split_lines(r);
        let l1 = la + (seq![strip_cr(long)] + lr);
        let l2 = la + (seq![strip_cr(line)] + lr);
        assert forall|i: int| 0 <= i < l1.len() implies trim_end(#[trigger] l1[i]) == trim_end(l2[i]) by {
            if i < la.len() {
                assert(l1[i] == l2[i]);
            } else if i > la.len() {
                assert(l1[i] == lr[i - la.len() - 1]);
                assert(l2[i] == lr[i - la.len() - 1]);
            }
        }
        lemma_run_lines_trim_equiv(l1, l2);
    }
}

/// The lines that matter to the parser: the non-blank lines, in order,
/// each without its trailing whitespace.
pub open spec fn significant_lines(lines: Seq<Seq<char>>) -> Seq<Seq<char>>
    decreases lines.len(),
{
    if lines.len() == 0 {
        Seq::empty()
    } else if all_white_space(lines.last()) {
        significant_lines(lines.drop_last())
    } else {
        significant_lines(lines.drop_last()).push(trim_end(lines.last()))
    }
}

proof fn lemma_trim_end_idempotent(s: Seq<char>)
    ensures
        trim_end(trim_end(s)) == trim_end(s),
    decreases s.len(),
{
    if s.len() > 0 && is_white_space(s.last()) {
        lemma_trim_end_idempotent(s.drop_last());
    }
}

proof fn lemma_run_lines_significant(lines: Seq<Seq<char>>)
    ensures
        run_lines(lines) == run_lines(significant_lines(lines)),
    decreases lines.len(),
{
    if lines.len() > 0 {
        let init = lines.drop_last();
        lemma_run_lines_significant(init);
        if all_white_space(lines.last()) {
            lemma_blank_step(run_lines(init), lines.last());
        } else {
            let sig = significant_lines(init).push(trim_end(lines.last()));
            assert(sig.drop_last() =~= significant_lines(init));
            lemma_trim_end_idempotent(lines.last());
        }
    }
}

/// Two descriptions whose lines differ only by blank (empty or
/// whitespace-only) lines, inserted or removed anywhere and in any number,
/// and by whitespace at the ends of lines, are parsed alike.
pub proof fn law_blank_lines_and_trailing_whitespace_ignored(t1: Seq<char>, t2: Seq<char>)
    requires
        significant_lines(split_lines(t1)) == significant_lines(split_lines(t2)),
    ensures
        parse_spec(t1) == parse_spec(t2),
{
    lemma_run_lines_significant(split_lines(t1));
    lemma_run_lines_significant(split_lines(t2));
}

} // verus!
