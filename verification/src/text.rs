//! Character-level text utilities: whitespace, trimming, line splitting and
//! string building, each with a specification over `Seq<char>`.
use vstd::prelude::*;

verus! {

broadcast use vstd::string::group_string_axioms;

/// The Unicode `White_Space` property (the set that `char::is_whitespace`
/// and the `\s` class of the pattern language recognise).
pub open spec fn is_white_space(c: char) -> bool {
    let u = c as u32;
    ||| 0x9 <= u <= 0xD
    ||| u == 0x20
    ||| u == 0x85
    ||| u == 0xA0
    ||| u == 0x1680
    ||| 0x2000 <= u <= 0x200A
    ||| u == 0x2028
    ||| u == 0x2029
    ||| u == 0x202F
    ||| u == 0x205F
    ||| u == 0x3000
}

/// Whether `c` is whitespace.
pub fn is_whitespace_char(c: char) -> (b: bool)
    ensures
        b == is_white_space(c),
{
    let u = c as u32;
    (0x9 <= u && u <= 0xD) || u == 0x20 || u == 0x85 || u == 0xA0 || u == 0x1680 || (0x2000 <= u
        && u <= 0x200A) || u == 0x2028 || u == 0x2029 || u == 0x202F || u == 0x205F || u == 0x3000
}

/// `s` with trailing whitespace removed.
pub open spec fn trim_end(s: Seq<char>) -> Seq<char>
    decreases s.len(),
{
    if s.len() > 0 && is_white_space(s.last()) {
        trim_end(s.drop_last())
    } else {
        s
    }
}

/// `s` with leading whitespace removed.
pub open spec fn trim_start(s: Seq<char>) -> Seq<char>
    decreases s.len(),
{
    if s.len() > 0 && is_white_space(s[0]) {
        trim_start(s.drop_first())
    } else {
        s
    }
}

/// `s` with leading and trailing whitespace removed.
pub open spec fn trim(s: Seq<char>) -> Seq<char> {
    trim_start(trim_end(s))
}

/// True when every character of `s` is whitespace.
pub open spec fn all_white_space(s: Seq<char>) -> bool {
    forall|i: int| 0 <= i < s.len() ==> is_white_space(#[trigger] s[i])
}

pub proof fn lemma_trim_empty_iff_blank(s: Seq<char>)
    ensures
        (trim(s).len() == 0) <==> all_white_space(s),
        trim_end(s).len() == 0 <==> all_white_space(s),
    decreases s.len(),
{
    if s.len() > 0 && is_white_space(s.last()) {
        lemma_trim_empty_iff_blank(s.drop_last());
        if all_white_space(s.drop_last()) {
            assert forall|i: int| 0 <= i < s.len() implies is_white_space(#[trigger] s[i]) by {
                if i < s.len() - 1 {
                    assert(s.drop_last()[i] == s[i]);
                }
            }
        }
        if all_white_space(s) {
            assert forall|i: int| 0 <= i < s.drop_last().len() implies is_white_space(
                #[trigger] s.drop_last()[i],
            ) by {
                assert(s.drop_last()[i] == s[i]);
            }
        }
    } else if s.len() > 0 {
        assert(!is_white_space(s[s.len() - 1]));
        lemma_trim_start_keeps_nonblank(s);
    }
}

proof fn lemma_trim_start_keeps_nonblank(s: Seq<char>)
    requires
        s.len() > 0,
        !is_white_space(s.last()),
    ensures
        trim_start(s).len() > 0,
    decreases s.len(),
{
    if is_white_space(s[0]) {
        assert(s.len() > 1);
        assert(s.drop_first().last() == s.last());
        lemma_trim_start_keeps_nonblank(s.drop_first());
    }
}

/// The end of the trimmed range `[lo, hi)` of `v`, scanning backwards.
pub fn trim_end_index(v: &Vec<char>, lo: usize, hi: usize) -> (e: usize)
    requires
        lo <= hi <= v.len(),
    ensures
        lo <= e <= hi,
        v@.subrange(lo as int, e as int) == trim_end(v@.subrange(lo as int, hi as int)),
{
    let mut e = hi;
    while e > lo && is_whitespace_char(v[e - 1])
        invariant
            lo <= e <= hi <= v.len(),
            trim_end(v@.subrange(lo as int, hi as int)) == trim_end(
                v@.subrange(lo as int, e as int),
            ),
        decreases e,
    {
        assert(v@.subrange(lo as int, e as int).drop_last() =~= v@.subrange(
            lo as int,
            e - 1,
        ));
        e = e - 1;
    }
    e
}

/// The start of the trimmed range `[lo, hi)` of `v`, scanning forwards.
pub fn trim_start_index(v: &Vec<char>, lo: usize, hi: usize) -> (b: usize)
    requires
        lo <= hi <= v.len(),
    ensures
        lo <= b <= hi,
        v@.subrange(b as int, hi as int) == trim_start(v@.subrange(lo as int, hi as int)),
{
    let mut b = lo;
    while b < hi && is_whitespace_char(v[b])
        invariant
            lo <= b <= hi <= v.len(),
            trim_start(v@.subrange(lo as int, hi as int)) == trim_start(
                v@.subrange(b as int, hi as int),
            ),
        decreases hi - b,
    {
        assert(v@.subrange(b as int, hi as int).drop_first() =~= v@.subrange(
            b + 1,
            hi as int,
        ));
        b = b + 1;
    }
    b
}

/// The trimmed sub-range of `[lo, hi)`.
pub fn trim_range(v: &Vec<char>, lo: usize, hi: usize) -> (r: (usize, usize))
    requires
        lo <= hi <= v.len(),
    ensures
        lo <= r.0 <= r.1 <= hi,
        v@.subrange(r.0 as int, r.1 as int) == trim(v@.subrange(lo as int, hi as int)),
{
    let e = trim_end_index(v, lo, hi);
    let b = trim_start_index(v, lo, e);
    (b, e)
}

/// The characters of a string slice, in order.
pub fn to_chars(s: &str) -> (v: Vec<char>)
    ensures
        v@ == s@,
{
    let mut v: Vec<char> = Vec::new();
    for c in it: s.chars()
        invariant
            it.seq() == s@,
            v@ == it.seq().take(it.index() as int),
    {
        v.push(c);
    }
    assert(s@.take(s@.len() as int) =~= s@);
    v
}

/// `String::push`: appends one character to a string.
#[verifier::external_body]
pub(crate) fn push_char(s: &mut String, c: char)
    ensures
        final(s)@ == old(s)@.push(c),
{
    s.push(c);
}

/// Appends the characters `v[lo..hi]` to `s`.
pub fn push_range(s: &mut String, v: &Vec<char>, lo: usize, hi: usize)
    requires
        lo <= hi <= v.len(),
    ensures
        final(s)@ == old(s)@ + v@.subrange(lo as int, hi as int),
{
    let mut i = lo;
    while i < hi
        invariant
            lo <= i <= hi <= v.len(),
            s@ == old(s)@ + v@.subrange(lo as int, i as int),
        decreases hi - i,
    {
        assert(v@.subrange(lo as int, i + 1) =~= v@.subrange(lo as int, i as int).push(v@[i as int]));
        push_char(s, v[i]);
        i = i + 1;
    }
}

/// The string made of the characters `v[lo..hi]`.
pub fn string_of_range(v: &Vec<char>, lo: usize, hi: usize) -> (s: String)
    requires
        lo <= hi <= v.len(),
    ensures
        s@ == v@.subrange(lo as int, hi as int),
{
    let mut s = String::new();
    push_range(&mut s, v, lo, hi);
    assert(Seq::<char>::empty() + v@.subrange(lo as int, hi as int) =~= v@.subrange(lo as int, hi as int));
    s
}

/// The string made of `c` repeated `n` times.
pub open spec fn repeat_char(c: char, n: nat) -> Seq<char> {
    Seq::new(n, |i: int| c)
}

/// `c` repeated `n` times.
pub fn repeated(c: char, n: usize) -> (s: String)
    ensures
        s@ == repeat_char(c, n as nat),
{
    let mut s = String::new();
    let mut i: usize = 0;
    while i < n
        invariant
            i <= n,
            s@ == repeat_char(c, i as nat),
        decreases n - i,
    {
        push_char(&mut s, c);
        i = i + 1;
        assert(s@ =~= repeat_char(c, i as nat));
    }
    s
}

/// The decimal-digit class `\d` of the `regex` crate, which the
/// line-count annotation uses: Unicode's general category `Nd`.
pub uninterp spec fn is_decimal_digit(c: char) -> bool;

/// A digit of the line-count annotation: among ASCII characters exactly
/// `0`..`9`; beyond ASCII, the decimal-digit class.
pub open spec fn is_digit(c: char) -> bool {
    if (c as u32) < 128 {
        '0' <= c <= '9'
    } else {
        is_decimal_digit(c)
    }
}

/// `Regex::is_match` of the pattern `\A\d\z` on one character: whether it
/// is in the decimal-digit class. The class is only named; of it, this
/// states what the `regex` documentation plainly gives: it is Unicode's
/// `Nd`, whose only ASCII characters are `0`..`9`.
#[verifier::external_body]
pub(crate) fn is_decimal_digit_char(c: char) -> (b: bool)
    ensures
        b == is_decimal_digit(c),
        (c as u32) < 128 ==> (b <==> '0' <= c <= '9'),
{
    let mut buf = [0u8; 4];
    regex::Regex::new(r"\A\d\z").unwrap().is_match(c.encode_utf8(&mut buf))
}

/// `p` is a prefix of `s`.
pub open spec fn starts_with(s: Seq<char>, p: Seq<char>) -> bool {
    p.len() <= s.len() && s.take(p.len() as int) == p
}

/// Whether `v[0..end]` starts with the characters of `p`.
pub fn has_prefix(v: &Vec<char>, end: usize, p: &str) -> (b: bool)
    requires
        end <= v.len(),
    ensures
        b == starts_with(v@.take(end as int), p@),
{
    let pc = to_chars(p);
    if pc.len() > end {
        return false;
    }
    let mut i: usize = 0;
    while i < pc.len()
        invariant
            i <= pc.len() <= end <= v.len(),
            pc@ == p@,
            forall|j: int| 0 <= j < i ==> v@[j] == pc@[j],
        decreases pc.len() - i,
    {
        if v[i] != pc[i] {
            assert(v@.take(end as int).take(pc.len() as int)[i as int] != pc@[i as int]);
            return false;
        }
        i = i + 1;
    }
    assert(v@.take(end as int).take(pc.len() as int) =~= pc@);
    true
}

/// The first index `j >= i` with `s[j] == c`, or `s.len()` when there is none.
pub open spec fn first_index_of(s: Seq<char>, c: char, i: int) -> int
    decreases s.len() - i,
{
    if i < 0 || i >= s.len() {
        s.len() as int
    } else if s[i] == c {
        i
    } else {
        first_index_of(s, c, i + 1)
    }
}

pub proof fn lemma_first_index_of_bounds(s: Seq<char>, c: char, i: int)
    requires
        0 <= i <= s.len(),
    ensures
        i <= first_index_of(s, c, i) <= s.len(),
        first_index_of(s, c, i) < s.len() ==> s[first_index_of(s, c, i)] == c,
        forall|j: int| i <= j < first_index_of(s, c, i) ==> s[j] != c,
    decreases s.len() - i,
{
    if i < s.len() && s[i] != c {
        lemma_first_index_of_bounds(s, c, i + 1);
    }
}

pub proof fn lemma_first_index_shift(s: Seq<char>, c: char, start: int)
    requires
        0 <= start <= s.len(),
    ensures
        first_index_of(s.skip(start), c, 0) + start == first_index_of(s, c, start),
    decreases s.len() - start,
{
    lemma_first_index_shift_gen(s, c, start, 0);
}

proof fn lemma_first_index_shift_gen(s: Seq<char>, c: char, start: int, i: int)
    requires
        0 <= start <= s.len(),
        0 <= i <= s.len() - start,
    ensures
        first_index_of(s.skip(start), c, i) + start == first_index_of(s, c, start + i),
    decreases s.len() - start - i,
{
    if i < s.len() - start {
        assert(s.skip(start)[i] == s[start + i]);
        if s[start + i] != c {
            lemma_first_index_shift_gen(s, c, start, i + 1);
        }
    }
}

/// Scans `v[i..end]` for `c`; returns the first index holding `c`, or `end`.
pub fn find_char(v: &Vec<char>, end: usize, c: char, i: usize) -> (k: usize)
    requires
        i <= end <= v.len(),
    ensures
        k == first_index_of(v@.take(end as int), c, i as int),
        i <= k <= end,
{
    let ghost s = v@.take(end as int);
    let mut k = i;
    while k < end && v[k] != c
        invariant
            i <= k <= end <= v.len(),
            s == v@.take(end as int),
            first_index_of(s, c, i as int) == first_index_of(s, c, k as int),
        decreases end - k,
    {
        k = k + 1;
    }
    k
}


/// A copy of `v[lo..hi]`.
pub fn sub_vec(v: &Vec<char>, lo: usize, hi: usize) -> (r: Vec<char>)
    requires
        lo <= hi <= v.len(),
    ensures
        r@ == v@.subrange(lo as int, hi as int),
{
    let mut r: Vec<char> = Vec::new();
    let mut i = lo;
    while i < hi
        invariant
            lo <= i <= hi <= v.len(),
            r@ == v@.subrange(lo as int, i as int),
        decreases hi - i,
    {
        r.push(v[i]);
        i = i + 1;
        assert(r@ =~= v@.subrange(lo as int, i as int));
    }
    r
}

} // verus!
