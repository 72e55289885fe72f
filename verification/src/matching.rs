//! Literal substring search: leftmost, non-overlapping occurrences, as
//! `str::matches` and `str::replace` find them, plus the case-insensitive
//! replacement that maps occurrences in a lowercased copy back onto the
//! unlowered text by byte offset.

use vstd::prelude::*;

use crate::text::{
    byte_len, char_width_exec, extend_range, lemma_byte_len_mono,
    lemma_byte_len_take_succ, seq_starts_with, starts_with_at,
};

verus! {

/// `p` occurs in `s` at position `i`.
pub open spec fn match_at(s: Seq<char>, i: int, p: Seq<char>) -> bool {
    0 <= i && i + p.len() <= s.len() && s.subrange(i, i + p.len()) == p
}

/// Where the search resumes after an occurrence at `i`: past it, or one
/// character further for the empty pattern, which occurs at every position.
pub open spec fn next_after(i: int, p: Seq<char>) -> int {
    if p.len() == 0 {
        i + 1
    } else {
        i + p.len()
    }
}

/// Number of leftmost non-overlapping occurrences of `p` in `s` from `i` on.
pub open spec fn count_from(s: Seq<char>, p: Seq<char>, i: int) -> nat
    decreases s.len() + 1 - i,
{
    if i < 0 || i + p.len() > s.len() {
        0
    } else if match_at(s, i, p) {
        1 + count_from(s, p, next_after(i, p))
    } else {
        count_from(s, p, i + 1)
    }
}

/// Number of leftmost non-overlapping occurrences of `p` in `s`.
pub open spec fn count_occurrences_spec(s: Seq<char>, p: Seq<char>) -> nat {
    count_from(s, p, 0)
}

/// `s` from `i` on, with every leftmost non-overlapping occurrence of the
/// non-empty pattern `p` replaced by `r`.
pub open spec fn replace_from(s: Seq<char>, p: Seq<char>, r: Seq<char>, i: int) -> Seq<char>
    recommends
        p.len() > 0,
    decreases s.len() + 1 - i,
{
    if i < 0 || i + p.len() > s.len() || p.len() == 0 {
        s.skip(i)
    } else if match_at(s, i, p) {
        r + replace_from(s, p, r, i + p.len())
    } else {
        seq![s[i]] + replace_from(s, p, r, i + 1)
    }
}

/// What `str::replace` returns for a non-empty pattern.
pub open spec fn replace_spec(s: Seq<char>, p: Seq<char>, r: Seq<char>) -> Seq<char> {
    replace_from(s, p, r, 0)
}

/// Scans for the character index of `s` at which the UTF-8 byte offset `b`
/// falls, starting at index `k`.
pub open spec fn char_index_from(s: Seq<char>, b: int, k: int) -> Option<int>
    decreases s.len() - k,
{
    if k < 0 || k > s.len() {
        None
    } else if byte_len(s.take(k)) == b {
        Some(k)
    } else if byte_len(s.take(k)) > b || k == s.len() {
        None
    } else {
        char_index_from(s, b, k + 1)
    }
}

/// The character index at UTF-8 byte offset `b` of `s`, when `b` is a
/// character boundary of `s`; `None` otherwise (where slicing panics).
pub open spec fn char_index_at_byte(s: Seq<char>, b: int) -> Option<int> {
    char_index_from(s, b, 0)
}

/// Case-insensitive replacement from position `i` of the lowered text `l` on,
/// with `last` the byte offset in `t` where the previous occurrence ended.
/// Occurrences of `lq` in `l` are located by their byte offset, and the byte
/// ranges between them are copied from the unlowered text `t`; the end of an
/// occurrence is its start plus `qb`, the byte length of the unlowered query.
/// `None` where a byte range is not a valid slice of `t`, or the end offset
/// overflows.
pub open spec fn ci_replace_from(
    t: Seq<char>,
    l: Seq<char>,
    lq: Seq<char>,
    qb: int,
    r: Seq<char>,
    i: int,
    last: int,
) -> Option<Seq<char>>
    decreases l.len() + 1 - i,
{
    if i < 0 || i + lq.len() > l.len() {
        match char_index_at_byte(t, last) {
            Some(a) => Some(t.skip(a)),
            None => None,
        }
    } else if match_at(l, i, lq) {
        let start = byte_len(l.take(i)) as int;
        match (char_index_at_byte(t, last), char_index_at_byte(t, start)) {
            (Some(a), Some(b)) => if a <= b && start + qb <= usize::MAX {
                match ci_replace_from(t, l, lq, qb, r, next_after(i, lq), start + qb) {
                    Some(rest) => Some(t.subrange(a, b) + r + rest),
                    None => None,
                }
            } else {
                None
            },
            _ => None,
        }
    } else {
        ci_replace_from(t, l, lq, qb, r, i + 1, last)
    }
}

/// Case-insensitive replacement of the occurrences of `lq` in `l` (the
/// lowercased text and query) within the unlowered text `t`; `qb` is the byte
/// length of the unlowered query.
pub open spec fn ci_replace_spec(
    t: Seq<char>,
    l: Seq<char>,
    lq: Seq<char>,
    qb: int,
    r: Seq<char>,
) -> Option<Seq<char>> {
    ci_replace_from(t, l, lq, qb, r, 0, 0)
}

proof fn lemma_starts_with_match(s: Seq<char>, i: int, p: Seq<char>)
    requires
        0 <= i <= s.len(),
    ensures
        seq_starts_with(s.skip(i), p) == match_at(s, i, p),
{
    if i + p.len() <= s.len() {
        assert(s.skip(i).take(p.len() as int) =~= s.subrange(i, i + p.len()));
    }
}

proof fn lemma_count_empty(s: Seq<char>, p: Seq<char>, i: int)
    requires
        p.len() == 0,
        0 <= i <= s.len() + 1,
    ensures
        count_from(s, p, i) == s.len() + 1 - i,
    decreases s.len() + 1 - i,
{
    if i <= s.len() {
        assert(s.subrange(i, i) =~= p);
        lemma_count_empty(s, p, i + 1);
    }
}

/// Number of leftmost non-overlapping occurrences of `p` in `s`, saturated at
/// `usize::MAX`.
pub(crate) fn count_occurrences(s: &Vec<char>, p: &Vec<char>) -> (n: usize)
    ensures
        n == if count_occurrences_spec(s@, p@) > usize::MAX {
            usize::MAX as nat
        } else {
            count_occurrences_spec(s@, p@)
        },
{
    if p.len() == 0 {
        proof {
            lemma_count_empty(s@, p@, 0);
        }
        if s.len() < usize::MAX {
            return s.len() + 1;
        } else {
            return usize::MAX;
        }
    }
    if p.len() > s.len() {
        return 0;
    }
    let mut i: usize = 0;
    let mut n: usize = 0;
    while i <= s.len() - p.len()
        invariant
            0 < p.len() <= s.len(),
            i <= s.len(),
            n <= i,
            count_from(s@, p@, 0) == n + count_from(s@, p@, i as int),
        decreases s.len() - i,
    {
        proof {
            lemma_starts_with_match(s@, i as int, p@);
        }
        if starts_with_at(s, i, p) {
            n = n + 1;
            i = i + p.len();
        } else {
            i = i + 1;
        }
    }
    n
}

/// `s` with every leftmost non-overlapping occurrence of `p` replaced by `r`.
pub(crate) fn replace_occurrences(s: &Vec<char>, p: &Vec<char>, r: &Vec<char>) -> (out: Vec<char>)
    requires
        p.len() > 0,
    ensures
        out@ == replace_spec(s@, p@, r@),
{
    let mut out: Vec<char> = Vec::new();
    let mut i: usize = 0;
    if p.len() <= s.len() {
        while i <= s.len() - p.len()
            invariant
                0 < p.len() <= s.len(),
                i <= s.len(),
                replace_from(s@, p@, r@, 0) == out@ + replace_from(s@, p@, r@, i as int),
            decreases s.len() - i,
        {
            proof {
                lemma_starts_with_match(s@, i as int, p@);
            }
            let ghost before = out@;
            if starts_with_at(s, i, p) {
                extend_range(&mut out, r, 0, r.len());
                assert(r@.subrange(0, r.len() as int) =~= r@);
                assert(before + replace_from(s@, p@, r@, i as int) =~= out@ + replace_from(
                    s@,
                    p@,
                    r@,
                    i + p.len(),
                ));
                i = i + p.len();
            } else {
                out.push(s[i]);
                assert(before + replace_from(s@, p@, r@, i as int) =~= out@ + replace_from(
                    s@,
                    p@,
                    r@,
                    i + 1,
                ));
                i = i + 1;
            }
        }
    }
    let ghost before = out@;
    extend_range(&mut out, s, i, s.len());
    assert(s@.subrange(i as int, s.len() as int) =~= s@.skip(i as int));
    out
}

proof fn lemma_replace_self_from(s: Seq<char>, p: Seq<char>, i: int)
    requires
        p.len() > 0,
        0 <= i <= s.len(),
    ensures
        replace_from(s, p, p, i) == s.skip(i),
    decreases s.len() + 1 - i,
{
    if i + p.len() > s.len() {
    } else if match_at(s, i, p) {
        lemma_replace_self_from(s, p, i + p.len());
        assert(p + s.skip(i + p.len()) =~= s.skip(i));
    } else {
        lemma_replace_self_from(s, p, i + 1);
        assert(seq![s[i]] + s.skip(i + 1) =~= s.skip(i));
    }
}

/// Replacing a non-empty pattern with itself leaves the text unchanged.
pub proof fn law_replace_with_itself(s: Seq<char>, p: Seq<char>)
    requires
        p.len() > 0,
    ensures
        replace_spec(s, p, p) == s,
{
    lemma_replace_self_from(s, p, 0);
    assert(s.skip(0) =~= s);
}

proof fn lemma_no_match_from(s: Seq<char>, p: Seq<char>, r: Seq<char>, i: int)
    requires
        p.len() > 0,
        0 <= i <= s.len(),
        count_from(s, p, i) == 0,
    ensures
        replace_from(s, p, r, i) == s.skip(i),
    decreases s.len() + 1 - i,
{
    if i + p.len() > s.len() {
    } else {
        assert(!match_at(s, i, p));
        lemma_no_match_from(s, p, r, i + 1);
        assert(seq![s[i]] + s.skip(i + 1) =~= s.skip(i));
    }
}

/// A text in which the pattern does not occur is left unchanged by replacing
/// the pattern.
pub proof fn law_replace_without_occurrence(s: Seq<char>, p: Seq<char>, r: Seq<char>)
    requires
        p.len() > 0,
        count_occurrences_spec(s, p) == 0,
    ensures
        replace_spec(s, p, r) == s,
{
    lemma_no_match_from(s, p, r, 0);
    assert(s.skip(0) =~= s);
}

// ─── Case-insensitive replacement ───────────────────────────────────────────

pub(crate) proof fn lemma_char_index_skip(s: Seq<char>, b: int, k: int)
    requires
        0 <= k <= s.len(),
        byte_len(s.take(k)) <= b,
    ensures
        char_index_from(s, b, 0) == char_index_from(s, b, k),
    decreases k,
{
    if k > 0 {
        lemma_byte_len_take_succ(s, k - 1);
        lemma_char_index_skip(s, b, k - 1);
    }
}

proof fn lemma_char_index_from_some(s: Seq<char>, b: int, k: int)
    ensures
        char_index_from(s, b, k) matches Some(a) ==> (k <= a <= s.len() && byte_len(s.take(a))
            == b),
    decreases s.len() - k,
{
    if 0 <= k <= s.len() && byte_len(s.take(k)) < b && k < s.len() {
        lemma_char_index_from_some(s, b, k + 1);
    }
}

/// Moves a cursor `(k, kb)` of `t` forward to byte offset `target`.
fn locate(t: &Vec<char>, k: usize, kb: usize, target: usize) -> (r: Option<(usize, usize)>)
    requires
        k <= t.len(),
        kb == byte_len(t@.take(k as int)),
        kb <= target,
        byte_len(t@) <= usize::MAX,
    ensures
        match r {
            Some((a, ab)) => char_index_at_byte(t@, target as int) == Some(a as int) && ab
                == target && a <= t.len() && ab == byte_len(t@.take(a as int)),
            None => char_index_at_byte(t@, target as int) is None,
        },
{
    proof {
        lemma_char_index_skip(t@, target as int, k as int);
    }
    let mut k = k;
    let mut kb = kb;
    while kb < target && k < t.len()
        invariant
            k <= t.len(),
            kb == byte_len(t@.take(k as int)),
            byte_len(t@) <= usize::MAX,
            char_index_from(t@, target as int, 0) == char_index_from(t@, target as int, k as int),
        decreases t.len() - k,
    {
        proof {
            lemma_byte_len_take_succ(t@, k as int);
            lemma_byte_len_mono(t@, (k + 1) as int, t.len() as int);
            assert(t@.take(t.len() as int) =~= t@);
        }
        let w = char_width_exec(t[k]);
        kb = kb + w;
        k = k + 1;
    }
    if kb == target {
        Some((k, kb))
    } else {
        None
    }
}

/// Byte length of `s[..to]`, from that of `s[..from]`.
fn advance_bytes(s: &Vec<char>, from: usize, fb: usize, to: usize) -> (b: usize)
    requires
        from <= to <= s.len(),
        fb == byte_len(s@.take(from as int)),
        byte_len(s@) <= usize::MAX,
    ensures
        b == byte_len(s@.take(to as int)),
{
    let mut k = from;
    let mut kb = fb;
    while k < to
        invariant
            from <= k <= to <= s.len(),
            kb == byte_len(s@.take(k as int)),
            byte_len(s@) <= usize::MAX,
        decreases to - k,
    {
        proof {
            lemma_byte_len_take_succ(s@, k as int);
            lemma_byte_len_mono(s@, (k + 1) as int, s.len() as int);
            assert(s@.take(s.len() as int) =~= s@);
        }
        kb = kb + char_width_exec(s[k]);
        k = k + 1;
    }
    kb
}

pub open spec fn prepend(out: Seq<char>, rest: Option<Seq<char>>) -> Option<Seq<char>> {
    match rest {
        Some(x) => Some(out + x),
        None => None,
    }
}

/// Case-insensitive replacement: occurrences of `lq` in the lowered text `l`
/// mark, by byte offset, the ranges of the unlowered text `t` that are
/// replaced by `r`. `None` where the ranges are not valid slices.
pub(crate) fn ci_replace(
    t: &Vec<char>,
    l: &Vec<char>,
    lq: &Vec<char>,
    qb: usize,
    r: &Vec<char>,
    t_bytes: usize,
    l_bytes: usize,
) -> (res: Option<Vec<char>>)
    requires
        t_bytes == byte_len(t@),
        l_bytes == byte_len(l@),
    ensures
        match res {
            Some(v) => ci_replace_spec(t@, l@, lq@, qb as int, r@) == Some(v@),
            None => ci_replace_spec(t@, l@, lq@, qb as int, r@) is None,
        },
{
    let mut out: Vec<char> = Vec::new();
    let mut i: usize = 0;
    let mut ib: usize = 0;
    let mut last: usize = 0;
    let mut tk: usize = 0;
    let mut tb: usize = 0;
    let mut done = false;
    let ghost mut pos: int = 0;
    assert(t@.take(0) =~= Seq::<char>::empty());
    assert(l@.take(0) =~= Seq::<char>::empty());
    while !done && lq.len() <= l.len() && i <= l.len() - lq.len()
        invariant
            t_bytes == byte_len(t@),
            l_bytes == byte_len(l@),
            i <= l.len(),
            pos == if done { l.len() + 1 } else { i as int },
            done ==> lq.len() == 0,
            ib == byte_len(l@.take(i as int)),
            tk <= t.len(),
            tb == byte_len(t@.take(tk as int)),
            tb <= last,
            ci_replace_spec(t@, l@, lq@, qb as int, r@) == prepend(
                out@,
                ci_replace_from(t@, l@, lq@, qb as int, r@, pos, last as int),
            ),
        decreases l.len() + 1 - pos,
    {
        proof {
            lemma_starts_with_match(l@, i as int, lq@);
        }
        let ghost before = out@;
        if starts_with_at(l, i, lq) {
            let start = ib;
            let located_last = locate(t, tk, tb, last);
            match located_last {
                None => {
                    return None;
                },
                Some((a, ab)) => {
                    if start < last {
                        proof {
                            lemma_char_index_from_some(t@, start as int, 0);
                            lemma_char_index_from_some(t@, last as int, 0);
                            match char_index_at_byte(t@, start as int) {
                                Some(b) => {
                                    if b >= a {
                                        lemma_byte_len_mono(t@, a as int, b);
                                    }
                                },
                                None => {},
                            }
                        }
                        return None;
                    }
                    let located_start = locate(t, a, ab, start);
                    match located_start {
                        None => {
                            return None;
                        },
                        Some((b, bb)) => {
                            proof {
                                lemma_char_index_from_some(t@, start as int, 0);
                                lemma_char_index_from_some(t@, last as int, 0);
                                if b < a {
                                    lemma_byte_len_mono(t@, b as int, a as int);
                                }
                            }
                            if start > usize::MAX - qb {
                                return None;
                            }
                            extend_range(&mut out, t, a, b);
                            extend_range(&mut out, r, 0, r.len());
                            assert(r@.subrange(0, r.len() as int) =~= r@);
                            if lq.len() == 0 && i == l.len() {
                                done = true;
                            } else {
                                let ni = if lq.len() == 0 {
                                    i + 1
                                } else {
                                    i + lq.len()
                                };
                                proof {
                                    lemma_byte_len_mono(l@, ni as int, l.len() as int);
                                    assert(l@.take(l.len() as int) =~= l@);
                                }
                                ib = advance_bytes(l, i, ib, ni);
                                i = ni;
                            }
                            proof {
                                pos = next_after(pos, lq@);
                            }
                            last = start + qb;
                            tk = b;
                            tb = bb;
                            assert(ci_replace_spec(t@, l@, lq@, qb as int, r@) == prepend(
                                out@,
                                ci_replace_from(t@, l@, lq@, qb as int, r@, pos, last as int),
                            )) by {
                                match ci_replace_from(t@, l@, lq@, qb as int, r@, pos, last as int) {
                                    Some(rest) => {
                                        assert(before + (t@.subrange(a as int, b as int) + r@ + rest)
                                            =~= out@ + rest);
                                    },
                                    None => {},
                                }
                            }
                        },
                    }
                },
            }
        } else {
            proof {
                if lq.len() == 0 {
                    assert(l@.subrange(i as int, i as int) =~= lq@);
                }
                lemma_byte_len_take_succ(l@, i as int);
                lemma_byte_len_mono(l@, (i + 1) as int, l.len() as int);
                assert(l@.take(l.len() as int) =~= l@);
            }
            ib = ib + char_width_exec(l[i]);
            i = i + 1;
            proof {
                pos = pos + 1;
            }
        }
    }
    let located = locate(t, tk, tb, last);
    match located {
        None => None,
        Some((a, _ab)) => {
            let ghost before = out@;
            extend_range(&mut out, t, a, t.len());
            assert(t@.subrange(a as int, t.len() as int) =~= t@.skip(a as int));
            Some(out)
        },
    }
}


// ─── Case-insensitive replacement on text that lowercasing leaves alone ────

proof fn lemma_byte_len_concat(a: Seq<char>, b: Seq<char>)
    ensures
        byte_len(a + b) == byte_len(a) + byte_len(b),
    decreases b.len(),
{
    if b.len() > 0 {
        lemma_byte_len_concat(a, b.drop_last());
        assert((a + b).drop_last() =~= a + b.drop_last());
        assert((a + b).last() == b.last());
    } else {
        assert(a + b =~= a);
    }
}

proof fn lemma_char_index_of_prefix(t: Seq<char>, j: int)
    requires
        0 <= j <= t.len(),
    ensures
        char_index_at_byte(t, byte_len(t.take(j)) as int) == Some(j),
{
    lemma_char_index_skip(t, byte_len(t.take(j)) as int, j);
}

proof fn lemma_ci_identity_from(t: Seq<char>, q: Seq<char>, r: Seq<char>, i: int, j: int)
    requires
        q.len() > 0,
        0 <= j <= i <= t.len(),
        byte_len(t) <= usize::MAX,
    ensures
        ci_replace_from(t, t, q, byte_len(q) as int, r, i, byte_len(t.take(j)) as int) == Some(
            t.subrange(j, i) + replace_from(t, q, r, i),
        ),
    decreases t.len() + 1 - i,
{
    let qb = byte_len(q) as int;
    lemma_char_index_of_prefix(t, j);
    if i + q.len() > t.len() {
        assert(t.subrange(j, i) + t.skip(i) =~= t.skip(j));
    } else if match_at(t, i, q) {
        let k = i + q.len();
        lemma_char_index_of_prefix(t, i);
        lemma_byte_len_mono(t, j, i);
        assert(t.take(k) =~= t.take(i) + t.subrange(i, k));
        lemma_byte_len_concat(t.take(i), t.subrange(i, k));
        lemma_byte_len_mono(t, k, t.len() as int);
        assert(t.take(t.len() as int) =~= t);
        lemma_ci_identity_from(t, q, r, k, k);
        assert(t.subrange(k, k) =~= Seq::<char>::empty());
        assert(Seq::<char>::empty() + replace_from(t, q, r, k) =~= replace_from(t, q, r, k));
        assert(t.subrange(j, i) + r + replace_from(t, q, r, k) =~= t.subrange(j, i) + replace_from(
            t,
            q,
            r,
            i,
        ));
    } else {
        lemma_ci_identity_from(t, q, r, i + 1, j);
        assert(t.subrange(j, i + 1) + replace_from(t, q, r, i + 1) =~= t.subrange(j, i)
            + replace_from(t, q, r, i));
    }
}

/// When lowercasing changes neither the text nor the query, case-insensitive
/// replacement is literal replacement (for a non-empty query, on a text whose
/// UTF-8 length fits in memory).
pub proof fn law_ci_replace_on_lowercase_text(t: Seq<char>, q: Seq<char>, r: Seq<char>)
    requires
        q.len() > 0,
        byte_len(t) <= usize::MAX,
    ensures
        ci_replace_spec(t, t, q, byte_len(q) as int, r) == Some(replace_spec(t, q, r)),
{
    assert(t.take(0) =~= Seq::<char>::empty());
    lemma_ci_identity_from(t, q, r, 0, 0);
    assert(t.subrange(0, 0) + replace_spec(t, q, r) =~= replace_spec(t, q, r));
}


proof fn lemma_grow_from(s: Seq<char>, p: Seq<char>, c: char, i: int)
    requires
        p.len() > 0,
        0 <= i <= s.len(),
    ensures
        replace_from(s, p, p.push(c), i).len() == s.len() - i + count_from(s, p, i),
    decreases s.len() + 1 - i,
{
    if i + p.len() > s.len() {
    } else if match_at(s, i, p) {
        lemma_grow_from(s, p, c, i + p.len());
    } else {
        lemma_grow_from(s, p, c, i + 1);
    }
}

/// Counting and replacing find the same occurrences: replacing every
/// occurrence of a non-empty pattern by the pattern followed by one more
/// character lengthens the text by exactly the number of occurrences.
pub proof fn law_count_matches_replacements(s: Seq<char>, p: Seq<char>, c: char)
    requires
        p.len() > 0,
    ensures
        replace_spec(s, p, p.push(c)).len() == s.len() + count_occurrences_spec(s, p),
{
    lemma_grow_from(s, p, c, 0);
}
} // verus!
