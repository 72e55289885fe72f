//! Documents as sequences of lines, split on `'\n'`, and the line-level
//! editing commands built on them.

use vstd::prelude::*;

verus! {

/// The pieces of `s` between occurrences of `sep`: one piece more than there
/// are separators, so an empty text has one empty piece.
pub open spec fn split_on(s: Seq<char>, sep: char) -> Seq<Seq<char>>
    decreases s.len(),
{
    if s.len() == 0 {
        seq![Seq::<char>::empty()]
    } else {
        let rest = split_on(s.drop_last(), sep);
        if s.last() == sep {
            rest.push(Seq::<char>::empty())
        } else {
            rest.update(rest.len() - 1, rest.last().push(s.last()))
        }
    }
}

/// The lines of `s`: the pieces between `'\n'` characters. An empty text has
/// one empty line, and a trailing `'\n'` opens a final empty line.
pub open spec fn split_lines(s: Seq<char>) -> Seq<Seq<char>> {
    split_on(s, '\n')
}

/// The lines joined with `'\n'` between consecutive ones.
pub open spec fn join_lines(ls: Seq<Seq<char>>) -> Seq<char>
    decreases ls.len(),
{
    if ls.len() == 0 {
        Seq::<char>::empty()
    } else if ls.len() == 1 {
        ls[0]
    } else {
        join_lines(ls.drop_last()) + seq!['\n'] + ls.last()
    }
}

pub open spec fn has_no_newline(l: Seq<char>) -> bool {
    forall|k: int| 0 <= k < l.len() ==> #[trigger] l[k] != '\n'
}

pub open spec fn all_lines_plain(ls: Seq<Seq<char>>) -> bool {
    forall|i: int| 0 <= i < ls.len() ==> has_no_newline(#[trigger] ls[i])
}

pub open spec fn swap_lines(ls: Seq<Seq<char>>, i: int, j: int) -> Seq<Seq<char>> {
    ls.update(i, ls[j]).update(j, ls[i])
}

pub open spec fn views(v: Seq<Vec<char>>) -> Seq<Seq<char>> {
    Seq::new(v.len(), |i: int| v[i]@)
}

pub proof fn lemma_split_nonempty(s: Seq<char>)
    ensures
        split_lines(s).len() >= 1,
        split_lines(s).len() <= s.len() + 1,
        all_lines_plain(split_lines(s)),
    decreases s.len(),
{
    if s.len() > 0 {
        lemma_split_nonempty(s.drop_last());
        let rest = split_lines(s.drop_last());
        if s.last() != '\n' {
            let l = rest.last().push(s.last());
            assert(has_no_newline(l)) by {
                assert forall|k: int| 0 <= k < l.len() implies #[trigger] l[k] != '\n' by {
                    if k < rest.last().len() {
                        assert(has_no_newline(rest[rest.len() - 1]));
                    }
                }
            }
        }
        let r = split_lines(s);
        assert forall|i: int| 0 <= i < r.len() implies has_no_newline(#[trigger] r[i]) by {
            if i < rest.len() && !(s.last() != '\n' && i == rest.len() - 1) {
                assert(r[i] == rest[i]);
            }
        }
    }
}

proof fn lemma_join_update_last(ls: Seq<Seq<char>>, c: char)
    requires
        ls.len() >= 1,
    ensures
        join_lines(ls.update(ls.len() - 1, ls.last().push(c))) == join_lines(ls).push(c),
{
    let u = ls.update(ls.len() - 1, ls.last().push(c));
    if ls.len() > 1 {
        assert(u.drop_last() =~= ls.drop_last());
        assert(join_lines(u) =~= join_lines(ls).push(c));
    }
}

proof fn lemma_join_push(ls: Seq<Seq<char>>, l: Seq<char>)
    requires
        ls.len() >= 1,
    ensures
        join_lines(ls.push(l)) == join_lines(ls) + seq!['\n'] + l,
{
    assert(ls.push(l).drop_last() =~= ls);
}

/// Joining the lines of a text gives the text back.
pub proof fn lemma_join_split(s: Seq<char>)
    ensures
        join_lines(split_lines(s)) == s,
    decreases s.len(),
{
    if s.len() > 0 {
        lemma_join_split(s.drop_last());
        lemma_split_nonempty(s.drop_last());
        let rest = split_lines(s.drop_last());
        if s.last() == '\n' {
            lemma_join_push(rest, Seq::<char>::empty());
        } else {
            lemma_join_update_last(rest, s.last());
        }
        assert(join_lines(split_lines(s)) =~= s);
    }
}

proof fn lemma_split_push_newline(s: Seq<char>)
    ensures
        split_lines(s.push('\n')) == split_lines(s).push(Seq::<char>::empty()),
{
    assert(s.push('\n').drop_last() =~= s);
}

proof fn lemma_split_append_plain(s: Seq<char>, t: Seq<char>)
    requires
        has_no_newline(t),
    ensures
        split_lines(s + t) == split_lines(s).update(
            split_lines(s).len() - 1,
            split_lines(s).last() + t,
        ),
    decreases t.len(),
{
    lemma_split_nonempty(s);
    if t.len() == 0 {
        assert(s + t =~= s);
        assert(split_lines(s).last() + t =~= split_lines(s).last());
        assert(split_lines(s).update(split_lines(s).len() - 1, split_lines(s).last() + t)
            =~= split_lines(s));
    } else {
        let t0 = t.drop_last();
        assert(has_no_newline(t0)) by {
            assert forall|k: int| 0 <= k < t0.len() implies #[trigger] t0[k] != '\n' by {
                assert(t0[k] == t[k]);
            }
        }
        lemma_split_append_plain(s, t0);
        assert((s + t).drop_last() =~= s + t0);
        assert((s + t).last() == t.last());
        assert(t.last() != '\n') by {
            assert(t[t.len() - 1] != '\n');
        }
        assert(split_lines(s + t) =~= split_lines(s).update(
            split_lines(s).len() - 1,
            split_lines(s).last() + t,
        )) by {
            assert(split_lines(s).last() + t0 + seq![t.last()] =~= split_lines(s).last() + t);
            assert((split_lines(s).last() + t0).push(t.last()) =~= split_lines(s).last() + t);
        }
    }
}

/// Splitting the join of lines free of `'\n'` gives the lines back.
pub proof fn lemma_split_join(ls: Seq<Seq<char>>)
    requires
        ls.len() >= 1,
        all_lines_plain(ls),
    ensures
        split_lines(join_lines(ls)) == ls,
    decreases ls.len(),
{
    if ls.len() == 1 {
        assert(has_no_newline(ls[0]));
        lemma_split_append_plain(Seq::<char>::empty(), ls[0]);
        assert(Seq::<char>::empty() + ls[0] =~= ls[0]);
        assert(split_lines(Seq::<char>::empty()) =~= seq![Seq::<char>::empty()]);
        assert(split_lines(ls[0]) =~= ls);
    } else {
        let pre = ls.drop_last();
        assert(all_lines_plain(pre)) by {
            assert forall|i: int| 0 <= i < pre.len() implies has_no_newline(#[trigger] pre[i]) by {
                assert(pre[i] == ls[i]);
            }
        }
        lemma_split_join(pre);
        let j = join_lines(pre);
        lemma_split_push_newline(j);
        assert(has_no_newline(ls[ls.len() - 1]));
        lemma_split_append_plain(j.push('\n'), ls.last());
        assert(j + seq!['\n'] + ls.last() =~= j.push('\n') + ls.last());
        assert(Seq::<char>::empty() + ls.last() =~= ls.last());
        assert(split_lines(join_lines(ls)) =~= ls);
    }
}

/// Splits `s` into its lines.
pub(crate) fn split_lines_exec(s: &Vec<char>) -> (ls: Vec<Vec<char>>)
    ensures
        views(ls@) == split_lines(s@),
{
    split_on_exec(s, '\n')
}

/// The number of lines of `text` (one more than it has line breaks).
pub fn split_lines_count(text: &str) -> (r: usize)
    ensures
        r == split_lines(text@).len(),
{
    let v = crate::text::chars_of(text);
    let ls = split_lines_exec(&v);
    assert(views(ls@).len() == ls@.len());
    ls.len()
}

/// Splits `s` at every `sep`.
pub(crate) fn split_on_exec(s: &Vec<char>, sep: char) -> (ls: Vec<Vec<char>>)
    ensures
        views(ls@) == split_on(s@, sep),
{
    let mut lines: Vec<Vec<char>> = Vec::new();
    let mut cur: Vec<char> = Vec::new();
    let mut i: usize = 0;
    assert(s@.take(0) =~= Seq::<char>::empty());
    assert(views(lines@).push(cur@) =~= split_on(s@.take(0), sep));
    while i < s.len()
        invariant
            i <= s.len(),
            views(lines@).push(cur@) == split_on(s@.take(i as int), sep),
        decreases s.len() - i,
    {
        let c = s[i];
        assert(s@.take(i + 1).drop_last() =~= s@.take(i as int));
        assert(s@.take(i + 1).last() == c);
        if c == sep {
            let ghost old_lines = views(lines@);
            let ghost old_cur = cur@;
            lines.push(cur);
            cur = Vec::new();
            assert(views(lines@) =~= old_lines.push(old_cur));
            assert(views(lines@).push(cur@) =~= split_on(s@.take(i + 1), sep));
        } else {
            let ghost old_cur = cur@;
            cur.push(c);
            assert(views(lines@).push(cur@) =~= split_on(s@.take(i + 1), sep));
        }
        i = i + 1;
    }
    let ghost before = views(lines@);
    lines.push(cur);
    assert(s@.take(s.len() as int) =~= s@);
    assert(views(lines@) =~= before.push(cur@));
    lines
}

/// Joins lines with `'\n'`.
pub(crate) fn join_lines_exec(ls: &Vec<Vec<char>>) -> (s: Vec<char>)
    ensures
        s@ == join_lines(views(ls@)),
{
    let mut out: Vec<char> = Vec::new();
    let mut i: usize = 0;
    assert(views(ls@).take(0) =~= Seq::<Seq<char>>::empty());
    while i < ls.len()
        invariant
            i <= ls.len(),
            out@ == join_lines(views(ls@).take(i as int)),
        decreases ls.len() - i,
    {
        let ghost prev = out@;
        if i > 0 {
            out.push('\n');
        }
        let line = &ls[i];
        let mut k: usize = 0;
        let ghost mid = out@;
        while k < line.len()
            invariant
                k <= line.len(),
                line == ls@[i as int],
                out@ == mid + line@.take(k as int),
            decreases line.len() - k,
        {
            out.push(line[k]);
            assert(line@.take(k + 1) =~= line@.take(k as int).push(line@[k as int]));
            k = k + 1;
        }
        assert(line@.take(line.len() as int) =~= line@);
        let ghost t = views(ls@).take(i + 1);
        assert(t.drop_last() =~= views(ls@).take(i as int));
        assert(t.last() == line@);
        if i == 0 {
            assert(mid =~= Seq::<char>::empty());
            assert(out@ =~= join_lines(t));
        } else {
            assert(out@ =~= join_lines(t));
        }
        i = i + 1;
    }
    assert(views(ls@).take(ls.len() as int) =~= views(ls@));
    out
}

} // verus!
