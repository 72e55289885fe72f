//! File paths as the standard library reads them on Unix: components
//! separated by '/', with empty and "." components skipped.

use vstd::prelude::*;

use crate::lines::{split_on, split_on_exec, views};
use crate::text::{chars_of, string_of};

verus! {

/// A piece between separators that names a component: not empty and not
/// ".".
pub open spec fn is_named_piece(x: Seq<char>) -> bool {
    x.len() > 0 && x != seq!['.']
}

/// The named components of a path, in order.
pub open spec fn path_pieces(p: Seq<char>) -> Seq<Seq<char>> {
    split_on(p, '/').filter(|x: Seq<char>| is_named_piece(x))
}

/// The final component of a path (`Path::file_name`): none when the path
/// has no named component or ends in "..".
pub open spec fn file_name_spec(p: Seq<char>) -> Option<Seq<char>> {
    let ps = path_pieces(p);
    if ps.len() == 0 || ps.last() == seq!['.', '.'] {
        None
    } else {
        Some(ps.last())
    }
}

/// What a path is shown as in lists: its file name, or the whole path when
/// it has none.
pub open spec fn path_label(p: Seq<char>) -> Seq<char> {
    match file_name_spec(p) {
        Some(n) => n,
        None => p,
    }
}

fn named_pieces(p: &str) -> (r: Vec<Vec<char>>)
    ensures
        views(r@) == path_pieces(p@),
{
    let v = chars_of(p);
    let ls = split_on_exec(&v, '/');
    let ghost all = views(ls@);
    let ghost pred = |x: Seq<char>| is_named_piece(x);
    let mut kept: Vec<Vec<char>> = Vec::new();
    let mut i: usize = 0;
    while i < ls.len()
        invariant
            i <= ls.len(),
            all == views(ls@),
            all == split_on(p@, '/'),
            pred == (|x: Seq<char>| is_named_piece(x)),
            views(kept@) == all.take(i as int).filter(pred),
        decreases ls.len() - i,
    {
        proof {
            reveal_with_fuel(Seq::<_>::filter, 1);
            assert(all.take(i + 1).drop_last() =~= all.take(i as int));
        }
        let ghost before = views(kept@);
        let piece = &ls[i];
        let named = piece.len() > 0 && !(piece.len() == 1 && piece[0] == '.');
        proof {
            assert(all[i as int] == piece@);
            if piece.len() == 1 {
                if piece@[0] == '.' {
                    assert(piece@ =~= seq!['.']);
                } else {
                    assert(seq!['.'][0] == '.');
                }
            }
        }
        if named {
            kept.push(piece.clone());
            assert(views(kept@) =~= before.push(all[i as int]));
        } else {
            assert(views(kept@) =~= before);
        }
        i = i + 1;
    }
    assert(all.take(ls.len() as int) =~= all);
    kept
}

/// The final component of a path (see `file_name_spec`).
pub fn file_name(p: &str) -> (r: Option<String>)
    ensures
        match r {
            Some(n) => file_name_spec(p@) == Some(n@),
            None => file_name_spec(p@) is None,
        },
{
    let ps = named_pieces(p);
    if ps.len() == 0 {
        return None;
    }
    let last = &ps[ps.len() - 1];
    assert(views(ps@).last() == last@);
    let dots = last.len() == 2 && last[0] == '.' && last[1] == '.';
    proof {
        if last.len() == 2 {
            if last@[0] == '.' && last@[1] == '.' {
                assert(last@ =~= seq!['.', '.']);
            } else {
                assert(seq!['.', '.'][0] == '.' && seq!['.', '.'][1] == '.');
            }
        }
    }
    if dots {
        None
    } else {
        Some(string_of(last.as_slice()))
    }
}

/// What a path is shown as in lists (see `path_label`).
pub fn label_of(p: &str) -> (r: String)
    ensures
        r@ == path_label(p@),
{
    match file_name(p) {
        Some(n) => n,
        None => string_of(chars_of(p).as_slice()),
    }
}


/// A path is absolute: it starts at the root directory.
pub open spec fn is_rooted(p: Seq<char>) -> bool {
    p.len() > 0 && p[0] == '/'
}

/// A relative path that starts with the current directory ("." or "./…").
pub open spec fn starts_at_current_dir(p: Seq<char>) -> bool {
    p.len() > 0 && p[0] == '.' && (p.len() == 1 || p[1] == '/')
}

/// What identifies a path (`Path::components`): whether it starts at the
/// root, whether it starts with the current directory, and its named
/// components. Repeated separators, a trailing separator and "." components
/// after the first do not count.
pub open spec fn path_key(p: Seq<char>) -> (bool, bool, Seq<Seq<char>>) {
    (is_rooted(p), starts_at_current_dir(p), path_pieces(p))
}

/// Two paths name the same file (`PathBuf`'s `==`).
pub open spec fn same_path_spec(a: Seq<char>, b: Seq<char>) -> bool {
    path_key(a) == path_key(b)
}

fn key_flags(p: &str) -> (r: (bool, bool))
    ensures
        r == (is_rooted(p@), starts_at_current_dir(p@)),
{
    let v = chars_of(p);
    let rooted = v.len() > 0 && v[0] == '/';
    let cur = v.len() > 0 && v[0] == '.' && (v.len() == 1 || v[1] == '/');
    (rooted, cur)
}



/// The components joined with '/' between consecutive ones.
pub open spec fn join_path(ps: Seq<Seq<char>>) -> Seq<char>
    decreases ps.len(),
{
    if ps.len() == 0 {
        Seq::<char>::empty()
    } else if ps.len() == 1 {
        ps[0]
    } else {
        join_path(ps.drop_last()) + seq!['/'] + ps.last()
    }
}

/// The normal spelling of a path: "/" for a path from the root, "./" (or
/// "." alone) for one from the current directory, then its named components
/// joined with '/'. It drops repeated separators, a trailing separator and
/// inner "." components, which do not change the file a path names.
pub open spec fn normal_path(p: Seq<char>) -> Seq<char> {
    let body = join_path(path_pieces(p));
    if is_rooted(p) {
        seq!['/'] + body
    } else if starts_at_current_dir(p) {
        if path_pieces(p).len() == 0 {
            seq!['.']
        } else {
            seq!['.', '/'] + body
        }
    } else {
        body
    }
}

pub open spec fn free_of_separator(x: Seq<char>) -> bool {
    forall|k: int| 0 <= k < x.len() ==> #[trigger] x[k] != '/'
}

pub open spec fn all_free_of_separator(ps: Seq<Seq<char>>) -> bool {
    forall|i: int| 0 <= i < ps.len() ==> free_of_separator(#[trigger] ps[i])
}

proof fn lemma_split_pieces_free(s: Seq<char>)
    ensures
        split_on(s, '/').len() >= 1,
        all_free_of_separator(split_on(s, '/')),
    decreases s.len(),
{
    if s.len() > 0 {
        lemma_split_pieces_free(s.drop_last());
        let rest = split_on(s.drop_last(), '/');
        if s.last() != '/' {
            let l = rest.last().push(s.last());
            assert(free_of_separator(l)) by {
                assert forall|k: int| 0 <= k < l.len() implies #[trigger] l[k] != '/' by {
                    if k < rest.last().len() {
                        assert(free_of_separator(rest[rest.len() - 1]));
                    }
                }
            }
        }
        let r = split_on(s, '/');
        assert forall|i: int| 0 <= i < r.len() implies free_of_separator(#[trigger] r[i]) by {
            if i < rest.len() && !(s.last() != '/' && i == rest.len() - 1) {
                assert(r[i] == rest[i]);
            }
        }
    }
}

proof fn lemma_split_append_free(s: Seq<char>, t: Seq<char>)
    requires
        free_of_separator(t),
    ensures
        split_on(s + t, '/') == split_on(s, '/').update(
            split_on(s, '/').len() - 1,
            split_on(s, '/').last() + t,
        ),
    decreases t.len(),
{
    lemma_split_pieces_free(s);
    let ss = split_on(s, '/');
    if t.len() == 0 {
        assert(s + t =~= s);
        assert(ss.last() + t =~= ss.last());
        assert(ss.update(ss.len() - 1, ss.last() + t) =~= ss);
    } else {
        let t0 = t.drop_last();
        assert(free_of_separator(t0)) by {
            assert forall|k: int| 0 <= k < t0.len() implies #[trigger] t0[k] != '/' by {
                assert(t0[k] == t[k]);
            }
        }
        lemma_split_append_free(s, t0);
        assert((s + t).drop_last() =~= s + t0);
        assert((s + t).last() == t.last());
        assert(t.last() != '/') by {
            assert(t[t.len() - 1] != '/');
        }
        assert((ss.last() + t0).push(t.last()) =~= ss.last() + t);
        assert(split_on(s + t, '/') =~= ss.update(ss.len() - 1, ss.last() + t));
    }
}

/// Splitting components free of '/' after joining them gives them back.
proof fn lemma_split_join_path(ps: Seq<Seq<char>>)
    requires
        ps.len() >= 1,
        all_free_of_separator(ps),
    ensures
        split_on(join_path(ps), '/') == ps,
    decreases ps.len(),
{
    if ps.len() == 1 {
        assert(free_of_separator(ps[0]));
        lemma_split_append_free(Seq::<char>::empty(), ps[0]);
        assert(Seq::<char>::empty() + ps[0] =~= ps[0]);
        assert(split_on(Seq::<char>::empty(), '/') =~= seq![Seq::<char>::empty()]);
        assert(split_on(ps[0], '/') =~= ps);
    } else {
        let pre = ps.drop_last();
        assert(all_free_of_separator(pre)) by {
            assert forall|i: int| 0 <= i < pre.len() implies free_of_separator(#[trigger] pre[i]) by {
                assert(pre[i] == ps[i]);
            }
        }
        lemma_split_join_path(pre);
        let j = join_path(pre);
        assert(j.push('/').drop_last() =~= j);
        assert(split_on(j.push('/'), '/') == split_on(j, '/').push(Seq::<char>::empty()));
        assert(free_of_separator(ps[ps.len() - 1]));
        lemma_split_append_free(j.push('/'), ps.last());
        assert(j + seq!['/'] + ps.last() =~= j.push('/') + ps.last());
        assert(Seq::<char>::empty() + ps.last() =~= ps.last());
        assert(split_on(join_path(ps), '/') =~= ps);
    }
}

proof fn lemma_join_prepend(x: Seq<char>, ps: Seq<Seq<char>>)
    requires
        ps.len() >= 1,
    ensures
        join_path(seq![x] + ps) == x + seq!['/'] + join_path(ps),
    decreases ps.len(),
{
    let q = seq![x] + ps;
    if ps.len() == 1 {
        assert(q.drop_last() =~= seq![x]);
        assert(join_path(q.drop_last()) == x);
        assert(q.last() == ps[0]);
        assert(join_path(ps) == ps[0]);
    } else {
        lemma_join_prepend(x, ps.drop_last());
        assert(q.drop_last() =~= seq![x] + ps.drop_last());
        assert(q.last() == ps.last());
        assert(join_path(q) =~= x + seq!['/'] + join_path(ps));
    }
}

proof fn lemma_join_starts(ps: Seq<Seq<char>>)
    requires
        ps.len() >= 1,
    ensures
        join_path(ps).len() >= ps[0].len(),
        forall|k: int| 0 <= k < ps[0].len() ==> #[trigger] join_path(ps)[k] == ps[0][k],
    decreases ps.len(),
{
    if ps.len() > 1 {
        lemma_join_starts(ps.drop_last());
        assert(ps.drop_last()[0] == ps[0]);
    }
}

proof fn lemma_filter_keeps_named(ps: Seq<Seq<char>>)
    requires
        forall|i: int| 0 <= i < ps.len() ==> is_named_piece(#[trigger] ps[i]),
    ensures
        ps.filter(|x: Seq<char>| is_named_piece(x)) == ps,
    decreases ps.len(),
{
    reveal_with_fuel(Seq::<_>::filter, 1);
    if ps.len() > 0 {
        lemma_filter_keeps_named(ps.drop_last());
        assert(is_named_piece(ps[ps.len() - 1]));
        assert(ps.drop_last().push(ps.last()) =~= ps);
    }
}

proof fn lemma_pieces_named_free(p: Seq<char>)
    ensures
        forall|i: int| 0 <= i < path_pieces(p).len() ==> is_named_piece(#[trigger] path_pieces(p)[i]),
        all_free_of_separator(path_pieces(p)),
{
    let all = split_on(p, '/');
    let pred = |x: Seq<char>| is_named_piece(x);
    lemma_split_pieces_free(p);
    assert forall|i: int| 0 <= i < path_pieces(p).len() implies is_named_piece(#[trigger] path_pieces(p)[i]) && free_of_separator(path_pieces(p)[i]) by {
        all.lemma_filter_pred(pred, i);
        assert(all.filter(pred).contains(all.filter(pred)[i]));
        all.lemma_filter_contains_rev(pred, all.filter(pred)[i]);
        let k = choose|k: int| 0 <= k < all.len() && all[k] == all.filter(pred)[i];
        assert(free_of_separator(all[k]));
    }
}

/// The normal spelling names the same file as the path it comes from.
proof fn lemma_normal_path_key(p: Seq<char>)
    ensures
        path_key(normal_path(p)) == path_key(p),
{
    let ps = path_pieces(p);
    let pred = |x: Seq<char>| is_named_piece(x);
    let n = normal_path(p);
    lemma_pieces_named_free(p);
    let e = Seq::<char>::empty();
    let dot = seq!['.'];
    assert(free_of_separator(e));
    assert(free_of_separator(dot));
    assert(!is_named_piece(e));
    assert(!is_named_piece(dot));
    if ps.len() == 0 {
        if is_rooted(p) {
            assert(n =~= seq!['/']);
            assert(split_on(n, '/') =~= seq![e, e]) by {
                assert(n.drop_last() =~= e);
                assert(split_on(n.drop_last(), '/') == seq![e]);
                assert(n.last() == '/');
            }
            reveal_with_fuel(Seq::<_>::filter, 3);
            assert(seq![e, e].drop_last() =~= seq![e]);
            assert(seq![e].drop_last() =~= Seq::<Seq<char>>::empty());
            assert(path_pieces(n) =~= ps);
        } else if starts_at_current_dir(p) {
            assert(split_on(n, '/') =~= seq![dot]) by {
                assert(n =~= dot);
                assert(n.drop_last() =~= e);
                assert(split_on(n.drop_last(), '/') == seq![e]);
                assert(n.last() == '.');
                assert(seq![e].update(0, e.push('.')) =~= seq![dot]);
            }
            reveal_with_fuel(Seq::<_>::filter, 2);
            assert(seq![dot].drop_last() =~= Seq::<Seq<char>>::empty());
            assert(path_pieces(n) =~= ps);
        } else {
            assert(n =~= e);
            reveal_with_fuel(Seq::<_>::filter, 2);
            assert(seq![e].drop_last() =~= Seq::<Seq<char>>::empty());
            assert(path_pieces(n) =~= ps);
        }
    } else {
        lemma_filter_keeps_named(ps);
        lemma_join_starts(ps);
        assert(ps[0].len() > 0) by {
            assert(is_named_piece(ps[0]));
        }
        if is_rooted(p) {
            lemma_join_prepend(e, ps);
            assert(n =~= join_path(seq![e] + ps));
            let q = seq![e] + ps;
            assert(all_free_of_separator(q)) by {
                assert forall|i: int| 0 <= i < q.len() implies free_of_separator(#[trigger] q[i]) by {
                    if i > 0 {
                        assert(q[i] == ps[i - 1]);
                    }
                }
            }
            lemma_split_join_path(q);
            Seq::filter_distributes_over_add(seq![e], ps, pred);
            reveal_with_fuel(Seq::<_>::filter, 2);
            assert(seq![e].drop_last() =~= Seq::<Seq<char>>::empty());
            assert(seq![e].filter(pred) =~= Seq::<Seq<char>>::empty());
            assert(path_pieces(n) =~= ps);
        } else if starts_at_current_dir(p) {
            lemma_join_prepend(dot, ps);
            assert(n =~= join_path(seq![dot] + ps));
            let q = seq![dot] + ps;
            assert(all_free_of_separator(q)) by {
                assert forall|i: int| 0 <= i < q.len() implies free_of_separator(#[trigger] q[i]) by {
                    if i > 0 {
                        assert(q[i] == ps[i - 1]);
                    }
                }
            }
            lemma_split_join_path(q);
            Seq::filter_distributes_over_add(seq![dot], ps, pred);
            reveal_with_fuel(Seq::<_>::filter, 2);
            assert(seq![dot].drop_last() =~= Seq::<Seq<char>>::empty());
            assert(seq![dot].filter(pred) =~= Seq::<Seq<char>>::empty());
            assert(path_pieces(n) =~= ps);
        } else {
            lemma_split_join_path(ps);
            assert(path_pieces(n) =~= ps);
            assert(n[0] == ps[0][0]);
            assert(free_of_separator(ps[0]));
            assert(n[0] != '/');
            if ps[0].len() == 1 {
                assert(ps[0] =~= seq![ps[0][0]]);
                assert(n[0] != '.');
            } else {
                assert(n[1] == ps[0][1]);
                assert(n[1] != '/');
            }
        }
    }
}

/// Two spellings name the same file exactly when their normal spellings
/// are equal, and a normal spelling is its own normal spelling.
pub proof fn law_normal_path_identifies(a: Seq<char>, b: Seq<char>)
    ensures
        (normal_path(a) == normal_path(b)) <==> same_path_spec(a, b),
        normal_path(normal_path(a)) == normal_path(a),
{
    lemma_normal_path_key(a);
    lemma_normal_path_key(b);
    lemma_normal_path_key(normal_path(a));
}

fn push_chars(out: &mut Vec<char>, piece: &Vec<char>)
    ensures
        final(out)@ == old(out)@ + piece@,
{
    let mut j: usize = 0;
    while j < piece.len()
        invariant
            j <= piece.len(),
            out@ == old(out)@ + piece@.take(j as int),
        decreases piece.len() - j,
    {
        assert(piece@.take(j + 1) =~= piece@.take(j as int).push(piece@[j as int]));
        out.push(piece[j]);
        j = j + 1;
    }
    assert(piece@.take(piece.len() as int) =~= piece@);
}

/// The normal spelling of a path (see `normal_path`).
pub fn normal_path_of(p: &str) -> (r: String)
    ensures
        r@ == normal_path(p@),
{
    let flags = key_flags(p);
    let ps = named_pieces(p);
    let ghost all = views(ps@);
    let mut out: Vec<char> = Vec::new();
    if flags.0 {
        out.push('/');
    } else if flags.1 {
        out.push('.');
        if ps.len() > 0 {
            out.push('/');
        }
    }
    let ghost start = out@;
    let mut i: usize = 0;
    while i < ps.len()
        invariant
            i <= ps.len(),
            all == views(ps@),
            out@ == start + join_path(all.take(i as int)),
        decreases ps.len() - i,
    {
        let ghost before = out@;
        if i > 0 {
            out.push('/');
        }
        push_chars(&mut out, &ps[i]);
        proof {
            let t = all.take(i + 1);
            assert(t.drop_last() =~= all.take(i as int));
            assert(t.last() == ps@[i as int]@);
            if i == 0 {
                assert(all.take(0) =~= Seq::<Seq<char>>::empty());
                assert(out@ =~= start + join_path(t));
            } else {
                assert(out@ =~= start + join_path(t));
            }
        }
        i = i + 1;
    }
    assert(all.take(ps.len() as int) =~= all);
    proof {
        if flags.1 && !flags.0 && ps.len() == 0 {
            assert(out@ =~= seq!['.']);
        }
        assert(out@ =~= normal_path(p@));
    }
    string_of(out.as_slice())
}

} // verus!
