//! Line-level editing commands: duplicate, move, delete, comment toggling,
//! indentation. Each works on the whole document text and a line index.

use vstd::prelude::*;

use crate::lines::{
    all_lines_plain, has_no_newline, join_lines, join_lines_exec, lemma_join_split,
    lemma_split_join, lemma_split_nonempty, split_lines, split_lines_exec, swap_lines, views,
};
use crate::text::{
    byte_len, chars_of, count_leading_ws, str_byte_len, extend_range, is_ws, leading_ws_len, lemma_leading_ws_len,
    seq_starts_with, starts_with_at, str_eq, string_of,
};

verus! {

// ─── Specifications ────────────────────────────────────────────────────────

/// The comment marker used for a language token.
pub open spec fn comment_prefix_spec(language: Option<Seq<char>>) -> Seq<char> {
    match language {
        Some(l) => if l == "rs"@ || l == "js"@ || l == "ts"@ || l == "jsx"@ || l == "tsx"@ || l
            == "c"@ || l == "cpp"@ || l == "java"@ || l == "go"@ || l == "swift"@ || l == "kt"@ {
            "// "@
        } else if l == "py"@ || l == "rb"@ || l == "sh"@ || l == "r"@ || l == "toml"@ || l
            == "yaml"@ {
            "# "@
        } else if l == "sql"@ || l == "lua"@ {
            "-- "@
        } else {
            "// "@
        },
        None => "// "@,
    }
}

pub open spec fn duplicate_line_spec(text: Seq<char>, idx: int) -> Seq<char> {
    let ls = split_lines(text);
    if 0 <= idx < ls.len() {
        join_lines(ls.insert(idx + 1, ls[idx]))
    } else {
        text
    }
}

/// New text and new cursor line after moving line `idx` up or down by one.
pub open spec fn move_line_spec(text: Seq<char>, idx: int, up: bool) -> (Seq<char>, int) {
    let ls = split_lines(text);
    if up {
        if idx == 0 {
            (text, idx)
        } else {
            (join_lines(swap_lines(ls, idx, idx - 1)), idx - 1)
        }
    } else {
        if idx + 1 >= ls.len() {
            (text, idx)
        } else {
            (join_lines(swap_lines(ls, idx, idx + 1)), idx + 1)
        }
    }
}

/// New text and new cursor line after deleting line `idx`.
pub open spec fn delete_line_spec(text: Seq<char>, idx: int) -> (Seq<char>, int) {
    let ls = split_lines(text);
    if idx >= ls.len() {
        (text, idx)
    } else {
        let rest = ls.remove(idx);
        (join_lines(rest), if rest.len() == 0 {
            0
        } else if idx < rest.len() - 1 {
            idx
        } else {
            rest.len() - 1
        })
    }
}

/// One line with its comment marker added after the leading whitespace, or
/// removed when the line (past that whitespace) already starts with it.
pub open spec fn toggle_line(line: Seq<char>, prefix: Seq<char>) -> Seq<char> {
    let n = leading_ws_len(line) as int;
    let ws = line.take(n);
    let content = line.skip(n);
    if seq_starts_with(content, prefix) {
        ws + content.skip(prefix.len() as int)
    } else {
        ws + prefix + content
    }
}

pub open spec fn toggle_comment_spec(text: Seq<char>, idx: int, prefix: Seq<char>) -> Seq<char> {
    let ls = split_lines(text);
    if 0 <= idx < ls.len() {
        join_lines(ls.update(idx, toggle_line(ls[idx], prefix)))
    } else {
        text
    }
}

pub open spec fn indent_line(line: Seq<char>, indent: Seq<char>) -> Seq<char> {
    if line.len() == 0 {
        line
    } else {
        indent + line
    }
}

pub open spec fn indent_text_spec(text: Seq<char>, indent: Seq<char>) -> Seq<char> {
    let ls = split_lines(text);
    join_lines(Seq::new(ls.len(), |i: int| indent_line(ls[i], indent)))
}

/// Number of leading `' '` characters.
pub open spec fn leading_spaces(s: Seq<char>) -> nat
    decreases s.len(),
{
    if s.len() > 0 && s[0] == ' ' {
        1 + leading_spaces(s.drop_first())
    } else {
        0
    }
}

/// One line with one level of indentation removed: the whole `indent` when the
/// line starts with it, else one tab, else as many leading spaces as the
/// indent is long in bytes.
pub open spec fn dedent_one(line: Seq<char>, indent: Seq<char>) -> Seq<char> {
    if seq_starts_with(line, indent) {
        line.skip(indent.len() as int)
    } else if line.len() > 0 && line[0] == '\t' {
        line.skip(1)
    } else {
        let k = if byte_len(indent) < line.len() {
            byte_len(indent) as int
        } else {
            line.len() as int
        };
        line.skip(leading_spaces(line.take(k)) as int)
    }
}

pub open spec fn dedent_text_spec(text: Seq<char>, indent: Seq<char>) -> Seq<char> {
    let ls = split_lines(text);
    join_lines(Seq::new(ls.len(), |i: int| dedent_one(ls[i], indent)))
}

pub open spec fn dedent_line_spec(text: Seq<char>, idx: int, indent: Seq<char>) -> Seq<char> {
    let ls = split_lines(text);
    if 0 <= idx < ls.len() {
        join_lines(ls.update(idx, dedent_one(ls[idx], indent)))
    } else {
        text
    }
}

// ─── Helpers ───────────────────────────────────────────────────────────────

fn copy_chars(v: &Vec<char>) -> (r: Vec<char>)
    ensures
        r@ == v@,
{
    let mut r: Vec<char> = Vec::new();
    extend_range(&mut r, v, 0, v.len());
    assert(v@.subrange(0, v.len() as int) =~= v@);
    r
}

fn lines_of(text: &str) -> (ls: Vec<Vec<char>>)
    ensures
        views(ls@) == split_lines(text@),
        ls.len() >= 1,
{
    let chars = chars_of(text);
    let ls = split_lines_exec(&chars);
    proof {
        lemma_split_nonempty(text@);
    }
    ls
}

fn text_of(ls: &Vec<Vec<char>>) -> (s: String)
    ensures
        s@ == join_lines(views(ls@)),
{
    let out = join_lines_exec(ls);
    string_of(out.as_slice())
}

proof fn lemma_views_insert(v: Seq<Vec<char>>, i: int, x: Vec<char>)
    requires
        0 <= i <= v.len(),
    ensures
        views(v.insert(i, x)) == views(v).insert(i, x@),
{
    assert(views(v.insert(i, x)) =~= views(v).insert(i, x@));
}

proof fn lemma_views_remove(v: Seq<Vec<char>>, i: int)
    requires
        0 <= i < v.len(),
    ensures
        views(v.remove(i)) == views(v).remove(i),
{
    assert(views(v.remove(i)) =~= views(v).remove(i));
}

proof fn lemma_views_update(v: Seq<Vec<char>>, i: int, x: Vec<char>)
    requires
        0 <= i < v.len(),
    ensures
        views(v.update(i, x)) == views(v).update(i, x@),
{
    assert(views(v.update(i, x)) =~= views(v).update(i, x@));
}

// ─── Commands ──────────────────────────────────────────────────────────────

/// The comment marker for a language token: `"// "` for C-like languages,
/// `"# "` for scripting and config languages, `"-- "` for SQL and Lua, and
/// `"// "` when the language is unknown or absent.
pub fn comment_prefix(language: Option<&str>) -> (r: &'static str)
    ensures
        r@ == comment_prefix_spec(
            match language {
                Some(l) => Some(l@),
                None => None,
            },
        ),
{
    match language {
        Some(l) => {
            if str_eq(l, "rs") || str_eq(l, "js") || str_eq(l, "ts") || str_eq(l, "jsx")
                || str_eq(l, "tsx") || str_eq(l, "c") || str_eq(l, "cpp") || str_eq(l, "java")
                || str_eq(l, "go") || str_eq(l, "swift") || str_eq(l, "kt") {
                "// "
            } else if str_eq(l, "py") || str_eq(l, "rb") || str_eq(l, "sh") || str_eq(l, "r")
                || str_eq(l, "toml") || str_eq(l, "yaml") {
                "# "
            } else if str_eq(l, "sql") || str_eq(l, "lua") {
                "-- "
            } else {
                "// "
            }
        },
        None => "// ",
    }
}

/// Inserts a copy of line `line_idx` right below it; an index past the last
/// line leaves the text unchanged.
pub fn duplicate_line(text: &str, line_idx: usize) -> (r: String)
    ensures
        r@ == duplicate_line_spec(text@, line_idx as int),
{
    let mut lines = lines_of(text);
    if line_idx < lines.len() {
        let copy = copy_chars(&lines[line_idx]);
        let ghost before = lines@;
        lines.insert(line_idx + 1, copy);
        proof {
            lemma_views_insert(before, line_idx + 1, copy);
        }
        text_of(&lines)
    } else {
        proof {
            lemma_join_split(text@);
        }
        text_of(&lines)
    }
}

/// Swaps line `line_idx` with the one above (`up`) or below; returns the new
/// text and the line the cursor follows to. At the first line (up) or the
/// last line (down) nothing changes.
pub fn move_line(text: &str, line_idx: usize, up: bool) -> (r: (String, usize))
    requires
        up ==> line_idx == 0 || line_idx < split_lines(text@).len(),
        !up ==> line_idx < usize::MAX,
    ensures
        (r.0@, r.1 as int) == move_line_spec(text@, line_idx as int, up),
{
    let mut lines = lines_of(text);
    if up {
        if line_idx == 0 {
            return (string_of(chars_of(text).as_slice()), line_idx);
        }
        let ghost before = views(lines@);
        let moved = lines.remove(line_idx);
        let ghost mid = lines@;
        lines.insert(line_idx - 1, moved);
        proof {
            lemma_views_insert(mid, line_idx - 1, moved);
            assert(views(lines@) =~= swap_lines(before, line_idx as int, line_idx - 1));
        }
        (text_of(&lines), line_idx - 1)
    } else {
        if line_idx + 1 >= lines.len() {
            return (string_of(chars_of(text).as_slice()), line_idx);
        }
        let ghost before = views(lines@);
        let moved = lines.remove(line_idx + 1);
        let ghost mid = lines@;
        lines.insert(line_idx, moved);
        proof {
            lemma_views_insert(mid, line_idx as int, moved);
            assert(views(lines@) =~= swap_lines(before, line_idx as int, line_idx + 1));
        }
        (text_of(&lines), line_idx + 1)
    }
}

/// Removes line `line_idx`; returns the new text and the line the cursor goes
/// to (the same index, clamped to the last remaining line).
pub fn delete_line_op(text: &str, line_idx: usize) -> (r: (String, usize))
    ensures
        (r.0@, r.1 as int) == delete_line_spec(text@, line_idx as int),
{
    let mut lines = lines_of(text);
    if line_idx >= lines.len() {
        return (string_of(chars_of(text).as_slice()), line_idx);
    }
    let ghost before = lines@;
    lines.remove(line_idx);
    proof {
        lemma_views_remove(before, line_idx as int);
    }
    let new_line = if lines.len() == 0 {
        0
    } else if line_idx < lines.len() - 1 {
        line_idx
    } else {
        lines.len() - 1
    };
    (text_of(&lines), new_line)
}

fn toggle_line_exec(line: &Vec<char>, prefix: &Vec<char>) -> (r: Vec<char>)
    ensures
        r@ == toggle_line(line@, prefix@),
{
    let n = count_leading_ws(line);
    let mut out: Vec<char> = Vec::new();
    extend_range(&mut out, line, 0, n);
    assert(line@.subrange(0, n as int) =~= line@.take(n as int));
    if starts_with_at(line, n, prefix) {
        extend_range(&mut out, line, n + prefix.len(), line.len());
        assert(line@.subrange((n + prefix.len()) as int, line.len() as int) =~= line@.skip(
            n as int,
        ).skip(prefix.len() as int));
    } else {
        extend_range(&mut out, prefix, 0, prefix.len());
        assert(prefix@.subrange(0, prefix.len() as int) =~= prefix@);
        extend_range(&mut out, line, n, line.len());
        assert(line@.subrange(n as int, line.len() as int) =~= line@.skip(n as int));
    }
    out
}

/// Comments out line `line_idx` with `prefix`, placed after its leading
/// whitespace, or uncomments it when it already carries the prefix there.
pub fn toggle_comment(text: &str, line_idx: usize, prefix: &str) -> (r: String)
    ensures
        r@ == toggle_comment_spec(text@, line_idx as int, prefix@),
{
    let mut lines = lines_of(text);
    if line_idx >= lines.len() {
        return string_of(chars_of(text).as_slice());
    }
    let p = chars_of(prefix);
    let new_line = toggle_line_exec(&lines[line_idx], &p);
    let ghost before = lines@;
    lines.set(line_idx, new_line);
    proof {
        lemma_views_update(before, line_idx as int, new_line);
    }
    text_of(&lines)
}

/// Prefixes every non-empty line with `indent`.
pub fn indent_text(text: &str, indent: &str) -> (r: String)
    ensures
        r@ == indent_text_spec(text@, indent@),
{
    let lines = lines_of(text);
    let ind = chars_of(indent);
    let mut out: Vec<Vec<char>> = Vec::new();
    let mut i: usize = 0;
    while i < lines.len()
        invariant
            i <= lines.len(),
            ind@ == indent@,
            views(lines@) == split_lines(text@),
            views(out@) =~= Seq::new(i as nat, |j: int| indent_line(views(lines@)[j], indent@)),
        decreases lines.len() - i,
    {
        let line = &lines[i];
        let mut nl: Vec<char> = Vec::new();
        if line.len() > 0 {
            extend_range(&mut nl, &ind, 0, ind.len());
            assert(ind@.subrange(0, ind.len() as int) =~= ind@);
        }
        extend_range(&mut nl, line, 0, line.len());
        assert(line@.subrange(0, line.len() as int) =~= line@);
        assert(views(lines@)[i as int] == line@);
        assert(nl@ =~= indent_line(line@, indent@));
        let ghost prev = out@;
        out.push(nl);
        assert(views(out@) =~= views(prev).push(nl@));
        assert(views(out@) =~= Seq::new((i + 1) as nat, |j: int| indent_line(views(lines@)[j], indent@)));
        i = i + 1;
    }
    text_of(&out)
}

fn dedent_one_exec(line: &Vec<char>, indent: &Vec<char>, indent_bytes: usize) -> (r: Vec<char>)
    requires
        indent_bytes == byte_len(indent@),
    ensures
        r@ == dedent_one(line@, indent@),
{
    let mut out: Vec<char> = Vec::new();
    if starts_with_at(line, 0, indent) {
        assert(line@.skip(0) =~= line@);
        extend_range(&mut out, line, indent.len(), line.len());
        assert(line@.subrange(indent.len() as int, line.len() as int) =~= line@.skip(
            indent.len() as int,
        ));
    } else if line.len() > 0 && line[0] == '\t' {
        assert(line@.skip(0) =~= line@);
        extend_range(&mut out, line, 1, line.len());
        assert(line@.subrange(1, line.len() as int) =~= line@.skip(1));
    } else {
        assert(line@.skip(0) =~= line@);
        let k = if indent_bytes < line.len() {
            indent_bytes
        } else {
            line.len()
        };
        let mut n: usize = 0;
        while n < k && line[n] == ' '
            invariant
                n <= k <= line.len(),
                forall|j: int| 0 <= j < n ==> line@[j] == ' ',
            decreases k - n,
        {
            n = n + 1;
        }
        proof {
            lemma_leading_spaces_exact(line@.take(k as int), n as int);
        }
        extend_range(&mut out, line, n, line.len());
        assert(line@.subrange(n as int, line.len() as int) =~= line@.skip(n as int));
    }
    out
}

proof fn lemma_leading_spaces_exact(s: Seq<char>, n: int)
    requires
        0 <= n <= s.len(),
        forall|k: int| 0 <= k < n ==> s[k] == ' ',
        n < s.len() ==> s[n] != ' ',
    ensures
        leading_spaces(s) == n,
    decreases n,
{
    if n > 0 {
        assert forall|k: int| 0 <= k < n - 1 implies s.drop_first()[k] == ' ' by {
            assert(s.drop_first()[k] == s[k + 1]);
        }
        if n - 1 < s.drop_first().len() {
            assert(s.drop_first()[n - 1] == s[n]);
        }
        lemma_leading_spaces_exact(s.drop_first(), n - 1);
    }
}

/// Removes one level of indentation from every line (see `dedent_one`).
pub fn dedent_text(text: &str, indent: &str) -> (r: String)
    ensures
        r@ == dedent_text_spec(text@, indent@),
{
    let lines = lines_of(text);
    let ind = chars_of(indent);
    let ib = str_byte_len(indent);
    let mut out: Vec<Vec<char>> = Vec::new();
    let mut i: usize = 0;
    while i < lines.len()
        invariant
            i <= lines.len(),
            ind@ == indent@,
            ib == byte_len(indent@),
            views(lines@) == split_lines(text@),
            views(out@) =~= Seq::new(i as nat, |j: int| dedent_one(views(lines@)[j], indent@)),
        decreases lines.len() - i,
    {
        let nl = dedent_one_exec(&lines[i], &ind, ib);
        assert(views(lines@)[i as int] == lines@[i as int]@);
        let ghost prev = out@;
        out.push(nl);
        assert(views(out@) =~= views(prev).push(nl@));
        assert(views(out@) =~= Seq::new((i + 1) as nat, |j: int| dedent_one(views(lines@)[j], indent@)));
        i = i + 1;
    }
    text_of(&out)
}

/// Removes one level of indentation from line `line_idx` only.
pub fn dedent_line(text: &str, line_idx: usize, indent: &str) -> (r: String)
    ensures
        r@ == dedent_line_spec(text@, line_idx as int, indent@),
{
    let mut lines = lines_of(text);
    if line_idx >= lines.len() {
        return string_of(chars_of(text).as_slice());
    }
    let ind = chars_of(indent);
    let nl = dedent_one_exec(&lines[line_idx], &ind, str_byte_len(indent));
    let ghost before = lines@;
    lines.set(line_idx, nl);
    proof {
        lemma_views_update(before, line_idx as int, nl);
    }
    text_of(&lines)
}


// ─── Laws ──────────────────────────────────────────────────────────────────

proof fn lemma_plain_concat(a: Seq<char>, b: Seq<char>)
    requires
        has_no_newline(a),
        has_no_newline(b),
    ensures
        has_no_newline(a + b),
{
    assert forall|k: int| 0 <= k < (a + b).len() implies #[trigger] (a + b)[k] != '\n' by {
        if k < a.len() {
            assert((a + b)[k] == a[k]);
        } else {
            assert((a + b)[k] == b[k - a.len()]);
        }
    }
}

proof fn lemma_plain_update(ls: Seq<Seq<char>>, i: int, l: Seq<char>)
    requires
        all_lines_plain(ls),
        has_no_newline(l),
        0 <= i < ls.len(),
    ensures
        all_lines_plain(ls.update(i, l)),
{
    assert forall|j: int| 0 <= j < ls.len() implies has_no_newline(#[trigger] ls.update(i, l)[j]) by {
        if j != i {
            assert(ls.update(i, l)[j] == ls[j]);
        }
    }
}

/// Moving a line up and then down again gives back the text and the cursor
/// line that were there before.
pub proof fn law_move_up_then_down(text: Seq<char>, idx: int)
    requires
        0 < idx < split_lines(text).len(),
    ensures
        ({
            let (t1, k) = move_line_spec(text, idx, true);
            move_line_spec(t1, k, false) == (text, idx)
        }),
{
    let ls = split_lines(text);
    lemma_split_nonempty(text);
    let sw = swap_lines(ls, idx, idx - 1);
    lemma_plain_update(ls, idx, ls[idx - 1]);
    lemma_plain_update(ls.update(idx, ls[idx - 1]), idx - 1, ls[idx]);
    lemma_split_join(sw);
    assert(swap_lines(sw, idx - 1, idx) =~= ls);
    lemma_join_split(text);
}

/// Moving a line down and then up again gives back the text and the cursor
/// line that were there before.
pub proof fn law_move_down_then_up(text: Seq<char>, idx: int)
    requires
        0 <= idx,
        idx + 1 < split_lines(text).len(),
    ensures
        ({
            let (t1, k) = move_line_spec(text, idx, false);
            move_line_spec(t1, k, true) == (text, idx)
        }),
{
    let ls = split_lines(text);
    lemma_split_nonempty(text);
    let sw = swap_lines(ls, idx, idx + 1);
    lemma_plain_update(ls, idx, ls[idx + 1]);
    lemma_plain_update(ls.update(idx, ls[idx + 1]), idx + 1, ls[idx]);
    lemma_split_join(sw);
    assert(swap_lines(sw, idx + 1, idx) =~= ls);
    lemma_join_split(text);
}

/// Deleting the copy that `duplicate_line` inserted gives back the text.
pub proof fn law_delete_undoes_duplicate(text: Seq<char>, idx: int)
    requires
        0 <= idx < split_lines(text).len(),
    ensures
        delete_line_spec(duplicate_line_spec(text, idx), idx + 1).0 == text,
{
    let ls = split_lines(text);
    lemma_split_nonempty(text);
    let ins = ls.insert(idx + 1, ls[idx]);
    assert(all_lines_plain(ins)) by {
        assert forall|j: int| 0 <= j < ins.len() implies has_no_newline(#[trigger] ins[j]) by {
            if j <= idx {
                assert(ins[j] == ls[j]);
            } else if j == idx + 1 {
                assert(ins[j] == ls[idx]);
            } else {
                assert(ins[j] == ls[j - 1]);
            }
        }
    }
    lemma_split_join(ins);
    assert(ins.remove(idx + 1) =~= ls);
    lemma_join_split(text);
}

proof fn lemma_dedent_indent_line(l: Seq<char>, indent: Seq<char>)
    ensures
        dedent_one(indent_line(l, indent), indent) == l,
{
    if l.len() == 0 {
        assert(l.skip(0) =~= l);
        assert(l.take(0) =~= l);
        if indent.len() == 0 {
            assert(l.take(0) =~= indent);
        }
    } else {
        let t = indent + l;
        assert(t.take(indent.len() as int) =~= indent);
        assert(t.skip(indent.len() as int) =~= l);
    }
}

/// Removing one level of indentation from indented text gives the text back,
/// for an indentation unit without line breaks.
pub proof fn law_dedent_undoes_indent(text: Seq<char>, indent: Seq<char>)
    requires
        has_no_newline(indent),
    ensures
        dedent_text_spec(indent_text_spec(text, indent), indent) == text,
{
    let ls = split_lines(text);
    lemma_split_nonempty(text);
    let m = Seq::new(ls.len(), |i: int| indent_line(ls[i], indent));
    assert(all_lines_plain(m)) by {
        assert forall|j: int| 0 <= j < m.len() implies has_no_newline(#[trigger] m[j]) by {
            assert(has_no_newline(ls[j]));
            if ls[j].len() > 0 {
                lemma_plain_concat(indent, ls[j]);
            }
        }
    }
    lemma_split_join(m);
    let d = Seq::new(m.len(), |i: int| dedent_one(m[i], indent));
    assert forall|j: int| 0 <= j < ls.len() implies d[j] == ls[j] by {
        lemma_dedent_indent_line(ls[j], indent);
    }
    assert(d =~= ls);
    lemma_join_split(text);
}

/// Commenting out a line that carries no comment marker and then toggling the
/// same line again gives the text back, for a marker that has no line break
/// and does not start with whitespace.
pub proof fn law_toggle_comment_twice(text: Seq<char>, idx: int, prefix: Seq<char>)
    requires
        0 <= idx < split_lines(text).len(),
        has_no_newline(prefix),
        prefix.len() > 0,
        !is_ws(prefix[0]),
        !seq_starts_with(
            split_lines(text)[idx].skip(leading_ws_len(split_lines(text)[idx]) as int),
            prefix,
        ),
    ensures
        toggle_comment_spec(toggle_comment_spec(text, idx, prefix), idx, prefix) == text,
{
    let ls = split_lines(text);
    lemma_split_nonempty(text);
    let l = ls[idx];
    let n = leading_ws_len(l) as int;
    lemma_leading_ws_len(l);
    let ws = l.take(n);
    let c = l.skip(n);
    let t = ws + prefix + c;
    assert(toggle_line(l, prefix) == t);
    assert forall|k: int| 0 <= k < n implies is_ws(#[trigger] t[k]) by {
        assert(t[k] == l[k]);
    }
    assert(t[n] == prefix[0]);
    crate::text::lemma_leading_ws_len_exact(t, n);
    assert(t.take(n) =~= ws);
    assert(t.skip(n) =~= prefix + c);
    assert((prefix + c).take(prefix.len() as int) =~= prefix);
    assert((prefix + c).skip(prefix.len() as int) =~= c);
    assert(ws + c =~= l);
    assert(toggle_line(t, prefix) == l);
    assert(has_no_newline(l));
    assert(has_no_newline(ws)) by {
        assert forall|k: int| 0 <= k < ws.len() implies #[trigger] ws[k] != '\n' by {
            assert(ws[k] == l[k]);
        }
    }
    assert(has_no_newline(c)) by {
        assert forall|k: int| 0 <= k < c.len() implies #[trigger] c[k] != '\n' by {
            assert(c[k] == l[k + n]);
        }
    }
    lemma_plain_concat(ws, prefix);
    lemma_plain_concat(ws + prefix, c);
    lemma_plain_update(ls, idx, t);
    lemma_split_join(ls.update(idx, t));
    assert(ls.update(idx, t).update(idx, l) =~= ls);
    lemma_join_split(text);
}


/// The comment marker of each language: "# " for Python, Ruby, shell, R,
/// TOML and YAML; "-- " for SQL and Lua; "// " for the C-like languages,
/// for any other language and when there is none.
pub proof fn law_comment_markers(l: Seq<char>)
    ensures
        (l == "py"@ || l == "rb"@ || l == "sh"@ || l == "r"@ || l == "toml"@ || l == "yaml"@)
            ==> comment_prefix_spec(Some(l)) == "# "@,
        (l == "sql"@ || l == "lua"@) ==> comment_prefix_spec(Some(l)) == "-- "@,
        (l == "rs"@ || l == "js"@ || l == "ts"@ || l == "jsx"@ || l == "tsx"@ || l == "c"@ || l
            == "cpp"@ || l == "java"@ || l == "go"@ || l == "swift"@ || l == "kt"@)
            ==> comment_prefix_spec(Some(l)) == "// "@,
        comment_prefix_spec(None) == "// "@,
        comment_prefix_spec(Some(l)) == "# "@ || comment_prefix_spec(Some(l)) == "-- "@
            || comment_prefix_spec(Some(l)) == "// "@,
{
    reveal_strlit("py");
    reveal_strlit("rb");
    reveal_strlit("sh");
    reveal_strlit("r");
    reveal_strlit("toml");
    reveal_strlit("yaml");
    reveal_strlit("sql");
    reveal_strlit("lua");
    reveal_strlit("rs");
    reveal_strlit("js");
    reveal_strlit("ts");
    reveal_strlit("jsx");
    reveal_strlit("tsx");
    reveal_strlit("c");
    reveal_strlit("cpp");
    reveal_strlit("java");
    reveal_strlit("go");
    reveal_strlit("swift");
    reveal_strlit("kt");
    assert("py"@.len() == 2 && "py"@[0] == 'p' && "py"@[1] == 'y');
    assert("rb"@.len() == 2 && "rb"@[0] == 'r' && "rb"@[1] == 'b');
    assert("sh"@.len() == 2 && "sh"@[0] == 's' && "sh"@[1] == 'h');
    assert("r"@.len() == 1 && "r"@[0] == 'r');
    assert("toml"@.len() == 4 && "toml"@[0] == 't' && "toml"@[1] == 'o');
    assert("yaml"@.len() == 4 && "yaml"@[0] == 'y' && "yaml"@[1] == 'a');
    assert("sql"@.len() == 3 && "sql"@[0] == 's' && "sql"@[1] == 'q');
    assert("lua"@.len() == 3 && "lua"@[0] == 'l' && "lua"@[1] == 'u');
    assert("rs"@.len() == 2 && "rs"@[0] == 'r' && "rs"@[1] == 's');
    assert("js"@.len() == 2 && "js"@[0] == 'j' && "js"@[1] == 's');
    assert("ts"@.len() == 2 && "ts"@[0] == 't' && "ts"@[1] == 's');
    assert("jsx"@.len() == 3 && "jsx"@[0] == 'j' && "jsx"@[1] == 's');
    assert("tsx"@.len() == 3 && "tsx"@[0] == 't' && "tsx"@[1] == 's');
    assert("c"@.len() == 1 && "c"@[0] == 'c');
    assert("cpp"@.len() == 3 && "cpp"@[0] == 'c' && "cpp"@[1] == 'p');
    assert("java"@.len() == 4 && "java"@[0] == 'j' && "java"@[1] == 'a');
    assert("go"@.len() == 2 && "go"@[0] == 'g' && "go"@[1] == 'o');
    assert("swift"@.len() == 5 && "swift"@[0] == 's' && "swift"@[1] == 'w');
    assert("kt"@.len() == 2 && "kt"@[0] == 'k' && "kt"@[1] == 't');
}

} // verus!
