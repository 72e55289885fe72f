//! Texts of the status bar, the line-number gutter and the window title.

use vstd::prelude::*;

use crate::text::{chars_of, decimal, decimal_exec, string_of};

verus! {

/// Number of `'\n'` in `s`.
pub open spec fn newline_count(s: Seq<char>) -> nat
    decreases s.len(),
{
    if s.len() == 0 {
        0
    } else {
        newline_count(s.drop_last()) + if s.last() == '\n' {
            1nat
        } else {
            0nat
        }
    }
}

/// Number of lines `str::lines` yields: none for an empty text, and a final
/// `'\n'` does not start another line.
pub open spec fn lines_count(s: Seq<char>) -> nat {
    if s.len() == 0 {
        0
    } else if s.last() == '\n' {
        newline_count(s)
    } else {
        newline_count(s) + 1
    }
}

fn count_newlines(s: &Vec<char>) -> (n: usize)
    ensures
        n == newline_count(s@),
{
    let mut i: usize = 0;
    let mut n: usize = 0;
    assert(s@.take(0) =~= Seq::<char>::empty());
    while i < s.len()
        invariant
            i <= s.len(),
            n <= i,
            n == newline_count(s@.take(i as int)),
        decreases s.len() - i,
    {
        assert(s@.take(i + 1).drop_last() =~= s@.take(i as int));
        if s[i] == '\n' {
            n = n + 1;
        }
        i = i + 1;
    }
    assert(s@.take(s.len() as int) =~= s@);
    n
}

fn count_lines(s: &Vec<char>) -> (n: usize)
    ensures
        n == lines_count(s@),
{
    if s.len() == 0 {
        return 0;
    }
    let nl = count_newlines(s);
    if s[s.len() - 1] == '\n' {
        nl
    } else {
        proof {
            lemma_newline_count_bound(s@);
        }
        nl + 1
    }
}

proof fn lemma_newline_count_bound(s: Seq<char>)
    requires
        s.len() > 0,
        s.last() != '\n',
    ensures
        newline_count(s) < s.len(),
{
    lemma_newline_le(s.drop_last());
}

proof fn lemma_newline_le(s: Seq<char>)
    ensures
        newline_count(s) <= s.len(),
    decreases s.len(),
{
    if s.len() > 0 {
        lemma_newline_le(s.drop_last());
    }
}

/// "Ln l, Col c" for the 0-based cursor position, shown 1-based.
pub fn cursor_text(line: usize, col: usize) -> (r: String)
    requires
        line < usize::MAX,
        col < usize::MAX,
    ensures
        r@ == "Ln "@ + decimal((line + 1) as nat) + ", Col "@ + decimal((col + 1) as nat),
{
    let mut s = String::from_str("Ln ");
    s.append(string_of(decimal_exec((line + 1) as u64).as_slice()).as_str());
    s.append(", Col ");
    s.append(string_of(decimal_exec((col + 1) as u64).as_slice()).as_str());
    s
}

/// The file size as shown: bytes below 1 KiB, whole KiB below 1 MiB, whole
/// MiB above, each after two spaces.
pub open spec fn size_text_spec(b: nat) -> Seq<char> {
    if b < 1024 {
        "  "@ + decimal(b) + "B"@
    } else if b < 1024 * 1024 {
        "  "@ + decimal(b / 1024) + "KB"@
    } else {
        "  "@ + decimal(b / (1024 * 1024)) + "MB"@
    }
}

/// The file size as shown in the status bar.
pub fn size_text(b: u64) -> (r: String)
    ensures
        r@ == size_text_spec(b as nat),
{
    let mut s = String::from_str("  ");
    if b < 1024 {
        s.append(string_of(decimal_exec(b).as_slice()).as_str());
        s.append("B");
    } else if b < 1024 * 1024 {
        s.append(string_of(decimal_exec(b / 1024).as_slice()).as_str());
        s.append("KB");
    } else {
        s.append(string_of(decimal_exec(b / (1024 * 1024)).as_slice()).as_str());
        s.append("MB");
    }
    s
}

/// The selection summary: "nL mC" (lines and characters) for a selection
/// over several lines, "mC" otherwise.
pub open spec fn selection_info_spec(sel: Seq<char>) -> Seq<char> {
    if lines_count(sel) > 1 {
        decimal(lines_count(sel)) + "L "@ + decimal(sel.len()) + "C"@
    } else {
        decimal(sel.len()) + "C"@
    }
}

/// The selection summary shown in the status bar.
pub fn selection_info(selection: &str) -> (r: String)
    ensures
        r@ == selection_info_spec(selection@),
{
    let v = chars_of(selection);
    let lines = count_lines(&v);
    let chars = v.len();
    let mut s = String::new();
    if lines > 1 {
        s.append(string_of(decimal_exec(lines as u64).as_slice()).as_str());
        s.append("L ");
    }
    s.append(string_of(decimal_exec(chars as u64).as_slice()).as_str());
    s.append("C");
    s
}

/// Number of rows in the line-number gutter: the text's lines (at least
/// one), plus the empty row the editor shows after a final `'\n'`.
pub open spec fn gutter_rows(raw: Seq<char>) -> nat {
    let base = if lines_count(raw) > 1 {
        lines_count(raw)
    } else {
        1
    };
    if raw.len() > 0 && raw.last() == '\n' {
        base + 1
    } else {
        base
    }
}

/// `n` right-aligned in a field of four characters (`{:>4}`).
pub open spec fn pad4(n: nat) -> Seq<char> {
    let d = decimal(n);
    if d.len() < 4 {
        Seq::new((4 - d.len()) as nat, |i: int| ' ') + d
    } else {
        d
    }
}

/// Rows `from..=to` of the gutter, one number per line.
pub open spec fn gutter_rows_text(from: nat, to: nat) -> Seq<char>
    decreases to - from,
{
    if from > to {
        Seq::<char>::empty()
    } else if from == to {
        pad4(from)
    } else {
        pad4(from) + seq!['\n'] + gutter_rows_text(from + 1, to)
    }
}

fn pad4_exec(n: u64) -> (r: Vec<char>)
    ensures
        r@ == pad4(n as nat),
{
    let d = decimal_exec(n);
    let mut r: Vec<char> = Vec::new();
    if d.len() < 4 {
        let k = 4 - d.len();
        let mut i: usize = 0;
        while i < k
            invariant
                i <= k,
                r@ =~= Seq::new(i as nat, |j: int| ' '),
            decreases k - i,
        {
            r.push(' ');
            i = i + 1;
        }
    }
    let ghost before = r@;
    let mut j: usize = 0;
    while j < d.len()
        invariant
            j <= d.len(),
            r@ == before + d@.take(j as int),
        decreases d.len() - j,
    {
        r.push(d[j]);
        assert(d@.take(j + 1) =~= d@.take(j as int).push(d@[j as int]));
        j = j + 1;
    }
    assert(d@.take(d.len() as int) =~= d@);
    if d.len() >= 4 {
        assert(before =~= Seq::<char>::empty());
        assert(r@ =~= d@);
    }
    r
}

proof fn lemma_gutter_suffix(from: nat, to: nat)
    requires
        from < to,
    ensures
        gutter_rows_text(from, to) == gutter_rows_text(from, (to - 1) as nat) + seq!['\n'] + pad4(to),
    decreases to - from,
{
    assert(gutter_rows_text(from, to) == pad4(from) + seq!['\n'] + gutter_rows_text(from + 1, to));
    if from + 1 < to {
        lemma_gutter_suffix(from + 1, to);
        assert(gutter_rows_text(from, (to - 1) as nat) == pad4(from) + seq!['\n']
            + gutter_rows_text(from + 1, (to - 1) as nat));
        assert(gutter_rows_text(from, to) =~= gutter_rows_text(from, (to - 1) as nat) + seq!['\n']
            + pad4(to));
    } else {
        assert(gutter_rows_text(from + 1, to) == pad4(to));
        assert(gutter_rows_text(from, (to - 1) as nat) == pad4(from));
        assert(gutter_rows_text(from, to) =~= gutter_rows_text(from, (to - 1) as nat) + seq!['\n']
            + pad4(to));
    }
}

/// The line numbers shown beside the text: "   1" to the last row, one per
/// line.
pub fn line_number_gutter(raw: &str) -> (r: String)
    requires
        gutter_rows(raw@) <= usize::MAX,
    ensures
        r@ == gutter_rows_text(1, gutter_rows(raw@)),
{
    let v = chars_of(raw);
    let lines = count_lines(&v);
    let base: usize = if lines > 1 {
        lines
    } else {
        1
    };
    let rows: usize = if v.len() > 0 && v[v.len() - 1] == '\n' {
        base + 1
    } else {
        base
    };
    let mut out: Vec<char> = Vec::new();
    let mut k: usize = 0;
    while k < rows
        invariant
            k <= rows,
            rows == gutter_rows(raw@),
            out@ == gutter_rows_text(1, k as nat),
        decreases rows - k,
    {
        let n = k + 1;
        if n > 1 {
            out.push('\n');
        }
        let p = pad4_exec(n as u64);
        let mut j: usize = 0;
        let ghost mid = out@;
        while j < p.len()
            invariant
                j <= p.len(),
                out@ == mid + p@.take(j as int),
            decreases p.len() - j,
        {
            out.push(p[j]);
            assert(p@.take(j + 1) =~= p@.take(j as int).push(p@[j as int]));
            j = j + 1;
        }
        assert(p@.take(p.len() as int) =~= p@);
        proof {
            if n > 1 {
                lemma_gutter_suffix(1, n as nat);
            } else {
                assert(gutter_rows_text(1, 0) =~= Seq::<char>::empty());
                assert(out@ =~= pad4(1));
            }
        }
        k = n;
    }
    string_of(out.as_slice())
}

/// The window title: "Tincta — name", with " •" when there are unsaved
/// changes.
pub fn window_title(file_name: &str, dirty: bool) -> (r: String)
    ensures
        r@ == "Tincta — "@ + file_name@ + if dirty {
            " •"@
        } else {
            Seq::<char>::empty()
        },
{
    let mut s = String::from_str("Tincta — ");
    s.append(file_name);
    if dirty {
        s.append(" •");
    }
    s
}

/// The file label of the status bar: the path, with " •" when there are
/// unsaved changes.
pub fn file_label(path: &str, dirty: bool) -> (r: String)
    ensures
        r@ == "  "@ + path@ + if dirty {
            " •"@
        } else {
            Seq::<char>::empty()
        },
{
    let mut s = String::from_str("  ");
    s.append(path);
    if dirty {
        s.append(" •");
    }
    s
}

} // verus!
