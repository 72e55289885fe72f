//! External code formatters: which tool formats which file type, and how a
//! tool's failure output is shortened for the status bar.

use vstd::prelude::*;

use crate::text::{
    chars_of, count_leading_ws, extend_range, is_whitespace, is_ws, leading_ws_len,
    seq_starts_with, starts_with_at, str_eq, string_of,
};

verus! {

/// The formatter program and its arguments for a file extension; the file
/// content goes to its standard input.
pub open spec fn formatter_command(ext: Seq<char>) -> Option<(Seq<char>, Seq<Seq<char>>)> {
    if ext == "js"@ || ext == "jsx"@ || ext == "ts"@ || ext == "tsx"@ || ext == "css"@ || ext == "scss"@ || ext == "less"@ || ext == "html"@ || ext == "htm"@ || ext == "json"@ || ext == "yaml"@ || ext == "yml"@ || ext == "md"@ || ext == "markdown"@ {
        Some(("prettier"@, seq!["--stdin-filepath"@, "f."@ + ext]))
    } else if ext == "rs"@ {
        Some(("rustfmt"@, seq!["--edition"@, "2021"@]))
    } else if ext == "go"@ {
        Some(("gofmt"@, Seq::<Seq<char>>::empty()))
    } else if ext == "py"@ {
        Some(("black"@, seq!["-"@, "--quiet"@]))
    } else if ext == "sh"@ || ext == "bash"@ || ext == "zsh"@ || ext == "fish"@ {
        Some(("shfmt"@, Seq::<Seq<char>>::empty()))
    } else if ext == "c"@ || ext == "h"@ {
        Some(("clang-format"@, seq!["--assume-filename=file.c"@]))
    } else if ext == "cpp"@ || ext == "cc"@ || ext == "cxx"@ || ext == "hpp"@ || ext == "hh"@ {
        Some(("clang-format"@, seq!["--assume-filename=file.cpp"@]))
    } else if ext == "java"@ {
        Some(("clang-format"@, seq!["--assume-filename=file.java"@]))
    } else if ext == "xml"@ || ext == "svg"@ || ext == "plist"@ {
        Some(("xmllint"@, seq!["--format"@, "-"@]))
    } else if ext == "toml"@ {
        Some(("taplo"@, seq!["fmt"@, "-"@]))
    } else if ext == "lua"@ {
        Some(("stylua"@, seq!["-"@]))
    } else if ext == "kt"@ || ext == "kts"@ {
        Some(("ktlint"@, seq!["--stdin"@]))
    } else {
        None
    }
}

fn strings(v: Vec<&str>) -> (r: Vec<String>)
    ensures
        r@.len() == v@.len(),
        forall|i: int| 0 <= i < v@.len() ==> (#[trigger] r@[i])@ == v@[i]@,
{
    let mut r: Vec<String> = Vec::new();
    let mut i: usize = 0;
    while i < v.len()
        invariant
            i <= v.len(),
            r@.len() == i,
            forall|k: int| 0 <= k < i ==> (#[trigger] r@[k])@ == v@[k]@,
        decreases v.len() - i,
    {
        r.push(string_of(chars_of(v[i]).as_slice()));
        i = i + 1;
    }
    r
}

pub open spec fn strings_view(v: Seq<String>) -> Seq<Seq<char>> {
    Seq::new(v.len(), |i: int| v[i]@)
}

/// The formatter program and arguments for a file extension, `None` when no
/// formatter is known for it.
pub fn command_for(ext: &str) -> (r: Option<(String, Vec<String>)>)
    ensures
        match r {
            Some((c, a)) => formatter_command(ext@) == Some((c@, strings_view(a@))),
            None => formatter_command(ext@) is None,
        },
{
    if str_eq(ext, "js") || str_eq(ext, "jsx") || str_eq(ext, "ts") || str_eq(ext, "tsx") || str_eq(ext, "css") || str_eq(ext, "scss") || str_eq(ext, "less") || str_eq(ext, "html") || str_eq(ext, "htm") || str_eq(ext, "json") || str_eq(ext, "yaml") || str_eq(ext, "yml") || str_eq(ext, "md") || str_eq(ext, "markdown") {
        let mut fname = String::from_str("f.");
        fname.append(ext);
        let a = vec![String::from_str("--stdin-filepath"), fname];
        proof {
            assert(strings_view(a@) =~= seq!["--stdin-filepath"@, "f."@ + ext@]);
        }
        Some((String::from_str("prettier"), a))
    } else if str_eq(ext, "rs") {
        let a = strings(vec!["--edition", "2021"]);
        proof {
            assert(strings_view(a@) =~= seq!["--edition"@, "2021"@]);
        }
        Some((String::from_str("rustfmt"), a))
    } else if str_eq(ext, "go") {
        let a = strings(vec![]);
        proof {
            assert(strings_view(a@) =~= Seq::<Seq<char>>::empty());
        }
        Some((String::from_str("gofmt"), a))
    } else if str_eq(ext, "py") {
        let a = strings(vec!["-", "--quiet"]);
        proof {
            assert(strings_view(a@) =~= seq!["-"@, "--quiet"@]);
        }
        Some((String::from_str("black"), a))
    } else if str_eq(ext, "sh") || str_eq(ext, "bash") || str_eq(ext, "zsh") || str_eq(ext, "fish") {
        let a = strings(vec![]);
        proof {
            assert(strings_view(a@) =~= Seq::<Seq<char>>::empty());
        }
        Some((String::from_str("shfmt"), a))
    } else if str_eq(ext, "c") || str_eq(ext, "h") {
        let a = strings(vec!["--assume-filename=file.c"]);
        proof {
            assert(strings_view(a@) =~= seq!["--assume-filename=file.c"@]);
        }
        Some((String::from_str("clang-format"), a))
    } else if str_eq(ext, "cpp") || str_eq(ext, "cc") || str_eq(ext, "cxx") || str_eq(ext, "hpp") || str_eq(ext, "hh") {
        let a = strings(vec!["--assume-filename=file.cpp"]);
        proof {
            assert(strings_view(a@) =~= seq!["--assume-filename=file.cpp"@]);
        }
        Some((String::from_str("clang-format"), a))
    } else if str_eq(ext, "java") {
        let a = strings(vec!["--assume-filename=file.java"]);
        proof {
            assert(strings_view(a@) =~= seq!["--assume-filename=file.java"@]);
        }
        Some((String::from_str("clang-format"), a))
    } else if str_eq(ext, "xml") || str_eq(ext, "svg") || str_eq(ext, "plist") {
        let a = strings(vec!["--format", "-"]);
        proof {
            assert(strings_view(a@) =~= seq!["--format"@, "-"@]);
        }
        Some((String::from_str("xmllint"), a))
    } else if str_eq(ext, "toml") {
        let a = strings(vec!["fmt", "-"]);
        proof {
            assert(strings_view(a@) =~= seq!["fmt"@, "-"@]);
        }
        Some((String::from_str("taplo"), a))
    } else if str_eq(ext, "lua") {
        let a = strings(vec!["-"]);
        proof {
            assert(strings_view(a@) =~= seq!["-"@]);
        }
        Some((String::from_str("stylua"), a))
    } else if str_eq(ext, "kt") || str_eq(ext, "kts") {
        let a = strings(vec!["--stdin"]);
        proof {
            assert(strings_view(a@) =~= seq!["--stdin"@]);
        }
        Some((String::from_str("ktlint"), a))
    } else {
        None
    }
}

/// Whether a formatter is known for this extension (whether the program is
/// installed shows only when formatting).
pub fn has_formatter(ext: &str) -> (r: bool)
    ensures
        r == formatter_command(ext@) is Some,
{
    command_for(ext).is_some()
}

// ─── Shortening a formatter's error output ─────────────────────────────────

/// Number of trailing whitespace characters.
pub open spec fn trailing_ws_len(s: Seq<char>) -> nat
    decreases s.len(),
{
    if s.len() > 0 && is_ws(s.last()) {
        1 + trailing_ws_len(s.drop_last())
    } else {
        0
    }
}

/// `s` without leading and trailing whitespace (`str::trim`).
pub open spec fn trim_spec(s: Seq<char>) -> Seq<char> {
    let a = leading_ws_len(s) as int;
    if a == s.len() {
        Seq::<char>::empty()
    } else {
        s.subrange(a, s.len() - trailing_ws_len(s))
    }
}

/// Index of the first `c` in `s` at or after `i`.
pub open spec fn index_of_from(s: Seq<char>, c: char, i: int) -> Option<int>
    decreases s.len() - i,
{
    if i < 0 || i >= s.len() {
        None
    } else if s[i] == c {
        Some(i)
    } else {
        index_of_from(s, c, i + 1)
    }
}

/// Index of the first `c` in `s`.
pub open spec fn first_index_of(s: Seq<char>, c: char) -> Option<int> {
    index_of_from(s, c, 0)
}

/// The first line of a non-empty `s` (`str::lines`): up to the first
/// `'\n'`, without a `'\r'` just before it.
pub open spec fn first_line(s: Seq<char>) -> Seq<char> {
    match first_index_of(s, '\n') {
        Some(k) => if k > 0 && s[k - 1] == '\r' {
            s.take(k - 1)
        } else {
            s.take(k)
        },
        None => s,
    }
}

/// `s` with every leading repetition of a non-empty `p` removed
/// (`str::trim_start_matches`).
pub open spec fn strip_repeated(s: Seq<char>, p: Seq<char>) -> Seq<char>
    decreases s.len(),
{
    if p.len() > 0 && seq_starts_with(s, p) {
        strip_repeated(s.skip(p.len() as int), p)
    } else {
        s
    }
}

pub open spec fn colon_space_at(s: Seq<char>, i: int) -> bool {
    0 <= i && i + 1 < s.len() && s[i] == ':' && s[i + 1] == ' '
}

/// Index of the first `": "` in `s` at or after `i`.
pub open spec fn colon_space_from(s: Seq<char>, i: int) -> Option<int>
    decreases s.len() - i,
{
    if i < 0 || i + 1 >= s.len() {
        None
    } else if colon_space_at(s, i) {
        Some(i)
    } else {
        colon_space_from(s, i + 1)
    }
}

/// Index of the first occurrence of `": "`.
pub open spec fn first_colon_space(s: Seq<char>) -> Option<int> {
    colon_space_from(s, 0)
}

/// The message before capping: the first line of the trimmed output, without
/// leading `[error] ` and `[warn] ` tags, and from after the first `": "`.
pub open spec fn shaped_message(stderr: Seq<char>) -> Seq<char> {
    let line = first_line(trim_spec(stderr));
    let m = strip_repeated(strip_repeated(line, "[error] "@), "[warn] "@);
    match first_colon_space(m) {
        Some(p) => m.skip(p + 2),
        None => m,
    }
}

/// Longest shown message, in characters.
pub open spec fn message_cap() -> nat {
    120
}

/// What the status bar shows when formatter `cmd` fails with error output
/// `stderr`: "`cmd` failed." when the output is blank, otherwise the shaped
/// message, cut to 120 characters and ended with "…" when longer.
pub open spec fn failure_message_spec(cmd: Seq<char>, stderr: Seq<char>) -> Seq<char> {
    if trim_spec(stderr).len() == 0 {
        cmd + " failed."@
    } else {
        let m = shaped_message(stderr);
        if m.len() > message_cap() {
            m.take(message_cap() as int) + "…"@
        } else {
            m
        }
    }
}


// ─── Executable shaping ────────────────────────────────────────────────────

proof fn lemma_trailing_ws_exact(s: Seq<char>, n: int)
    requires
        0 <= n <= s.len(),
        forall|k: int| 0 <= k < n ==> is_ws(#[trigger] s[s.len() - 1 - k]),
        n < s.len() ==> !is_ws(s[s.len() - 1 - n]),
    ensures
        trailing_ws_len(s) == n,
    decreases n,
{
    if n > 0 {
        let d = s.drop_last();
        assert forall|k: int| 0 <= k < n - 1 implies is_ws(#[trigger] d[d.len() - 1 - k]) by {
            assert(d[d.len() - 1 - k] == s[s.len() - 1 - (k + 1)]);
        }
        if n - 1 < d.len() {
            assert(d[d.len() - 1 - (n - 1)] == s[s.len() - 1 - n]);
        }
        assert(is_ws(s[s.len() - 1 - 0]));
        lemma_trailing_ws_exact(d, n - 1);
    }
}

fn trim_chars(s: &Vec<char>) -> (t: Vec<char>)
    ensures
        t@ == trim_spec(s@),
{
    let a = count_leading_ws(s);
    proof {
        crate::text::lemma_leading_ws_len(s@);
    }
    if a == s.len() {
        return Vec::new();
    }
    let mut n: usize = 0;
    while n < s.len() - a && is_whitespace(s[s.len() - 1 - n])
        invariant
            a < s.len(),
            n <= s.len() - a,
            forall|k: int| 0 <= k < n ==> is_ws(#[trigger] s@[s.len() - 1 - k]),
        decreases s.len() - a - n,
    {
        n = n + 1;
    }
    proof {
        if n == s.len() - a {
            // the last n characters include position a, which is not whitespace
            assert(is_ws(s@[s.len() - 1 - (n - 1)]));
            assert(!is_ws(s@[a as int]));
        }
        lemma_trailing_ws_exact(s@, n as int);
    }
    let mut t: Vec<char> = Vec::new();
    extend_range(&mut t, s, a, s.len() - n);
    t
}

fn first_line_chars(s: &Vec<char>) -> (r: Vec<char>)
    ensures
        r@ == first_line(s@),
{
    let mut i: usize = 0;
    while i < s.len() && s[i] != '\n'
        invariant
            i <= s.len(),
            index_of_from(s@, '\n', 0) == index_of_from(s@, '\n', i as int),
        decreases s.len() - i,
    {
        i = i + 1;
    }
    let mut r: Vec<char> = Vec::new();
    if i == s.len() {
        extend_range(&mut r, s, 0, s.len());
        assert(s@.subrange(0, s.len() as int) =~= s@);
    } else if i > 0 && s[i - 1] == '\r' {
        extend_range(&mut r, s, 0, i - 1);
        assert(s@.subrange(0, i - 1) =~= s@.take(i - 1));
    } else {
        extend_range(&mut r, s, 0, i);
        assert(s@.subrange(0, i as int) =~= s@.take(i as int));
    }
    r
}

fn strip_repeated_chars(s: &Vec<char>, p: &Vec<char>) -> (r: Vec<char>)
    ensures
        r@ == strip_repeated(s@, p@),
{
    let mut pos: usize = 0;
    assert(s@.skip(0) =~= s@);
    if p.len() > 0 {
        while pos <= s.len() && starts_with_at(s, pos, p)
            invariant
                p.len() > 0,
                pos <= s.len(),
                strip_repeated(s@, p@) == strip_repeated(s@.skip(pos as int), p@),
            decreases s.len() - pos,
        {
            assert(s@.skip(pos as int).skip(p.len() as int) =~= s@.skip(pos + p.len()));
            pos = pos + p.len();
        }
    }
    let mut r: Vec<char> = Vec::new();
    extend_range(&mut r, s, pos, s.len());
    assert(s@.subrange(pos as int, s.len() as int) =~= s@.skip(pos as int));
    r
}

fn after_colon_space(s: &Vec<char>) -> (r: Vec<char>)
    ensures
        r@ == match first_colon_space(s@) {
            Some(k) => s@.skip(k + 2),
            None => s@,
        },
{
    let mut i: usize = 0;
    while s.len() > 0 && i < s.len() - 1 && !(s[i] == ':' && s[i + 1] == ' ')
        invariant
            i <= s.len(),
            colon_space_from(s@, 0) == colon_space_from(s@, i as int),
        decreases s.len() - i,
    {
        i = i + 1;
    }
    let mut r: Vec<char> = Vec::new();
    if s.len() > 0 && i < s.len() - 1 {
        extend_range(&mut r, s, i + 2, s.len());
        assert(s@.subrange(i + 2, s.len() as int) =~= s@.skip(i + 2));
    } else {
        extend_range(&mut r, s, 0, s.len());
        assert(s@.subrange(0, s.len() as int) =~= s@);
    }
    r
}

fn shape(stderr: &str) -> (r: Vec<char>)
    ensures
        r@ == shaped_message(stderr@),
{
    let s = chars_of(stderr);
    let t = trim_chars(&s);
    let line = first_line_chars(&t);
    let e = chars_of("[error] ");
    let w = chars_of("[warn] ");
    let m1 = strip_repeated_chars(&line, &e);
    let m2 = strip_repeated_chars(&m1, &w);
    after_colon_space(&m2)
}

/// The status-bar message for a failed formatter run (see
/// `failure_message_spec`).
pub fn failure_message(cmd: &str, stderr: &str) -> (r: String)
    ensures
        r@ == failure_message_spec(cmd@, stderr@),
{
    let s = chars_of(stderr);
    let t = trim_chars(&s);
    if t.len() == 0 {
        let mut r = string_of(chars_of(cmd).as_slice());
        r.append(" failed.");
        return r;
    }
    let m = shape(stderr);
    if m.len() > 120 {
        let mut v: Vec<char> = Vec::new();
        extend_range(&mut v, &m, 0, 120);
        assert(m@.subrange(0, 120) =~= m@.take(120));
        let mut r = string_of(v.as_slice());
        r.append("…");
        r
    } else {
        string_of(m.as_slice())
    }
}


/// The fallback run through `npx` when the formatter is not installed:
/// `npx --yes cmd args…`.
pub fn npx_command(cmd: &str, args: &Vec<String>) -> (r: (String, Vec<String>))
    ensures
        r.0@ == "npx"@,
        strings_view(r.1@) == seq!["--yes"@, cmd@] + strings_view(args@),
{
    let mut out: Vec<String> = Vec::new();
    out.push(String::from_str("--yes"));
    out.push(string_of(chars_of(cmd).as_slice()));
    let ghost head = strings_view(out@);
    let mut i: usize = 0;
    while i < args.len()
        invariant
            i <= args.len(),
            head == seq!["--yes"@, cmd@],
            strings_view(out@) == head + strings_view(args@).take(i as int),
        decreases args.len() - i,
    {
        let ghost before = strings_view(out@);
        out.push(args[i].clone());
        assert(strings_view(out@) =~= before.push(args@[i as int]@));
        assert(strings_view(args@).take(i + 1) =~= strings_view(args@).take(i as int).push(
            args@[i as int]@,
        ));
        i = i + 1;
    }
    assert(strings_view(args@).take(args.len() as int) =~= strings_view(args@));
    (String::from_str("npx"), out)
}

/// The message when neither the formatter nor `npx` could be started.
pub fn not_found_message(cmd: &str) -> (r: String)
    ensures
        r@ == "'"@ + cmd@ + "' not found. Install it or ensure Node/npm is available."@,
{
    let mut s = String::from_str("'");
    s.append(cmd);
    s.append("' not found. Install it or ensure Node/npm is available.");
    s
}


/// The formatter to run for a file extension, or the error shown when none
/// is known for it.
pub fn formatter_for(ext: &str) -> (r: Result<(String, Vec<String>), String>)
    ensures
        match r {
            Ok((c, a)) => formatter_command(ext@) == Some((c@, strings_view(a@))),
            Err(e) => formatter_command(ext@) is None
                && e@ == "No formatter available for this file type."@,
        },
{
    match command_for(ext) {
        Some(found) => Ok(found),
        None => Err(String::from_str("No formatter available for this file type.")),
    }
}


/// Which tool formats which file type: prettier (told the file type
/// through `--stdin-filepath f.<ext>`) for the web and markup types,
/// rustfmt, gofmt, black, shfmt, clang-format (as C, C++ or Java), xmllint,
/// taplo, stylua and ktlint for the others; no other type has a formatter.
pub proof fn law_formatter_table(ext: Seq<char>)
    ensures
        (ext == "js"@ || ext == "jsx"@ || ext == "ts"@ || ext == "tsx"@ || ext == "css"@ || ext == "scss"@ || ext == "less"@ || ext == "html"@ || ext == "htm"@ || ext == "json"@ || ext == "yaml"@ || ext == "yml"@ || ext == "md"@ || ext == "markdown"@)
            ==> formatter_command(ext) == Some(("prettier"@, seq!["--stdin-filepath"@, "f."@ + ext])),
        (ext == "rs"@)
            ==> formatter_command(ext) == Some(("rustfmt"@, seq!["--edition"@, "2021"@])),
        (ext == "go"@)
            ==> formatter_command(ext) == Some(("gofmt"@, Seq::<Seq<char>>::empty())),
        (ext == "py"@)
            ==> formatter_command(ext) == Some(("black"@, seq!["-"@, "--quiet"@])),
        (ext == "sh"@ || ext == "bash"@ || ext == "zsh"@ || ext == "fish"@)
            ==> formatter_command(ext) == Some(("shfmt"@, Seq::<Seq<char>>::empty())),
        (ext == "c"@ || ext == "h"@)
            ==> formatter_command(ext) == Some(("clang-format"@, seq!["--assume-filename=file.c"@])),
        (ext == "cpp"@ || ext == "cc"@ || ext == "cxx"@ || ext == "hpp"@ || ext == "hh"@)
            ==> formatter_command(ext) == Some(("clang-format"@, seq!["--assume-filename=file.cpp"@])),
        (ext == "java"@)
            ==> formatter_command(ext) == Some(("clang-format"@, seq!["--assume-filename=file.java"@])),
        (ext == "xml"@ || ext == "svg"@ || ext == "plist"@)
            ==> formatter_command(ext) == Some(("xmllint"@, seq!["--format"@, "-"@])),
        (ext == "toml"@)
            ==> formatter_command(ext) == Some(("taplo"@, seq!["fmt"@, "-"@])),
        (ext == "lua"@)
            ==> formatter_command(ext) == Some(("stylua"@, seq!["-"@])),
        (ext == "kt"@ || ext == "kts"@)
            ==> formatter_command(ext) == Some(("ktlint"@, seq!["--stdin"@])),
        formatter_command(ext) is Some ==> (ext == "js"@ || ext == "jsx"@ || ext == "ts"@ || ext == "tsx"@ || ext == "css"@ || ext == "scss"@ || ext == "less"@ || ext == "html"@ || ext == "htm"@ || ext == "json"@ || ext == "yaml"@ || ext == "yml"@ || ext == "md"@ || ext == "markdown"@ || ext == "rs"@ || ext == "go"@ || ext == "py"@ || ext == "sh"@ || ext == "bash"@ || ext == "zsh"@ || ext == "fish"@ || ext == "c"@ || ext == "h"@ || ext == "cpp"@ || ext == "cc"@ || ext == "cxx"@ || ext == "hpp"@ || ext == "hh"@ || ext == "java"@ || ext == "xml"@ || ext == "svg"@ || ext == "plist"@ || ext == "toml"@ || ext == "lua"@ || ext == "kt"@ || ext == "kts"@),
{
    reveal_strlit("js");
    assert("js"@.len() == 2 && "js"@[0] == 'j' && "js"@[1] == 's');
    reveal_strlit("jsx");
    assert("jsx"@.len() == 3 && "jsx"@[0] == 'j' && "jsx"@[1] == 's' && "jsx"@[2] == 'x');
    reveal_strlit("ts");
    assert("ts"@.len() == 2 && "ts"@[0] == 't' && "ts"@[1] == 's');
    reveal_strlit("tsx");
    assert("tsx"@.len() == 3 && "tsx"@[0] == 't' && "tsx"@[1] == 's' && "tsx"@[2] == 'x');
    reveal_strlit("css");
    assert("css"@.len() == 3 && "css"@[0] == 'c' && "css"@[1] == 's' && "css"@[2] == 's');
    reveal_strlit("scss");
    assert("scss"@.len() == 4 && "scss"@[0] == 's' && "scss"@[1] == 'c' && "scss"@[2] == 's');
    reveal_strlit("less");
    assert("less"@.len() == 4 && "less"@[0] == 'l' && "less"@[1] == 'e' && "less"@[2] == 's');
    reveal_strlit("html");
    assert("html"@.len() == 4 && "html"@[0] == 'h' && "html"@[1] == 't' && "html"@[2] == 'm');
    reveal_strlit("htm");
    assert("htm"@.len() == 3 && "htm"@[0] == 'h' && "htm"@[1] == 't' && "htm"@[2] == 'm');
    reveal_strlit("json");
    assert("json"@.len() == 4 && "json"@[0] == 'j' && "json"@[1] == 's' && "json"@[2] == 'o');
    reveal_strlit("yaml");
    assert("yaml"@.len() == 4 && "yaml"@[0] == 'y' && "yaml"@[1] == 'a' && "yaml"@[2] == 'm');
    reveal_strlit("yml");
    assert("yml"@.len() == 3 && "yml"@[0] == 'y' && "yml"@[1] == 'm' && "yml"@[2] == 'l');
    reveal_strlit("md");
    assert("md"@.len() == 2 && "md"@[0] == 'm' && "md"@[1] == 'd');
    reveal_strlit("markdown");
    assert("markdown"@.len() == 8 && "markdown"@[0] == 'm' && "markdown"@[1] == 'a' && "markdown"@[2] == 'r');
    reveal_strlit("rs");
    assert("rs"@.len() == 2 && "rs"@[0] == 'r' && "rs"@[1] == 's');
    reveal_strlit("go");
    assert("go"@.len() == 2 && "go"@[0] == 'g' && "go"@[1] == 'o');
    reveal_strlit("py");
    assert("py"@.len() == 2 && "py"@[0] == 'p' && "py"@[1] == 'y');
    reveal_strlit("sh");
    assert("sh"@.len() == 2 && "sh"@[0] == 's' && "sh"@[1] == 'h');
    reveal_strlit("bash");
    assert("bash"@.len() == 4 && "bash"@[0] == 'b' && "bash"@[1] == 'a' && "bash"@[2] == 's');
    reveal_strlit("zsh");
    assert("zsh"@.len() == 3 && "zsh"@[0] == 'z' && "zsh"@[1] == 's' && "zsh"@[2] == 'h');
    reveal_strlit("fish");
    assert("fish"@.len() == 4 && "fish"@[0] == 'f' && "fish"@[1] == 'i' && "fish"@[2] == 's');
    reveal_strlit("c");
    assert("c"@.len() == 1 && "c"@[0] == 'c');
    reveal_strlit("h");
    assert("h"@.len() == 1 && "h"@[0] == 'h');
    reveal_strlit("cpp");
    assert("cpp"@.len() == 3 && "cpp"@[0] == 'c' && "cpp"@[1] == 'p' && "cpp"@[2] == 'p');
    reveal_strlit("cc");
    assert("cc"@.len() == 2 && "cc"@[0] == 'c' && "cc"@[1] == 'c');
    reveal_strlit("cxx");
    assert("cxx"@.len() == 3 && "cxx"@[0] == 'c' && "cxx"@[1] == 'x' && "cxx"@[2] == 'x');
    reveal_strlit("hpp");
    assert("hpp"@.len() == 3 && "hpp"@[0] == 'h' && "hpp"@[1] == 'p' && "hpp"@[2] == 'p');
    reveal_strlit("hh");
    assert("hh"@.len() == 2 && "hh"@[0] == 'h' && "hh"@[1] == 'h');
    reveal_strlit("java");
    assert("java"@.len() == 4 && "java"@[0] == 'j' && "java"@[1] == 'a' && "java"@[2] == 'v');
    reveal_strlit("xml");
    assert("xml"@.len() == 3 && "xml"@[0] == 'x' && "xml"@[1] == 'm' && "xml"@[2] == 'l');
    reveal_strlit("svg");
    assert("svg"@.len() == 3 && "svg"@[0] == 's' && "svg"@[1] == 'v' && "svg"@[2] == 'g');
    reveal_strlit("plist");
    assert("plist"@.len() == 5 && "plist"@[0] == 'p' && "plist"@[1] == 'l' && "plist"@[2] == 'i');
    reveal_strlit("toml");
    assert("toml"@.len() == 4 && "toml"@[0] == 't' && "toml"@[1] == 'o' && "toml"@[2] == 'm');
    reveal_strlit("lua");
    assert("lua"@.len() == 3 && "lua"@[0] == 'l' && "lua"@[1] == 'u' && "lua"@[2] == 'a');
    reveal_strlit("kt");
    assert("kt"@.len() == 2 && "kt"@[0] == 'k' && "kt"@[1] == 't');
    reveal_strlit("kts");
    assert("kts"@.len() == 3 && "kts"@[0] == 'k' && "kts"@[1] == 't' && "kts"@[2] == 's');
}

} // verus!
