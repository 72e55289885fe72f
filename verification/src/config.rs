//! Keyboard shortcuts, the recent-files list and indentation settings.

use vstd::prelude::*;

use crate::sidebar::no_duplicates;
use crate::text::{chars_of, decimal, decimal_exec, digit_char, str_eq, seq_starts_with, starts_with_at, str_byte_len, byte_len, string_of};

verus! {

/// Identifies which action is being rebound in the shortcuts panel.
#[derive(Debug, Clone, Copy, PartialEq, Eq, Structural)]
pub enum ShortcutTarget {
    NewFile,
    OpenFile,
    SaveFile,
    SaveAs,
    CloseFile,
    Find,
    SelectAll,
    FormatCode,
    GotoLine,
    ToggleSidebar,
    Quit,
    Undo,
    Redo,
    DuplicateLine,
    MoveLineUp,
    MoveLineDown,
    ToggleComment,
    DeleteLine,
}

/// A single keyboard binding stored as display-friendly strings: modifier
/// flags and a key, either a single character ("n", "s") or a named key
/// ("Return", "F1", "ArrowUp").
#[derive(Debug, Clone)]
pub struct ShortcutConfig {
    pub ctrl: bool,
    pub shift: bool,
    pub alt: bool,
    pub key: String,
}

/// The binding `ctrl`/`shift`/`alt` + `key`.
pub open spec fn is_binding(sc: ShortcutConfig, ctrl: bool, shift: bool, alt: bool, key: Seq<char>) -> bool {
    sc.ctrl == ctrl && sc.shift == shift && sc.alt == alt && sc.key@ == key
}

pub open spec fn ascii_upper(c: char) -> char {
    if 'a' <= c && c <= 'z' {
        ((c as u32 - 32) as u8) as char
    } else {
        c
    }
}

pub open spec fn ascii_lower(c: char) -> char {
    if 'A' <= c && c <= 'Z' {
        ((c as u32 + 32) as u8) as char
    } else {
        c
    }
}

/// The key as shown: a one-byte key in upper case, any other key as is.
pub open spec fn key_label(key: Seq<char>) -> Seq<char> {
    if byte_len(key) == 1 {
        seq![ascii_upper(key[0])]
    } else {
        key
    }
}

/// "Ctrl+", "Shift+", "Alt+" for the held modifiers, then the key label.
pub open spec fn display_spec(sc: ShortcutConfig) -> Seq<char> {
    (if sc.ctrl { "Ctrl+"@ } else { Seq::<char>::empty() }) + (if sc.shift {
        "Shift+"@
    } else {
        Seq::<char>::empty()
    }) + (if sc.alt { "Alt+"@ } else { Seq::<char>::empty() }) + key_label(sc.key@)
}

/// Two keys are the same ignoring ASCII case (`str::eq_ignore_ascii_case`:
/// non-ASCII characters must be identical).
pub open spec fn eq_ignore_ascii_case_spec(a: Seq<char>, b: Seq<char>) -> bool {
    a.len() == b.len() && forall|i: int| 0 <= i < a.len() ==> ascii_lower(#[trigger] a[i])
        == ascii_lower(b[i])
}

/// A key press matches a binding: same key ignoring ASCII case, same
/// modifiers.
pub open spec fn press_matches(
    sc: ShortcutConfig,
    key: Seq<char>,
    ctrl: bool,
    shift: bool,
    alt: bool,
) -> bool {
    eq_ignore_ascii_case_spec(sc.key@, key) && sc.ctrl == ctrl && sc.shift == shift && sc.alt
        == alt
}

fn upper_ascii(c: char) -> (r: char)
    ensures
        r == ascii_upper(c),
{
    if 'a' <= c && c <= 'z' {
        ((c as u32 - 32) as u8) as char
    } else {
        c
    }
}

fn lower_ascii(c: char) -> (r: char)
    ensures
        r == ascii_lower(c),
{
    if 'A' <= c && c <= 'Z' {
        ((c as u32 + 32) as u8) as char
    } else {
        c
    }
}

fn eq_ignore_ascii_case(a: &str, b: &str) -> (r: bool)
    ensures
        r == eq_ignore_ascii_case_spec(a@, b@),
{
    let x = chars_of(a);
    let y = chars_of(b);
    if x.len() != y.len() {
        return false;
    }
    let mut i: usize = 0;
    while i < x.len()
        invariant
            i <= x.len() == y.len(),
            x@ == a@,
            y@ == b@,
            forall|k: int| 0 <= k < i ==> ascii_lower(#[trigger] x@[k]) == ascii_lower(y@[k]),
        decreases x.len() - i,
    {
        if lower_ascii(x[i]) != lower_ascii(y[i]) {
            return false;
        }
        i = i + 1;
    }
    true
}

impl ShortcutConfig {
    /// Ctrl + `key`.
    pub fn ctrl(key: &str) -> (r: Self)
        ensures
            is_binding(r, true, false, false, key@),
    {
        ShortcutConfig { ctrl: true, shift: false, alt: false, key: string_of(chars_of(key).as_slice()) }
    }

    /// Ctrl + Shift + `key`.
    pub fn ctrl_shift(key: &str) -> (r: Self)
        ensures
            is_binding(r, true, true, false, key@),
    {
        ShortcutConfig { ctrl: true, shift: true, alt: false, key: string_of(chars_of(key).as_slice()) }
    }

    /// Alt + `key`.
    pub fn alt(key: &str) -> (r: Self)
        ensures
            is_binding(r, false, false, true, key@),
    {
        ShortcutConfig { ctrl: false, shift: false, alt: true, key: string_of(chars_of(key).as_slice()) }
    }

    /// The binding as shown in menus, e.g. "Ctrl+Shift+S" or "Alt+ArrowUp".
    pub fn display(&self) -> (r: String)
        ensures
            r@ == display_spec(*self),
    {
        let mut s = String::new();
        if self.ctrl {
            s.append("Ctrl+");
        }
        if self.shift {
            s.append("Shift+");
        }
        if self.alt {
            s.append("Alt+");
        }
        let key = chars_of(self.key.as_str());
        if str_byte_len(self.key.as_str()) == 1 {
            proof {
                if key.len() == 0 {
                    assert(byte_len(key@) == 0);
                }
            }
            let up: Vec<char> = vec![upper_ascii(key[0])];
            s.append(string_of(up.as_slice()).as_str());
        } else {
            s.append(self.key.as_str());
        }
        s
    }

    /// Whether a key press (key name and held modifiers) triggers this
    /// binding; the key is compared ignoring ASCII case.
    pub fn matches_press(&self, key: &str, ctrl: bool, shift: bool, alt: bool) -> (r: bool)
        ensures
            r == press_matches(*self, key@, ctrl, shift, alt),
    {
        eq_ignore_ascii_case(self.key.as_str(), key) && self.ctrl == ctrl && self.shift == shift
            && self.alt == alt
    }
}


/// The binding for every editor action.
#[derive(Debug, Clone)]
pub struct Shortcuts {
    pub new_file: ShortcutConfig,
    pub open_file: ShortcutConfig,
    pub save_file: ShortcutConfig,
    pub save_as: ShortcutConfig,
    pub close_file: ShortcutConfig,
    pub find: ShortcutConfig,
    pub select_all: ShortcutConfig,
    pub format_code: ShortcutConfig,
    pub goto_line: ShortcutConfig,
    pub toggle_sidebar: ShortcutConfig,
    pub quit: ShortcutConfig,
    pub undo: ShortcutConfig,
    pub redo: ShortcutConfig,
    pub duplicate_line: ShortcutConfig,
    pub move_line_up: ShortcutConfig,
    pub move_line_down: ShortcutConfig,
    pub toggle_comment: ShortcutConfig,
    pub delete_line: ShortcutConfig,
}

pub(crate) fn default_duplicate_line() -> (r: ShortcutConfig)
    ensures
        is_binding(r, true, true, false, "d"@),
{
    ShortcutConfig::ctrl_shift("d")
}

pub(crate) fn default_move_line_up() -> (r: ShortcutConfig)
    ensures
        is_binding(r, false, false, true, "ArrowUp"@),
{
    ShortcutConfig::alt("ArrowUp")
}

pub(crate) fn default_move_line_down() -> (r: ShortcutConfig)
    ensures
        is_binding(r, false, false, true, "ArrowDown"@),
{
    ShortcutConfig::alt("ArrowDown")
}

pub(crate) fn default_toggle_comment() -> (r: ShortcutConfig)
    ensures
        is_binding(r, true, false, false, "/"@),
{
    ShortcutConfig::ctrl("/")
}

pub(crate) fn default_delete_line() -> (r: ShortcutConfig)
    ensures
        is_binding(r, true, true, false, "k"@),
{
    ShortcutConfig::ctrl_shift("k")
}

/// The order in which bindings are tried against a key press; the first
/// match wins.
pub open spec fn precedence() -> Seq<ShortcutTarget> {
    seq![
        ShortcutTarget::Undo,
        ShortcutTarget::Redo,
        ShortcutTarget::DuplicateLine,
        ShortcutTarget::MoveLineUp,
        ShortcutTarget::MoveLineDown,
        ShortcutTarget::ToggleComment,
        ShortcutTarget::DeleteLine,
        ShortcutTarget::SaveAs,
        ShortcutTarget::NewFile,
        ShortcutTarget::SaveFile,
        ShortcutTarget::OpenFile,
        ShortcutTarget::CloseFile,
        ShortcutTarget::Find,
        ShortcutTarget::SelectAll,
        ShortcutTarget::FormatCode,
        ShortcutTarget::GotoLine,
        ShortcutTarget::ToggleSidebar,
        ShortcutTarget::Quit,
    ]
}

impl Default for Shortcuts {
    /// Ctrl+N/O/S/W/F/A/G/B/Q/Z/Y for new, open, save, close, find, select
    /// all, go to line, sidebar, quit, undo, redo; Ctrl+Shift+S save as;
    /// Ctrl+Shift+F format; Ctrl+Shift+D duplicate line; Alt+ArrowUp/Down
    /// move line; Ctrl+/ toggle comment; Ctrl+Shift+K delete line.
    fn default() -> (r: Self)
        ensures
            is_binding(r.new_file, true, false, false, "n"@),
            is_binding(r.open_file, true, false, false, "o"@),
            is_binding(r.save_file, true, false, false, "s"@),
            is_binding(r.save_as, true, true, false, "s"@),
            is_binding(r.close_file, true, false, false, "w"@),
            is_binding(r.find, true, false, false, "f"@),
            is_binding(r.select_all, true, false, false, "a"@),
            is_binding(r.format_code, true, true, false, "f"@),
            is_binding(r.goto_line, true, false, false, "g"@),
            is_binding(r.toggle_sidebar, true, false, false, "b"@),
            is_binding(r.quit, true, false, false, "q"@),
            is_binding(r.undo, true, false, false, "z"@),
            is_binding(r.redo, true, false, false, "y"@),
            is_binding(r.duplicate_line, true, true, false, "d"@),
            is_binding(r.move_line_up, false, false, true, "ArrowUp"@),
            is_binding(r.move_line_down, false, false, true, "ArrowDown"@),
            is_binding(r.toggle_comment, true, false, false, "/"@),
            is_binding(r.delete_line, true, true, false, "k"@),
    {
        Shortcuts {
            new_file: ShortcutConfig::ctrl("n"),
            open_file: ShortcutConfig::ctrl("o"),
            save_file: ShortcutConfig::ctrl("s"),
            save_as: ShortcutConfig::ctrl_shift("s"),
            close_file: ShortcutConfig::ctrl("w"),
            find: ShortcutConfig::ctrl("f"),
            select_all: ShortcutConfig::ctrl("a"),
            format_code: ShortcutConfig::ctrl_shift("f"),
            goto_line: ShortcutConfig::ctrl("g"),
            toggle_sidebar: ShortcutConfig::ctrl("b"),
            quit: ShortcutConfig::ctrl("q"),
            undo: ShortcutConfig::ctrl("z"),
            redo: ShortcutConfig::ctrl("y"),
            duplicate_line: default_duplicate_line(),
            move_line_up: default_move_line_up(),
            move_line_down: default_move_line_down(),
            toggle_comment: default_toggle_comment(),
            delete_line: default_delete_line(),
        }
    }
}

impl Shortcuts {
    /// The binding of one action.
    pub open spec fn binding_spec(&self, t: ShortcutTarget) -> ShortcutConfig {
        match t {
            ShortcutTarget::NewFile => self.new_file,
            ShortcutTarget::OpenFile => self.open_file,
            ShortcutTarget::SaveFile => self.save_file,
            ShortcutTarget::SaveAs => self.save_as,
            ShortcutTarget::CloseFile => self.close_file,
            ShortcutTarget::Find => self.find,
            ShortcutTarget::SelectAll => self.select_all,
            ShortcutTarget::FormatCode => self.format_code,
            ShortcutTarget::GotoLine => self.goto_line,
            ShortcutTarget::ToggleSidebar => self.toggle_sidebar,
            ShortcutTarget::Quit => self.quit,
            ShortcutTarget::Undo => self.undo,
            ShortcutTarget::Redo => self.redo,
            ShortcutTarget::DuplicateLine => self.duplicate_line,
            ShortcutTarget::MoveLineUp => self.move_line_up,
            ShortcutTarget::MoveLineDown => self.move_line_down,
            ShortcutTarget::ToggleComment => self.toggle_comment,
            ShortcutTarget::DeleteLine => self.delete_line,
        }
    }

    /// The binding of one action.
    pub fn binding(&self, t: ShortcutTarget) -> (r: &ShortcutConfig)
        ensures
            *r == self.binding_spec(t),
    {
        match t {
            ShortcutTarget::NewFile => &self.new_file,
            ShortcutTarget::OpenFile => &self.open_file,
            ShortcutTarget::SaveFile => &self.save_file,
            ShortcutTarget::SaveAs => &self.save_as,
            ShortcutTarget::CloseFile => &self.close_file,
            ShortcutTarget::Find => &self.find,
            ShortcutTarget::SelectAll => &self.select_all,
            ShortcutTarget::FormatCode => &self.format_code,
            ShortcutTarget::GotoLine => &self.goto_line,
            ShortcutTarget::ToggleSidebar => &self.toggle_sidebar,
            ShortcutTarget::Quit => &self.quit,
            ShortcutTarget::Undo => &self.undo,
            ShortcutTarget::Redo => &self.redo,
            ShortcutTarget::DuplicateLine => &self.duplicate_line,
            ShortcutTarget::MoveLineUp => &self.move_line_up,
            ShortcutTarget::MoveLineDown => &self.move_line_down,
            ShortcutTarget::ToggleComment => &self.toggle_comment,
            ShortcutTarget::DeleteLine => &self.delete_line,
        }
    }

    /// Rebinds one action (what a captured key press does in the shortcuts
    /// panel); every other binding stays.
    pub fn set_binding(&mut self, t: ShortcutTarget, sc: ShortcutConfig)
        ensures
            final(self).binding_spec(t) == sc,
            forall|u: ShortcutTarget| u != t ==> final(self).binding_spec(u) == old(self).binding_spec(u),
    {
        match t {
            ShortcutTarget::NewFile => self.new_file = sc,
            ShortcutTarget::OpenFile => self.open_file = sc,
            ShortcutTarget::SaveFile => self.save_file = sc,
            ShortcutTarget::SaveAs => self.save_as = sc,
            ShortcutTarget::CloseFile => self.close_file = sc,
            ShortcutTarget::Find => self.find = sc,
            ShortcutTarget::SelectAll => self.select_all = sc,
            ShortcutTarget::FormatCode => self.format_code = sc,
            ShortcutTarget::GotoLine => self.goto_line = sc,
            ShortcutTarget::ToggleSidebar => self.toggle_sidebar = sc,
            ShortcutTarget::Quit => self.quit = sc,
            ShortcutTarget::Undo => self.undo = sc,
            ShortcutTarget::Redo => self.redo = sc,
            ShortcutTarget::DuplicateLine => self.duplicate_line = sc,
            ShortcutTarget::MoveLineUp => self.move_line_up = sc,
            ShortcutTarget::MoveLineDown => self.move_line_down = sc,
            ShortcutTarget::ToggleComment => self.toggle_comment = sc,
            ShortcutTarget::DeleteLine => self.delete_line = sc,
        }
    }

    /// The action a key press triggers: the first action, in `precedence`
    /// order, whose binding matches the press; `None` when none does.
    pub fn matching_target(&self, key: &str, ctrl: bool, shift: bool, alt: bool) -> (r: Option<ShortcutTarget>)
        ensures
            match r {
                Some(t) => exists|i: int|
                    0 <= i < precedence().len() && precedence()[i] == t && press_matches(
                        self.binding_spec(t),
                        key@,
                        ctrl,
                        shift,
                        alt,
                    ) && forall|j: int|
                        0 <= j < i ==> !press_matches(
                            self.binding_spec(#[trigger] precedence()[j]),
                            key@,
                            ctrl,
                            shift,
                            alt,
                        ),
                None => forall|j: int|
                    0 <= j < precedence().len() ==> !press_matches(
                        self.binding_spec(#[trigger] precedence()[j]),
                        key@,
                        ctrl,
                        shift,
                        alt,
                    ),
            },
    {
        let order: [ShortcutTarget; 18] = [
            ShortcutTarget::Undo,
            ShortcutTarget::Redo,
            ShortcutTarget::DuplicateLine,
            ShortcutTarget::MoveLineUp,
            ShortcutTarget::MoveLineDown,
            ShortcutTarget::ToggleComment,
            ShortcutTarget::DeleteLine,
            ShortcutTarget::SaveAs,
            ShortcutTarget::NewFile,
            ShortcutTarget::SaveFile,
            ShortcutTarget::OpenFile,
            ShortcutTarget::CloseFile,
            ShortcutTarget::Find,
            ShortcutTarget::SelectAll,
            ShortcutTarget::FormatCode,
            ShortcutTarget::GotoLine,
            ShortcutTarget::ToggleSidebar,
            ShortcutTarget::Quit,
        ];
        assert(order@ =~= precedence());
        let mut i: usize = 0;
        while i < 18
            invariant
                i <= 18,
                order@ == precedence(),
                forall|j: int|
                    0 <= j < i ==> !press_matches(
                        self.binding_spec(#[trigger] precedence()[j]),
                        key@,
                        ctrl,
                        shift,
                        alt,
                    ),
            decreases 18 - i,
        {
            let t = order[i];
            if self.binding(t).matches_press(key, ctrl, shift, alt) {
                return Some(t);
            }
            i = i + 1;
        }
        None
    }
}

// ─── Recent files ──────────────────────────────────────────────────────────

/// Paths of unsaved buffers start with this scheme.
pub open spec fn untitled_scheme() -> Seq<char> {
    "untitled://"@
}

/// Whether a path names an unsaved buffer.
pub open spec fn is_untitled_spec(path: Seq<char>) -> bool {
    seq_starts_with(path, untitled_scheme())
}

/// Holds for every path but `path`.
pub open spec fn other_than(path: Seq<char>) -> spec_fn(Seq<char>) -> bool {
    |f: Seq<char>| f != path
}

/// The recent-files list after opening or saving `path`: unchanged for an
/// unsaved buffer; otherwise `path` first, followed by the other entries in
/// their order, at most ten in all.
pub open spec fn add_recent_spec(recent: Seq<Seq<char>>, path: Seq<char>) -> Seq<Seq<char>> {
    if is_untitled_spec(path) {
        recent
    } else {
        let l = seq![path] + recent.filter(other_than(path));
        if l.len() > 10 {
            l.take(10)
        } else {
            l
        }
    }
}

/// Whether a path names an unsaved buffer (`untitled://…`).
pub fn is_untitled(path: &str) -> (r: bool)
    ensures
        r == is_untitled_spec(path@),
{
    let p = chars_of(path);
    let scheme = chars_of("untitled://");
    let r = starts_with_at(&p, 0, &scheme);
    assert(p@.skip(0) =~= p@);
    r
}

pub open spec fn recent_views(v: Seq<String>) -> Seq<Seq<char>> {
    Seq::new(v.len(), |i: int| v[i]@)
}

/// Adds a file to the recent-files list: at most ten entries, no duplicate
/// of it, and unsaved buffers are never listed.
pub fn add_recent(recent_files: &mut Vec<String>, path: &str)
    ensures
        recent_views(final(recent_files)@) == add_recent_spec(recent_views(old(recent_files)@), path@),
{
    if is_untitled(path) {
        return;
    }
    let ghost old_views = recent_views(recent_files@);
    let ghost pred = other_than(path@);
    let p = string_of(chars_of(path).as_slice());
    let mut kept: Vec<String> = Vec::new();
    kept.push(p);
    let mut i: usize = 0;
    while i < recent_files.len()
        invariant
            i <= recent_files.len(),
            old_views == recent_views(recent_files@),
            pred == other_than(path@),
            recent_views(kept@) == seq![path@] + old_views.take(i as int).filter(pred),
        decreases recent_files.len() - i,
    {
        proof {
            reveal_with_fuel(Seq::<_>::filter, 1);
            assert(old_views.take(i + 1).drop_last() =~= old_views.take(i as int));
        }
        let ghost before = recent_views(kept@);
        if !str_eq(recent_files[i].as_str(), path) {
            let f = recent_files[i].clone();
            kept.push(f);
            assert(recent_views(kept@) =~= before.push(old_views[i as int]));
        } else {
            assert(recent_views(kept@) =~= before);
        }
        i = i + 1;
    }
    assert(old_views.take(recent_files.len() as int) =~= old_views);
    if kept.len() > 10 {
        let ghost before = recent_views(kept@);
        kept.truncate(10);
        assert(recent_views(kept@) =~= before.take(10));
    }
    *recent_files = kept;
}

/// The text one indentation level inserts: `tab_width` spaces, or a tab.
pub open spec fn indent_unit_spec(use_spaces: bool, tab_width: nat) -> Seq<char> {
    if use_spaces {
        Seq::new(tab_width, |i: int| ' ')
    } else {
        seq!['\t']
    }
}

/// The text one indentation level inserts: `tab_width` spaces, or a tab.
pub fn indent_unit(use_spaces: bool, tab_width: usize) -> (r: String)
    ensures
        r@ == indent_unit_spec(use_spaces, tab_width as nat),
{
    let mut v: Vec<char> = Vec::new();
    if use_spaces {
        let mut i: usize = 0;
        while i < tab_width
            invariant
                i <= tab_width,
                v@ =~= Seq::new(i as nat, |k: int| ' '),
            decreases tab_width - i,
        {
            v.push(' ');
            i = i + 1;
        }
    } else {
        v.push('\t');
    }
    string_of(v.as_slice())
}


/// The path of the `n`-th unsaved buffer.
pub open spec fn untitled_path_spec(n: nat) -> Seq<char> {
    untitled_scheme() + decimal(n)
}

/// The path of the `n`-th unsaved buffer: `untitled://n`.
pub fn untitled_path(n: u32) -> (r: String)
    ensures
        r@ == untitled_path_spec(n as nat),
{
    let mut s = String::from_str("untitled://");
    let d = decimal_exec(n as u64);
    s.append(string_of(d.as_slice()).as_str());
    s
}

/// Every path made by `untitled_path` names an unsaved buffer.
pub proof fn law_untitled_path_is_untitled(n: nat)
    ensures
        is_untitled_spec(untitled_path_spec(n)),
{
    assert(untitled_path_spec(n).take(untitled_scheme().len() as int) =~= untitled_scheme());
}


proof fn lemma_decimal_nonempty(n: nat)
    ensures
        decimal(n).len() >= 1,
        n >= 10 ==> decimal(n).len() >= 2,
    decreases n,
{
    if n >= 10 {
        lemma_decimal_nonempty(n / 10);
    }
}

proof fn lemma_decimal_injective(n: nat, m: nat)
    requires
        decimal(n) == decimal(m),
    ensures
        n == m,
    decreases n,
{
    lemma_decimal_nonempty(n);
    lemma_decimal_nonempty(m);
    if n < 10 && m < 10 {
        assert(decimal(n) == seq![digit_char(n)]);
        assert(decimal(m) == seq![digit_char(m)]);
        assert(seq![digit_char(n)][0] == digit_char(n));
        assert(seq![digit_char(m)][0] == digit_char(m));
        assert(decimal(n)[0] == decimal(m)[0]);
        assert(digit_char(n) == digit_char(m));
        assert((((48 + n) as u8) as char) as u32 == (48 + n) as u8);
        assert((((48 + m) as u8) as char) as u32 == (48 + m) as u8);
    } else if n >= 10 && m >= 10 {
        assert(decimal(n).drop_last() =~= decimal(n / 10));
        assert(decimal(m).drop_last() =~= decimal(m / 10));
        lemma_decimal_injective(n / 10, m / 10);
        assert(decimal(n).last() == digit_char(n % 10));
        assert(decimal(m).last() == digit_char(m % 10));
        let a = n % 10;
        let b = m % 10;
        assert((((48 + a) as u8) as char) as u32 == (48 + a) as u8);
        assert((((48 + b) as u8) as char) as u32 == (48 + b) as u8);
    } else {
        assert(decimal(n).len() != decimal(m).len());
    }
}

/// Different counts give different unsaved-buffer paths, so every new buffer
/// gets a name of its own.
pub proof fn law_untitled_paths_distinct(n: nat, m: nat)
    requires
        n != m,
    ensures
        untitled_path_spec(n) != untitled_path_spec(m),
{
    if untitled_path_spec(n) == untitled_path_spec(m) {
        let k = untitled_scheme().len() as int;
        assert(untitled_path_spec(n).skip(k) =~= decimal(n));
        assert(untitled_path_spec(m).skip(k) =~= decimal(m));
        lemma_decimal_injective(n, m);
    }
}

proof fn lemma_filter_no_dup(s: Seq<Seq<char>>, pred: spec_fn(Seq<char>) -> bool)
    requires
        no_duplicates(s),
    ensures
        no_duplicates(s.filter(pred)),
    decreases s.len(),
{
    reveal_with_fuel(Seq::<_>::filter, 1);
    if s.len() > 0 {
        let d = s.drop_last();
        assert(no_duplicates(d)) by {
            assert forall|i: int, j: int| 0 <= i < j < d.len() implies d[i] != d[j] by {
                assert(d[i] == s[i] && d[j] == s[j]);
            }
        }
        lemma_filter_no_dup(d, pred);
        if pred(s.last()) {
            let f = d.filter(pred);
            assert(!f.contains(s.last())) by {
                if f.contains(s.last()) {
                    d.lemma_filter_contains_rev(pred, s.last());
                    let k = choose|k: int| 0 <= k < d.len() && d[k] == s.last();
                    assert(s[k] == s[s.len() - 1]);
                }
            }
            assert forall|i: int, j: int|
                0 <= i < j < f.push(s.last()).len() implies f.push(s.last())[i] != f.push(
                s.last(),
            )[j] by {
                if j == f.len() {
                    assert(f.push(s.last())[i] == f[i]);
                }
            }
        }
    }
}

/// After adding a file that is not an unsaved buffer, the recent-files list
/// has at most ten entries, starts with that file and lists it only once,
/// and a list without duplicates stays without duplicates.
pub proof fn law_add_recent(recent: Seq<Seq<char>>, path: Seq<char>)
    requires
        !is_untitled_spec(path),
    ensures
        add_recent_spec(recent, path).len() <= 10,
        add_recent_spec(recent, path)[0] == path,
        forall|i: int|
            1 <= i < add_recent_spec(recent, path).len() ==> #[trigger] add_recent_spec(
                recent,
                path,
            )[i] != path,
        no_duplicates(recent) ==> no_duplicates(add_recent_spec(recent, path)),
{
    let pred = other_than(path);
    let f = recent.filter(pred);
    let l = seq![path] + f;
    assert forall|i: int| 0 <= i < f.len() implies #[trigger] f[i] != path by {
        recent.lemma_filter_pred(pred, i);
    }
    assert forall|i: int| 1 <= i < l.len() implies #[trigger] l[i] != path by {
        assert(l[i] == f[i - 1]);
    }
    if no_duplicates(recent) {
        lemma_filter_no_dup(recent, pred);
        assert forall|i: int, j: int| 0 <= i < j < l.len() implies l[i] != l[j] by {
            if i > 0 {
                assert(l[i] == f[i - 1] && l[j] == f[j - 1]);
            }
        }
    }
    let r = add_recent_spec(recent, path);
    if l.len() > 10 {
        assert(r == l.take(10));
        assert forall|i: int| 1 <= i < r.len() implies #[trigger] r[i] != path by {
            assert(r[i] == l[i]);
        }
        if no_duplicates(recent) {
            assert forall|i: int, j: int| 0 <= i < j < r.len() implies r[i] != r[j] by {
                assert(r[i] == l[i] && r[j] == l[j]);
            }
        }
    }
}


/// Removes every entry equal to `path` from the recent-files list (a listed
/// file that no longer exists).
pub fn forget_recent(recent_files: &mut Vec<String>, path: &str)
    ensures
        recent_views(final(recent_files)@) == recent_views(old(recent_files)@).filter(
            other_than(path@),
        ),
{
    let ghost old_views = recent_views(recent_files@);
    let ghost pred = other_than(path@);
    let mut kept: Vec<String> = Vec::new();
    let mut i: usize = 0;
    while i < recent_files.len()
        invariant
            i <= recent_files.len(),
            old_views == recent_views(recent_files@),
            pred == other_than(path@),
            recent_views(kept@) == old_views.take(i as int).filter(pred),
        decreases recent_files.len() - i,
    {
        proof {
            reveal_with_fuel(Seq::<_>::filter, 1);
            assert(old_views.take(i + 1).drop_last() =~= old_views.take(i as int));
        }
        let ghost before = recent_views(kept@);
        if !str_eq(recent_files[i].as_str(), path) {
            let f = recent_files[i].clone();
            kept.push(f);
            assert(recent_views(kept@) =~= before.push(old_views[i as int]));
        } else {
            assert(recent_views(kept@) =~= before);
        }
        i = i + 1;
    }
    assert(old_views.take(recent_files.len() as int) =~= old_views);
    *recent_files = kept;
}

/// The editor settings kept between runs, apart from the font size.
#[derive(Debug, Clone)]
pub struct Settings {
    pub dark_mode: bool,
    pub font_family: String,
    pub tab_width: usize,
    pub use_spaces: bool,
    pub show_line_numbers: bool,
    pub word_wrap: bool,
    pub auto_indent: bool,
    pub autocomplete_brackets: bool,
    pub autocomplete_quotes: bool,
    pub show_page_guide: bool,
    pub page_guide_column: usize,
    pub highlight_current_line: bool,
    pub locale: String,
    pub shortcuts: Shortcuts,
    pub recent_files: Vec<String>,
}

impl Default for Settings {
    /// Light theme, "Monospace", four-space indentation, line numbers, word
    /// wrap, auto-indent and auto-closing on, page guide off at column 80,
    /// current line highlighted, English, default shortcuts, no recent
    /// files.
    fn default() -> (r: Self)
        ensures
            !r.dark_mode,
            r.font_family@ == "Monospace"@,
            r.tab_width == 4,
            r.use_spaces,
            r.show_line_numbers,
            r.word_wrap,
            r.auto_indent,
            r.autocomplete_brackets,
            r.autocomplete_quotes,
            !r.show_page_guide,
            r.page_guide_column == 80,
            r.highlight_current_line,
            r.locale@ == "en"@,
            r.recent_files.len() == 0,
            is_binding(r.shortcuts.new_file, true, false, false, "n"@),
            is_binding(r.shortcuts.open_file, true, false, false, "o"@),
            is_binding(r.shortcuts.save_file, true, false, false, "s"@),
            is_binding(r.shortcuts.save_as, true, true, false, "s"@),
            is_binding(r.shortcuts.close_file, true, false, false, "w"@),
            is_binding(r.shortcuts.find, true, false, false, "f"@),
            is_binding(r.shortcuts.select_all, true, false, false, "a"@),
            is_binding(r.shortcuts.format_code, true, true, false, "f"@),
            is_binding(r.shortcuts.goto_line, true, false, false, "g"@),
            is_binding(r.shortcuts.toggle_sidebar, true, false, false, "b"@),
            is_binding(r.shortcuts.quit, true, false, false, "q"@),
            is_binding(r.shortcuts.undo, true, false, false, "z"@),
            is_binding(r.shortcuts.redo, true, false, false, "y"@),
            is_binding(r.shortcuts.duplicate_line, true, true, false, "d"@),
            is_binding(r.shortcuts.move_line_up, false, false, true, "ArrowUp"@),
            is_binding(r.shortcuts.move_line_down, false, false, true, "ArrowDown"@),
            is_binding(r.shortcuts.toggle_comment, true, false, false, "/"@),
            is_binding(r.shortcuts.delete_line, true, true, false, "k"@),
    {
        Settings {
            dark_mode: false,
            font_family: String::from_str("Monospace"),
            tab_width: 4,
            use_spaces: true,
            show_line_numbers: true,
            word_wrap: true,
            auto_indent: true,
            autocomplete_brackets: true,
            autocomplete_quotes: true,
            show_page_guide: false,
            page_guide_column: 80,
            highlight_current_line: true,
            locale: String::from_str("en"),
            shortcuts: Shortcuts::default(),
            recent_files: Vec::new(),
        }
    }
}

/// A change made in the preferences panel.
#[derive(Debug, Clone)]
pub enum PreferenceChange {
    TabWidth(usize),
    UseSpaces(bool),
    ShowLineNumbers(bool),
    WordWrap(bool),
    AutoIndent(bool),
    AutocompleteBrackets(bool),
    AutocompleteQuotes(bool),
    ShowPageGuide(bool),
    PageGuideColumn(usize),
    HighlightCurrentLine(bool),
    Locale(String),
}

/// Whether `new` is `old` after one preference change: that setting takes
/// the new value and every other setting stays.
pub open spec fn applied(old: Settings, new: Settings, change: PreferenceChange) -> bool {
    match change {
        PreferenceChange::TabWidth(v) => new == Settings { tab_width: v, ..old },
        PreferenceChange::UseSpaces(v) => new == Settings { use_spaces: v, ..old },
        PreferenceChange::ShowLineNumbers(v) => new == Settings { show_line_numbers: v, ..old },
        PreferenceChange::WordWrap(v) => new == Settings { word_wrap: v, ..old },
        PreferenceChange::AutoIndent(v) => new == Settings { auto_indent: v, ..old },
        PreferenceChange::AutocompleteBrackets(v) => new == Settings {
            autocomplete_brackets: v,
            ..old
        },
        PreferenceChange::AutocompleteQuotes(v) => new == Settings { autocomplete_quotes: v, ..old },
        PreferenceChange::ShowPageGuide(v) => new == Settings { show_page_guide: v, ..old },
        PreferenceChange::PageGuideColumn(v) => new == Settings { page_guide_column: v, ..old },
        PreferenceChange::HighlightCurrentLine(v) => new == Settings {
            highlight_current_line: v,
            ..old
        },
        PreferenceChange::Locale(v) => new == Settings { locale: v, ..old },
    }
}

impl Settings {
    /// Applies one preference change; every other setting stays.
    #[verifier::spinoff_prover]
    pub fn apply(&mut self, change: PreferenceChange)
        ensures
            applied(*old(self), *final(self), change),
    {
        match change {
            PreferenceChange::TabWidth(v) => self.tab_width = v,
            PreferenceChange::UseSpaces(v) => self.use_spaces = v,
            PreferenceChange::ShowLineNumbers(v) => self.show_line_numbers = v,
            PreferenceChange::WordWrap(v) => self.word_wrap = v,
            PreferenceChange::AutoIndent(v) => self.auto_indent = v,
            PreferenceChange::AutocompleteBrackets(v) => self.autocomplete_brackets = v,
            PreferenceChange::AutocompleteQuotes(v) => self.autocomplete_quotes = v,
            PreferenceChange::ShowPageGuide(v) => self.show_page_guide = v,
            PreferenceChange::PageGuideColumn(v) => self.page_guide_column = v,
            PreferenceChange::HighlightCurrentLine(v) => self.highlight_current_line = v,
            PreferenceChange::Locale(v) => self.locale = v,
        }
    }
}


/// A press matches a binding only when every modifier agrees and the key
/// has the binding's length; pressing exactly the bound key with exactly
/// its modifiers always matches.
pub proof fn law_press_needs_every_modifier(
    sc: ShortcutConfig,
    key: Seq<char>,
    ctrl: bool,
    shift: bool,
    alt: bool,
)
    ensures
        press_matches(sc, key, ctrl, shift, alt) ==> {
            &&& sc.ctrl == ctrl
            &&& sc.shift == shift
            &&& sc.alt == alt
            &&& key.len() == sc.key@.len()
        },
        press_matches(sc, sc.key@, sc.ctrl, sc.shift, sc.alt),
        press_matches(sc, key, ctrl, shift, alt) ==> !press_matches(sc, key, ctrl, shift, !alt)
            && !press_matches(sc, key, !ctrl, shift, alt) && !press_matches(sc, key, ctrl, !shift, alt),
{
}


/// Key presses that differ only in the ASCII case of their letters match
/// the same bindings, and an upper-case ASCII letter is its lower-case one
/// ignoring case.
pub proof fn law_press_ignores_ascii_case(
    sc: ShortcutConfig,
    k1: Seq<char>,
    k2: Seq<char>,
    ctrl: bool,
    shift: bool,
    alt: bool,
)
    requires
        k1.len() == k2.len(),
        forall|i: int| 0 <= i < k1.len() ==> ascii_lower(#[trigger] k1[i]) == ascii_lower(k2[i]),
    ensures
        press_matches(sc, k1, ctrl, shift, alt) == press_matches(sc, k2, ctrl, shift, alt),
        forall|c: char| 'A' <= c <= 'Z' ==> #[trigger] ascii_lower(c) != c && ascii_lower(c) as u32 == c as u32 + 32,
{
    assert forall|c: char| 'A' <= c <= 'Z' implies #[trigger] ascii_lower(c) != c && ascii_lower(c) as u32 == c as u32 + 32 by {
        assert(((c as u32 + 32) as u8) as char as u32 == c as u32 + 32);
    }
    if press_matches(sc, k1, ctrl, shift, alt) {
        assert forall|i: int| 0 <= i < sc.key@.len() implies ascii_lower(#[trigger] sc.key@[i]) == ascii_lower(k2[i]) by {
            assert(ascii_lower(sc.key@[i]) == ascii_lower(k1[i]));
        }
    }
    if press_matches(sc, k2, ctrl, shift, alt) {
        assert forall|i: int| 0 <= i < sc.key@.len() implies ascii_lower(#[trigger] sc.key@[i]) == ascii_lower(k1[i]) by {
            assert(ascii_lower(sc.key@[i]) == ascii_lower(k2[i]));
        }
    }
}
} // verus!
