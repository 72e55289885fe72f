//! Menus, modal overlays, keyboard dispatch and the go-to-line dialog.

use vstd::prelude::*;

use crate::config::{precedence, press_matches, ShortcutConfig, ShortcutTarget, Shortcuts};
use crate::search::{lowercase, to_lowercase};
use crate::text::{chars_of, decimal, decimal_exec, is_digit, parse_unsigned, parse_unsigned_spec, string_of};

verus! {

/// The menus of the menu bar.
#[derive(Debug, Clone, Copy, PartialEq, Eq, Structural)]
pub enum TopMenu {
    File,
    Edit,
    View,
    Help,
}

/// Which modal overlay, if any, is shown.
#[derive(Debug, Clone, Copy, PartialEq, Eq, Structural)]
pub enum ActiveOverlay {
    Closed,
    About,
    GotoLine,
    LanguagePicker,
    Shortcuts { capturing: Option<ShortcutTarget> },
}

/// Clicking a menu title opens that menu, or closes it when it is already
/// open.
pub fn toggle_menu(open: Option<TopMenu>, menu: TopMenu) -> (r: Option<TopMenu>)
    ensures
        r == if open == Some(menu) {
            None
        } else {
            Some(menu)
        },
{
    match open {
        Some(m) => if m == menu {
            None
        } else {
            Some(menu)
        },
        None => Some(menu),
    }
}

/// What a key press led to.
#[derive(Debug, Clone, Copy, PartialEq, Eq, Structural)]
pub enum KeyOutcome {
    /// The shortcuts panel was capturing: the action got the pressed keys.
    Rebound(ShortcutTarget),
    /// An overlay is open, so shortcuts are not fired.
    Blocked,
    /// The press triggers this action.
    Trigger(ShortcutTarget),
    /// No binding matches the press.
    Unbound,
}

/// What a key press does to the overlay and the bindings, and what it
/// leads to: while the shortcuts panel captures a binding, the pressed keys
/// become that action's binding and capturing stops; while another overlay
/// is open nothing happens; otherwise the first matching binding (in
/// `precedence` order) names the action to run.
pub open spec fn key_press_spec(
    old_overlay: ActiveOverlay,
    new_overlay: ActiveOverlay,
    old_shortcuts: Shortcuts,
    new_shortcuts: Shortcuts,
    key: String,
    ctrl: bool,
    shift: bool,
    alt: bool,
    r: KeyOutcome,
) -> bool {
    match old_overlay {
        ActiveOverlay::Shortcuts { capturing: Some(t) } => {
            &&& r == KeyOutcome::Rebound(t)
            &&& new_overlay == ActiveOverlay::Shortcuts { capturing: None }
            &&& new_shortcuts.binding_spec(t) == (ShortcutConfig { ctrl, shift, alt, key })
            &&& forall|u: ShortcutTarget|
                u != t ==> new_shortcuts.binding_spec(u) == old_shortcuts.binding_spec(u)
        },
        ActiveOverlay::Closed => {
            &&& new_overlay == old_overlay
            &&& new_shortcuts == old_shortcuts
            &&& match r {
                KeyOutcome::Trigger(t) => exists|i: int|
                    0 <= i < precedence().len() && precedence()[i] == t && press_matches(
                        old_shortcuts.binding_spec(t),
                        key@,
                        ctrl,
                        shift,
                        alt,
                    ) && forall|j: int|
                        0 <= j < i ==> !press_matches(
                            old_shortcuts.binding_spec(#[trigger] precedence()[j]),
                            key@,
                            ctrl,
                            shift,
                            alt,
                        ),
                KeyOutcome::Unbound => forall|j: int|
                    0 <= j < precedence().len() ==> !press_matches(
                        old_shortcuts.binding_spec(#[trigger] precedence()[j]),
                        key@,
                        ctrl,
                        shift,
                        alt,
                    ),
                _ => false,
            }
        },
        _ => {
            &&& r == KeyOutcome::Blocked
            &&& new_overlay == old_overlay
            &&& new_shortcuts == old_shortcuts
        },
    }
}

/// Handles a key press (key name and held modifiers). While the shortcuts
/// panel captures a binding, the pressed keys become that action's binding
/// and capturing stops; while another overlay is open nothing happens;
/// otherwise the first matching binding (see `Shortcuts::matching_target`)
/// names the action to run.
pub fn handle_key_press(
    overlay: &mut ActiveOverlay,
    shortcuts: &mut Shortcuts,
    key: String,
    ctrl: bool,
    shift: bool,
    alt: bool,
) -> (r: KeyOutcome)
    ensures
        key_press_spec(*old(overlay), *final(overlay), *old(shortcuts), *final(shortcuts), key, ctrl, shift, alt, r),
{
    match *overlay {
        ActiveOverlay::Shortcuts { capturing: Some(t) } => {
            shortcuts.set_binding(t, ShortcutConfig { ctrl, shift, alt, key });
            *overlay = ActiveOverlay::Shortcuts { capturing: None };
            KeyOutcome::Rebound(t)
        },
        ActiveOverlay::Closed => match shortcuts.matching_target(key.as_str(), ctrl, shift, alt) {
            Some(t) => KeyOutcome::Trigger(t),
            None => KeyOutcome::Unbound,
        },
        _ => KeyOutcome::Blocked,
    }
}

/// The ASCII digits of `s`, in order.
pub open spec fn digits_of(s: Seq<char>) -> Seq<char>
    decreases s.len(),
{
    if s.len() == 0 {
        s
    } else if is_digit(s.last()) {
        digits_of(s.drop_last()).push(s.last())
    } else {
        digits_of(s.drop_last())
    }
}

/// What the go-to-line field keeps of typed text: its ASCII digits.
pub fn digits_only(s: &str) -> (r: String)
    ensures
        r@ == digits_of(s@),
{
    let v = chars_of(s);
    let mut out: Vec<char> = Vec::new();
    let mut i: usize = 0;
    assert(v@.take(0) =~= Seq::<char>::empty());
    while i < v.len()
        invariant
            i <= v.len(),
            v@ == s@,
            out@ == digits_of(v@.take(i as int)),
        decreases v.len() - i,
    {
        assert(v@.take(i + 1).drop_last() =~= v@.take(i as int));
        let c = v[i];
        if '0' <= c && c <= '9' {
            out.push(c);
        }
        i = i + 1;
    }
    assert(v@.take(v.len() as int) =~= v@);
    string_of(out.as_slice())
}

/// `line` moved into `0..line_count`, the last line when past the end (or 0
/// for an empty document).
pub open spec fn clamp_line_spec(line: nat, line_count: nat) -> nat {
    let max = if line_count == 0 {
        0
    } else {
        (line_count - 1) as nat
    };
    if line < max {
        line
    } else {
        max
    }
}

pub fn clamp_line(line: usize, line_count: usize) -> (r: usize)
    ensures
        r == clamp_line_spec(line as nat, line_count as nat),
{
    let max = if line_count == 0 {
        0
    } else {
        line_count - 1
    };
    if line < max {
        line
    } else {
        max
    }
}

/// The 0-based line a go-to-line request lands on: the 1-based number typed
/// (0 meaning the first line), clamped to the document; `None` when the text
/// is not a number that fits in a `usize` (the request is then dropped).
pub open spec fn goto_target_spec(input: Seq<char>, line_count: nat) -> Option<nat> {
    match parse_unsigned_spec(input, usize::MAX as nat) {
        Some(n) => Some(
            clamp_line_spec(
                if n == 0 {
                    0
                } else {
                    (n - 1) as nat
                },
                line_count,
            ),
        ),
        None => None,
    }
}

pub fn goto_target(input: &str, line_count: usize) -> (r: Option<usize>)
    ensures
        match r {
            Some(t) => goto_target_spec(input@, line_count as nat) == Some(t as nat),
            None => goto_target_spec(input@, line_count as nat) is None,
        },
{
    let v = chars_of(input);
    match parse_unsigned(&v, usize::MAX as u64) {
        Some(n) => {
            let n = n as usize;
            let t = if n == 0 {
                0
            } else {
                n - 1
            };
            Some(clamp_line(t, line_count))
        },
        None => None,
    }
}


/// The position of an action in `precedence`.
proof fn lemma_precedence_index(t: ShortcutTarget) -> (i: int)
    ensures
        0 <= i < precedence().len(),
        precedence()[i] == t,
{
    match t {
        ShortcutTarget::Undo => 0,
        ShortcutTarget::Redo => 1,
        ShortcutTarget::DuplicateLine => 2,
        ShortcutTarget::MoveLineUp => 3,
        ShortcutTarget::MoveLineDown => 4,
        ShortcutTarget::ToggleComment => 5,
        ShortcutTarget::DeleteLine => 6,
        ShortcutTarget::SaveAs => 7,
        ShortcutTarget::NewFile => 8,
        ShortcutTarget::SaveFile => 9,
        ShortcutTarget::OpenFile => 10,
        ShortcutTarget::CloseFile => 11,
        ShortcutTarget::Find => 12,
        ShortcutTarget::SelectAll => 13,
        ShortcutTarget::FormatCode => 14,
        ShortcutTarget::GotoLine => 15,
        ShortcutTarget::ToggleSidebar => 16,
        ShortcutTarget::Quit => 17,
    }
}

/// A binding captured in the shortcuts panel takes effect at once: pressing
/// the same keys with no overlay open triggers that action, or an action
/// tried before it (in `precedence`) that has the same binding.
pub proof fn law_captured_binding_triggers(
    shortcuts: Shortcuts,
    rebound: Shortcuts,
    t: ShortcutTarget,
    overlay_after: ActiveOverlay,
    key: String,
    ctrl: bool,
    shift: bool,
    alt: bool,
    r: KeyOutcome,
)
    requires
        key_press_spec(
            ActiveOverlay::Shortcuts { capturing: Some(t) },
            overlay_after,
            shortcuts,
            rebound,
            key,
            ctrl,
            shift,
            alt,
            KeyOutcome::Rebound(t),
        ),
        key_press_spec(
            ActiveOverlay::Closed,
            ActiveOverlay::Closed,
            rebound,
            rebound,
            key,
            ctrl,
            shift,
            alt,
            r,
        ),
    ensures
        r matches KeyOutcome::Trigger(u) && exists|i: int, j: int|
            0 <= i <= j < precedence().len() && precedence()[i] == u && precedence()[j] == t,
{
    let j = lemma_precedence_index(t);
    assert(press_matches(rebound.binding_spec(t), key@, ctrl, shift, alt));
    assert(press_matches(rebound.binding_spec(precedence()[j]), key@, ctrl, shift, alt));
    match r {
        KeyOutcome::Trigger(u) => {
            let i = choose|i: int|
                0 <= i < precedence().len() && precedence()[i] == u && press_matches(
                    rebound.binding_spec(u),
                    key@,
                    ctrl,
                    shift,
                    alt,
                ) && forall|k: int|
                    0 <= k < i ==> !press_matches(
                        rebound.binding_spec(#[trigger] precedence()[k]),
                        key@,
                        ctrl,
                        shift,
                        alt,
                    );
            if j < i {
                assert(!press_matches(rebound.binding_spec(precedence()[j]), key@, ctrl, shift, alt));
            }
            assert(0 <= i <= j < precedence().len() && precedence()[i] == u && precedence()[j] == t);
        },
        _ => {},
    }
}


/// A key as the keyboard reports it, reduced to what the editor tells
/// apart.
#[derive(Debug, Clone, PartialEq, Eq)]
pub enum PressedKey {
    Escape,
    Tab,
    Enter,
    ArrowUp,
    ArrowDown,
    /// A function key F1, F2, …
    Function(u8),
    /// A key that types this text.
    Character(String),
    Other,
}

/// What a key press is forwarded as.
#[derive(Debug, Clone, PartialEq, Eq)]
pub enum KeyEvent {
    /// Escape: closes an overlay.
    Escape,
    /// Tab: indents.
    Indent,
    /// Shift+Tab: removes one indentation level.
    Dedent,
    /// A key to match against the shortcuts, by name, with the held
    /// modifiers (`ctrl` is the platform's command key).
    Press { key: String, ctrl: bool, shift: bool, alt: bool },
    /// Not forwarded.
    Ignored,
}

/// The name a key is matched by: a typed key in lower case, "Return", the
/// arrow names, "F1" to "F12"; other keys have none.
pub open spec fn key_name(key: PressedKey) -> Option<Seq<char>> {
    match key {
        PressedKey::Character(c) => Some(lowercase(c@)),
        PressedKey::Enter => Some("Return"@),
        PressedKey::ArrowUp => Some("ArrowUp"@),
        PressedKey::ArrowDown => Some("ArrowDown"@),
        PressedKey::Function(n) => if 1 <= n <= 12 {
            Some("F"@ + decimal(n as nat))
        } else {
            None
        },
        _ => None,
    }
}

/// Turns a key press into what the editor handles: Escape, Tab and
/// Shift+Tab directly, named keys as shortcut presses, everything else
/// ignored.
pub fn key_event(key: PressedKey, command: bool, shift: bool, alt: bool) -> (r: KeyEvent)
    ensures
        key == PressedKey::Escape ==> r == KeyEvent::Escape,
        key == PressedKey::Tab ==> r == if shift {
            KeyEvent::Dedent
        } else {
            KeyEvent::Indent
        },
        key != PressedKey::Escape && key != PressedKey::Tab ==> match key_name(key) {
            Some(n) => r matches KeyEvent::Press { key: k, ctrl: c, shift: s, alt: a } && k@ == n
                && c == command && s == shift && a == alt,
            None => r == KeyEvent::Ignored,
        },
{
    let name: Option<String> = match key {
        PressedKey::Escape => {
            return KeyEvent::Escape;
        },
        PressedKey::Tab => {
            return if shift {
                KeyEvent::Dedent
            } else {
                KeyEvent::Indent
            };
        },
        PressedKey::Character(c) => Some(to_lowercase(c.as_str())),
        PressedKey::Enter => Some(String::from_str("Return")),
        PressedKey::ArrowUp => Some(String::from_str("ArrowUp")),
        PressedKey::ArrowDown => Some(String::from_str("ArrowDown")),
        PressedKey::Function(n) => if 1 <= n && n <= 12 {
            let mut f = String::from_str("F");
            f.append(string_of(decimal_exec(n as u64).as_slice()).as_str());
            Some(f)
        } else {
            None
        },
        PressedKey::Other => None,
    };
    match name {
        Some(k) => KeyEvent::Press { key: k, ctrl: command, shift, alt },
        None => KeyEvent::Ignored,
    }
}

} // verus!
