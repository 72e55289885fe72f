use tincta::config::{ShortcutTarget, Shortcuts};
use tincta::ui::{
    clamp_line, digits_only, goto_target, handle_key_press, key_event, toggle_menu, ActiveOverlay,
    KeyEvent, KeyOutcome, PressedKey, TopMenu,
};

#[test]
fn menu_title_clicks() {
    assert_eq!(toggle_menu(None, TopMenu::File), Some(TopMenu::File));
    assert_eq!(toggle_menu(Some(TopMenu::File), TopMenu::File), None);
    assert_eq!(toggle_menu(Some(TopMenu::File), TopMenu::Help), Some(TopMenu::Help));
}

#[test]
fn key_presses_blocked_by_overlays() {
    let mut overlay = ActiveOverlay::About;
    let mut sh = Shortcuts::default();
    let r = handle_key_press(&mut overlay, &mut sh, "z".to_string(), true, false, false);
    assert_eq!(r, KeyOutcome::Blocked);
    assert_eq!(overlay, ActiveOverlay::About);
}

#[test]
fn key_presses_trigger_and_capture() {
    let mut overlay = ActiveOverlay::Closed;
    let mut sh = Shortcuts::default();
    assert_eq!(
        handle_key_press(&mut overlay, &mut sh, "Z".to_string(), true, false, false),
        KeyOutcome::Trigger(ShortcutTarget::Undo)
    );
    assert_eq!(
        handle_key_press(&mut overlay, &mut sh, "z".to_string(), false, false, false),
        KeyOutcome::Unbound
    );
    let mut capturing = ActiveOverlay::Shortcuts { capturing: Some(ShortcutTarget::Find) };
    assert_eq!(
        handle_key_press(&mut capturing, &mut sh, "F3".to_string(), false, false, false),
        KeyOutcome::Rebound(ShortcutTarget::Find)
    );
    assert_eq!(capturing, ActiveOverlay::Shortcuts { capturing: None });
    assert_eq!(sh.find.display(), "F3");
}

#[test]
fn go_to_line_input() {
    assert_eq!(digits_only("12ab3"), "123");
    assert_eq!(digits_only("١٢"), "");
    assert_eq!(goto_target("10", 4), Some(3));
    assert_eq!(goto_target("0", 4), Some(0));
    assert_eq!(goto_target("2", 4), Some(1));
    assert_eq!(goto_target("", 4), None);
    assert_eq!(goto_target("99999999999999999999999", 4), None);
    assert_eq!(clamp_line(7, 0), 0);
    assert_eq!(clamp_line(2, 5), 2);
}

#[test]
fn key_events() {
    assert_eq!(key_event(PressedKey::Escape, true, true, true), KeyEvent::Escape);
    assert_eq!(key_event(PressedKey::Tab, false, false, false), KeyEvent::Indent);
    assert_eq!(key_event(PressedKey::Tab, false, true, false), KeyEvent::Dedent);
    assert_eq!(
        key_event(PressedKey::Character("S".to_string()), true, true, false),
        KeyEvent::Press { key: "s".to_string(), ctrl: true, shift: true, alt: false }
    );
    assert_eq!(
        key_event(PressedKey::Enter, false, false, true),
        KeyEvent::Press { key: "Return".to_string(), ctrl: false, shift: false, alt: true }
    );
    assert_eq!(
        key_event(PressedKey::Function(12), false, false, false),
        KeyEvent::Press { key: "F12".to_string(), ctrl: false, shift: false, alt: false }
    );
    assert_eq!(key_event(PressedKey::Function(13), false, false, false), KeyEvent::Ignored);
    assert_eq!(key_event(PressedKey::Other, true, false, false), KeyEvent::Ignored);
}
