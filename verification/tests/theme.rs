use tincta::theme::{EditorStyle, GhostButton, SidebarRow, TextAction, Tone};

#[test]
fn ghost_button_tones() {
    let idle = GhostButton { dark: false, active: false };
    assert_eq!(idle.background(false), Tone::Transparent);
    assert_eq!(idle.background(true), Tone::Hover);
    assert_eq!(idle.text_tone(), Tone::Text);
    let open = GhostButton { dark: true, active: true };
    assert_eq!(open.background(false), Tone::AccentSoft);
    assert_eq!(open.background(true), Tone::AccentSoft);
    assert_eq!(open.text_tone(), Tone::Accent);
}

#[test]
fn sidebar_row_tones() {
    let row = SidebarRow { dark: false, selected: true };
    assert_eq!(row.background(false), Tone::AccentSoft);
    let plain = SidebarRow { dark: false, selected: false };
    assert_eq!(plain.background(true), Tone::Hover);
    assert_eq!(plain.background(false), Tone::Transparent);
}

#[test]
fn text_action_tones() {
    let off = TextAction { dark: false, enabled: false };
    assert_eq!(off.background(true), Tone::Transparent);
    assert_eq!(off.text_tone(), Tone::Muted);
    let on = TextAction { dark: true, enabled: true };
    assert_eq!(on.background(true), Tone::AccentSoft);
}

#[test]
fn editor_style_tones() {
    let e = EditorStyle { dark: true };
    assert_eq!(e.background(), Tone::Background);
    assert_eq!(e.placeholder_tone(), Tone::Muted);
    assert_eq!(e.value_tone(), Tone::Text);
    assert_eq!(e.selection_tone(), Tone::Selection);
    assert_eq!(e.disabled_tone(), Tone::Muted);
}
