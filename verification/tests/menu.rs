use tincta::config::{Settings, ShortcutTarget, Shortcuts};
use tincta::menu::{context_menu_items, language_rows, menu_items, shortcut_rows, MenuAction, MenuEntry, MenuLabel};
use tincta::ui::TopMenu;

fn labels(v: &[MenuEntry]) -> Vec<String> {
    v.iter()
        .map(|e| match e {
            MenuEntry::Item { label, shortcut, action } => format!("{:?}|{:?}|{:?}", label, shortcut, action),
            MenuEntry::Recent { path, name } => format!("recent {} as {}", path, name),
            MenuEntry::Disabled { label } => format!("disabled {:?}", label),
            MenuEntry::Separator => "---".to_string(),
        })
        .collect()
}

#[test]
fn file_menu_without_recent_files() {
    let s = Settings::default();
    let v = menu_items(TopMenu::File, &s, false, false);
    assert_eq!(v.len(), 6);
    match &v[0] {
        MenuEntry::Item { label, shortcut, action } => {
            assert_eq!(*label, MenuLabel::FileNew);
            assert_eq!(shortcut.as_deref(), Some("Ctrl+N"));
            assert_eq!(*action, MenuAction::NewFile);
        },
        _ => panic!("expected an item"),
    }
    match &v[3] {
        MenuEntry::Item { shortcut, .. } => assert_eq!(shortcut.as_deref(), Some("Ctrl+Shift+S")),
        _ => panic!("expected an item"),
    }
}

#[test]
fn file_menu_lists_recent_files() {
    let mut s = Settings::default();
    s.recent_files = vec!["/b.txt".to_string(), "/src/a.rs/".to_string()];
    let v = menu_items(TopMenu::File, &s, false, false);
    let l = labels(&v);
    assert_eq!(l.len(), 11);
    assert_eq!(l[2], "---");
    assert_eq!(l[3], "disabled FileRecents");
    assert_eq!(l[4], "recent /b.txt as b.txt");
    assert_eq!(l[5], "recent /src/a.rs/ as a.rs");
    assert_eq!(l[6], "---");
}

#[test]
fn edit_menu_format_entry_needs_a_formatter() {
    let s = Settings::default();
    let without = menu_items(TopMenu::Edit, &s, false, false);
    assert_eq!(without.len(), 14);
    assert!(matches!(without[12], MenuEntry::Disabled { label: MenuLabel::EditFormat }));
    let with = menu_items(TopMenu::Edit, &s, true, false);
    match &with[12] {
        MenuEntry::Item { shortcut, action, .. } => {
            assert_eq!(shortcut.as_deref(), Some("Ctrl+Shift+F"));
            assert_eq!(*action, MenuAction::FormatFile);
        },
        _ => panic!("expected an item"),
    }
    match &with[13] {
        MenuEntry::Item { shortcut, .. } => assert!(shortcut.is_none()),
        _ => panic!("expected an item"),
    }
}

#[test]
fn view_menu_offers_the_opposite_settings() {
    let mut s = Settings::default();
    let v = menu_items(TopMenu::View, &s, false, true);
    assert_eq!(
        labels(&v),
        vec![
            "ViewSidebar|Some(\"Ctrl+B\")|ToggleSidebar".to_string(),
            "ViewDarkTheme|None|SetDarkMode(true)".to_string(),
            "ViewHideLineNumbers|None|SetLineNumbers(false)".to_string(),
            "ViewLanguage|None|OpenLanguagePicker".to_string(),
        ]
    );
    s.dark_mode = true;
    s.show_line_numbers = false;
    let w = menu_items(TopMenu::View, &s, false, false);
    assert_eq!(labels(&w)[1], "ViewLightTheme|None|SetDarkMode(false)");
    assert_eq!(labels(&w)[2], "ViewShowLineNumbers|None|SetLineNumbers(true)");
    assert_eq!(labels(&w)[3], "disabled ViewLanguage");
}

#[test]
fn help_menu() {
    let v = menu_items(TopMenu::Help, &Settings::default(), true, true);
    assert_eq!(
        labels(&v),
        vec![
            "HelpAbout|None|About".to_string(),
            "HelpShortcuts|None|OpenShortcuts".to_string(),
            "HelpCheckUpdates|None|CheckForUpdate".to_string(),
        ]
    );
}

#[test]
fn context_menu_formatting_entries() {
    let v = context_menu_items(true, false);
    assert_eq!(v.len(), 7);
    assert!(matches!(v[5], MenuEntry::Disabled { label: MenuLabel::ContextFormatSelection }));
    assert!(matches!(v[6], MenuEntry::Item { action: MenuAction::FormatFile, .. }));
    let w = context_menu_items(true, true);
    assert!(matches!(w[5], MenuEntry::Item { action: MenuAction::FormatSelection, .. }));
    let x = context_menu_items(false, true);
    assert!(matches!(x[5], MenuEntry::Disabled { .. }));
    assert!(matches!(x[6], MenuEntry::Disabled { label: MenuLabel::ContextFormatAll }));
    assert!(matches!(x[1], MenuEntry::Item { action: MenuAction::Cut, .. }));
}

#[test]
fn shortcut_panel_rows() {
    let sh = Shortcuts::default();
    let rows = shortcut_rows(&sh, Some(ShortcutTarget::Redo));
    assert_eq!(rows.len(), 18);
    assert_eq!(rows[0].target, ShortcutTarget::Undo);
    assert_eq!(rows[0].key.as_deref(), Some("Ctrl+Z"));
    assert_eq!(rows[1].target, ShortcutTarget::Redo);
    assert!(rows[1].key.is_none());
    assert_eq!(rows[3].key.as_deref(), Some("Alt+ArrowUp"));
    assert_eq!(rows[17].target, ShortcutTarget::Quit);
}

#[test]
fn language_picker_rows() {
    let rows = language_rows(Some("py"));
    assert_eq!(rows.len(), 26);
    assert_eq!(rows[0].token, "");
    assert!(rows[0].name.is_none());
    assert!(!rows[0].checked);
    assert_eq!(rows[2].token, "py");
    assert_eq!(rows[2].name, Some("Python"));
    assert!(rows[2].checked);
    assert_eq!(rows.iter().filter(|r| r.checked).count(), 1);
    let auto = language_rows(None);
    assert!(auto[0].checked);
    assert_eq!(auto.iter().filter(|r| r.checked).count(), 1);
}
