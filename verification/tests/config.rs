use tincta::config::{
    add_recent, forget_recent, indent_unit, is_untitled, untitled_path, PreferenceChange, Settings,
    ShortcutConfig, ShortcutTarget, Shortcuts,
};

#[test]
fn shortcut_display() {
    let sc = ShortcutConfig::ctrl("n");
    assert_eq!(sc.display(), "Ctrl+N");
    let sc2 = ShortcutConfig::ctrl_shift("s");
    assert_eq!(sc2.display(), "Ctrl+Shift+S");
    let sc3 = ShortcutConfig::alt("ArrowUp");
    assert_eq!(sc3.display(), "Alt+ArrowUp");
}

#[test]
fn add_recent_deduplication() {
    let mut recent: Vec<String> = Vec::new();
    add_recent(&mut recent, "/home/user/file.rs");
    add_recent(&mut recent, "/home/user/other.rs");
    add_recent(&mut recent, "/home/user/file.rs");
    assert_eq!(recent.len(), 2);
    assert_eq!(recent[0], "/home/user/file.rs");
}

#[test]
fn add_recent_max_10() {
    let mut recent: Vec<String> = Vec::new();
    for i in 0..15 {
        add_recent(&mut recent, &format!("/file{}.txt", i));
    }
    assert_eq!(recent.len(), 10);
}

#[test]
fn add_recent_ignores_untitled() {
    let mut recent: Vec<String> = Vec::new();
    add_recent(&mut recent, "untitled://1");
    assert!(recent.is_empty());
}

// ─── Further cases ──────────────────────────────────────────────────────────

#[test]
fn add_recent_keeps_newest_first() {
    let mut recent: Vec<String> = Vec::new();
    for i in 0..12 {
        add_recent(&mut recent, &format!("/f{}", i));
    }
    assert_eq!(recent[0], "/f11");
    assert_eq!(recent[9], "/f2");
    add_recent(&mut recent, "/f5");
    assert_eq!(recent[0], "/f5");
    assert_eq!(recent[1], "/f11");
    assert_eq!(recent.len(), 10);
    assert_eq!(recent.iter().filter(|f| f.as_str() == "/f5").count(), 1);
}

#[test]
fn shortcut_display_single_byte_keys() {
    assert_eq!(ShortcutConfig::ctrl("/").display(), "Ctrl+/");
    assert_eq!(ShortcutConfig::alt("F1").display(), "Alt+F1");
    // a one-character key of two bytes is shown as is
    assert_eq!(ShortcutConfig::ctrl("é").display(), "Ctrl+é");
    let plain = ShortcutConfig { ctrl: false, shift: true, alt: false, key: "x".to_string() };
    assert_eq!(plain.display(), "Shift+X");
}

#[test]
fn default_shortcuts() {
    let sh = Shortcuts::default();
    assert_eq!(sh.save_as.display(), "Ctrl+Shift+S");
    assert_eq!(sh.move_line_down.display(), "Alt+ArrowDown");
    assert_eq!(sh.toggle_comment.display(), "Ctrl+/");
    assert_eq!(sh.delete_line.display(), "Ctrl+Shift+K");
    assert_eq!(sh.duplicate_line.display(), "Ctrl+Shift+D");
}

#[test]
fn matching_target_follows_precedence() {
    let sh = Shortcuts::default();
    assert_eq!(sh.matching_target("z", true, false, false), Some(ShortcutTarget::Undo));
    assert_eq!(sh.matching_target("S", true, true, false), Some(ShortcutTarget::SaveAs));
    assert_eq!(sh.matching_target("s", true, false, false), Some(ShortcutTarget::SaveFile));
    assert_eq!(sh.matching_target("arrowup", false, false, true), Some(ShortcutTarget::MoveLineUp));
    assert_eq!(sh.matching_target("s", false, false, false), None);
}

#[test]
fn rebinding_a_shortcut() {
    let mut sh = Shortcuts::default();
    sh.set_binding(ShortcutTarget::Quit, ShortcutConfig::alt("F4"));
    assert_eq!(sh.binding(ShortcutTarget::Quit).display(), "Alt+F4");
    assert_eq!(sh.matching_target("f4", false, false, true), Some(ShortcutTarget::Quit));
    assert_eq!(sh.matching_target("q", true, false, false), None);
    // a binding shared with an earlier action is taken by that action
    sh.set_binding(ShortcutTarget::Find, ShortcutConfig::ctrl("z"));
    assert_eq!(sh.matching_target("z", true, false, false), Some(ShortcutTarget::Undo));
}

#[test]
fn untitled_paths() {
    assert_eq!(untitled_path(1), "untitled://1");
    assert_eq!(untitled_path(4096), "untitled://4096");
    assert!(is_untitled(&untitled_path(0)));
    assert!(!is_untitled("/home/untitled://1"));
    assert!(!is_untitled("untitled:/1"));
}

#[test]
fn indent_units() {
    assert_eq!(indent_unit(true, 4), "    ");
    assert_eq!(indent_unit(true, 0), "");
    assert_eq!(indent_unit(false, 8), "\t");
}

#[test]
fn default_config_is_valid() {
    let config = Settings::default();
    assert_eq!(config.tab_width, 4);
    assert!(config.use_spaces);
    assert_eq!(config.locale, "en");
}

#[test]
fn update_word_wrap() {
    let mut config = Settings::default();
    config.apply(PreferenceChange::WordWrap(false));
    assert!(!config.word_wrap);
}

#[test]
fn default_settings() {
    let s = Settings::default();
    assert!(!s.dark_mode);
    assert_eq!(s.font_family, "Monospace");
    assert_eq!(s.tab_width, 4);
    assert!(s.use_spaces);
    assert!(s.show_line_numbers && s.word_wrap && s.auto_indent);
    assert!(s.autocomplete_brackets && s.autocomplete_quotes);
    assert!(!s.show_page_guide);
    assert_eq!(s.page_guide_column, 80);
    assert!(s.highlight_current_line);
    assert_eq!(s.locale, "en");
    assert!(s.recent_files.is_empty());
    assert_eq!(s.shortcuts.save_as.display(), "Ctrl+Shift+S");
}

#[test]
fn preference_changes_touch_one_setting() {
    let mut s = Settings::default();
    s.apply(PreferenceChange::WordWrap(false));
    assert!(!s.word_wrap);
    assert!(s.show_line_numbers);
    s.apply(PreferenceChange::TabWidth(2));
    assert_eq!(s.tab_width, 2);
    s.apply(PreferenceChange::PageGuideColumn(100));
    assert_eq!(s.page_guide_column, 100);
    s.apply(PreferenceChange::Locale("fr".to_string()));
    assert_eq!(s.locale, "fr");
    assert!(s.use_spaces);
}

#[test]
fn forgetting_a_recent_file() {
    let mut recent = vec!["/a".to_string(), "/b".to_string(), "/a".to_string()];
    forget_recent(&mut recent, "/a");
    assert_eq!(recent, vec!["/b".to_string()]);
    forget_recent(&mut recent, "/zzz");
    assert_eq!(recent, vec!["/b".to_string()]);
}
