use tincta::sidebar::{SidebarAction, SidebarMessage, SidebarState};

#[test]
fn add_file_appends_and_deduplicates() {
    let mut sidebar = SidebarState::new();
    let path = String::from("/tmp/test.rs");
    sidebar.add_file(path.clone());
    sidebar.add_file(path.clone());
    assert_eq!(sidebar.files.len(), 1);
}

#[test]
fn add_multiple_files() {
    let mut sidebar = SidebarState::new();
    sidebar.add_file(String::from("/tmp/a.rs"));
    sidebar.add_file(String::from("/tmp/b.py"));
    assert_eq!(sidebar.files.len(), 2);
    assert_eq!(sidebar.selected, Some(1));
}

#[test]
fn remove_file() {
    let mut sidebar = SidebarState::new();
    sidebar.add_file(String::from("/tmp/a.rs"));
    sidebar.update(SidebarMessage::RemoveFile(0));
    assert!(sidebar.files.is_empty());
}

// ─── Further cases ──────────────────────────────────────────────────────────

#[test]
fn adding_an_existing_file_selects_the_last_entry() {
    let mut sidebar = SidebarState::new();
    sidebar.add_file(String::from("/a"));
    sidebar.add_file(String::from("/b"));
    sidebar.add_file(String::from("/a"));
    assert_eq!(sidebar.files, vec!["/a".to_string(), "/b".to_string()]);
    assert_eq!(sidebar.selected, Some(1));
}

#[test]
fn open_selects_the_entry() {
    let mut sidebar = SidebarState::new();
    sidebar.add_file(String::from("/a"));
    sidebar.add_file(String::from("/b"));
    match sidebar.update(SidebarMessage::OpenFile(String::from("/a"))) {
        SidebarAction::OpenFile(p) => assert_eq!(p, "/a"),
        _ => panic!("expected OpenFile"),
    }
    assert_eq!(sidebar.selected, Some(0));
    sidebar.update(SidebarMessage::OpenFile(String::from("/zzz")));
    assert_eq!(sidebar.selected, None);
}

#[test]
fn removing_the_selected_entry_closes_it() {
    let mut sidebar = SidebarState::new();
    sidebar.add_file(String::from("/a"));
    sidebar.add_file(String::from("/b"));
    match sidebar.update(SidebarMessage::RemoveFile(1)) {
        SidebarAction::CloseFile(p) => assert_eq!(p, "/b"),
        _ => panic!("expected CloseFile"),
    }
    assert_eq!(sidebar.selected, None);
    assert!(matches!(sidebar.update(SidebarMessage::RemoveFile(0)), SidebarAction::NoAction));
    assert!(sidebar.files.is_empty());
    assert!(matches!(sidebar.update(SidebarMessage::RemoveFile(0)), SidebarAction::NoAction));
}

#[test]
fn save_requests_pass_through() {
    let mut sidebar = SidebarState::new();
    assert!(matches!(sidebar.update(SidebarMessage::RequestSaveAs), SidebarAction::SaveFileAs));
    match sidebar.update(SidebarMessage::RequestSave(String::from("/x"))) {
        SidebarAction::SaveFile(p) => assert_eq!(p, "/x"),
        _ => panic!("expected SaveFile"),
    }
}

#[test]
fn rename_replaces_the_entry() {
    let mut sidebar = SidebarState::new();
    sidebar.add_file(String::from("untitled://1"));
    sidebar.add_file(String::from("/b"));
    sidebar.rename_file(&String::from("untitled://1"), String::from("/saved.rs"));
    assert_eq!(sidebar.files, vec!["/saved.rs".to_string(), "/b".to_string()]);
    sidebar.rename_file(&String::from("/nope"), String::from("/x"));
    assert_eq!(sidebar.files.len(), 2);
}

#[test]
fn rows_mark_selection_and_shown_file() {
    let mut sidebar = SidebarState::new();
    sidebar.add_file(String::from("/a"));
    sidebar.add_file(String::from("/b"));
    let rows = sidebar.rows(Some("/a"));
    assert_eq!(rows.len(), 2);
    assert_eq!(rows[0].path, "/a");
    assert!(rows[0].active && !rows[0].selected);
    assert!(!rows[1].active && rows[1].selected);
    let none = sidebar.rows(None);
    assert!(none.iter().all(|r| !r.active));
}
