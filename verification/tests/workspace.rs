use tincta::config::{PreferenceChange, Settings, ShortcutTarget};
use tincta::session::{FileSession, Session};
use tincta::sidebar::SidebarAction;
use tincta::ui::{ActiveOverlay, KeyOutcome, TopMenu};
use tincta::workspace::{BufferChange, EditKind, LineCommand, StatusNote, Task, Typing, Workspace};

fn fresh() -> Workspace {
    Workspace::new(Settings::default())
}

fn loaded(b: &BufferChange) -> Option<String> {
    match b {
        BufferChange::Load(t) => Some(t.clone()),
        _ => None,
    }
}

#[test]
fn new_workspace_is_empty() {
    let w = fresh();
    assert!(w.current_file.is_none());
    assert_eq!(w.untitled_counter, 1);
    assert!(w.sidebar.files.is_empty());
    assert!(w.panels.show_sidebar);
    assert!(!w.panels.show_search);
    assert!(matches!(w.status.note, StatusNote::Ready));
    assert!(w.undo_new_group);
}

#[test]
fn new_file_lists_the_next_untitled_buffer() {
    let mut w = fresh();
    let out = w.new_file("");
    assert_eq!(w.current_file.as_deref(), Some("untitled://2"));
    assert_eq!(w.sidebar.files, vec!["untitled://2".to_string()]);
    assert_eq!(w.sidebar.selected, Some(0));
    assert_eq!(loaded(&out.buffer), Some(String::new()));
    assert!(matches!(w.status.note, StatusNote::NewFile));
    w.new_file("draft");
    assert_eq!(w.current_file.as_deref(), Some("untitled://3"));
    // the previous buffer was put away with its text
    assert_eq!(w.cache.get("untitled://2").unwrap().content, "draft");
}

#[test]
fn opening_a_file_shows_and_lists_it() {
    let mut w = fresh();
    let out = w.file_opened(Ok(("/src/main.rs".to_string(), "fn main() {}".to_string())), "rs");
    assert_eq!(loaded(&out.buffer), Some("fn main() {}".to_string()));
    assert!(out.save_settings);
    assert_eq!(w.current_file.as_deref(), Some("/src/main.rs"));
    assert_eq!(w.language.as_deref(), Some("rs"));
    assert_eq!(w.settings.recent_files, vec!["/src/main.rs".to_string()]);
    assert!(!w.is_dirty);
    assert!(matches!(w.status.note, StatusNote::FileOpened));
}

#[test]
fn a_failed_open_only_sets_the_status() {
    let mut w = fresh();
    let out = w.file_opened(Err("denied".to_string()), "");
    assert!(matches!(out.buffer, BufferChange::Keep));
    assert!(w.current_file.is_none());
    match &w.status.note {
        StatusNote::Failed(e) => assert_eq!(e, "denied"),
        _ => panic!("expected a failure"),
    }
}

#[test]
fn saving_an_unsaved_buffer_asks_for_a_path() {
    let mut w = fresh();
    w.new_file("");
    let out = w.save_file("hello".to_string());
    match out.task {
        Task::PickFileToSave(t) => assert_eq!(t, "hello"),
        _ => panic!("expected a save dialog"),
    }
    w.file_opened(Ok(("/a.txt".to_string(), "x".to_string())), "txt");
    match w.save_file("y".to_string()).task {
        Task::Write(p, t) => {
            assert_eq!(p, "/a.txt");
            assert_eq!(t, "y");
        },
        _ => panic!("expected a write"),
    }
}

#[test]
fn saving_an_untitled_buffer_renames_its_entry() {
    let mut w = fresh();
    w.new_file("");
    w.file_saved(Ok("/notes.md".to_string()), "md");
    assert_eq!(w.sidebar.files, vec!["/notes.md".to_string()]);
    assert_eq!(w.current_file.as_deref(), Some("/notes.md"));
    assert_eq!(w.language.as_deref(), Some("md"));
    assert_eq!(w.settings.recent_files, vec!["/notes.md".to_string()]);
    assert!(matches!(w.status.note, StatusNote::FileSaved));
}

#[test]
fn switching_files_keeps_the_buffers() {
    let mut w = fresh();
    w.file_opened(Ok(("/a.rs".to_string(), "A".to_string())), "rs");
    w.mark_edited();
    w.file_opened(Ok(("/b.py".to_string(), "B".to_string())), "py");
    // b is shown; switch back to a through the sidebar
    let out = w.sidebar_action(SidebarAction::OpenFile("/a.rs".to_string()), "B2".to_string());
    // a was never put away (it was replaced by opening b), so it is read again
    match out.task {
        Task::Read(p) => assert_eq!(p, "/a.rs"),
        _ => panic!("expected a read"),
    }
    // b's buffer is now in the cache with its new text
    assert_eq!(w.cache.get("/b.py").unwrap().content, "B2");
    w.file_opened(Ok(("/a.rs".to_string(), "A".to_string())), "rs");
    let back = w.sidebar_action(SidebarAction::OpenFile("/b.py".to_string()), "A".to_string());
    assert_eq!(loaded(&back.buffer), Some("B2".to_string()));
    assert_eq!(w.current_file.as_deref(), Some("/b.py"));
    assert_eq!(w.language.as_deref(), Some("py"));
}

#[test]
fn opening_the_shown_file_does_nothing() {
    let mut w = fresh();
    w.file_opened(Ok(("/a.rs".to_string(), "A".to_string())), "rs");
    let out = w.sidebar_action(SidebarAction::OpenFile("/a.rs".to_string()), "A".to_string());
    assert!(matches!(out.buffer, BufferChange::Keep));
    assert!(matches!(out.task, Task::Nothing));
}

#[test]
fn closing_the_shown_file_from_the_sidebar() {
    let mut w = fresh();
    w.file_opened(Ok(("/a.rs".to_string(), "A".to_string())), "rs");
    let out = w.sidebar_action(SidebarAction::CloseFile("/a.rs".to_string()), "A".to_string());
    assert!(out.save_session);
    assert!(w.current_file.is_none());
    assert_eq!(loaded(&out.buffer), Some(String::new()));
}

#[test]
fn a_missing_recent_file_is_forgotten() {
    let mut w = fresh();
    w.file_opened(Ok(("/gone.txt".to_string(), "".to_string())), "txt");
    let out = w.open_recent_file("/gone.txt".to_string(), false, "");
    assert!(out.save_settings);
    assert!(w.settings.recent_files.is_empty());
    assert!(matches!(w.status.note, StatusNote::MissingFile));
}

#[test]
fn undo_and_redo_through_the_workspace() {
    let mut w = fresh();
    w.file_opened(Ok(("/a.rs".to_string(), "one\ntwo".to_string())), "rs");
    let out = w.line_command(LineCommand::Duplicate, "one\ntwo".to_string(), 0);
    match out.buffer {
        BufferChange::LoadAtLine(t, l) => {
            assert_eq!(t, "one\none\ntwo");
            assert_eq!(l, 1);
        },
        _ => panic!("expected a reload"),
    }
    assert!(w.is_dirty);
    let undone = w.undo("one\none\ntwo".to_string());
    match undone.buffer {
        BufferChange::LoadAtEnd(t) => assert_eq!(t, "one\ntwo"),
        _ => panic!("expected the previous text"),
    }
    let redone = w.redo("one\ntwo".to_string());
    match redone.buffer {
        BufferChange::LoadAtEnd(t) => assert_eq!(t, "one\none\ntwo"),
        _ => panic!("expected the undone text"),
    }
    assert!(matches!(w.undo("x".to_string()).buffer, BufferChange::LoadAtEnd(_)));
    assert!(matches!(w.undo("x".to_string()).buffer, BufferChange::Keep));
}

#[test]
fn line_commands_are_blocked_while_searching() {
    let mut w = fresh();
    w.toggle_search();
    let out = w.line_command(LineCommand::Delete, "a\nb".to_string(), 0);
    assert!(matches!(out.buffer, BufferChange::Keep));
    assert!(w.history.undo_stack.is_empty());
}

#[test]
fn toggle_comment_uses_the_language_prefix() {
    let mut w = fresh();
    w.set_language("py".to_string());
    match w.line_command(LineCommand::ToggleComment, "x = 1".to_string(), 0).buffer {
        BufferChange::LoadAtLine(t, l) => {
            assert_eq!(t, "# x = 1");
            assert_eq!(l, 0);
        },
        _ => panic!("expected a reload"),
    }
}

#[test]
fn tab_inserts_an_indent_or_indents_the_selection() {
    let mut w = fresh();
    match w.insert_tab(None, "x".to_string()).buffer {
        BufferChange::Paste(p) => assert_eq!(p, "    "),
        _ => panic!("expected a paste"),
    }
    match w.insert_tab(Some("a\n\nb".to_string()), "x".to_string()).buffer {
        BufferChange::Paste(p) => assert_eq!(p, "    a\n\n    b"),
        _ => panic!("expected a paste"),
    }
    w.change_preference(PreferenceChange::UseSpaces(false));
    match w.dedent(None, "\t\tx\ny".to_string(), 0).buffer {
        BufferChange::LoadAtLine(t, l) => {
            assert_eq!(t, "\tx\ny");
            assert_eq!(l, 0);
        },
        _ => panic!("expected a reload"),
    }
    assert!(matches!(w.indent_selection(None, "x".to_string()).buffer, BufferChange::Keep));
}

#[test]
fn typing_groups_words_into_undo_steps() {
    let mut w = fresh();
    assert!(matches!(w.editor_action(EditKind::Insert('a'), "", 0), Typing::Perform));
    assert_eq!(w.history.undo_stack, vec![String::new()]);
    w.editor_action(EditKind::Insert('b'), "a", 0);
    assert_eq!(w.history.undo_stack.len(), 1);
    w.editor_action(EditKind::Insert(' '), "ab", 0);
    w.editor_action(EditKind::Insert('c'), "ab ", 0);
    assert_eq!(w.history.undo_stack, vec![String::new(), "ab ".to_string()]);
    w.editor_action(EditKind::Motion, "ab c", 0);
    assert!(w.undo_new_group);
    assert!(w.is_dirty);
}

#[test]
fn automatic_insertions() {
    let mut w = fresh();
    match w.editor_action(EditKind::Enter, "  \tlet x\nnext", 0) {
        Typing::EnterWithIndent(i) => assert_eq!(i, "  \t"),
        _ => panic!("expected an indented line break"),
    }
    assert!(matches!(w.editor_action(EditKind::Insert('('), "", 0), Typing::InsertPair('(', ')')));
    assert!(matches!(w.editor_action(EditKind::Insert('`'), "", 0), Typing::InsertPair('`', '`')));
    w.change_preference(PreferenceChange::AutocompleteBrackets(false));
    assert!(matches!(w.editor_action(EditKind::Insert('['), "", 0), Typing::Perform));
}

#[test]
fn overlays_and_go_to_line() {
    let mut w = fresh();
    w.open_goto_line();
    assert_eq!(w.panels.overlay, ActiveOverlay::GotoLine);
    w.goto_input_changed("1a2");
    assert_eq!(w.panels.goto_line_input, "12");
    assert_eq!(w.goto_line_submit(5), Some(4));
    assert_eq!(w.panels.overlay, ActiveOverlay::Closed);
    w.show_overlay(ActiveOverlay::About);
    assert_eq!(w.panels.overlay, ActiveOverlay::About);
}

#[test]
fn menus_open_and_close() {
    let mut w = fresh();
    w.toggle_menu(TopMenu::Edit);
    assert_eq!(w.panels.open_menu, Some(TopMenu::Edit));
    w.toggle_menu(TopMenu::Edit);
    assert_eq!(w.panels.open_menu, None);
    w.toggle_menu(TopMenu::File);
    w.dismiss_menu();
    assert_eq!(w.panels.open_menu, None);
}

#[test]
fn rebinding_through_the_workspace() {
    let mut w = fresh();
    w.show_overlay(ActiveOverlay::Shortcuts { capturing: Some(ShortcutTarget::Quit) });
    let (k, out) = w.key_pressed("x".to_string(), true, false, false);
    assert_eq!(k, KeyOutcome::Rebound(ShortcutTarget::Quit));
    assert!(out.save_settings);
    assert_eq!(w.settings.shortcuts.quit.display(), "Ctrl+X");
    w.show_overlay(ActiveOverlay::Closed);
    let (k2, out2) = w.key_pressed("x".to_string(), true, false, false);
    assert_eq!(k2, KeyOutcome::Trigger(ShortcutTarget::Quit));
    assert!(!out2.save_settings);
}

#[test]
fn formatting_needs_a_language() {
    let mut w = fresh();
    let out = w.format_file("x".to_string());
    assert!(matches!(out.task, Task::Nothing));
    assert!(matches!(w.status.note, StatusNote::NoLanguage));
    w.set_language("rs".to_string());
    match w.format_file("fn a(){}".to_string()).task {
        Task::FormatText(t, l) => {
            assert_eq!(t, "fn a(){}");
            assert_eq!(l, "rs");
        },
        _ => panic!("expected a format task"),
    }
    assert!(w.status.is_formatting);
    assert!(matches!(w.format_selection(None).task, Task::Nothing));
}

#[test]
fn format_results() {
    let mut w = fresh();
    let ok = w.format_finished(Ok("done".to_string()), true);
    assert_eq!(loaded(&ok.buffer), Some("done".to_string()));
    assert!(w.is_dirty);
    assert!(matches!(w.status.note, StatusNote::Formatted));
    let err = w.format_finished(Err("bad".to_string()), false);
    assert!(matches!(err.buffer, BufferChange::Keep));
    assert!(w.status.is_error);
    assert!(w.status.show_error_panel);
    assert_eq!(w.status.format_error.as_deref(), Some("bad"));
    w.close_error_panel();
    assert!(!w.status.show_error_panel);
}

#[test]
fn first_start_shows_an_untitled_buffer() {
    let session = Session { files: Vec::new(), active_file: None, untitled_counter: 0 };
    let (w, out) = Workspace::restore(Settings::default(), &session, &Vec::new());
    assert_eq!(w.sidebar.files, vec!["untitled://1".to_string()]);
    assert_eq!(w.current_file.as_deref(), Some("untitled://1"));
    assert_eq!(w.untitled_counter, 1);
    assert!(matches!(out, BufferChange::Keep));
}

#[test]
fn session_save_and_restore_round_trip() {
    let mut w = fresh();
    w.file_opened(Ok(("/a.rs".to_string(), "clean".to_string())), "rs");
    w.new_file("clean");
    let saved = w.session("draft");
    assert_eq!(saved.files.len(), 2);
    assert_eq!(saved.active_file.as_deref(), Some("untitled://2"));
    assert_eq!(saved.files[0].content, None);
    assert_eq!(saved.files[1].content.as_deref(), Some("draft"));
    let disk = vec![Some("clean".to_string()), None];
    let (r, out) = Workspace::restore(Settings::default(), &saved, &disk);
    assert_eq!(r.sidebar.files, w.sidebar.files);
    assert_eq!(r.current_file.as_deref(), Some("untitled://2"));
    assert_eq!(loaded(&out), Some("draft".to_string()));
    assert_eq!(r.cache.get("/a.rs").unwrap().content, "clean");
    assert_eq!(r.cache.get("/a.rs").unwrap().language.as_deref(), Some("rs"));
    assert_eq!(r.untitled_counter, 2);
}

#[test]
fn restoring_reads_clean_files_from_disk() {
    let session = Session {
        files: vec![FileSession {
            path: "/x.txt".to_string(),
            content: None,
            language: None,
            dirty: false,
        }],
        active_file: Some("/elsewhere".to_string()),
        untitled_counter: 7,
    };
    let (w, out) = Workspace::restore(Settings::default(), &session, &vec![None]);
    assert!(w.current_file.is_none());
    assert!(matches!(out, BufferChange::Keep));
    assert_eq!(w.cache.get("/x.txt").unwrap().content, "");
    assert_eq!(w.untitled_counter, 7);
}

#[test]
fn background_failures_show_in_the_status() {
    let mut w = fresh();
    w.note_failure("offline".to_string());
    match &w.status.note {
        StatusNote::Failed(e) => assert_eq!(e, "offline"),
        _ => panic!("expected a failure"),
    }
    assert!(!w.status.is_error);
}

#[test]
fn layout_follows_the_panels() {
    let mut w = fresh();
    let l = w.layout();
    assert!(l.sidebar && !l.search_bar && !l.preferences && !l.formatting_banner);
    assert!(l.error_panel.is_none());
    w.toggle_search();
    w.format_finished(Err("boom".to_string()), true);
    let l2 = w.layout();
    assert!(l2.search_bar);
    assert_eq!(l2.error_panel.as_deref(), Some("boom"));
    w.close_error_panel();
    assert!(w.layout().error_panel.is_none());
    assert!(!w.is_editing_enabled());
}

#[test]
fn any_other_message_closes_the_menu() {
    let mut w = fresh();
    w.menu_for_message(Some(TopMenu::View));
    assert_eq!(w.layout().dropdown, Some(TopMenu::View));
    w.menu_for_message(Some(TopMenu::Help));
    assert_eq!(w.panels.open_menu, Some(TopMenu::Help));
    w.menu_for_message(Some(TopMenu::Help));
    assert_eq!(w.panels.open_menu, None);
    w.menu_for_message(Some(TopMenu::File));
    w.menu_for_message(None);
    assert_eq!(w.panels.open_menu, None);
}

#[test]
fn two_spellings_of_one_file_are_one_entry() {
    let mut w = fresh();
    w.file_opened(Ok(("/tmp//a.rs".to_string(), "A".to_string())), "rs");
    assert_eq!(w.current_file.as_deref(), Some("/tmp/a.rs"));
    w.file_opened(Ok(("/tmp/./a.rs".to_string(), "A".to_string())), "rs");
    assert_eq!(w.sidebar.files, vec!["/tmp/a.rs".to_string()]);
    let out = w.sidebar_action(SidebarAction::OpenFile("/tmp/a.rs/".to_string()), "A".to_string());
    assert!(matches!(out.task, Task::Nothing));
    assert!(matches!(out.buffer, BufferChange::Keep));
}

#[test]
fn unsaved_buffers_keep_their_names() {
    let mut w = fresh();
    w.new_file("");
    w.new_file("first");
    assert_eq!(w.current_file.as_deref(), Some("untitled://3"));
    let out = w.sidebar_action(SidebarAction::OpenFile("untitled://2".to_string()), "".to_string());
    assert_eq!(loaded(&out.buffer), Some("first".to_string()));
    assert_eq!(w.current_file.as_deref(), Some("untitled://2"));
}

#[test]
fn restoring_merges_spellings_of_one_file() {
    let entry = |path: &str, text: &str| FileSession {
        path: path.to_string(),
        content: Some(text.to_string()),
        language: None,
        dirty: true,
    };
    let session = Session {
        files: vec![entry("/tmp//a.rs", "old"), entry("/tmp/b.rs", "b"), entry("/tmp/./a.rs", "new")],
        active_file: Some("/tmp/a.rs/".to_string()),
        untitled_counter: 1,
    };
    let disk = vec![None, None, None];
    let (w, out) = Workspace::restore(Settings::default(), &session, &disk);
    assert_eq!(w.sidebar.files, vec!["/tmp/a.rs".to_string(), "/tmp/b.rs".to_string()]);
    assert_eq!(w.current_file.as_deref(), Some("/tmp/a.rs"));
    assert_eq!(loaded(&out), Some("new".to_string()));
}
