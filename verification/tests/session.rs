use tincta::session::{build_session, file_session, restore_source, CachedFile, FileCache, FileSession, RestoreSource, Session};

fn cached(content: &str, language: Option<&str>, dirty: bool) -> CachedFile {
    CachedFile { content: content.to_string(), language: language.map(|l| l.to_string()), dirty }
}

#[test]
fn cache_keeps_one_buffer_per_path() {
    let mut c = FileCache::new();
    assert!(!c.contains("/a"));
    c.insert("/a".to_string(), cached("one", None, false));
    c.insert("/a".to_string(), cached("two", Some("rs"), true));
    assert_eq!(c.get("/a").unwrap().content, "two");
    assert!(c.get("/a").unwrap().dirty);
    let removed = c.remove("/a").unwrap();
    assert_eq!(removed.language.as_deref(), Some("rs"));
    assert!(c.get("/a").is_none());
    assert!(c.remove("/a").is_none());
}

#[test]
fn saved_entries_keep_text_only_when_needed() {
    let clean = file_session("/a.rs", "x".to_string(), None, false);
    assert_eq!(clean.content, None);
    let dirty = file_session("/a.rs", "x".to_string(), None, true);
    assert_eq!(dirty.content.as_deref(), Some("x"));
    let untitled = file_session("untitled://4", "y".to_string(), Some("md".to_string()), false);
    assert_eq!(untitled.content.as_deref(), Some("y"));
    assert_eq!(untitled.language.as_deref(), Some("md"));
}

#[test]
fn building_a_session() {
    let files = vec!["/a".to_string(), "/b".to_string(), "/c".to_string()];
    let mut cache = FileCache::new();
    cache.insert("/b".to_string(), cached("bee", None, true));
    let s = build_session(&files, Some("/a"), "ay", &Some("rs".to_string()), true, &cache, 3);
    assert_eq!(s.files.len(), 3);
    assert_eq!(s.files[0].content.as_deref(), Some("ay"));
    assert_eq!(s.files[0].language.as_deref(), Some("rs"));
    assert_eq!(s.files[1].content.as_deref(), Some("bee"));
    assert_eq!(s.files[2].content, None);
    assert!(!s.files[2].dirty);
    assert_eq!(s.active_file.as_deref(), Some("/a"));
    assert_eq!(s.untitled_counter, 3);
}

#[test]
fn restore_sources_and_counters() {
    let saved = FileSession { path: "/a".to_string(), content: Some("t".to_string()), language: None, dirty: true };
    assert_eq!(restore_source(&saved), RestoreSource::Saved("t".to_string()));
    let disk = FileSession { path: "/a".to_string(), content: None, language: None, dirty: false };
    assert_eq!(restore_source(&disk), RestoreSource::Disk);
    let empty = FileSession { path: "untitled://2".to_string(), content: None, language: None, dirty: false };
    assert_eq!(restore_source(&empty), RestoreSource::Empty);
    let s = Session { files: vec![disk, empty], active_file: None, untitled_counter: 0 };
    assert_eq!(s.restored_counter(), 1);
    assert_eq!(s.active_path().as_deref(), Some("/a"));
    assert_eq!(Session::default().untitled_counter, 0);
}
