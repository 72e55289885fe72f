use tincta::editor::{
    extension_to_token, language_for_extension, language_name, language_picker_enabled,
    supported_languages, EditorState,
};

#[test]
fn extension_to_token_rust() {
    assert_eq!(extension_to_token("rs"), Some("rs"));
}

#[test]
fn extension_to_token_unknown() {
    assert_eq!(extension_to_token("xyz"), None);
}

#[test]
fn extension_to_token_all_common() {
    let exts = ["py", "js", "ts", "html", "css", "json", "md", "sh", "c", "cpp"];
    for ext in exts {
        assert!(extension_to_token(ext).is_some(), "Missing token for .{}", ext);
    }
}

// ─── Further cases ──────────────────────────────────────────────────────────

#[test]
fn extension_aliases() {
    assert_eq!(extension_to_token("jsx"), Some("js"));
    assert_eq!(extension_to_token("tsx"), Some("ts"));
    assert_eq!(extension_to_token("htm"), Some("html"));
    assert_eq!(extension_to_token("yml"), Some("yaml"));
    assert_eq!(extension_to_token("bash"), Some("sh"));
    assert_eq!(extension_to_token("h"), Some("c"));
    assert_eq!(extension_to_token("hpp"), Some("cpp"));
    assert_eq!(extension_to_token(""), None);
    assert_eq!(extension_to_token("RS"), None);
}

#[test]
fn detected_tokens_are_supported() {
    let tokens: Vec<&str> = supported_languages().iter().map(|(t, _)| *t).collect();
    for ext in ["rs", "py", "jsx", "tsx", "htm", "css", "json", "toml", "yml", "md", "bash", "h",
        "cc", "java", "go", "rb", "php", "swift", "kt", "xml", "sql", "lua", "r"]
    {
        let t = extension_to_token(ext).unwrap();
        assert!(tokens.contains(&t), "{} -> {}", ext, t);
    }
    assert_eq!(supported_languages().len(), 25);
}

#[test]
fn language_names() {
    assert_eq!(language_name("cpp"), Some("C++"));
    assert_eq!(language_name("md"), Some("Markdown"));
    assert_eq!(language_name("jsx"), Some("JSX"));
    assert_eq!(language_name("txt"), None);
}

#[test]
fn language_picker() {
    assert!(language_picker_enabled(None, ""));
    assert!(language_picker_enabled(Some("untitled://3"), ""));
    assert!(!language_picker_enabled(Some("/a/main.rs"), "rs"));
    assert!(language_picker_enabled(Some("/a/notes.txt"), "txt"));
    assert!(!language_picker_enabled(Some("/a/App.jsx"), "jsx"));
}

#[test]
fn set_language_by_extension_known() {
    let mut state = EditorState::new();
    state.set_language_by_extension("rs");
    assert_eq!(state.language, Some("rs".to_string()));
}

#[test]
fn set_language_by_extension_unknown() {
    let mut state = EditorState::new();
    state.set_language_by_extension("unknown_ext");
    assert!(state.language.is_none());
}

#[test]
fn editor_state_new_is_empty() {
    let state = EditorState::new();
    assert!(state.text.trim().is_empty());
    assert!(state.language.is_none());
}

#[test]
fn editor_state_from_content() {
    let state = EditorState::from_content("hello world");
    assert_eq!(state.text.trim(), "hello world");
}

#[test]
fn language_for_extensions() {
    assert_eq!(language_for_extension("yml"), Some("yaml".to_string()));
    assert_eq!(language_for_extension("txt"), None);
}
