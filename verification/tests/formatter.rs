use tincta::formatter::{
    command_for, failure_message, formatter_for, has_formatter, not_found_message,
    npx_command,
};

#[test]
fn formatter_commands() {
    let (cmd, args) = command_for("tsx").unwrap();
    assert_eq!(cmd, "prettier");
    assert_eq!(args, vec!["--stdin-filepath".to_string(), "f.tsx".to_string()]);
    let (cmd, args) = command_for("rs").unwrap();
    assert_eq!(cmd, "rustfmt");
    assert_eq!(args, vec!["--edition".to_string(), "2021".to_string()]);
    let (cmd, args) = command_for("go").unwrap();
    assert_eq!(cmd, "gofmt");
    assert!(args.is_empty());
    let (cmd, args) = command_for("hh").unwrap();
    assert_eq!(cmd, "clang-format");
    assert_eq!(args, vec!["--assume-filename=file.cpp".to_string()]);
    assert!(command_for("txt").is_none());
}

#[test]
fn formatter_availability() {
    assert!(has_formatter("py"));
    assert!(has_formatter("kts"));
    assert!(has_formatter("plist"));
    assert!(!has_formatter("rb"));
    assert!(!has_formatter(""));
}

#[test]
fn failure_message_blank_output() {
    assert_eq!(failure_message("gofmt", "  \n\t "), "gofmt failed.");
}

#[test]
fn failure_message_strips_tags_and_location() {
    let err = "[error] f.html: SyntaxError: Unexpected token (1:5)\n[error] more\n";
    assert_eq!(failure_message("prettier", err), "SyntaxError: Unexpected token (1:5)");
    assert_eq!(failure_message("x", "[warn] [warn] plain message"), "plain message");
    assert_eq!(failure_message("x", "first line\r\nsecond"), "first line");
}

#[test]
fn failure_message_is_capped() {
    let long = "a".repeat(130);
    let shown = failure_message("x", &long);
    assert_eq!(shown, format!("{}…", "a".repeat(120)));
    let exact = "b".repeat(120);
    assert_eq!(failure_message("x", &exact), exact);
}

#[test]
fn failure_message_cap_counts_characters() {
    assert_eq!(failure_message("x", &"é".repeat(61)), "é".repeat(61));
    assert_eq!(failure_message("x", &"é".repeat(120)), "é".repeat(120));
    assert_eq!(failure_message("x", &"é".repeat(121)), format!("{}…", "é".repeat(120)));
    let mixed = format!("{}é{}", "a".repeat(119), "b".repeat(10));
    assert_eq!(failure_message("x", &mixed), format!("{}é…", "a".repeat(119)));
}

#[test]
fn npx_fallback_and_missing_tool() {
    let (cmd, args) = npx_command("prettier", &vec!["--stdin-filepath".to_string(), "f.js".to_string()]);
    assert_eq!(cmd, "npx");
    assert_eq!(args, vec!["--yes", "prettier", "--stdin-filepath", "f.js"]);
    assert_eq!(npx_command("gofmt", &Vec::new()).1, vec!["--yes", "gofmt"]);
    assert_eq!(
        not_found_message("black"),
        "'black' not found. Install it or ensure Node/npm is available."
    );
}

#[test]
fn no_formatter_is_refused() {
    assert_eq!(
        formatter_for("txt"),
        Err("No formatter available for this file type.".to_string())
    );
    let (cmd, _) = formatter_for("py").unwrap();
    assert_eq!(cmd, "black");
}
