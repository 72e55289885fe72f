use tincta::launch::{file_argument, locale_for};

#[test]
fn interface_language_from_lang() {
    assert_eq!(locale_for("fr_FR.UTF-8"), "fr");
    assert_eq!(locale_for("fr"), "fr");
    assert_eq!(locale_for("en_GB.UTF-8"), "en");
    assert_eq!(locale_for("f"), "en");
    assert_eq!(locale_for(""), "en");
}

#[test]
fn command_line_file() {
    assert_eq!(file_argument(Some("notes.txt")), Some("notes.txt".to_string()));
    assert_eq!(file_argument(Some("--help")), None);
    assert_eq!(file_argument(Some("")), Some(String::new()));
    assert_eq!(file_argument(None), None);
}
