use tincta::status::{cursor_text, file_label, line_number_gutter, selection_info, size_text, window_title};

#[test]
fn cursor_position_is_one_based() {
    assert_eq!(cursor_text(0, 0), "Ln 1, Col 1");
    assert_eq!(cursor_text(41, 9), "Ln 42, Col 10");
}

#[test]
fn file_sizes() {
    assert_eq!(size_text(0), "  0B");
    assert_eq!(size_text(1023), "  1023B");
    assert_eq!(size_text(1024), "  1KB");
    assert_eq!(size_text(1024 * 1024 - 1), "  1023KB");
    assert_eq!(size_text(5 * 1024 * 1024 + 7), "  5MB");
}

#[test]
fn selection_summaries() {
    assert_eq!(selection_info("abc"), "3C");
    assert_eq!(selection_info("ab\ncd"), "2L 5C");
    assert_eq!(selection_info("ab\n"), "3C");
    assert_eq!(selection_info(""), "0C");
}

#[test]
fn gutter_numbers() {
    assert_eq!(line_number_gutter(""), "   1");
    assert_eq!(line_number_gutter("a\nb"), "   1\n   2");
    assert_eq!(line_number_gutter("a\n"), "   1\n   2");
    let many = "x\n".repeat(11);
    let g = line_number_gutter(&many);
    assert!(g.ends_with("  11\n  12"));
    assert_eq!(g.lines().count(), 12);
}

#[test]
fn titles_and_labels() {
    assert_eq!(window_title("main.rs", true), "Tincta — main.rs •");
    assert_eq!(window_title("main.rs", false), "Tincta — main.rs");
    assert_eq!(file_label("/a/b.txt", true), "  /a/b.txt •");
}

#[test]
fn line_counts() {
    assert_eq!(tincta::lines::split_lines_count(""), 1);
    assert_eq!(tincta::lines::split_lines_count("a\nb\n"), 3);
}
