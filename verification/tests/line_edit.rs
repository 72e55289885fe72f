use tincta::line_edit::{
    comment_prefix, dedent_line, dedent_text, delete_line_op, duplicate_line, indent_text,
    move_line, toggle_comment,
};

#[test]
fn duplicate_line_middle() {
    let text = "line1\nline2\nline3";
    let result = duplicate_line(text, 1);
    assert_eq!(result, "line1\nline2\nline2\nline3");
}

#[test]
fn duplicate_line_first() {
    let text = "abc\ndef";
    let result = duplicate_line(text, 0);
    assert_eq!(result, "abc\nabc\ndef");
}

#[test]
fn move_line_up_basic() {
    let text = "aaa\nbbb\nccc";
    let (result, new_line) = move_line(text, 1, true);
    assert_eq!(result, "bbb\naaa\nccc");
    assert_eq!(new_line, 0);
}

#[test]
fn move_line_up_noop_at_top() {
    let text = "aaa\nbbb";
    let (result, new_line) = move_line(text, 0, true);
    assert_eq!(result, "aaa\nbbb");
    assert_eq!(new_line, 0);
}

#[test]
fn move_line_down_basic() {
    let text = "aaa\nbbb\nccc";
    let (result, new_line) = move_line(text, 0, false);
    assert_eq!(result, "bbb\naaa\nccc");
    assert_eq!(new_line, 1);
}

#[test]
fn delete_line_middle() {
    let text = "aaa\nbbb\nccc";
    let (result, new_line) = delete_line_op(text, 1);
    assert_eq!(result, "aaa\nccc");
    assert_eq!(new_line, 1);
}

#[test]
fn delete_line_last() {
    let text = "aaa\nbbb";
    let (result, new_line) = delete_line_op(text, 1);
    assert_eq!(result, "aaa");
    assert_eq!(new_line, 0);
}

#[test]
fn toggle_comment_add() {
    let text = "fn main() {}";
    let result = toggle_comment(text, 0, "// ");
    assert_eq!(result, "// fn main() {}");
}

#[test]
fn toggle_comment_remove() {
    let text = "// fn main() {}";
    let result = toggle_comment(text, 0, "// ");
    assert_eq!(result, "fn main() {}");
}

#[test]
fn toggle_comment_preserves_indent() {
    let text = "    let x = 1;";
    let result = toggle_comment(text, 0, "// ");
    assert_eq!(result, "    // let x = 1;");
}

#[test]
fn indent_text_basic() {
    let text = "line1\nline2";
    let result = indent_text(text, "    ");
    assert_eq!(result, "    line1\n    line2");
}

#[test]
fn dedent_text_basic() {
    let text = "    line1\n    line2";
    let result = dedent_text(text, "    ");
    assert_eq!(result, "line1\nline2");
}

#[test]
fn dedent_text_partial() {
    let text = "  line1\nline2";
    let result = dedent_text(text, "    ");
    assert_eq!(result, "line1\nline2");
}

#[test]
fn comment_prefix_by_language() {
    assert_eq!(comment_prefix(Some("rs")), "// ");
    assert_eq!(comment_prefix(Some("py")), "# ");
    assert_eq!(comment_prefix(Some("sql")), "-- ");
    assert_eq!(comment_prefix(None), "// ");
}

// ─── Further cases ──────────────────────────────────────────────────────────

#[test]
fn comment_prefix_other_languages() {
    assert_eq!(comment_prefix(Some("lua")), "-- ");
    assert_eq!(comment_prefix(Some("yaml")), "# ");
    assert_eq!(comment_prefix(Some("kt")), "// ");
    assert_eq!(comment_prefix(Some("html")), "// ");
}

#[test]
fn duplicate_line_past_end_is_noop() {
    assert_eq!(duplicate_line("a\nb", 5), "a\nb");
}

#[test]
fn duplicate_line_of_empty_text() {
    assert_eq!(duplicate_line("", 0), "\n");
}

#[test]
fn duplicate_line_keeps_trailing_newline() {
    assert_eq!(duplicate_line("a\n", 1), "a\n\n");
}

#[test]
fn move_line_down_noop_at_bottom() {
    let (result, new_line) = move_line("aaa\nbbb", 1, false);
    assert_eq!(result, "aaa\nbbb");
    assert_eq!(new_line, 1);
}

#[test]
fn move_line_up_then_down_restores() {
    let text = "one\ntwo\nthree";
    let (moved, line) = move_line(text, 2, true);
    assert_eq!(moved, "one\nthree\ntwo");
    let (back, line2) = move_line(&moved, line, false);
    assert_eq!(back, text);
    assert_eq!(line2, 2);
}

#[test]
fn delete_only_line() {
    let (result, new_line) = delete_line_op("solo", 0);
    assert_eq!(result, "");
    assert_eq!(new_line, 0);
}

#[test]
fn delete_line_past_end_is_noop() {
    let (result, new_line) = delete_line_op("a\nb", 7);
    assert_eq!(result, "a\nb");
    assert_eq!(new_line, 7);
}

#[test]
fn delete_undoes_duplicate() {
    let text = "x\ny\nz";
    let dup = duplicate_line(text, 1);
    let (back, _) = delete_line_op(&dup, 2);
    assert_eq!(back, text);
}

#[test]
fn toggle_comment_twice_restores() {
    let text = "a\n\tlet y = 2;\nb";
    let once = toggle_comment(text, 1, "# ");
    assert_eq!(once, "a\n\t# let y = 2;\nb");
    assert_eq!(toggle_comment(&once, 1, "# "), text);
}

#[test]
fn toggle_comment_past_end_is_noop() {
    assert_eq!(toggle_comment("a", 3, "// "), "a");
}

#[test]
fn indent_skips_empty_lines() {
    assert_eq!(indent_text("a\n\nb", "\t"), "\ta\n\n\tb");
}

#[test]
fn dedent_undoes_indent() {
    let text = "fn f() {\n\n  x\n}";
    assert_eq!(dedent_text(&indent_text(text, "    "), "    "), text);
}

#[test]
fn dedent_removes_one_tab() {
    assert_eq!(dedent_text("\t\tx", "    "), "\tx");
}

#[test]
fn dedent_counts_indent_in_bytes() {
    // the indent "é" is two bytes long, so up to two spaces are removed
    assert_eq!(dedent_text("   x", "é"), " x");
}

#[test]
fn dedent_line_only_touches_that_line() {
    assert_eq!(dedent_line("    a\n    b", 1, "    "), "    a\nb");
    assert_eq!(dedent_line("    a", 4, "    "), "    a");
}
