use tincta::history::{UndoHistory, HISTORY_LIMIT};

#[test]
fn undo_restores_the_last_snapshot() {
    let mut h = UndoHistory::new();
    h.push_undo("v1".to_string());
    h.push_undo("v2".to_string());
    assert_eq!(h.undo("v3".to_string()), Some("v2".to_string()));
    assert_eq!(h.undo("v2".to_string()), Some("v1".to_string()));
    assert_eq!(h.undo("v1".to_string()), None);
}

#[test]
fn redo_reverses_undo() {
    let mut h = UndoHistory::new();
    h.push_undo("before".to_string());
    let restored = h.undo("after".to_string()).unwrap();
    assert_eq!(restored, "before");
    assert_eq!(h.redo(restored), Some("after".to_string()));
    assert_eq!(h.undo_stack, vec!["before".to_string()]);
    assert!(h.redo_stack.is_empty());
}

#[test]
fn new_edit_clears_redo() {
    let mut h = UndoHistory::new();
    h.push_undo("a".to_string());
    h.undo("b".to_string());
    assert_eq!(h.redo_stack.len(), 1);
    h.push_undo("a".to_string());
    assert!(h.redo_stack.is_empty());
    assert_eq!(h.redo("x".to_string()), None);
}

#[test]
fn history_is_capped() {
    let mut h = UndoHistory::new();
    for i in 0..(HISTORY_LIMIT + 5) {
        h.push_undo(format!("s{}", i));
    }
    assert_eq!(h.undo_stack.len(), HISTORY_LIMIT);
    assert_eq!(h.undo_stack[0], "s5");
    h.clear();
    assert!(h.undo_stack.is_empty());
}
