//! The undo history on its own.

use typst_editor::{EditOperation, OperationType, Position, UndoHistory};

fn ins(at: usize, text: &str) -> EditOperation {
    EditOperation::insert(
        Position::new(0, at),
        text.to_string(),
        Position::new(0, at + text.chars().count()),
    )
}

fn del(from: usize, to: usize, text: &str) -> EditOperation {
    EditOperation::delete(
        Position::new(0, from),
        Position::new(0, to),
        text.to_string(),
        Position::new(0, from),
    )
}

#[test]
fn test_constructors_fill_every_field() {
    let op = ins(2, "ab");
    assert_eq!(op.op_type, OperationType::Insert);
    assert_eq!(op.start, Position::new(0, 2));
    assert_eq!(op.end, Position::new(0, 4));
    assert_eq!(op.cursor_after, Position::new(0, 4));
    assert_eq!(op.inserted_text, Some("ab".to_string()));
    assert_eq!(op.deleted_text, None);
    assert_eq!(op.offset, 0);
    assert_eq!(op.size(), 2);
    let op = op.at_offset(17);
    assert_eq!(op.offset, 17);
    assert_eq!(op.clone(), op);

    let op = del(1, 3, "\u{e9}x");
    assert_eq!(op.op_type, OperationType::Delete);
    assert_eq!(op.end, Position::new(0, 3));
    assert_eq!(op.inserted_text, None);
    assert_eq!(op.size(), 3); // bytes, not characters

    let op = EditOperation::replace(
        Position::new(1, 0),
        Position::new(1, 5),
        "Hello".to_string(),
        "Hi".to_string(),
        Position::new(1, 2),
    );
    assert_eq!(op.op_type, OperationType::Replace);
    assert_eq!(op.start, Position::new(1, 0));
    assert_eq!(op.end, Position::new(1, 5));
    assert_eq!(op.cursor_after, Position::new(1, 2));
    assert_eq!(op.size(), 7);
}

#[test]
fn test_merge_rule() {
    // inserts merge when the next one starts where this one ended
    assert!(ins(0, "a").can_merge_with(&ins(1, "b")));
    assert!(!ins(0, "a").can_merge_with(&ins(2, "b")));
    assert!(!ins(1, "a").can_merge_with(&ins(0, "b")));
    // deletes merge when they touch the start of the one before
    assert!(del(3, 4, "d").can_merge_with(&del(2, 3, "c"))); // backspace chain
    assert!(del(3, 4, "d").can_merge_with(&del(3, 4, "e"))); // forward delete chain
    assert!(!del(3, 4, "d").can_merge_with(&del(5, 6, "f")));
    // kinds do not mix, and replacements never merge
    assert!(!ins(0, "a").can_merge_with(&del(0, 1, "a")));
    assert!(!del(0, 1, "a").can_merge_with(&ins(0, "a")));
    let rep = |at: usize| {
        EditOperation::replace(
            Position::new(0, at),
            Position::new(0, at + 1),
            "x".to_string(),
            "y".to_string(),
            Position::new(0, at + 1),
        )
    };
    assert!(!rep(0).can_merge_with(&rep(1)));
    assert!(!rep(0).can_merge_with(&rep(0)));
    assert!(!ins(0, "a").can_merge_with(&rep(1)));
}

#[test]
fn test_adjacent_inserts_share_a_group() {
    let mut h = UndoHistory::new();
    h.record_operation(ins(0, "a"));
    h.record_operation(ins(1, "b"));
    let group = h.undo().unwrap();
    assert_eq!(group.operations.len(), 2);
    assert_eq!(group.operations[0], ins(0, "a"));
    assert_eq!(group.operations[1], ins(1, "b"));
    assert_eq!(group.size(), 2);
    assert!(h.undo().is_none());
}

#[test]
fn test_a_boundary_keeps_inserts_apart() {
    let mut h = UndoHistory::new();
    h.record_operation(ins(0, "a"));
    h.create_boundary();
    h.record_operation(ins(1, "b"));
    let group = h.undo().unwrap();
    assert_eq!(group.operations, vec![ins(1, "b")]);
    let group = h.undo().unwrap();
    assert_eq!(group.operations, vec![ins(0, "a")]);
    assert!(h.undo().is_none());
}

#[test]
fn test_undo_and_redo_close_the_group() {
    let mut h = UndoHistory::new();
    h.record_operation(ins(0, "a"));
    h.undo().unwrap();
    let group = h.redo().unwrap();
    assert_eq!(group.operations, vec![ins(0, "a")]);
    // typing on after a redo starts a step of its own
    h.record_operation(ins(1, "b"));
    assert_eq!(h.undo().unwrap().operations, vec![ins(1, "b")]);
    assert_eq!(h.undo().unwrap().operations, vec![ins(0, "a")]);
    assert!(h.redo().is_some());
    assert!(h.redo().is_some());
    assert!(h.redo().is_none());
}

#[test]
fn test_group_limit_lets_the_oldest_go() {
    let mut h = UndoHistory::with_limits(3, 1000);
    for i in 0..5 {
        h.record_operation(ins(2 * i, "x"));
    }
    assert_eq!(h.undo().unwrap().operations, vec![ins(8, "x")]);
    assert_eq!(h.undo().unwrap().operations, vec![ins(6, "x")]);
    assert_eq!(h.undo().unwrap().operations, vec![ins(4, "x")]);
    assert!(h.undo().is_none());
    // what was undone stays on the redo stack
    assert!(h.can_redo());
}

#[test]
fn test_byte_limit_lets_the_oldest_go() {
    let mut h = UndoHistory::with_limits(10, 4);
    h.record_operation(ins(0, "abc"));
    h.create_boundary();
    h.record_operation(ins(5, "def"));
    // three and three bytes are more than four: the older group left
    assert_eq!(h.undo().unwrap().operations, vec![ins(5, "def")]);
    assert!(!h.can_undo());

    // an edit that is too large by itself is not kept either
    let mut h = UndoHistory::with_limits(10, 4);
    h.record_operation(ins(0, "abcde"));
    assert!(!h.can_undo());

    let mut h = UndoHistory::with_limits(0, 1000);
    h.record_operation(ins(0, "a"));
    assert!(!h.can_undo());
}

#[test]
fn test_eviction_leaves_the_redo_stack_alone() {
    let mut h = UndoHistory::with_limits(1, 1000);
    h.record_operation(ins(0, "a"));
    h.undo().unwrap();
    assert!(h.can_redo());
    assert!(!h.can_undo());
    h.redo().unwrap();
    assert!(h.can_undo());
    h.clear();
    assert!(!h.can_undo());
    assert!(!h.can_redo());
    h.record_operation(ins(0, "a"));
    assert!(h.can_undo());
}
