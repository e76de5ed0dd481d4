//! Positions, edits and undo in the text buffer, on chosen texts.

use std::path::PathBuf;
use typst_editor::{
    Buffer, BufferError, BufferId, EditorError, LineEnding, Position, Version,
};

fn buffer(text: &str) -> Buffer {
    Buffer::from_text(BufferId::new(7), text)
}

#[test]
fn test_position_round_trip_on_every_cluster_boundary() {
    let b = buffer("ab\ncde\r\nf");
    assert_eq!(b.len_lines(), 3);
    let expected = [
        (Position::new(0, 0), 0),
        (Position::new(0, 1), 1),
        (Position::new(0, 2), 2),
        (Position::new(1, 0), 3),
        (Position::new(1, 3), 6),
        (Position::new(2, 0), 8),
        (Position::new(2, 1), 9),
    ];
    for (pos, idx) in expected {
        assert_eq!(b.position_to_char_idx(pos), Ok(idx));
        assert_eq!(b.char_idx_to_position(idx), Ok(pos));
    }
}

#[test]
fn test_position_behind_a_line_break_is_the_next_line_start() {
    let b = buffer("a\nb");
    // column 2 of line 0 lies behind the line break: a valid position whose
    // offset is the start of line 1
    assert_eq!(b.position_to_char_idx(Position::new(0, 2)), Ok(2));
    assert_eq!(b.char_idx_to_position(2), Ok(Position::new(1, 0)));
    // on the last line the end of the line comes back as it is
    assert_eq!(b.position_to_char_idx(Position::new(1, 1)), Ok(3));
    assert_eq!(b.char_idx_to_position(3), Ok(Position::new(1, 1)));
}

#[test]
fn test_offset_inside_a_cluster_maps_to_the_end_of_the_cluster() {
    // "e" with a combining acute accent is one cluster of two characters
    let b = buffer("e\u{301}x");
    assert_eq!(b.len_chars(), 3);
    assert_eq!(b.position_to_char_idx(Position::new(0, 1)), Ok(2));
    assert_eq!(b.position_to_char_idx(Position::new(0, 2)), Ok(3));
    assert_eq!(b.char_idx_to_position(0), Ok(Position::new(0, 0)));
    assert_eq!(b.char_idx_to_position(1), Ok(Position::new(0, 1)));
    assert_eq!(b.char_idx_to_position(2), Ok(Position::new(0, 1)));
    assert_eq!(b.char_idx_to_position(3), Ok(Position::new(0, 2)));
}

#[test]
fn test_crlf_is_one_cluster_and_one_line_break() {
    let b = buffer("a\r\nb");
    assert_eq!(b.len_lines(), 2);
    assert_eq!(b.line(0).unwrap(), "a\r\n");
    assert_eq!(b.line(1).unwrap(), "b");
    assert_eq!(b.position_to_char_idx(Position::new(0, 1)), Ok(1));
    assert_eq!(b.position_to_char_idx(Position::new(0, 2)), Ok(3));
    assert_eq!(
        b.position_to_char_idx(Position::new(0, 3)),
        Err(EditorError::InvalidPosition { line: 0, column: 3 })
    );
    // the offset between CR and LF still stands on line 0
    assert_eq!(b.char_idx_to_position(2), Ok(Position::new(0, 2)));
}

#[test]
fn test_line_breaks_that_count() {
    assert_eq!(buffer("").len_lines(), 1);
    assert_eq!(buffer("a").len_lines(), 1);
    assert_eq!(buffer("a\n").len_lines(), 2);
    assert_eq!(buffer("a\rb\nc\r\nd").len_lines(), 4);
    assert_eq!(buffer("a\u{0B}b\u{0C}c\u{85}d\u{2028}e\u{2029}f").len_lines(), 6);
    assert_eq!(buffer("a\n\nb").line(1).unwrap(), "\n");
    assert_eq!(buffer("a\n").line(1).unwrap(), "");
}

#[test]
fn test_invalid_positions_are_refused() {
    let b = buffer("Hello\nWorld");
    assert_eq!(
        b.position_to_char_idx(Position::new(2, 0)),
        Err(EditorError::InvalidPosition { line: 2, column: 0 })
    );
    assert_eq!(
        b.position_to_char_idx(Position::new(1, 6)),
        Err(EditorError::InvalidPosition { line: 1, column: 6 })
    );
    assert_eq!(
        b.char_idx_to_position(12),
        Err(EditorError::InvalidPosition { line: 0, column: 12 })
    );
    assert_eq!(b.line(2), Err(EditorError::InvalidPosition { line: 2, column: 0 }));
    assert_eq!(b.char_idx_to_position(11), Ok(Position::new(1, 5)));
}

#[test]
fn test_failed_edits_change_nothing() {
    let mut b = buffer("Hello");
    assert_eq!(
        b.insert(Position::new(0, 6), "x"),
        Err(EditorError::InvalidPosition { line: 0, column: 6 })
    );
    assert_eq!(
        b.delete(Position::new(0, 4), Position::new(0, 2)),
        Err(EditorError::InvalidRange { start: Position::new(0, 4), end: Position::new(0, 2) })
    );
    assert_eq!(
        b.delete(Position::new(0, 1), Position::new(3, 0)),
        Err(EditorError::InvalidPosition { line: 3, column: 0 })
    );
    assert_eq!(
        b.replace(Position::new(9, 9), Position::new(0, 2), "x"),
        Err(EditorError::InvalidPosition { line: 9, column: 9 })
    );
    assert_eq!(b.text(), "Hello");
    assert_eq!(b.version(), Version::new());
    assert!(!b.is_dirty());
    assert!(!b.can_undo());

    b.set_read_only(true);
    assert!(b.is_read_only());
    assert_eq!(
        b.insert(Position::new(0, 0), "x"),
        Err(EditorError::BufferError(BufferError::ReadOnly))
    );
    assert_eq!(
        b.replace(Position::new(0, 0), Position::new(0, 1), "x"),
        Err(EditorError::BufferError(BufferError::ReadOnly))
    );
    // the read-only mark is named before a bad position
    assert_eq!(
        b.delete(Position::new(5, 5), Position::new(0, 1)),
        Err(EditorError::BufferError(BufferError::ReadOnly))
    );
    assert_eq!(b.text(), "Hello");
    assert_eq!(b.version().value(), 0);
}

#[test]
fn test_every_edit_bumps_the_version_once() {
    let mut b = buffer("Hello World");
    assert_eq!(b.version().value(), 0);
    b.insert(Position::new(0, 5), ",").unwrap();
    assert_eq!(b.version().value(), 1);
    let deleted = b.delete(Position::new(0, 0), Position::new(0, 6)).unwrap();
    assert_eq!(deleted, "Hello,");
    assert_eq!(b.version().value(), 2);
    let replaced = b.replace(Position::new(0, 1), Position::new(0, 6), "Rust").unwrap();
    assert_eq!(replaced, "World");
    assert_eq!(b.text(), " Rust");
    assert_eq!(b.version().value(), 3);
    b.undo().unwrap();
    assert_eq!(b.version().value(), 4);
    b.redo().unwrap();
    assert_eq!(b.version().value(), 5);
    assert_eq!(b.version().next().value(), 6);
    assert!(b.is_dirty());
}

#[test]
fn test_undo_and_redo_report_the_caret() {
    let mut b = buffer("Hello World");
    b.replace(Position::new(0, 6), Position::new(0, 11), "Rust").unwrap();
    assert_eq!(b.undo(), Some(Position::new(0, 6)));
    assert_eq!(b.text(), "Hello World");
    assert_eq!(b.redo(), Some(Position::new(0, 10)));
    assert_eq!(b.text(), "Hello Rust");
    assert_eq!(b.redo(), None);
    b.undo().unwrap();
    assert_eq!(b.undo(), None);
    assert_eq!(b.text(), "Hello World");
}

#[test]
fn test_adjacent_inserts_are_one_undo_step() {
    let mut b = buffer("");
    b.insert(Position::new(0, 0), "a").unwrap();
    b.insert(Position::new(0, 1), "b").unwrap();
    b.insert(Position::new(0, 2), "c").unwrap();
    assert_eq!(b.undo(), Some(Position::new(0, 0)));
    assert_eq!(b.text(), "");
    assert!(!b.can_undo());
    assert_eq!(b.redo(), Some(Position::new(0, 3)));
    assert_eq!(b.text(), "abc");
}

#[test]
fn test_inserts_that_are_not_adjacent_are_separate_steps() {
    let mut b = buffer("xy");
    b.insert(Position::new(0, 2), "b").unwrap();
    b.insert(Position::new(0, 0), "a").unwrap();
    assert_eq!(b.text(), "axyb");
    b.undo().unwrap();
    assert_eq!(b.text(), "xyb");
    b.undo().unwrap();
    assert_eq!(b.text(), "xy");
}

#[test]
fn test_backspace_chain_and_forward_delete_chain_merge() {
    let mut b = buffer("abcdef");
    assert_eq!(b.backspace(Position::new(0, 3)), Ok(Position::new(0, 2)));
    assert_eq!(b.backspace(Position::new(0, 2)), Ok(Position::new(0, 1)));
    assert_eq!(b.text(), "adef");
    b.undo().unwrap();
    assert_eq!(b.text(), "abcdef");

    assert_eq!(b.delete_forward(Position::new(0, 1)), Ok(Position::new(0, 1)));
    assert_eq!(b.delete_forward(Position::new(0, 1)), Ok(Position::new(0, 1)));
    assert_eq!(b.text(), "adef");
    b.undo().unwrap();
    assert_eq!(b.text(), "abcdef");
    assert!(!b.can_undo());
}

#[test]
fn test_an_edit_after_undo_clears_redo() {
    let mut b = buffer("a");
    b.insert(Position::new(0, 1), "b").unwrap();
    b.undo().unwrap();
    assert!(b.can_redo());
    b.insert(Position::new(0, 0), "c").unwrap();
    assert!(!b.can_redo());
    assert_eq!(b.redo(), None);
    assert_eq!(b.text(), "ca");
}

#[test]
fn test_undo_is_exact_when_an_insert_changes_the_clusters() {
    // the accent joins the cluster of the "e" before it, so that the start
    // of the insertion is no cluster boundary afterwards
    let mut b = buffer("ex");
    b.insert(Position::new(0, 1), "\u{301}").unwrap();
    assert_eq!(b.text(), "e\u{301}x");
    assert_eq!(b.undo(), Some(Position::new(0, 1)));
    assert_eq!(b.text(), "ex");
    b.redo().unwrap();
    assert_eq!(b.text(), "e\u{301}x");
}

#[test]
fn test_undo_is_exact_when_an_insert_joins_a_line_break() {
    let mut b = buffer("a\rb");
    assert_eq!(b.len_lines(), 2);
    b.insert(Position::new(1, 0), "\n").unwrap();
    assert_eq!(b.text(), "a\r\nb");
    assert_eq!(b.len_lines(), 2);
    b.undo().unwrap();
    assert_eq!(b.text(), "a\rb");
    b.redo().unwrap();
    assert_eq!(b.text(), "a\r\nb");
}

#[test]
fn test_read_only_buffer_keeps_its_history_untouched() {
    let mut b = buffer("a");
    b.insert(Position::new(0, 1), "b").unwrap();
    b.set_read_only(true);
    assert_eq!(b.undo(), None);
    assert_eq!(b.text(), "ab");
    assert!(b.can_undo());
    b.set_read_only(false);
    assert_eq!(b.undo(), Some(Position::new(0, 1)));
    assert_eq!(b.text(), "a");
    b.set_read_only(true);
    assert_eq!(b.redo(), None);
    assert_eq!(b.text(), "a");
}

#[test]
fn test_backspace_and_delete_forward_at_the_edges() {
    let mut b = buffer("a\nb");
    assert_eq!(b.backspace(Position::new(0, 0)), Ok(Position::new(0, 0)));
    assert_eq!(b.delete_forward(Position::new(1, 1)), Ok(Position::new(1, 1)));
    assert_eq!(b.text(), "a\nb");
    assert!(!b.is_dirty());
    assert_eq!(
        b.backspace(Position::new(4, 0)),
        Err(EditorError::InvalidPosition { line: 4, column: 0 })
    );
    assert_eq!(
        b.delete_forward(Position::new(0, 9)),
        Err(EditorError::InvalidPosition { line: 0, column: 9 })
    );
    // a whole cluster goes at once
    let mut c = buffer("e\u{301}x");
    assert_eq!(c.backspace(Position::new(0, 1)), Ok(Position::new(0, 0)));
    assert_eq!(c.text(), "x");
    let mut d = buffer("a\r\nb");
    assert_eq!(d.backspace(Position::new(1, 0)), Ok(Position::new(0, 1)));
    assert_eq!(d.text(), "ab");
}

#[test]
fn test_word_boundaries_exact() {
    let b = buffer("hello world test\nnext");
    assert_eq!(b.next_word_boundary(Position::new(0, 0)), Ok(Position::new(0, 5)));
    assert_eq!(b.next_word_boundary(Position::new(0, 5)), Ok(Position::new(0, 6)));
    assert_eq!(b.next_word_boundary(Position::new(0, 7)), Ok(Position::new(0, 11)));
    assert_eq!(b.prev_word_boundary(Position::new(0, 10)), Ok(Position::new(0, 6)));
    assert_eq!(b.prev_word_boundary(Position::new(0, 6)), Ok(Position::new(0, 5)));
    assert_eq!(b.prev_word_boundary(Position::new(0, 0)), Ok(Position::new(0, 0)));
    assert_eq!(b.next_word_boundary(Position::new(1, 4)), Ok(Position::new(1, 4)));
    assert_eq!(
        b.next_word_boundary(Position::new(2, 0)),
        Err(EditorError::InvalidPosition { line: 2, column: 0 })
    );
    assert_eq!(
        b.prev_word_boundary(Position::new(1, 5)),
        Err(EditorError::InvalidPosition { line: 1, column: 5 })
    );
}

#[test]
fn test_metrics_exact() {
    let m = buffer("Hello\nWorld!\nT\u{e9}st").metrics();
    assert_eq!(m.total_lines, 3);
    assert_eq!(m.total_chars, 17);
    assert_eq!(m.total_bytes, 18);
    assert_eq!(m.longest_line_length, 7); // "World!\n"
    let e = buffer("").metrics();
    assert_eq!((e.total_lines, e.total_chars, e.total_bytes, e.longest_line_length), (1, 0, 0, 0));
    assert_eq!(buffer("\u{1F44B}").len_bytes(), 4);
}

#[test]
fn test_snapshot_keeps_text_and_version() {
    let mut b = buffer("one\ntwo");
    b.insert(Position::new(1, 3), "!").unwrap();
    let s = b.snapshot();
    b.delete(Position::new(0, 0), Position::new(1, 0)).unwrap();
    assert_eq!(s.text(), "one\ntwo!");
    assert_eq!(s.version().value(), 1);
    assert_eq!(s.len_lines(), 2);
    assert_eq!(s.len_chars(), 8);
    assert_eq!(s.line(1), Some("two!".to_string()));
    assert_eq!(s.line(2), None);
    assert_eq!(b.text(), "two!");
    assert_eq!(b.version().value(), 2);
}

#[test]
fn test_line_endings() {
    assert_eq!(LineEnding::Lf.as_str(), "\n");
    assert_eq!(LineEnding::Crlf.as_str(), "\r\n");
    assert_eq!(LineEnding::Cr.as_str(), "\r");
    // CR LF is looked for first, then LF, then CR
    assert_eq!(LineEnding::detect("a\rb\nc\r\nd"), LineEnding::Crlf);
    assert_eq!(LineEnding::detect("a\rb\nc"), LineEnding::Lf);
    assert_eq!(LineEnding::detect("a\n\rb"), LineEnding::Lf);
    assert_eq!(LineEnding::detect("\r"), LineEnding::Cr);
    assert_eq!(LineEnding::detect_or("abc", LineEnding::Cr), LineEnding::Cr);
    assert_eq!(LineEnding::detect_or("", LineEnding::Crlf), LineEnding::Crlf);
    assert_eq!(LineEnding::detect_or("a\nb", LineEnding::Cr), LineEnding::Lf);
    // without a line break the platform decides
    let platform = if std::path::MAIN_SEPARATOR == '\\' { LineEnding::Crlf } else { LineEnding::Lf };
    assert_eq!(LineEnding::platform(), platform);
    assert_eq!(LineEnding::of_platform(true), LineEnding::Crlf);
    assert_eq!(LineEnding::of_platform(false), LineEnding::Lf);
    assert_eq!(LineEnding::platform(), LineEnding::of_platform(std::path::is_separator('\\')));
    assert_eq!(LineEnding::detect("abc"), platform);
    assert_eq!(buffer("a\r\nb").line_ending(), LineEnding::Crlf);
}

#[test]
fn test_setters_and_saving() {
    let mut b = Buffer::new(BufferId::new(3));
    assert_eq!(b.id(), BufferId::new(3));
    assert_eq!(b.id().value(), 3);
    assert_eq!(BufferId::new(3).next(), BufferId::new(4));
    assert_eq!(b.line_ending(), LineEnding::Lf);
    assert_eq!(b.file_path(), None);
    assert_eq!(b.save_path(), Err(EditorError::NoFilePath));
    b.set_line_ending(LineEnding::Crlf);
    assert_eq!(b.line_ending(), LineEnding::Crlf);
    assert!(b.is_dirty());
    assert_eq!(b.version().value(), 0);
    b.mark_saved_as(PathBuf::from("notes.typ"));
    assert!(!b.is_dirty());
    assert_eq!(b.save_path(), Ok(&PathBuf::from("notes.typ")));
    b.insert(Position::new(0, 0), "x").unwrap();
    assert!(b.is_dirty());
    b.mark_saved();
    assert!(!b.is_dirty());
    b.set_file_path(PathBuf::from("other.typ"));
    assert_eq!(b.file_path(), Some(&PathBuf::from("other.typ")));
    assert_eq!(b.len_bytes(), 1);
}
