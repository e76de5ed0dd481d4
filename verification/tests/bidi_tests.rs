//! Levels, runs, position mapping and caret movement on chosen texts.

use typst_editor::bidi::{blanks_of, is_blank, levels_at, shared_bounds};
use typst_editor::layout::{
    layout_runs, level_direction, logical_position, logical_runs, reverse_pass, visual_column,
};
use typst_editor::unicode::{is_whitespace, piece_bounds};
use typst_editor::{
    BidiError, BidiParagraph, CursorMovement, Direction, MovementDirection, TextPosition,
    VisualRun,
};

fn run(start: usize, end: usize, level: u8) -> VisualRun {
    let direction = if level % 2 == 0 { Direction::LTR } else { Direction::RTL };
    VisualRun { start, end, level, direction }
}

fn go(p: &BidiParagraph, from: usize, d: MovementDirection) -> usize {
    CursorMovement::move_visual(p, from, d).unwrap()
}

#[test]
fn test_runs_of_given_levels() {
    let levels = vec![0, 0, 1, 1, 2, 2, 1, 0];
    assert_eq!(
        logical_runs(&levels),
        vec![run(0, 2, 0), run(2, 4, 1), run(4, 6, 2), run(6, 7, 1), run(7, 8, 0)]
    );
    let runs = layout_runs(&levels);
    assert_eq!(runs, vec![run(0, 2, 0), run(6, 7, 1), run(4, 6, 2), run(2, 4, 1), run(7, 8, 0)]);
    let visual: Vec<usize> = (0..8).map(|i| visual_column(&runs, 8, i)).collect();
    assert_eq!(visual, vec![0, 1, 6, 5, 3, 4, 2, 7]);
    let logical: Vec<usize> = (0..8).map(|v| logical_position(&runs, 8, v)).collect();
    assert_eq!(logical, vec![0, 1, 6, 4, 5, 3, 2, 7]);
}

#[test]
fn test_reordering_stops_at_the_lowest_odd_level() {
    // only even levels: nothing is reversed
    assert_eq!(layout_runs(&vec![0, 2, 2, 0]), vec![run(0, 1, 0), run(1, 3, 2), run(3, 4, 0)]);
    // levels 2 and 3 only: the reversal for level 3 is the only one
    assert_eq!(layout_runs(&vec![2, 3, 3, 2]), vec![run(0, 1, 2), run(1, 3, 3), run(3, 4, 2)]);
    assert_eq!(layout_runs(&vec![1, 1, 3, 3]), vec![run(2, 4, 3), run(0, 2, 1)]);
    assert_eq!(layout_runs(&vec![]), vec![]);
    assert_eq!(layout_runs(&vec![1]), vec![run(0, 1, 1)]);
}

#[test]
fn test_one_reversal_pass() {
    let runs = vec![run(0, 1, 0), run(1, 2, 1), run(2, 3, 2), run(3, 4, 1), run(4, 5, 0), run(5, 6, 1)];
    assert_eq!(
        reverse_pass(&runs, 1),
        vec![run(0, 1, 0), run(3, 4, 1), run(2, 3, 2), run(1, 2, 1), run(4, 5, 0), run(5, 6, 1)]
    );
    assert_eq!(reverse_pass(&runs, 2), runs);
    assert_eq!(reverse_pass(&runs, 3), runs);
    let mut all = runs.clone();
    all.reverse();
    assert_eq!(reverse_pass(&runs, 0), all);
}

#[test]
fn test_mixed_text_has_three_runs() {
    let p = BidiParagraph::new("Hello שלום World".to_string(), None);
    assert_eq!(p.len(), 16);
    assert_eq!(p.direction(), Direction::LTR);
    assert_eq!(p.levels(), &[0, 0, 0, 0, 0, 0, 1, 1, 1, 1, 0, 0, 0, 0, 0, 0]);
    assert_eq!(p.visual_runs(), &[run(0, 6, 0), run(6, 10, 1), run(10, 16, 0)]);
    assert_eq!(p.logical_to_visual(6), 9);
    assert_eq!(p.logical_to_visual(9), 6);
    assert_eq!(p.visual_to_logical(6), 9);
    assert_eq!(p.logical_to_visual(16), 16);
    assert_eq!(p.visual_to_logical(16), 16);
    assert_eq!(p.logical_to_visual(99), 16);
}

#[test]
fn test_right_follows_the_visual_order() {
    let p = BidiParagraph::new("Hello שלום World".to_string(), None);
    // from the space before the Hebrew word to its visually first letter,
    // which is its last letter in logical order
    assert_eq!(go(&p, 5, MovementDirection::Right), 9);
    // and on through the word, backwards in logical order
    assert_eq!(go(&p, 9, MovementDirection::Right), 8);
    assert_eq!(go(&p, 8, MovementDirection::Right), 7);
    assert_eq!(go(&p, 7, MovementDirection::Right), 6);
    assert_eq!(go(&p, 6, MovementDirection::Right), 10);
    assert_eq!(go(&p, 6, MovementDirection::Left), 7);
    assert_eq!(go(&p, 10, MovementDirection::Left), 6);
    // from the first character Right goes to the second
    assert_eq!(go(&p, 0, MovementDirection::Right), 1);
    // at the two ends the caret stays
    assert_eq!(go(&p, 0, MovementDirection::Left), 0);
    assert_eq!(go(&p, 16, MovementDirection::Right), 16);
    assert_eq!(go(&p, 40, MovementDirection::Right), 16);
    assert_eq!(go(&p, 40, MovementDirection::Left), 15);
}

#[test]
fn test_positions_are_mutual_inverses() {
    for text in ["", "abc", "שלום", "Hello שלום World", "אב 12 cd", "a\u{301}b ג"] {
        let p = BidiParagraph::new(text.to_string(), None);
        for i in 0..=p.len() {
            assert!(p.logical_to_visual(i) <= p.len());
            assert_eq!(p.visual_to_logical(p.logical_to_visual(i)), i);
            assert_eq!(p.logical_to_visual(p.visual_to_logical(i)), i);
        }
    }
}

#[test]
fn test_right_to_left_paragraph() {
    let p = BidiParagraph::new("שלום".to_string(), None);
    assert_eq!(p.direction(), Direction::RTL);
    assert_eq!(p.levels(), &[1, 1, 1, 1]);
    assert_eq!(p.visual_runs(), &[run(0, 4, 1)]);
    assert_eq!(p.logical_to_visual(0), 3);
    assert_eq!(p.logical_to_visual(3), 0);
    assert_eq!(go(&p, 0, MovementDirection::Left), 1);
    assert_eq!(go(&p, 3, MovementDirection::Right), 2);
    assert_eq!(go(&p, 0, MovementDirection::End), 4);
    // Home is the visual start, where the last letter stands
    assert_eq!(go(&p, 1, MovementDirection::Home), 3);
}

#[test]
fn test_numbers_in_right_to_left_text() {
    let p = BidiParagraph::new("אב 12".to_string(), None);
    assert_eq!(p.levels(), &[1, 1, 1, 2, 2]);
    assert_eq!(p.visual_runs(), &[run(3, 5, 2), run(0, 3, 1)]);
    let visual: Vec<usize> = (0..5).map(|i| p.logical_to_visual(i)).collect();
    assert_eq!(visual, vec![4, 3, 2, 0, 1]);
}

#[test]
fn test_base_direction_given_from_outside() {
    let p = BidiParagraph::new("abc".to_string(), Some(Direction::RTL));
    assert_eq!(p.direction(), Direction::RTL);
    assert_eq!(p.levels(), &[2, 2, 2]);
    assert_eq!(p.visual_runs(), &[run(0, 3, 2)]);
    let p = BidiParagraph::new("שלום".to_string(), Some(Direction::LTR));
    assert_eq!(p.direction(), Direction::LTR);
    assert_eq!(p.levels(), &[1, 1, 1, 1]);
    let p = BidiParagraph::new("abc".to_string(), Some(Direction::LTR));
    assert_eq!(p.direction(), Direction::LTR);
    assert_eq!(p.levels(), &[0, 0, 0]);
    // without strong characters the paragraph reads left to right
    assert_eq!(BidiParagraph::new("123 ...".to_string(), None).direction(), Direction::LTR);
}

#[test]
fn test_clusters_are_single_steps() {
    // a letter with a combining accent, and a family emoji joined by ZWJ
    let p = BidiParagraph::new("e\u{301}x\u{1F468}\u{200D}\u{1F469}\u{200D}\u{1F467}y".to_string(), None);
    assert_eq!(p.len(), 4);
    assert_eq!(p.text().chars().count(), 9);
    assert!(!p.is_empty());
    assert_eq!(go(&p, 0, MovementDirection::Right), 1);
    assert_eq!(go(&p, 2, MovementDirection::Right), 3);
    assert_eq!(go(&p, 3, MovementDirection::Left), 2);
    assert_eq!(go(&p, 1, MovementDirection::End), 4);
    assert_eq!(CursorMovement::move_logical("e\u{301}x", 0, true), 1);
    assert_eq!(CursorMovement::move_logical("e\u{301}x", 1, true), 2);
    assert_eq!(CursorMovement::move_logical("e\u{301}x", 2, true), 2);
    assert_eq!(CursorMovement::move_logical("e\u{301}x", 9, false), 8);
    assert_eq!(CursorMovement::move_logical("", 0, true), 0);
    assert_eq!(CursorMovement::step_logical(5, 4, true), 5);
    assert_eq!(CursorMovement::step_logical(5, usize::MAX, true), 5);
}

#[test]
fn test_empty_paragraph() {
    let p = BidiParagraph::new(String::new(), None);
    assert!(p.is_empty());
    assert_eq!(p.len(), 0);
    assert_eq!(p.visual_runs().len(), 0);
    for d in [
        MovementDirection::Left,
        MovementDirection::Right,
        MovementDirection::Home,
        MovementDirection::End,
        MovementDirection::WordLeft,
        MovementDirection::WordRight,
    ] {
        assert_eq!(CursorMovement::move_visual(&p, 0, d), Ok(0));
        assert_eq!(CursorMovement::move_visual(&p, 3, d), Ok(0));
    }
}

#[test]
fn test_vertical_moves_are_refused_on_one_paragraph() {
    for text in ["", "Hello"] {
        let p = BidiParagraph::new(text.to_string(), None);
        for d in [MovementDirection::Up, MovementDirection::Down] {
            assert!(matches!(
                CursorMovement::move_visual(&p, 0, d),
                Err(BidiError::ProcessingError(_))
            ));
        }
    }
}

#[test]
fn test_smart_home() {
    let p = BidiParagraph::new("\t  Hello".to_string(), None);
    assert_eq!(go(&p, 6, MovementDirection::Home), 3);
    assert_eq!(go(&p, 3, MovementDirection::Home), 0);
    assert_eq!(go(&p, 0, MovementDirection::Home), 3);
    assert_eq!(go(&p, 1, MovementDirection::Home), 3);
    // a blank line has no such cluster: Home is the start
    let blank = BidiParagraph::new("   ".to_string(), None);
    assert_eq!(go(&blank, 2, MovementDirection::Home), 0);
    assert_eq!(go(&blank, 0, MovementDirection::Home), 0);
}

#[test]
fn test_word_stops_exact() {
    let p = BidiParagraph::new("hello world test".to_string(), None);
    assert_eq!(go(&p, 0, MovementDirection::WordRight), 5);
    assert_eq!(go(&p, 5, MovementDirection::WordRight), 6);
    assert_eq!(go(&p, 6, MovementDirection::WordRight), 11);
    assert_eq!(go(&p, 12, MovementDirection::WordRight), 16);
    assert_eq!(go(&p, 16, MovementDirection::WordRight), 16);
    assert_eq!(go(&p, 99, MovementDirection::WordRight), 16);
    assert_eq!(go(&p, 10, MovementDirection::WordLeft), 6);
    assert_eq!(go(&p, 6, MovementDirection::WordLeft), 5);
    assert_eq!(go(&p, 5, MovementDirection::WordLeft), 0);
    assert_eq!(go(&p, 0, MovementDirection::WordLeft), 0);
    assert_eq!(go(&p, 99, MovementDirection::WordLeft), 12);
    // "can't" and "32.3" are single words
    let q = BidiParagraph::new("can't 32.3".to_string(), None);
    assert_eq!(go(&q, 0, MovementDirection::WordRight), 5);
    assert_eq!(go(&q, 6, MovementDirection::WordRight), 10);
}

#[test]
fn test_vertical_landing() {
    let lines = vec!["Hello World".to_string(), "Hi".to_string(), "Goodbye World".to_string()];
    let down = |line, column, sticky| {
        CursorMovement::move_vertical(&lines, line, column, MovementDirection::Down, sticky)
    };
    let up = |line, column, sticky| {
        CursorMovement::move_vertical(&lines, line, column, MovementDirection::Up, sticky)
    };
    assert_eq!(down(0, 8, None), Ok(TextPosition { line: 1, column: 2, sticky_column: Some(8) }));
    assert_eq!(down(1, 2, Some(8)), Ok(TextPosition { line: 2, column: 8, sticky_column: Some(8) }));
    // the sticky column wins only where the line reaches it
    assert_eq!(down(1, 1, Some(20)), Ok(TextPosition { line: 2, column: 1, sticky_column: Some(20) }));
    assert_eq!(down(1, 2, Some(13)), Ok(TextPosition { line: 2, column: 13, sticky_column: Some(13) }));
    assert_eq!(up(1, 2, Some(0)), Ok(TextPosition { line: 0, column: 0, sticky_column: Some(0) }));
    assert_eq!(up(2, 5, None), Ok(TextPosition { line: 1, column: 2, sticky_column: Some(5) }));
    // at the first and last line the caret stays
    assert_eq!(up(0, 4, Some(9)), Ok(TextPosition { line: 0, column: 4, sticky_column: Some(9) }));
    assert_eq!(down(2, 4, None), Ok(TextPosition { line: 2, column: 4, sticky_column: Some(4) }));
    assert_eq!(CursorMovement::land_on_line(3, 5, 9, Some(7)), TextPosition {
        line: 3,
        column: 5,
        sticky_column: Some(7),
    });
}

#[test]
fn test_vertical_moves_count_clusters() {
    let lines = vec!["abcdef".to_string(), "e\u{301}e\u{301}e\u{301}".to_string()];
    assert_eq!(
        CursorMovement::move_vertical(&lines, 0, 5, MovementDirection::Down, None),
        Ok(TextPosition { line: 1, column: 3, sticky_column: Some(5) })
    );
}

#[test]
fn test_vertical_errors() {
    let lines = vec!["a".to_string()];
    assert_eq!(
        CursorMovement::move_vertical(&lines, 1, 0, MovementDirection::Down, None),
        Err(BidiError::InvalidParagraph(1))
    );
    assert_eq!(
        CursorMovement::move_vertical(&Vec::new(), 0, 0, MovementDirection::Up, None),
        Err(BidiError::InvalidParagraph(0))
    );
    for d in [
        MovementDirection::Left,
        MovementDirection::Right,
        MovementDirection::Home,
        MovementDirection::End,
        MovementDirection::WordLeft,
        MovementDirection::WordRight,
    ] {
        assert!(matches!(
            CursorMovement::move_vertical(&lines, 0, 0, d, None),
            Err(BidiError::ProcessingError(_))
        ));
    }
}

#[test]
fn test_assemble_from_parts() {
    let text = "ab cd".to_string();
    let clusters: Vec<String> = ["ab", " ", "cd"].iter().map(|s| s.to_string()).collect();
    let words: Vec<String> = ["ab ", "cd"].iter().map(|s| s.to_string()).collect();
    assert_eq!(piece_bounds(&clusters), vec![0, 2, 3, 5]);
    let p = BidiParagraph::assemble(text, Direction::RTL, &clusters, &words, &vec![1, 5, 0, 2, 7]);
    assert_eq!(p.len(), 3);
    assert_eq!(p.direction(), Direction::RTL);
    // each cluster has the level of its first character
    assert_eq!(p.levels(), &[1, 0, 2]);
    assert!(!p.is_blank_at(0));
    assert!(p.is_blank_at(1));
    assert!(p.is_word_stop_at(0));
    assert!(!p.is_word_stop_at(1));
    assert!(p.is_word_stop_at(2));
    assert!(p.is_word_stop_at(3));
}

#[test]
fn test_white_space() {
    for c in [' ', '\t', '\n', '\r', '\u{0B}', '\u{0C}', '\u{85}', '\u{A0}', '\u{1680}', '\u{2000}',
        '\u{200A}', '\u{2028}', '\u{2029}', '\u{202F}', '\u{205F}', '\u{3000}']
    {
        assert!(is_whitespace(c));
        assert!(c.is_whitespace());
    }
    for c in ['a', '0', '\u{200B}', '\u{200D}', '\u{FEFF}', '\u{1F}', '\u{180E}', '_'] {
        assert!(!is_whitespace(c));
        assert!(!c.is_whitespace());
    }
}

#[test]
fn test_parts_of_the_assembly() {
    assert_eq!(levels_at(&vec![0, 2, 3, 5], &vec![1, 5, 0, 2, 7]), vec![1, 0, 2]);
    assert_eq!(levels_at(&vec![0], &vec![]), Vec::<u8>::new());
    let pieces: Vec<String> = ["a", " \t", "\r\n", " b", ""].iter().map(|s| s.to_string()).collect();
    assert_eq!(blanks_of(&pieces), vec![false, true, true, false, true]);
    assert!(is_blank("\u{2003}\u{3000}"));
    assert!(!is_blank(" \u{301}"));
    assert_eq!(
        shared_bounds(&vec![0, 2, 3, 5, 9], &vec![0, 3, 4, 9]),
        vec![true, false, true, false, true]
    );
    assert_eq!(shared_bounds(&vec![1, 2], &vec![]), vec![false, false]);
    assert_eq!(shared_bounds(&vec![], &vec![1]), Vec::<bool>::new());
    assert_eq!(level_direction(0), Direction::LTR);
    assert_eq!(level_direction(1), Direction::RTL);
    assert_eq!(level_direction(126), Direction::LTR);
}
