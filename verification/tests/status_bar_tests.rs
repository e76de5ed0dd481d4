//! The texts of the status bar and the gutter.

use typst_editor::{
    EncodingDisplay, LanguageMode, LineNumbers, Position, PositionIndicator, SelectionInfo,
    StatusBar,
};

#[test]
fn test_status_bar_creation() {
    let status_bar = StatusBar::new();
    assert_eq!(status_bar.position.line, 1);
    assert_eq!(status_bar.position.column, 1);
}

#[test]
fn test_position_indicator() {
    let mut indicator = PositionIndicator::new();
    assert_eq!(indicator.format(), "Ln 1, Col 1");

    indicator.update(&Position::new(4, 9));
    assert_eq!(indicator.format(), "Ln 5, Col 10");
}

#[test]
fn test_selection_info() {
    let mut info = SelectionInfo::new();
    assert_eq!(info.format(), None);

    info.update(10, 1);
    assert_eq!(info.format(), Some("10 chars".to_string()));

    info.update(50, 3);
    assert_eq!(info.format(), Some("50 chars (3 lines)".to_string()));

    info.clear();
    assert_eq!(info.format(), None);
}

#[test]
fn test_encoding_display() {
    let mut encoding = EncodingDisplay::new();
    assert_eq!(encoding.format(), "UTF-8");

    encoding.set_encoding("UTF-16".to_string());
    assert_eq!(encoding.format(), "UTF-16");
}

#[test]
fn test_language_mode() {
    let mut language = LanguageMode::new();
    assert_eq!(language.format(), "Plain Text");

    language.set_language("Typst".to_string());
    assert_eq!(language.format(), "Typst");
}

#[test]
fn test_numbers_are_written_in_decimal() {
    let mut indicator = PositionIndicator::new();
    indicator.update(&Position::new(0, 0));
    assert_eq!(indicator.format(), "Ln 1, Col 1");
    indicator.update(&Position::new(99, 1233));
    assert_eq!(indicator.format(), "Ln 100, Col 1234");
    indicator.line = 0;
    indicator.column = 1_000_000;
    assert_eq!(indicator.format(), "Ln 0, Col 1000000");
}

#[test]
fn test_line_numbers() {
    let mut numbers = LineNumbers::new();
    assert_eq!(numbers.current_line, None);
    numbers.set_current_line(4);
    assert_eq!(numbers.current_line, Some(4));

    // absolute numbers count from 1
    assert_eq!(numbers.render(0, None), "1");
    assert_eq!(numbers.render(41, None), "42");
    // relative numbers are distances; the reference line shows its own number
    assert_eq!(numbers.render(10, Some(10)), "10");
    assert_eq!(numbers.render(7, Some(10)), "3");
    assert_eq!(numbers.render(25, Some(10)), "15");
}
