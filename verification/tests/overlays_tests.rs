//! Overlays of the editor view.

use typst_editor::{
    AutocompletePopup, CodeAction, CodeActionKind, CompletionItem, CompletionKind, HoverInfo,
    Overlays, ParameterHints, Position, QuickFixesMenu, SignatureInfo,
};

#[test]
fn test_overlays_creation() {
    let overlays = Overlays::new();
    assert!(overlays.autocomplete.is_none());
    assert!(overlays.hover.is_none());
    assert!(overlays.parameter_hints.is_none());
    assert!(overlays.quick_fixes.is_none());
    assert!(!overlays.has_visible_overlay());
}

#[test]
fn test_autocomplete_show_hide() {
    let mut overlays = Overlays::new();
    let popup = AutocompletePopup::new(Position::new(0, 0), vec![]);
    overlays.show_autocomplete(popup);
    assert!(overlays.autocomplete.is_some());
    assert!(overlays.has_visible_overlay());
    overlays.hide_autocomplete();
    assert!(overlays.autocomplete.is_none());
}

#[test]
fn test_autocomplete_navigation() {
    let items = vec![
        CompletionItem {
            label: "item1".to_string(),
            kind: CompletionKind::Function,
            detail: None,
            documentation: None,
        },
        CompletionItem {
            label: "item2".to_string(),
            kind: CompletionKind::Variable,
            detail: None,
            documentation: None,
        }
    ];
    let mut popup = AutocompletePopup::new(Position::new(0, 0), items);

    assert_eq!(popup.selected, 0);
    popup.select_next();
    assert_eq!(popup.selected, 1);
    popup.select_next();
    assert_eq!(popup.selected, 0); // Wrap around

    popup.select_previous();
    assert_eq!(popup.selected, 1); // Wrap around backwards
}

#[test]
fn test_hover_info() {
    let hover = HoverInfo::new(Position::new(1, 5), "Test documentation".to_string());
    assert_eq!(hover.position, Position::new(1, 5));
    assert_eq!(hover.content, "Test documentation");
}

#[test]
fn test_parameter_hints() {
    let sigs = vec![SignatureInfo {
        label: "func(a: int, b: int)".to_string(),
        parameters: vec![],
        documentation: None,
    }];
    let hints = ParameterHints::new(Position::new(0, 0), sigs);
    assert_eq!(hints.active_signature, 0);
    assert_eq!(hints.active_parameter, 0);
    assert!(hints.get_active_signature().is_some());
}

#[test]
fn test_quick_fixes_menu() {
    let actions = vec![
        CodeAction {
            title: "Fix import".to_string(),
            kind: CodeActionKind::QuickFix,
        },
        CodeAction {
            title: "Extract variable".to_string(),
            kind: CodeActionKind::Refactor,
        }
    ];
    let mut menu = QuickFixesMenu::new(Position::new(0, 0), actions);

    assert_eq!(menu.selected, 0);
    menu.select_next();
    assert_eq!(menu.selected, 1);
    assert_eq!(menu.get_selected().unwrap().title, "Extract variable");
}

#[test]
fn test_hide_all() {
    let mut overlays = Overlays::new();
    overlays.show_autocomplete(AutocompletePopup::new(Position::new(0, 0), vec![]));
    overlays.show_hover(HoverInfo::new(Position::new(0, 0), "test".to_string()));
    assert!(overlays.has_visible_overlay());

    overlays.hide_all();
    assert!(!overlays.has_visible_overlay());
}

#[test]
fn test_selection_of_stale_index_goes_round() {
    let actions = vec![
        CodeAction { title: "a".to_string(), kind: CodeActionKind::QuickFix },
        CodeAction { title: "b".to_string(), kind: CodeActionKind::Refactor },
        CodeAction { title: "c".to_string(), kind: CodeActionKind::SourceAction },
    ];
    let mut menu = QuickFixesMenu::new(Position::new(0, 0), actions);
    menu.selected = 7;
    assert!(menu.get_selected().is_none());
    menu.select_next();
    assert_eq!(menu.selected, 2); // (7 + 1) % 3
    menu.select_next();
    assert_eq!(menu.selected, 0);
    menu.select_previous();
    assert_eq!(menu.selected, 2);

    let mut empty = AutocompletePopup::new(Position::new(0, 0), vec![]);
    empty.select_next();
    empty.select_previous();
    assert_eq!(empty.selected, 0);
    assert!(empty.get_selected().is_none());
}
