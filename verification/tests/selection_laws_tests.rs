//! Merging of selections on chosen sets.

use typst_editor::{Affinity, Cursor, Granularity, Position, Selection, SelectionSet};

fn sel(a: (usize, usize), b: (usize, usize)) -> Selection {
    Selection::new(Position::new(a.0, a.1), Position::new(b.0, b.1))
}

fn set_of(list: &[Selection]) -> SelectionSet {
    let mut set = SelectionSet::new(list[0]);
    for s in &list[1..] {
        set.add_selection(*s);
    }
    set
}

#[test]
fn test_merge_is_idempotent() {
    let cases: Vec<Vec<Selection>> = vec![
        vec![sel((0, 0), (0, 0))],
        vec![sel((1, 0), (1, 10)), sel((1, 5), (1, 15))],
        vec![sel((1, 0), (1, 5)), sel((2, 0), (2, 5))],
        vec![sel((0, 0), (0, 2)), sel((0, 5), (0, 7)), sel((0, 1), (0, 6)), sel((3, 0), (3, 1))],
        vec![sel((0, 9), (0, 4)), sel((0, 4), (0, 1)), sel((0, 20), (0, 30)), sel((0, 30), (1, 0))],
    ];
    for case in cases {
        let mut once = set_of(&case);
        once.merge_overlapping();
        let mut twice = set_of(&case);
        twice.merge_overlapping();
        twice.merge_overlapping();
        assert_eq!(once.selections(), twice.selections());
        assert!(once.selections().len() >= 1);
        // no two selections of the result overlap
        let merged = once.selections();
        for i in 0..merged.len() {
            for j in (i + 1)..merged.len() {
                assert!(!merged[i].overlaps(&merged[j]));
            }
        }
    }
}

#[test]
fn test_touching_selections_merge() {
    let mut set = set_of(&[sel((1, 0), (1, 5)), sel((1, 5), (1, 9))]);
    set.merge_overlapping();
    assert_eq!(set.selections(), &[sel((1, 0), (1, 9))]);
    // one column apart they do not
    let mut set = set_of(&[sel((1, 0), (1, 5)), sel((1, 6), (1, 9))]);
    set.merge_overlapping();
    assert_eq!(set.selections().len(), 2);
}

#[test]
fn test_a_chain_of_overlaps_becomes_one_selection() {
    let mut set = set_of(&[
        sel((0, 0), (0, 2)),
        sel((0, 5), (0, 7)),
        sel((0, 1), (0, 6)),
        sel((3, 0), (3, 1)),
    ]);
    set.merge_overlapping();
    assert_eq!(set.selections(), &[sel((0, 0), (0, 7)), sel((3, 0), (3, 1))]);
    assert_eq!(set.primary().range(), (Position::new(0, 0), Position::new(0, 7)));
}

#[test]
fn test_the_merged_selection_keeps_the_first_ones_direction() {
    let mut backward = sel((0, 9), (0, 4));
    backward.granularity = Granularity::Word;
    backward.cursor.affinity = Affinity::Upstream;
    backward.cursor.sticky_column = Some(3);
    let mut set = set_of(&[backward, sel((0, 2), (0, 5))]);
    set.merge_overlapping();
    let merged = set.selections()[0];
    assert_eq!(set.selections().len(), 1);
    assert_eq!(merged.anchor, Position::new(0, 9));
    assert_eq!(merged.head(), Position::new(0, 2));
    assert!(!merged.is_forward());
    assert_eq!(merged.granularity, Granularity::Word);
    assert_eq!(merged.cursor.affinity, Affinity::Upstream);
    assert_eq!(merged.cursor.sticky_column, None);
    assert_eq!(merged, backward.span(&sel((0, 2), (0, 5))));
}

#[test]
fn test_a_set_without_overlaps_is_left_alone() {
    let mut odd = sel((2, 0), (2, 5));
    odd.cursor.sticky_column = Some(7);
    let list = [sel((5, 5), (5, 1)), odd, sel((0, 0), (0, 0))];
    let mut set = set_of(&list);
    set.merge_overlapping();
    assert_eq!(set.selections(), &list);
}

#[test]
fn test_selection_queries() {
    let s = sel((3, 1), (2, 8));
    assert!(!s.is_collapsed());
    assert!(!s.is_forward());
    assert_eq!(s.range(), (Position::new(2, 8), Position::new(3, 1)));
    assert_eq!(s.head(), Position::new(2, 8));
    assert!(s.overlaps(&sel((3, 1), (9, 9))));
    assert!(s.overlaps(&sel((0, 0), (2, 8))));
    assert!(!s.overlaps(&sel((0, 0), (2, 7))));
    assert!(!s.overlaps(&sel((3, 2), (3, 2))));
    let c = Selection::collapsed(Position::new(1, 1));
    assert!(c.is_collapsed());
    assert!(c.is_forward());
    assert_eq!(c.cursor.affinity, Affinity::Downstream);
    assert!(Position::new(1, 9).is_before(&Position::new(2, 0)));
    assert!(!Position::new(2, 0).is_before(&Position::new(2, 0)));
    assert!(Position::new(2, 0).is_at_or_before(&Position::new(2, 0)));
    assert!(Position::new(2, 0) > Position::new(1, 50));
    assert!(Position::new(2, 0) >= Position::new(2, 0));
    assert_eq!(Position::new(2, 0).earlier(Position::new(1, 7)), Position::new(1, 7));
    assert_eq!(Position::new(2, 0).later(Position::new(1, 7)), Position::new(2, 0));
    assert_eq!(Position::new(1, 3).max(Position::new(1, 2)), Position::new(1, 3));
}

#[test]
fn test_sticky_column_is_set_by_vertical_moves_only() {
    let mut cursor = Cursor::with_affinity(Position::new(4, 9), Affinity::Upstream);
    assert_eq!(cursor.sticky_column, None);
    cursor.move_vertically_to(Position::new(5, 2), 9);
    assert_eq!(cursor.position, Position::new(5, 2));
    assert_eq!(cursor.sticky_column, Some(9));
    assert_eq!(cursor.affinity, Affinity::Upstream);
    cursor.move_to(Position::new(5, 1));
    assert_eq!(cursor.position, Position::new(5, 1));
    assert_eq!(cursor.sticky_column, None);
    assert_eq!(cursor.affinity, Affinity::Upstream);
}

#[test]
fn test_clear_secondary_keeps_the_primary() {
    let mut set = set_of(&[sel((4, 4), (4, 6)), sel((0, 0), (0, 1)), sel((9, 0), (9, 1))]);
    set.clear_secondary();
    assert_eq!(set.selections(), &[sel((4, 4), (4, 6))]);
    assert_eq!(*set.primary(), sel((4, 4), (4, 6)));
}
