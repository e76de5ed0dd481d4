//! Cursors, range selections and multi-cursor selection sets.

use crate::position::Position;
use vstd::prelude::*;

verus! {

/// The unit a selection grows by.
#[derive(Debug, Clone, Copy, PartialEq, Eq, Structural)]
pub enum Granularity {
    Character,
    Word,
    Line,
}

/// Which visual side a caret belongs to when it sits on a run boundary.
#[derive(Debug, Clone, Copy, PartialEq, Eq, Structural)]
pub enum Affinity {
    Upstream,
    Downstream,
}

/// A caret with its affinity and the column remembered across vertical moves.
#[derive(Debug, Clone, Copy, PartialEq, Eq, Structural)]
pub struct Cursor {
    pub position: Position,
    pub affinity: Affinity,
    pub sticky_column: Option<usize>,
}

impl Cursor {
    pub fn new(position: Position) -> (c: Cursor)
        ensures
            c.position == position,
            c.affinity == Affinity::Downstream,
            c.sticky_column.is_none(),
    {
        Cursor { position, affinity: Affinity::Downstream, sticky_column: None }
    }

    pub fn with_affinity(position: Position, affinity: Affinity) -> (c: Cursor)
        ensures
            c.position == position,
            c.affinity == affinity,
            c.sticky_column.is_none(),
    {
        Cursor { position, affinity, sticky_column: None }
    }

    /// Moves the caret to an explicit place, which forgets the sticky column.
    pub fn move_to(&mut self, position: Position)
        ensures
            final(self).position == position,
            final(self).affinity == old(self).affinity,
            final(self).sticky_column.is_none(),
    {
        self.position = position;
        self.sticky_column = None;
    }

    /// Moves the caret after a vertical step and remembers the column that
    /// the step aimed for.
    pub fn move_vertically_to(&mut self, position: Position, sticky_column: usize)
        ensures
            final(self).position == position,
            final(self).affinity == old(self).affinity,
            final(self).sticky_column == Some(sticky_column),
    {
        self.position = position;
        self.sticky_column = Some(sticky_column);
    }
}

/// A range selection from `anchor` to the caret (`cursor.position`, the head).
#[derive(Debug, Clone, Copy, PartialEq, Eq, Structural)]
pub struct Selection {
    pub anchor: Position,
    pub cursor: Cursor,
    pub granularity: Granularity,
}

impl Selection {
    /// The moving end of the selection.
    pub open spec fn head_spec(self) -> Position {
        self.cursor.position
    }

    /// The earlier end of the selection.
    pub open spec fn start_spec(self) -> Position {
        self.anchor.min_spec(self.cursor.position)
    }

    /// The later end of the selection.
    pub open spec fn end_spec(self) -> Position {
        self.anchor.max_spec(self.cursor.position)
    }

    /// Two selections overlap when their ranges share a position; ranges that
    /// merely touch at an endpoint count.
    pub open spec fn overlaps_spec(self, other: Selection) -> bool {
        self.start_spec().le_spec(other.end_spec()) && other.start_spec().le_spec(self.end_spec())
    }

    /// The selection that spans `self` and `other`: it keeps the direction,
    /// affinity and granularity of `self` and covers the union of both ranges.
    pub open spec fn span_spec(self, other: Selection) -> Selection {
        let lo = self.start_spec().min_spec(other.start_spec());
        let hi = self.end_spec().max_spec(other.end_spec());
        if self.anchor.le_spec(self.cursor.position) {
            Selection {
                anchor: lo,
                cursor: Cursor { position: hi, affinity: self.cursor.affinity, sticky_column: None },
                granularity: self.granularity,
            }
        } else {
            Selection {
                anchor: hi,
                cursor: Cursor { position: lo, affinity: self.cursor.affinity, sticky_column: None },
                granularity: self.granularity,
            }
        }
    }

    pub fn new(anchor: Position, head: Position) -> (s: Selection)
        ensures
            s.anchor == anchor,
            s.cursor == (Cursor { position: head, affinity: Affinity::Downstream, sticky_column: None }),
            s.granularity == Granularity::Character,
    {
        Selection { anchor, cursor: Cursor::new(head), granularity: Granularity::Character }
    }

    pub fn collapsed(position: Position) -> (s: Selection)
        ensures
            s.anchor == position,
            s.cursor == (Cursor { position, affinity: Affinity::Downstream, sticky_column: None }),
            s.granularity == Granularity::Character,
    {
        Selection { anchor: position, cursor: Cursor::new(position), granularity: Granularity::Character }
    }

    pub fn head(&self) -> (p: Position)
        ensures
            p == self.head_spec(),
    {
        self.cursor.position
    }

    pub fn is_collapsed(&self) -> (r: bool)
        ensures
            r == (self.anchor == self.cursor.position),
    {
        self.anchor == self.cursor.position
    }

    pub fn is_forward(&self) -> (r: bool)
        ensures
            r == self.anchor.le_spec(self.cursor.position),
    {
        self.anchor.is_at_or_before(&self.cursor.position)
    }

    /// The selected range as `(start, end)` with `start <= end`, whatever the
    /// direction of the selection.
    pub fn range(&self) -> (r: (Position, Position))
        ensures
            r.0 == self.start_spec(),
            r.1 == self.end_spec(),
            r.0.le_spec(r.1),
    {
        (self.anchor.earlier(self.cursor.position), self.anchor.later(self.cursor.position))
    }

    pub fn overlaps(&self, other: &Selection) -> (r: bool)
        ensures
            r == self.overlaps_spec(*other),
    {
        let (s1, e1) = self.range();
        let (s2, e2) = other.range();
        s1.is_at_or_before(&e2) && s2.is_at_or_before(&e1)
    }

    pub fn span(&self, other: &Selection) -> (r: Selection)
        ensures
            r == self.span_spec(*other),
    {
        let (s1, e1) = self.range();
        let (s2, e2) = other.range();
        let lo = s1.earlier(s2);
        let hi = e1.later(e2);
        if self.is_forward() {
            Selection {
                anchor: lo,
                cursor: Cursor { position: hi, affinity: self.cursor.affinity, sticky_column: None },
                granularity: self.granularity,
            }
        } else {
            Selection {
                anchor: hi,
                cursor: Cursor { position: lo, affinity: self.cursor.affinity, sticky_column: None },
                granularity: self.granularity,
            }
        }
    }
}

/// The pair `(a, b)` is visited before `(i, j)` when pairs are scanned row by
/// row.
pub open spec fn pair_before(a: int, b: int, i: int, j: int) -> bool {
    a < i || (a == i && b < j)
}

/// Some two selections of `s` overlap.
pub open spec fn has_overlap(s: Seq<Selection>) -> bool {
    exists|i: int, j: int| 0 <= i < j < s.len() && #[trigger] s[i].overlaps_spec(s[j])
}

/// `(i, j)` is the first overlapping pair of `s` in scan order.
pub open spec fn is_first_overlap(s: Seq<Selection>, i: int, j: int) -> bool {
    &&& 0 <= i < j < s.len()
    &&& s[i].overlaps_spec(s[j])
    &&& forall|a: int, b: int|
        0 <= a < b < s.len() && pair_before(a, b, i, j) ==> !#[trigger] s[a].overlaps_spec(s[b])
}

/// Selection `i` grows to span selection `j`, which leaves the list.
pub open spec fn merge_pair(s: Seq<Selection>, i: int, j: int) -> Seq<Selection> {
    s.update(i, s[i].span_spec(s[j])).remove(j)
}

/// The list after merging: as long as two selections overlap, the first such
/// pair in scan order collapses into the selection that spans both.
pub open spec fn merged(s: Seq<Selection>) -> Seq<Selection>
    decreases s.len(),
{
    if exists|i: int, j: int| is_first_overlap(s, i, j) {
        let (i, j) = choose|i: int, j: int| is_first_overlap(s, i, j);
        merged(merge_pair(s, i, j))
    } else {
        s
    }
}

proof fn lemma_first_overlap_unique(s: Seq<Selection>, i: int, j: int, a: int, b: int)
    requires
        is_first_overlap(s, i, j),
        is_first_overlap(s, a, b),
    ensures
        i == a,
        j == b,
{
    if pair_before(a, b, i, j) {
        assert(!s[a].overlaps_spec(s[b]));
    }
    if pair_before(i, j, a, b) {
        assert(!s[i].overlaps_spec(s[j]));
    }
}

proof fn lemma_merged_step(s: Seq<Selection>, i: int, j: int)
    requires
        is_first_overlap(s, i, j),
    ensures
        merged(s) == merged(merge_pair(s, i, j)),
{
    let (a, b) = choose|a: int, b: int| is_first_overlap(s, a, b);
    lemma_first_overlap_unique(s, i, j, a, b);
}

proof fn lemma_least_overlap(s: Seq<Selection>, i: int, j: int)
    requires
        0 <= i < j < s.len(),
        s[i].overlaps_spec(s[j]),
    ensures
        exists|a: int, b: int| is_first_overlap(s, a, b),
    decreases i, j,
{
    if exists|a: int, b: int|
        0 <= a < b < s.len() && pair_before(a, b, i, j) && #[trigger] s[a].overlaps_spec(s[b]) {
        let (a, b) = choose|a: int, b: int|
            0 <= a < b < s.len() && pair_before(a, b, i, j) && #[trigger] s[a].overlaps_spec(s[b]);
        lemma_least_overlap(s, a, b);
    } else {
        assert(is_first_overlap(s, i, j));
    }
}

/// A list without overlapping selections is left as it is.
pub proof fn lemma_merged_of_disjoint(s: Seq<Selection>)
    requires
        !has_overlap(s),
    ensures
        merged(s) == s,
{
    if exists|i: int, j: int| is_first_overlap(s, i, j) {
        let (i, j) = choose|i: int, j: int| is_first_overlap(s, i, j);
        assert(s[i].overlaps_spec(s[j]));
    }
}

/// After merging no two selections overlap, and the list is not empty unless
/// it was empty before.
pub proof fn lemma_merged_is_disjoint(s: Seq<Selection>)
    ensures
        !has_overlap(merged(s)),
        s.len() >= 1 ==> merged(s).len() >= 1,
        merged(s).len() <= s.len(),
    decreases s.len(),
{
    if exists|i: int, j: int| is_first_overlap(s, i, j) {
        let (i, j) = choose|i: int, j: int| is_first_overlap(s, i, j);
        lemma_merged_is_disjoint(merge_pair(s, i, j));
    } else {
        if has_overlap(s) {
            let (i, j) = choose|i: int, j: int|
                0 <= i < j < s.len() && #[trigger] s[i].overlaps_spec(s[j]);
            lemma_least_overlap(s, i, j);
        }
    }
}

/// Merging is idempotent: merging a merged list changes nothing.
pub proof fn lemma_merge_idempotent(s: Seq<Selection>)
    ensures
        merged(merged(s)) == merged(s),
{
    lemma_merged_is_disjoint(s);
    lemma_merged_of_disjoint(merged(s));
}

/// One primary selection, held first, and any number of secondary ones. The
/// set is never empty.
pub struct SelectionSet {
    selections: Vec<Selection>,
}

impl View for SelectionSet {
    type V = Seq<Selection>;

    closed spec fn view(&self) -> Seq<Selection> {
        self.selections@
    }
}

impl SelectionSet {
    /// A selection set always holds its primary selection.
    pub open spec fn wf(&self) -> bool {
        self@.len() >= 1
    }

    pub fn new(primary: Selection) -> (s: SelectionSet)
        ensures
            s.wf(),
            s@ == seq![primary],
    {
        let mut selections: Vec<Selection> = Vec::new();
        selections.push(primary);
        SelectionSet { selections }
    }

    /// All selections, the primary one first.
    pub fn selections(&self) -> (r: &[Selection])
        ensures
            r@ == self@,
    {
        self.selections.as_slice()
    }

    pub fn primary(&self) -> (r: &Selection)
        requires
            self.wf(),
        ensures
            *r == self@[0],
    {
        &self.selections[0]
    }

    /// Adds a secondary selection after the ones already held.
    pub fn add_selection(&mut self, selection: Selection)
        ensures
            final(self)@ == old(self)@.push(selection),
            old(self).wf() ==> final(self).wf(),
    {
        self.selections.push(selection);
    }

    /// Drops every selection but the primary one.
    pub fn clear_secondary(&mut self)
        requires
            old(self).wf(),
        ensures
            final(self).wf(),
            final(self)@ == seq![old(self)@[0]],
    {
        self.selections.truncate(1);
        assert(self.selections@ =~= seq![old(self).selections@[0]]);
    }

    /// Collapses overlapping selections until no two overlap. Merging what
    /// was merged changes nothing.
    pub fn merge_overlapping(&mut self)
        requires
            old(self).wf(),
        ensures
            final(self).wf(),
            final(self)@ == merged(old(self)@),
            !has_overlap(final(self)@),
            merged(final(self)@) == final(self)@,
    {
        let ghost orig = self.selections@;
        let mut i: usize = 0;
        while i < self.selections.len()
            invariant
                self.selections@.len() >= 1,
                i <= self.selections@.len(),
                merged(self.selections@) == merged(orig),
                forall|a: int, b: int|
                    0 <= a < b < self.selections@.len() && a < i ==> !#[trigger] self.selections@[a].overlaps_spec(
                        self.selections@[b],
                    ),
            decreases self.selections@.len(), self.selections@.len() - i,
        {
            let mut j: usize = i + 1;
            let mut found: bool = false;
            while j < self.selections.len()
                invariant_except_break
                    !found,
                invariant
                    i < j <= self.selections@.len(),
                    forall|b: int|
                        i < b < j ==> !#[trigger] self.selections@[i as int].overlaps_spec(self.selections@[b]),
                ensures
                    i < j <= self.selections@.len(),
                    found ==> j < self.selections@.len() && self.selections@[i as int].overlaps_spec(
                        self.selections@[j as int],
                    ),
                    !found ==> j == self.selections@.len(),
                    forall|b: int|
                        i < b < j ==> !#[trigger] self.selections@[i as int].overlaps_spec(self.selections@[b]),
                decreases self.selections@.len() - j,
            {
                if self.selections[i].overlaps(&self.selections[j]) {
                    found = true;
                    break;
                }
                j = j + 1;
            }
            if found {
                proof {
                    assert(is_first_overlap(self.selections@, i as int, j as int));
                    lemma_merged_step(self.selections@, i as int, j as int);
                }
                let wide = self.selections[i].span(&self.selections[j]);
                self.selections.set(i, wide);
                self.selections.remove(j);
                i = 0;
            } else {
                i = i + 1;
            }
        }
        proof {
            assert(!has_overlap(self.selections@));
            lemma_merged_of_disjoint(self.selections@);
        }
    }
}

impl Default for SelectionSet {
    /// A single caret at the start of the document.
    fn default() -> (s: SelectionSet)
        ensures
            s.wf(),
            s@ == seq![
                (Selection {
                    anchor: (Position { line: 0, column: 0 }),
                    cursor: (Cursor {
                        position: (Position { line: 0, column: 0 }),
                        affinity: Affinity::Downstream,
                        sticky_column: None,
                    }),
                    granularity: Granularity::Character,
                }),
            ],
    {
        SelectionSet::new(Selection::collapsed(Position::zero()))
    }
}

} // verus!
