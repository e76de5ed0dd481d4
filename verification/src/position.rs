//! A location in a document, addressed by line and grapheme column.

use core::cmp::Ordering;
use vstd::prelude::*;
use vstd::std_specs::cmp::PartialOrdSpecImpl;

verus! {

/// A caret location: `line` counts lines from the top of the document and
/// `column` counts grapheme clusters from the start of that line.
///
/// Positions are ordered by line first and by column second.
#[derive(Debug, Clone, Copy, PartialEq, Eq, Ord, Hash, Structural)]
pub struct Position {
    pub line: usize,
    pub column: usize,
}

impl Position {
    /// `self` comes strictly before `other` in document order.
    pub open spec fn lt_spec(self, other: Position) -> bool {
        self.line < other.line || (self.line == other.line && self.column < other.column)
    }

    /// `self` comes before `other` in document order, or is the same place.
    pub open spec fn le_spec(self, other: Position) -> bool {
        self.line < other.line || (self.line == other.line && self.column <= other.column)
    }

    /// The earlier of two positions.
    pub open spec fn min_spec(self, other: Position) -> Position {
        if self.le_spec(other) {
            self
        } else {
            other
        }
    }

    /// The later of two positions.
    pub open spec fn max_spec(self, other: Position) -> Position {
        if self.le_spec(other) {
            other
        } else {
            self
        }
    }

    pub fn new(line: usize, column: usize) -> (p: Position)
        ensures
            p.line == line,
            p.column == column,
    {
        Position { line, column }
    }

    /// The start of the document.
    pub fn zero() -> (p: Position)
        ensures
            p.line == 0,
            p.column == 0,
    {
        Position { line: 0, column: 0 }
    }

    pub fn is_before(&self, other: &Position) -> (r: bool)
        ensures
            r == self.lt_spec(*other),
    {
        self.line < other.line || (self.line == other.line && self.column < other.column)
    }

    pub fn is_at_or_before(&self, other: &Position) -> (r: bool)
        ensures
            r == self.le_spec(*other),
    {
        self.line < other.line || (self.line == other.line && self.column <= other.column)
    }

    pub fn earlier(self, other: Position) -> (r: Position)
        ensures
            r == self.min_spec(other),
    {
        if self.is_at_or_before(&other) {
            self
        } else {
            other
        }
    }

    pub fn later(self, other: Position) -> (r: Position)
        ensures
            r == self.max_spec(other),
    {
        if self.is_at_or_before(&other) {
            other
        } else {
            self
        }
    }
}

impl PartialOrdSpecImpl for Position {
    open spec fn obeys_partial_cmp_spec() -> bool {
        true
    }

    open spec fn partial_cmp_spec(&self, other: &Position) -> Option<Ordering> {
        if self.lt_spec(*other) {
            Some(Ordering::Less)
        } else if *self == *other {
            Some(Ordering::Equal)
        } else {
            Some(Ordering::Greater)
        }
    }
}

impl PartialOrd for Position {
    fn partial_cmp(&self, other: &Position) -> (r: Option<Ordering>) {
        if self.is_before(other) {
            Some(Ordering::Less)
        } else if self.line == other.line && self.column == other.column {
            Some(Ordering::Equal)
        } else {
            Some(Ordering::Greater)
        }
    }
}

/// Document order on positions is total.
pub proof fn lemma_position_order_total(a: Position, b: Position)
    ensures
        a.le_spec(b) || b.le_spec(a),
        a.le_spec(b) && b.le_spec(a) ==> a == b,
        a.lt_spec(b) <==> a.le_spec(b) && a != b,
{
}

/// Document order on positions is transitive.
pub proof fn lemma_position_order_transitive(a: Position, b: Position, c: Position)
    requires
        a.le_spec(b),
        b.le_spec(c),
    ensures
        a.le_spec(c),
{
}

} // verus!
