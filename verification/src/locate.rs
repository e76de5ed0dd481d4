//! Positions and character offsets: how a (line, grapheme column) position
//! maps to an offset into the text and back.

use crate::lines::{
    lemma_breaks_monotonic, lemma_line_of, lemma_line_of_between, lemma_line_start,
    lemma_line_starts_ordered, line_count, line_of, line_start, line_text,
};
use crate::position::Position;
use crate::unicode::{
    grapheme_clusters, lemma_prefix_len_monotonic, lemma_prefix_len_strict, pieces_cover,
    prefix_len,
};
use vstd::prelude::*;

verus! {

/// The first column from `k` on whose boundary lies at or after offset `off`
/// of the line, or the number of clusters if there is none.
pub open spec fn column_from(parts: Seq<Seq<char>>, off: int, k: int) -> int
    decreases parts.len() - k,
{
    if k >= parts.len() {
        parts.len() as int
    } else if prefix_len(parts, k) >= off {
        k
    } else {
        column_from(parts, off, k + 1)
    }
}

/// The column that stands for offset `off` of a line: the number of clusters
/// that have to be passed to reach the offset.
pub open spec fn column_at(parts: Seq<Seq<char>>, off: int) -> int {
    column_from(parts, off, 0)
}

/// Offset `off` of the line falls on a cluster boundary.
pub open spec fn on_boundary(parts: Seq<Seq<char>>, off: int) -> bool {
    exists|k: int| 0 <= k <= parts.len() && #[trigger] prefix_len(parts, k) == off
}

/// The position is valid in the text: the text has the line, and the line
/// has at least that many grapheme clusters.
pub open spec fn valid_position(text: Seq<char>, pos: Position) -> bool {
    pos.line < line_count(text) && pos.column <= grapheme_clusters(
        line_text(text, pos.line as int),
    ).len()
}

/// The character offset of a position: the start of its line plus the
/// characters of the clusters before its column.
pub open spec fn offset_of(text: Seq<char>, pos: Position) -> int {
    line_start(text, pos.line as int) + prefix_len(
        grapheme_clusters(line_text(text, pos.line as int)),
        pos.column as int,
    )
}

/// The position of a character offset: the line on which it stands, and the
/// column that stands for it on that line.
pub open spec fn position_of(text: Seq<char>, idx: int) -> Position {
    let line = line_of(text, idx);
    Position {
        line: line as usize,
        column: column_at(
            grapheme_clusters(line_text(text, line)),
            idx - line_start(text, line),
        ) as usize,
    }
}

/// The grapheme clusters of every line of the text are a segmentation of the
/// line. The segmentation reports this of every text it is given.
pub open spec fn segmented(text: Seq<char>) -> bool {
    forall|k: int|
        0 <= k < line_count(text) ==> pieces_cover(
            grapheme_clusters(#[trigger] line_text(text, k)),
            line_text(text, k),
        )
}

proof fn lemma_column_from(parts: Seq<Seq<char>>, off: int, k: int)
    requires
        0 <= k <= parts.len(),
        forall|j: int| 0 <= j < k ==> #[trigger] prefix_len(parts, j) < off,
    ensures
        k <= column_from(parts, off, k) <= parts.len(),
        forall|j: int| 0 <= j < column_from(parts, off, k) ==> #[trigger] prefix_len(parts, j) < off,
        column_from(parts, off, k) < parts.len() ==> prefix_len(parts, column_from(parts, off, k))
            >= off,
    decreases parts.len() - k,
{
    if k >= parts.len() {
    } else if prefix_len(parts, k) >= off {
    } else {
        lemma_column_from(parts, off, k + 1);
    }
}

/// The column of an offset is the least column whose boundary reaches the
/// offset.
pub proof fn lemma_column_at(parts: Seq<Seq<char>>, off: int)
    ensures
        0 <= column_at(parts, off) <= parts.len(),
        forall|j: int| 0 <= j < column_at(parts, off) ==> #[trigger] prefix_len(parts, j) < off,
        column_at(parts, off) < parts.len() ==> prefix_len(parts, column_at(parts, off)) >= off,
{
    lemma_column_from(parts, off, 0);
}

/// On a line cut into non-empty pieces, the column of the boundary of column
/// `k` is `k`.
pub proof fn lemma_column_of_boundary(parts: Seq<Seq<char>>, text: Seq<char>, k: int)
    requires
        pieces_cover(parts, text),
        0 <= k <= parts.len(),
    ensures
        column_at(parts, prefix_len(parts, k)) == k,
{
    let off = prefix_len(parts, k);
    lemma_column_at(parts, off);
    let c = column_at(parts, off);
    if c < k {
        lemma_prefix_len_strict(parts, c, k);
    }
    if c > k {
        assert(prefix_len(parts, k) < off);
    }
}

/// A valid position has an offset within its line, and so within the text.
pub proof fn lemma_offset_in_line(text: Seq<char>, pos: Position)
    requires
        segmented(text),
        valid_position(text, pos),
    ensures
        line_start(text, pos.line as int) <= offset_of(text, pos) <= line_start(
            text,
            pos.line + 1,
        ) <= text.len(),
{
    let k = pos.line as int;
    let line = line_text(text, k);
    let parts = grapheme_clusters(line);
    lemma_line_start(text, k);
    lemma_line_start(text, k + 1);
    lemma_line_starts_ordered(text, k, k + 1);
    assert(pieces_cover(parts, line));
    lemma_prefix_len_monotonic(parts, pos.column as int, parts.len() as int);
}

/// From a position to its offset and back: the position comes back, provided
/// that its offset stands on its own line. That leaves out only the position
/// behind the line break of a line, which is the start of the next line.
pub proof fn lemma_position_round_trip(text: Seq<char>, pos: Position)
    requires
        segmented(text),
        valid_position(text, pos),
        line_of(text, offset_of(text, pos)) == pos.line,
    ensures
        position_of(text, offset_of(text, pos)) == pos,
{
    let k = pos.line as int;
    let line = line_text(text, k);
    let parts = grapheme_clusters(line);
    assert(pieces_cover(parts, line));
    lemma_column_of_boundary(parts, line, pos.column as int);
}

/// A valid position whose column is not the last of its line, or whose line
/// is the last one, has its offset on its own line.
pub proof fn lemma_offset_stays_on_line(text: Seq<char>, pos: Position)
    requires
        segmented(text),
        valid_position(text, pos),
        pos.column < grapheme_clusters(line_text(text, pos.line as int)).len() || pos.line + 1
            == line_count(text),
    ensures
        line_of(text, offset_of(text, pos)) == pos.line,
{
    let k = pos.line as int;
    let line = line_text(text, k);
    let parts = grapheme_clusters(line);
    lemma_offset_in_line(text, pos);
    lemma_line_start(text, k);
    lemma_line_start(text, k + 1);
    lemma_line_starts_ordered(text, k, k + 1);
    assert(pieces_cover(parts, line));
    assert(line.len() == line_start(text, k + 1) - line_start(text, k));
    if pos.column < parts.len() {
        lemma_prefix_len_strict(parts, pos.column as int, parts.len() as int);
    }
    lemma_line_of_between(text, k, offset_of(text, pos));
}

/// From an offset to its position and back: the offset comes back, provided
/// that it falls on a cluster boundary of its line. An offset inside a
/// cluster comes back as the end of that cluster.
pub proof fn lemma_offset_round_trip(text: Seq<char>, idx: int)
    requires
        segmented(text),
        0 <= idx <= text.len() <= usize::MAX,
        on_boundary(
            grapheme_clusters(line_text(text, line_of(text, idx))),
            idx - line_start(text, line_of(text, idx)),
        ),
    ensures
        valid_position(text, position_of(text, idx)),
        offset_of(text, position_of(text, idx)) == idx,
{
    let k = line_of(text, idx);
    lemma_position_of_is_valid(text, idx);
    let line = line_text(text, k);
    let parts = grapheme_clusters(line);
    assert(pieces_cover(parts, line));
    let off = idx - line_start(text, k);
    let b = choose|b: int| 0 <= b <= parts.len() && #[trigger] prefix_len(parts, b) == off;
    lemma_column_of_boundary(parts, line, b);
}

/// The position of any offset in the text is a valid position.
pub proof fn lemma_position_of_is_valid(text: Seq<char>, idx: int)
    requires
        segmented(text),
        0 <= idx <= text.len(),
        text.len() <= usize::MAX,
    ensures
        valid_position(text, position_of(text, idx)),
        position_of(text, idx).line == line_of(text, idx),
        position_of(text, idx).column == column_at(
            grapheme_clusters(line_text(text, line_of(text, idx))),
            idx - line_start(text, line_of(text, idx)),
        ),
{
    let k = line_of(text, idx);
    lemma_line_of(text, idx);
    lemma_breaks_monotonic(text, 0, idx);
    let line = line_text(text, k);
    let parts = grapheme_clusters(line);
    assert(pieces_cover(parts, line));
    lemma_column_at(parts, idx - line_start(text, k));
    lemma_line_start(text, k);
    lemma_line_start(text, k + 1);
    lemma_line_starts_ordered(text, k, k + 1);
    assert(line.len() == line_start(text, k + 1) - line_start(text, k));
    lemma_prefix_len_monotonic(parts, 0, parts.len() as int);
    lemma_parts_fit(parts, line);
}

proof fn lemma_parts_fit(parts: Seq<Seq<char>>, text: Seq<char>)
    requires
        pieces_cover(parts, text),
    ensures
        parts.len() <= text.len(),
    decreases parts.len(),
{
    lemma_parts_count(parts, parts.len() as int);
}

proof fn lemma_parts_count(parts: Seq<Seq<char>>, k: int)
    requires
        0 <= k <= parts.len(),
        forall|i: int| 0 <= i < parts.len() ==> (#[trigger] parts[i]).len() > 0,
    ensures
        k <= prefix_len(parts, k),
    decreases k,
{
    if k > 0 {
        lemma_parts_count(parts, k - 1);
        assert(parts[k - 1].len() > 0);
    }
}

} // verus!
