//! The text buffer: a rope with a version, a dirty flag, a line-ending style
//! and its undo history. Positions in a buffer count lines and, within a
//! line, grapheme clusters; a line includes the line break that ends it.

use crate::chars::to_chars;
use crate::document::{
    after_redo, after_undo, applied, applies, document_wf, edited, group_applied,
    group_reverted, lemma_edit_keeps_wf, lemma_group_applied_steps, lemma_redo_after_undo,
    lemma_redo_keeps_wf, lemma_undo_after_redo, lemma_undo_keeps_wf, reverted, reverts,
    with_boundary, Document,
};
use crate::lines::{
    lemma_line_of, lemma_line_of_between, lemma_line_start, lemma_line_starts_ordered, line_count,
    line_of, line_start, line_text, with_inserted, with_removed,
};
use crate::locate::{
    column_at, column_from, lemma_column_at, lemma_column_of_boundary, offset_of, on_boundary,
    position_of, segmented, valid_position,
};
use crate::operations::{
    redone, undone, EditOperation, HistoryView, OperationType, OperationView, UndoHistory,
};
use crate::position::Position;
use crate::rope::{
    rope_char_to_line, rope_clone, rope_from_str, rope_insert, rope_len_bytes, rope_len_chars,
    rope_len_lines, rope_line, rope_line_to_char, rope_new, rope_remove, rope_slice, rope_text,
    rope_to_string,
};
use crate::bidi::{piece_stops, BidiParagraph};
use crate::cursor::{next_stop, prev_stop, CursorMovement};
use crate::unicode::{
    grapheme_clusters, lemma_prefix_len_monotonic, lemma_prefix_len_strict, piece_bounds,
    pieces_cover, prefix_len, split_graphemes, texts, word_segments,
};
use ropey::Rope;
use std::path::PathBuf;
use vstd::prelude::*;
use vstd::string::{StrSliceExecFns, StringExecFns};
use vstd::utf8::encode_utf8;

verus! {

/// `std::path::PathBuf`, the path of a file, carried through as it is.
#[verifier::external_type_specification]
#[verifier::external_body]
pub struct ExPathBuf(std::path::PathBuf);

/// The identity of a buffer.
#[derive(Debug, Clone, Copy, PartialEq, Eq, Hash, Structural)]
pub struct BufferId(u64);

impl BufferId {
    /// The number behind the identity.
    pub closed spec fn value_view(self) -> u64 {
        self.0
    }

    pub fn new(id: u64) -> (r: BufferId)
        ensures
            r.value_view() == id,
    {
        BufferId(id)
    }

    /// The identity after this one.
    pub fn next(&self) -> (r: BufferId)
        requires
            self.value_view() < u64::MAX,
        ensures
            r.value_view() == self.value_view() + 1,
    {
        BufferId(self.0 + 1)
    }

    pub fn value(&self) -> (r: u64)
        ensures
            r == self.value_view(),
    {
        self.0
    }
}

/// A counter that grows with every change of a buffer.
#[derive(Debug, Clone, Copy, PartialEq, Eq, Hash, Structural)]
pub struct Version(u64);

impl Version {
    /// The number of changes counted.
    pub closed spec fn value_view(self) -> u64 {
        self.0
    }

    /// The version of a buffer that was never changed.
    pub fn new() -> (r: Version)
        ensures
            r.value_view() == 0,
    {
        Version(0)
    }

    /// The version after one more change.
    pub fn next(&self) -> (r: Version)
        requires
            self.value_view() < u64::MAX,
        ensures
            r.value_view() == self.value_view() + 1,
    {
        Version(self.0 + 1)
    }

    pub fn value(&self) -> (r: u64)
        ensures
            r == self.value_view(),
    {
        self.0
    }
}

/// The line-ending style of a buffer.
#[derive(Debug, Clone, Copy, PartialEq, Eq, Structural)]
pub enum LineEnding {
    /// Line feed, as on Unix.
    Lf,
    /// Carriage return and line feed, as on Windows.
    Crlf,
    /// Carriage return alone, as on the classic Mac.
    Cr,
}

/// The text holds `a` directly followed by `b`.
pub open spec fn has_pair(s: Seq<char>, a: char, b: char) -> bool {
    exists|i: int| 0 <= i && i + 1 < s.len() && #[trigger] s[i] == a && s[i + 1] == b
}

/// The line-ending style that a text shows, if it has a line break at all:
/// CR LF if the pair occurs, else LF if one occurs, else CR if one occurs.
pub open spec fn shown_ending(s: Seq<char>) -> Option<LineEnding> {
    if has_pair(s, '\u{0D}', '\u{0A}') {
        Some(LineEnding::Crlf)
    } else if s.contains('\u{0A}') {
        Some(LineEnding::Lf)
    } else if s.contains('\u{0D}') {
        Some(LineEnding::Cr)
    } else {
        None
    }
}

/// The characters of a line ending.
pub open spec fn ending_chars(e: LineEnding) -> Seq<char> {
    match e {
        LineEnding::Lf => seq!['\u{0A}'],
        LineEnding::Crlf => seq!['\u{0D}', '\u{0A}'],
        LineEnding::Cr => seq!['\u{0D}'],
    }
}

/// `std::path::is_separator` on a backslash: whether this platform takes a
/// backslash for a path separator, as Windows does. Nothing is claimed of
/// the answer.
#[verifier::external_body]
fn backslash_separates_paths() -> bool {
    std::path::is_separator('\\')
}

fn holds_char(chars: &Vec<char>, c: char) -> (r: bool)
    ensures
        r == chars@.contains(c),
{
    let mut i: usize = 0;
    while i < chars.len()
        invariant
            i <= chars@.len(),
            forall|j: int| 0 <= j < i ==> chars@[j] != c,
        decreases chars@.len() - i,
    {
        if chars[i] == c {
            return true;
        }
        i = i + 1;
    }
    false
}

fn holds_pair(chars: &Vec<char>, a: char, b: char) -> (r: bool)
    ensures
        r == has_pair(chars@, a, b),
{
    let mut i: usize = 1;
    while i < chars.len()
        invariant
            1 <= i,
            forall|j: int| 0 <= j && j + 1 < i ==> !(#[trigger] chars@[j] == a && chars@[j + 1]
                == b),
        decreases chars@.len() - i,
    {
        if chars[i - 1] == a && chars[i] == b {
            return true;
        }
        i = i + 1;
    }
    false
}

impl LineEnding {
    pub fn as_str(&self) -> (r: &'static str)
        ensures
            r@ == ending_chars(*self),
    {
        proof {
            reveal_strlit("\n");
            reveal_strlit("\r\n");
            reveal_strlit("\r");
        }
        match self {
            LineEnding::Lf => {
                let r = "\n";
                assert(r@ =~= ending_chars(*self));
                r
            },
            LineEnding::Crlf => {
                let r = "\r\n";
                assert(r@ =~= ending_chars(*self));
                r
            },
            LineEnding::Cr => {
                let r = "\r";
                assert(r@ =~= ending_chars(*self));
                r
            },
        }
    }

    /// The line-ending style that `text` shows, or `fallback` if the text
    /// has no line break.
    pub fn detect_or(text: &str, fallback: LineEnding) -> (r: LineEnding)
        ensures
            r == match shown_ending(text@) {
                Some(e) => e,
                None => fallback,
            },
    {
        let chars = to_chars(text);
        if holds_pair(&chars, '\r', '\n') {
            LineEnding::Crlf
        } else if holds_char(&chars, '\n') {
            LineEnding::Lf
        } else if holds_char(&chars, '\r') {
            LineEnding::Cr
        } else {
            fallback
        }
    }

    /// The line-ending style of this platform: CR LF where a backslash
    /// separates paths, LF elsewhere.
    pub fn platform() -> (r: LineEnding)
        ensures
            r == LineEnding::Crlf || r == LineEnding::Lf,
    {
        LineEnding::of_platform(backslash_separates_paths())
    }

    /// The line-ending style of a platform, told by whether it takes a
    /// backslash for a path separator: CR LF where it does, LF where it does
    /// not.
    pub fn of_platform(backslash_separates: bool) -> (r: LineEnding)
        ensures
            r == platform_ending(backslash_separates),
    {
        if backslash_separates {
            LineEnding::Crlf
        } else {
            LineEnding::Lf
        }
    }

    /// The line-ending style that `text` shows; a text without a line break
    /// gets the style of the platform.
    pub fn detect(text: &str) -> (r: LineEnding)
        ensures
            match shown_ending(text@) {
                Some(e) => r == e,
                None => r == LineEnding::Crlf || r == LineEnding::Lf,
            },
    {
        LineEnding::detect_or(text, LineEnding::platform())
    }
}

/// The line-ending style of a platform that does, or does not, take a
/// backslash for a path separator.
pub open spec fn platform_ending(backslash_separates: bool) -> LineEnding {
    if backslash_separates {
        LineEnding::Crlf
    } else {
        LineEnding::Lf
    }
}

/// Why a buffer refuses an edit.
#[derive(Debug, Clone, Copy, PartialEq, Eq, Structural)]
pub enum BufferError {
    /// The buffer is marked read-only.
    ReadOnly,
}

/// What can go wrong in the editing core.
#[derive(Debug, Clone, Copy, PartialEq, Eq, Structural)]
pub enum EditorError {
    /// The text has no such line, or the line no such column.
    InvalidPosition { line: usize, column: usize },
    /// The range starts after it ends.
    InvalidRange { start: Position, end: Position },
    /// The buffer refused the edit.
    BufferError(BufferError),
    /// The buffer has no file to save to.
    NoFilePath,
}

/// Figures of a buffer.
#[derive(Debug, Clone, Copy, PartialEq, Eq, Structural)]
pub struct BufferMetrics {
    pub total_lines: usize,
    pub total_chars: usize,
    pub total_bytes: usize,
    pub longest_line_length: usize,
}

/// The length in characters of the longest of the first `n` lines, line
/// breaks included.
pub open spec fn longest_line(text: Seq<char>, n: int) -> int
    decreases n,
{
    if n <= 0 {
        0
    } else {
        let len = line_start(text, n) - line_start(text, n - 1);
        if len > longest_line(text, n - 1) {
            len
        } else {
            longest_line(text, n - 1)
        }
    }
}

/// The text of a buffer as it was at one version. A snapshot has its own
/// hold on the text: what happens to the buffer later does not show in it.
pub struct BufferSnapshot {
    rope: Rope,
    version: Version,
}

impl BufferSnapshot {
    pub closed spec fn text_view(&self) -> Seq<char> {
        rope_text(self.rope)
    }

    pub closed spec fn version_view(&self) -> Version {
        self.version
    }

    pub fn text(&self) -> (r: String)
        ensures
            r@ == self.text_view(),
    {
        rope_to_string(&self.rope)
    }

    pub fn version(&self) -> (r: Version)
        ensures
            r == self.version_view(),
    {
        self.version
    }

    pub fn len_lines(&self) -> (r: usize)
        ensures
            r == line_count(self.text_view()),
    {
        rope_len_lines(&self.rope)
    }

    pub fn len_chars(&self) -> (r: usize)
        ensures
            r == self.text_view().len(),
    {
        rope_len_chars(&self.rope)
    }

    /// The text of a line with its line break, if the snapshot has the line.
    pub fn line(&self, line_idx: usize) -> (r: Option<String>)
        ensures
            match r {
                Some(s) => line_idx < line_count(self.text_view()) && s@ == line_text(
                    self.text_view(),
                    line_idx as int,
                ),
                None => line_idx >= line_count(self.text_view()),
            },
    {
        if line_idx < rope_len_lines(&self.rope) {
            Some(rope_line(&self.rope, line_idx))
        } else {
            None
        }
    }
}

/// The record of inserting `piece` at `pos`: the caret ends up behind the
/// inserted text.
pub open spec fn insertion(text: Seq<char>, pos: Position, piece: Seq<char>) -> OperationView {
    let at = offset_of(text, pos);
    let caret = position_of(with_inserted(text, at, piece), at + piece.len());
    OperationView {
        kind: OperationType::Insert,
        start: pos,
        end: caret,
        inserted: Some(piece),
        deleted: None,
        cursor_after: caret,
        offset: at,
    }
}

/// The record of deleting the text from `start` to `end`: the caret ends up
/// where the deleted text began.
pub open spec fn deletion(text: Seq<char>, start: Position, end: Position) -> OperationView {
    let from = offset_of(text, start);
    let to = offset_of(text, end);
    OperationView {
        kind: OperationType::Delete,
        start,
        end,
        inserted: None,
        deleted: Some(text.subrange(from, to)),
        cursor_after: position_of(with_removed(text, from, to), from),
        offset: from,
    }
}

/// The record of replacing the text from `start` to `end` by `piece`: the
/// caret ends up behind the new text.
pub open spec fn replacement(text: Seq<char>, start: Position, end: Position, piece: Seq<char>) -> OperationView {
    let from = offset_of(text, start);
    let to = offset_of(text, end);
    OperationView {
        kind: OperationType::Replace,
        start,
        end,
        inserted: Some(piece),
        deleted: Some(text.subrange(from, to)),
        cursor_after: position_of(
            with_inserted(with_removed(text, from, to), from, piece),
            from + piece.len(),
        ),
        offset: from,
    }
}

/// Why a buffer refuses to change the range from `start` to `end`, if it
/// does: it is read-only, or one of the positions is not valid, or the range
/// starts after it ends. The first reason that holds is the one given.
pub open spec fn range_refusal(
    text: Seq<char>,
    read_only: bool,
    start: Position,
    end: Position,
) -> Option<EditorError> {
    if read_only {
        Some(EditorError::BufferError(BufferError::ReadOnly))
    } else if !valid_position(text, start) {
        Some(EditorError::InvalidPosition { line: start.line, column: start.column })
    } else if !valid_position(text, end) {
        Some(EditorError::InvalidPosition { line: end.line, column: end.column })
    } else if offset_of(text, start) > offset_of(text, end) {
        Some(EditorError::InvalidRange { start, end })
    } else {
        None
    }
}

/// The position one grapheme cluster before `pos`: the column before it on
/// its line, or the last cluster of the line above when `pos` starts a line.
/// The start of the text has none.
pub open spec fn position_before(text: Seq<char>, pos: Position) -> Option<Position> {
    if pos.column > 0 {
        Some(Position { line: pos.line, column: (pos.column - 1) as usize })
    } else if pos.line > 0 && grapheme_clusters(line_text(text, pos.line - 1)).len() > 0 {
        Some(
            Position {
                line: (pos.line - 1) as usize,
                column: (grapheme_clusters(line_text(text, pos.line - 1)).len() - 1) as usize,
            },
        )
    } else {
        None
    }
}

/// The position one grapheme cluster behind `pos` on its line. The end of a
/// line has none.
pub open spec fn position_after(text: Seq<char>, pos: Position) -> Option<Position> {
    if pos.column < grapheme_clusters(line_text(text, pos.line as int)).len() {
        Some(Position { line: pos.line, column: (pos.column + 1) as usize })
    } else {
        None
    }
}

/// The word stops of a line: for each cluster boundary, whether a word
/// boundary falls on it.
pub open spec fn line_stops(text: Seq<char>, line: int) -> Seq<bool> {
    piece_stops(grapheme_clusters(line_text(text, line)), word_segments(line_text(text, line)))
}

/// A text buffer.
pub struct Buffer {
    id: BufferId,
    rope: Rope,
    version: Version,
    file_path: Option<PathBuf>,
    line_ending: LineEnding,
    dirty: bool,
    read_only: bool,
    history: UndoHistory,
}

impl Buffer {
    pub closed spec fn id_view(&self) -> BufferId {
        self.id
    }

    /// The text of the buffer.
    pub closed spec fn text_view(&self) -> Seq<char> {
        rope_text(self.rope)
    }

    pub closed spec fn version_view(&self) -> Version {
        self.version
    }

    /// The path of the file behind the buffer.
    pub closed spec fn path_view(&self) -> Option<PathBuf> {
        self.file_path
    }

    pub closed spec fn ending_view(&self) -> LineEnding {
        self.line_ending
    }

    pub closed spec fn dirty_view(&self) -> bool {
        self.dirty
    }

    pub closed spec fn read_only_view(&self) -> bool {
        self.read_only
    }

    /// The undo history of the buffer.
    pub closed spec fn history_view(&self) -> HistoryView {
        self.history@
    }

    /// The text with its history.
    pub open spec fn document(&self) -> Document {
        Document { text: self.text_view(), history: self.history_view() }
    }

    /// The history of a buffer always fits its text: every undo step can be
    /// taken back and every redo step can be applied again.
    pub open spec fn wf(&self) -> bool {
        document_wf(self.document())
    }

    /// What an edit leaves as it was: identity, file path, line-ending style
    /// and the read-only mark.
    pub open spec fn same_settings(&self, other: &Buffer) -> bool {
        &&& self.id_view() == other.id_view()
        &&& self.path_view() == other.path_view()
        &&& self.ending_view() == other.ending_view()
        &&& self.read_only_view() == other.read_only_view()
    }

    /// An empty buffer.
    pub fn new(id: BufferId) -> (b: Buffer)
        ensures
            b.wf(),
            b.id_view() == id,
            b.text_view() == Seq::<char>::empty(),
            b.version_view().value_view() == 0,
            b.path_view().is_none(),
            b.ending_view() == LineEnding::Lf,
            !b.dirty_view(),
            !b.read_only_view(),
            b.history_view().undo.len() == 0,
            b.history_view().redo.len() == 0,
    {
        Buffer {
            id,
            rope: rope_new(),
            version: Version::new(),
            file_path: None,
            line_ending: LineEnding::Lf,
            dirty: false,
            read_only: false,
            history: UndoHistory::new(),
        }
    }

    /// A buffer that holds `text`, with the line-ending style that the text
    /// shows.
    pub fn from_text(id: BufferId, text: &str) -> (b: Buffer)
        ensures
            b.wf(),
            b.id_view() == id,
            b.text_view() == text@,
            b.version_view().value_view() == 0,
            b.path_view().is_none(),
            match shown_ending(text@) {
                Some(e) => b.ending_view() == e,
                None => b.ending_view() == LineEnding::Crlf || b.ending_view() == LineEnding::Lf,
            },
            !b.dirty_view(),
            !b.read_only_view(),
            b.history_view().undo.len() == 0,
            b.history_view().redo.len() == 0,
    {
        let line_ending = LineEnding::detect(text);
        Buffer {
            id,
            rope: rope_from_str(text),
            version: Version::new(),
            file_path: None,
            line_ending,
            dirty: false,
            read_only: false,
            history: UndoHistory::new(),
        }
    }

    pub fn id(&self) -> (r: BufferId)
        ensures
            r == self.id_view(),
    {
        self.id
    }

    pub fn version(&self) -> (r: Version)
        ensures
            r == self.version_view(),
    {
        self.version
    }

    pub fn file_path(&self) -> (r: Option<&PathBuf>)
        ensures
            match r {
                Some(p) => self.path_view() == Some(*p),
                None => self.path_view().is_none(),
            },
    {
        self.file_path.as_ref()
    }

    pub fn set_file_path(&mut self, path: PathBuf)
        ensures
            final(self).path_view() == Some(path),
            final(self).id_view() == old(self).id_view(),
            final(self).document() == old(self).document(),
            final(self).version_view() == old(self).version_view(),
            final(self).ending_view() == old(self).ending_view(),
            final(self).dirty_view() == old(self).dirty_view(),
            final(self).read_only_view() == old(self).read_only_view(),
    {
        self.file_path = Some(path);
    }

    /// Whether the buffer was changed since it was last saved.
    pub fn is_dirty(&self) -> (r: bool)
        ensures
            r == self.dirty_view(),
    {
        self.dirty
    }

    pub fn is_read_only(&self) -> (r: bool)
        ensures
            r == self.read_only_view(),
    {
        self.read_only
    }

    pub fn set_read_only(&mut self, read_only: bool)
        ensures
            final(self).read_only_view() == read_only,
            final(self).id_view() == old(self).id_view(),
            final(self).document() == old(self).document(),
            final(self).version_view() == old(self).version_view(),
            final(self).ending_view() == old(self).ending_view(),
            final(self).dirty_view() == old(self).dirty_view(),
            final(self).path_view() == old(self).path_view(),
    {
        self.read_only = read_only;
    }

    /// The whole text.
    pub fn text(&self) -> (r: String)
        ensures
            r@ == self.text_view(),
    {
        rope_to_string(&self.rope)
    }

    pub fn len_lines(&self) -> (r: usize)
        ensures
            r == line_count(self.text_view()),
    {
        rope_len_lines(&self.rope)
    }

    pub fn len_chars(&self) -> (r: usize)
        ensures
            r == self.text_view().len(),
    {
        rope_len_chars(&self.rope)
    }

    pub fn len_bytes(&self) -> (r: usize)
        ensures
            r == encode_utf8(self.text_view()).len(),
    {
        rope_len_bytes(&self.rope)
    }

    pub fn is_empty(&self) -> (r: bool)
        ensures
            r == (self.text_view().len() == 0),
    {
        rope_len_chars(&self.rope) == 0
    }

    /// The text of a line with its line break.
    pub fn line(&self, line_idx: usize) -> (r: Result<String, EditorError>)
        ensures
            match r {
                Ok(s) => line_idx < line_count(self.text_view()) && s@ == line_text(
                    self.text_view(),
                    line_idx as int,
                ),
                Err(e) => line_idx >= line_count(self.text_view()) && e
                    == (EditorError::InvalidPosition { line: line_idx, column: 0 }),
            },
    {
        if line_idx < rope_len_lines(&self.rope) {
            Ok(rope_line(&self.rope, line_idx))
        } else {
            Err(EditorError::InvalidPosition { line: line_idx, column: 0 })
        }
    }

    pub fn line_ending(&self) -> (r: LineEnding)
        ensures
            r == self.ending_view(),
    {
        self.line_ending
    }

    /// Sets the line-ending style. The buffer counts as changed.
    pub fn set_line_ending(&mut self, ending: LineEnding)
        ensures
            final(self).ending_view() == ending,
            final(self).dirty_view(),
            final(self).id_view() == old(self).id_view(),
            final(self).document() == old(self).document(),
            final(self).version_view() == old(self).version_view(),
            final(self).read_only_view() == old(self).read_only_view(),
            final(self).path_view() == old(self).path_view(),
    {
        self.line_ending = ending;
        self.dirty = true;
    }

    /// The clusters of a line with their boundaries.
    fn line_bounds(&self, line: usize) -> (r: (usize, Vec<usize>))
        requires
            line < line_count(self.text_view()),
        ensures
            r.0 == line_start(self.text_view(), line as int),
            pieces_cover(
                grapheme_clusters(line_text(self.text_view(), line as int)),
                line_text(self.text_view(), line as int),
            ),
            r.1@.len() == grapheme_clusters(line_text(self.text_view(), line as int)).len() + 1,
            forall|k: int|
                0 <= k < r.1@.len() ==> r.1@[k] == prefix_len(
                    grapheme_clusters(line_text(self.text_view(), line as int)),
                    k,
                ),
            r.0 + r.1@[r.1@.len() - 1] == line_start(self.text_view(), line + 1),
            line_start(self.text_view(), line + 1) <= self.text_view().len() <= usize::MAX,
    {
        let ghost text = self.text_view();
        // the rope counts its characters in a machine word: offsets cannot overflow
        let _length: usize = rope_len_chars(&self.rope);
        let start: usize = rope_line_to_char(&self.rope, line);
        let content = rope_line(&self.rope, line);
        let clusters = split_graphemes(content.as_str());
        proof {
            lemma_line_start(text, line as int);
            lemma_line_start(text, line + 1);
            lemma_line_starts_ordered(text, line as int, line + 1);
            assert(content@.len() == line_start(text, line + 1) - line_start(text, line as int));
            assert(texts(clusters@).len() == clusters@.len());
        }
        let bounds = piece_bounds(&clusters);
        (start, bounds)
    }

    /// The number of grapheme clusters of each line, line breaks included.
    /// Counting them goes through the segmentation of every line, which is
    /// why the result carries what the laws of positions and offsets rest on:
    /// the clusters of every line cut the line into non-empty pieces.
    pub fn line_lengths(&self) -> (r: Vec<usize>)
        ensures
            segmented(self.text_view()),
            r@.len() == line_count(self.text_view()),
            forall|k: int|
                0 <= k < r@.len() ==> r@[k] == grapheme_clusters(
                    #[trigger] line_text(self.text_view(), k),
                ).len(),
    {
        let ghost text = self.text_view();
        let lines: usize = rope_len_lines(&self.rope);
        let mut lengths: Vec<usize> = Vec::new();
        let mut i: usize = 0;
        while i < lines
            invariant
                i <= lines,
                lines == line_count(text),
                text == rope_text(self.rope),
                lengths@.len() == i,
                forall|k: int|
                    0 <= k < i ==> pieces_cover(
                        grapheme_clusters(#[trigger] line_text(text, k)),
                        line_text(text, k),
                    ) && lengths@[k] == grapheme_clusters(line_text(text, k)).len(),
            decreases lines - i,
        {
            let (start, bounds) = self.line_bounds(i);
            lengths.push(bounds.len() - 1);
            i = i + 1;
        }
        lengths
    }

    /// The character offset of a position: the start of its line plus the
    /// characters of the grapheme clusters before its column. The offset
    /// falls on a cluster boundary, and it stands for the position: its own
    /// position is `pos` again, unless `pos` lies behind the line break of
    /// its line, where the next line starts.
    pub fn position_to_char_idx(&self, pos: Position) -> (r: Result<usize, EditorError>)
        ensures
            match r {
                Ok(idx) => {
                    &&& valid_position(self.text_view(), pos)
                    &&& idx == offset_of(self.text_view(), pos)
                    &&& idx <= self.text_view().len()
                    &&& line_of(self.text_view(), idx as int) == pos.line ==> position_of(
                        self.text_view(),
                        idx as int,
                    ) == pos
                    &&& pos.column < grapheme_clusters(
                        line_text(self.text_view(), pos.line as int),
                    ).len() || pos.line + 1 == line_count(self.text_view()) ==> line_of(
                        self.text_view(),
                        idx as int,
                    ) == pos.line
                },
                Err(e) => !valid_position(self.text_view(), pos) && e
                    == (EditorError::InvalidPosition { line: pos.line, column: pos.column }),
            },
    {
        if pos.line >= rope_len_lines(&self.rope) {
            return Err(EditorError::InvalidPosition { line: pos.line, column: pos.column });
        }
        let (start, bounds) = self.line_bounds(pos.line);
        if pos.column >= bounds.len() {
            return Err(EditorError::InvalidPosition { line: pos.line, column: pos.column });
        }
        proof {
            let text = self.text_view();
            let line = line_text(text, pos.line as int);
            let parts = grapheme_clusters(line);
            lemma_prefix_len_monotonic(parts, pos.column as int, bounds@.len() - 1);
            lemma_column_of_boundary(parts, line, pos.column as int);
            lemma_line_start(text, pos.line as int);
            if pos.column < parts.len() {
                lemma_prefix_len_strict(parts, pos.column as int, parts.len() as int);
            }
            if pos.column < parts.len() || pos.line + 1 == line_count(text) {
                lemma_line_of_between(text, pos.line as int, start + bounds@[pos.column as int]);
            }
        }
        Ok(start + bounds[pos.column])
    }

    /// The position of a character offset: its line, and on that line the
    /// number of grapheme clusters that have to be passed to reach it. The
    /// position stands for the offset: its own offset is `idx` again, unless
    /// `idx` falls inside a cluster, where it is the end of that cluster.
    pub fn char_idx_to_position(&self, idx: usize) -> (r: Result<Position, EditorError>)
        ensures
            match r {
                Ok(pos) => {
                    &&& idx <= self.text_view().len()
                    &&& pos == position_of(self.text_view(), idx as int)
                    &&& valid_position(self.text_view(), pos)
                    &&& pos.line == line_of(self.text_view(), idx as int)
                    &&& offset_of(self.text_view(), pos) >= idx
                    &&& on_boundary(
                        grapheme_clusters(line_text(self.text_view(), pos.line as int)),
                        idx - line_start(self.text_view(), pos.line as int),
                    ) ==> offset_of(self.text_view(), pos) == idx
                },
                Err(e) => idx > self.text_view().len() && e == (EditorError::InvalidPosition {
                    line: 0,
                    column: idx,
                }),
            },
    {
        if idx > rope_len_chars(&self.rope) {
            return Err(EditorError::InvalidPosition { line: 0, column: idx });
        }
        let ghost text = self.text_view();
        proof {
            lemma_line_of(text, idx as int);
        }
        let line: usize = rope_char_to_line(&self.rope, idx);
        let (start, bounds) = self.line_bounds(line);
        let offset: usize = idx - start;
        let ghost parts = grapheme_clusters(line_text(text, line as int));
        let count: usize = bounds.len() - 1;
        let mut column: usize = 0;
        while column < count && bounds[column] < offset
            invariant
                column <= count,
                count == parts.len(),
                bounds@.len() == count + 1,
                forall|k: int| 0 <= k <= count ==> bounds@[k] == prefix_len(parts, k),
                column_from(parts, offset as int, column as int) == column_at(parts, offset as int),
            decreases count - column,
        {
            column = column + 1;
        }
        proof {
            lemma_column_at(parts, offset as int);
            if on_boundary(parts, offset as int) {
                let b = choose|b: int|
                    0 <= b <= parts.len() && #[trigger] prefix_len(parts, b) == offset;
                lemma_column_of_boundary(parts, line_text(text, line as int), b);
            }
        }
        Ok(Position { line, column })
    }

    /// A snapshot of the text at the current version.
    pub fn snapshot(&self) -> (r: BufferSnapshot)
        ensures
            r.text_view() == self.text_view(),
            r.version_view() == self.version_view(),
    {
        BufferSnapshot { rope: rope_clone(&self.rope), version: self.version }
    }

    /// The figures of the buffer: its lines, characters and bytes, and the
    /// length in characters of its longest line.
    pub fn metrics(&self) -> (r: BufferMetrics)
        ensures
            r.total_lines == line_count(self.text_view()),
            r.total_chars == self.text_view().len(),
            r.total_bytes == encode_utf8(self.text_view()).len(),
            r.longest_line_length == longest_line(
                self.text_view(),
                line_count(self.text_view()),
            ),
    {
        let ghost text = self.text_view();
        let lines: usize = rope_len_lines(&self.rope);
        let total: usize = rope_len_chars(&self.rope);
        let mut longest: usize = 0;
        let mut i: usize = 0;
        while i < lines
            invariant
                i <= lines,
                lines == line_count(text),
                text == rope_text(self.rope),
                total == text.len(),
                longest == longest_line(text, i as int),
            decreases lines - i,
        {
            proof {
                lemma_line_start(text, i as int);
                lemma_line_start(text, i + 1);
                lemma_line_starts_ordered(text, i as int, i + 1);
            }
            let from: usize = rope_line_to_char(&self.rope, i);
            let to: usize = rope_line_to_char(&self.rope, i + 1);
            let len: usize = to - from;
            if len > longest {
                longest = len;
            }
            i = i + 1;
        }
        BufferMetrics {
            total_lines: lines,
            total_chars: total,
            total_bytes: rope_len_bytes(&self.rope),
            longest_line_length: longest,
        }
    }

    /// The buffer changed: its version grows and it counts as unsaved.
    fn touch(&mut self)
        requires
            old(self).version_view().value_view() < u64::MAX,
        ensures
            final(self).version_view().value_view() == old(self).version_view().value_view() + 1,
            final(self).dirty_view(),
            final(self).same_settings(old(self)),
            final(self).rope == old(self).rope,
            final(self).history == old(self).history,
    {
        self.version = self.version.next();
        self.dirty = true;
    }

    /// The position of offset `idx`, which lies in the text.
    fn caret_at(&self, idx: usize) -> (r: Position)
        requires
            idx <= self.text_view().len(),
        ensures
            r == position_of(self.text_view(), idx as int),
    {
        match self.char_idx_to_position(idx) {
            Ok(p) => p,
            Err(_) => Position::zero(),
        }
    }

    /// Checks a range and gives its offsets.
    fn resolve_range(&self, start: Position, end: Position) -> (r: Result<
        (usize, usize),
        EditorError,
    >)
        ensures
            match r {
                Ok((from, to)) => range_refusal(
                    self.text_view(),
                    self.read_only_view(),
                    start,
                    end,
                ).is_none() && from == offset_of(self.text_view(), start) && to == offset_of(
                    self.text_view(),
                    end,
                ) && from <= to <= self.text_view().len(),
                Err(e) => range_refusal(self.text_view(), self.read_only_view(), start, end)
                    == Some(e),
            },
    {
        if self.read_only {
            return Err(EditorError::BufferError(BufferError::ReadOnly));
        }
        let from: usize = match self.position_to_char_idx(start) {
            Ok(i) => i,
            Err(e) => {
                return Err(e);
            },
        };
        let to: usize = match self.position_to_char_idx(end) {
            Ok(i) => i,
            Err(e) => {
                return Err(e);
            },
        };
        if from > to {
            return Err(EditorError::InvalidRange { start, end });
        }
        Ok((from, to))
    }

    /// Inserts `text` at `pos`. A read-only buffer refuses, and so does a
    /// buffer that has no such position; then nothing changes.
    pub fn insert(&mut self, pos: Position, text: &str) -> (r: Result<(), EditorError>)
        requires
            old(self).wf(),
            old(self).version_view().value_view() < u64::MAX,
        ensures
            final(self).wf(),
            match r {
                Ok(_) => {
                    &&& !old(self).read_only_view()
                    &&& valid_position(old(self).text_view(), pos)
                    &&& final(self).document() == edited(
                        old(self).document(),
                        insertion(old(self).text_view(), pos, text@),
                    )
                    &&& final(self).text_view() == with_inserted(
                        old(self).text_view(),
                        offset_of(old(self).text_view(), pos),
                        text@,
                    )
                    &&& final(self).version_view().value_view() == old(self).version_view().value_view() + 1
                    &&& final(self).dirty_view()
                    &&& final(self).same_settings(old(self))
                },
                Err(e) => {
                    &&& *final(self) == *old(self)
                    &&& e == if old(self).read_only_view() {
                        EditorError::BufferError(BufferError::ReadOnly)
                    } else {
                        EditorError::InvalidPosition { line: pos.line, column: pos.column }
                    }
                    &&& old(self).read_only_view() || !valid_position(old(self).text_view(), pos)
                },
            },
    {
        if self.read_only {
            return Err(EditorError::BufferError(BufferError::ReadOnly));
        }
        let at: usize = match self.position_to_char_idx(pos) {
            Ok(i) => i,
            Err(e) => {
                return Err(e);
            },
        };
        let ghost before = self.document();
        rope_insert(&mut self.rope, at, text);
        // the rope counts its characters in a machine word: offsets cannot overflow
        let _length: usize = rope_len_chars(&self.rope);
        let count: usize = text.unicode_len();
        let caret = self.caret_at(at + count);
        let op = EditOperation::insert(pos, String::from_str(text), caret).at_offset(at);
        proof {
            assert(op@ == insertion(before.text, pos, text@));
            assert(applies(before.text, op@)) by {
                assert(before.text.subrange(at as int, at as int) =~= Seq::<char>::empty());
            }
            assert(self.text_view() =~= applied(before.text, op@));
            lemma_edit_keeps_wf(before, op@);
        }
        self.history.record_operation(op);
        self.touch();
        Ok(())
    }

    /// Deletes the text from `start` to `end` and hands it out. The buffer
    /// refuses for the reasons that `range_refusal` names; then nothing
    /// changes.
    pub fn delete(&mut self, start: Position, end: Position) -> (r: Result<String, EditorError>)
        requires
            old(self).wf(),
            old(self).version_view().value_view() < u64::MAX,
        ensures
            final(self).wf(),
            match r {
                Ok(deleted) => {
                    &&& range_refusal(
                        old(self).text_view(),
                        old(self).read_only_view(),
                        start,
                        end,
                    ).is_none()
                    &&& deleted@ == old(self).text_view().subrange(
                        offset_of(old(self).text_view(), start),
                        offset_of(old(self).text_view(), end),
                    )
                    &&& final(self).document() == edited(
                        old(self).document(),
                        deletion(old(self).text_view(), start, end),
                    )
                    &&& final(self).text_view() == with_removed(
                        old(self).text_view(),
                        offset_of(old(self).text_view(), start),
                        offset_of(old(self).text_view(), end),
                    )
                    &&& final(self).version_view().value_view() == old(self).version_view().value_view() + 1
                    &&& final(self).dirty_view()
                    &&& final(self).same_settings(old(self))
                },
                Err(e) => {
                    &&& *final(self) == *old(self)
                    &&& range_refusal(
                        old(self).text_view(),
                        old(self).read_only_view(),
                        start,
                        end,
                    ) == Some(e)
                },
            },
    {
        let (from, to) = match self.resolve_range(start, end) {
            Ok(range) => range,
            Err(e) => {
                return Err(e);
            },
        };
        let ghost before = self.document();
        let deleted = rope_slice(&self.rope, from, to);
        rope_remove(&mut self.rope, from, to);
        let caret = self.caret_at(from);
        let op = EditOperation::delete(start, end, deleted.clone(), caret).at_offset(from);
        proof {
            assert(op@ == deletion(before.text, start, end));
            assert(self.text_view() =~= applied(before.text, op@));
            lemma_edit_keeps_wf(before, op@);
        }
        self.history.record_operation(op);
        self.touch();
        Ok(deleted)
    }

    /// Replaces the text from `start` to `end` by `text` and hands out what
    /// was there. The buffer refuses for the reasons that `range_refusal`
    /// names; then nothing changes.
    pub fn replace(&mut self, start: Position, end: Position, text: &str) -> (r: Result<
        String,
        EditorError,
    >)
        requires
            old(self).wf(),
            old(self).version_view().value_view() < u64::MAX,
        ensures
            final(self).wf(),
            match r {
                Ok(deleted) => {
                    &&& range_refusal(
                        old(self).text_view(),
                        old(self).read_only_view(),
                        start,
                        end,
                    ).is_none()
                    &&& deleted@ == old(self).text_view().subrange(
                        offset_of(old(self).text_view(), start),
                        offset_of(old(self).text_view(), end),
                    )
                    &&& final(self).document() == edited(
                        old(self).document(),
                        replacement(old(self).text_view(), start, end, text@),
                    )
                    &&& final(self).text_view() == with_inserted(
                        with_removed(
                            old(self).text_view(),
                            offset_of(old(self).text_view(), start),
                            offset_of(old(self).text_view(), end),
                        ),
                        offset_of(old(self).text_view(), start),
                        text@,
                    )
                    &&& final(self).version_view().value_view() == old(self).version_view().value_view() + 1
                    &&& final(self).dirty_view()
                    &&& final(self).same_settings(old(self))
                },
                Err(e) => {
                    &&& *final(self) == *old(self)
                    &&& range_refusal(
                        old(self).text_view(),
                        old(self).read_only_view(),
                        start,
                        end,
                    ) == Some(e)
                },
            },
    {
        let (from, to) = match self.resolve_range(start, end) {
            Ok(range) => range,
            Err(e) => {
                return Err(e);
            },
        };
        let ghost before = self.document();
        let deleted = rope_slice(&self.rope, from, to);
        rope_remove(&mut self.rope, from, to);
        rope_insert(&mut self.rope, from, text);
        // the rope counts its characters in a machine word: offsets cannot overflow
        let _length: usize = rope_len_chars(&self.rope);
        let count: usize = text.unicode_len();
        let caret = self.caret_at(from + count);
        let op = EditOperation::replace(
            start,
            end,
            deleted.clone(),
            String::from_str(text),
            caret,
        ).at_offset(from);
        proof {
            assert(op@ == replacement(before.text, start, end, text@));
            assert(self.text_view() =~= applied(before.text, op@));
            lemma_edit_keeps_wf(before, op@);
        }
        self.history.record_operation(op);
        self.touch();
        Ok(deleted)
    }

    pub fn can_undo(&self) -> (r: bool)
        ensures
            r == (self.history_view().undo.len() > 0),
    {
        self.history.can_undo()
    }

    pub fn can_redo(&self) -> (r: bool)
        ensures
            r == (self.history_view().redo.len() > 0),
    {
        self.history.can_redo()
    }

    /// Closes the current undo step: the next edit starts a step of its own.
    pub fn create_undo_boundary(&mut self)
        requires
            old(self).wf(),
        ensures
            final(self).wf(),
            final(self).document() == with_boundary(old(self).document()),
            final(self).version_view() == old(self).version_view(),
            final(self).dirty_view() == old(self).dirty_view(),
            final(self).same_settings(old(self)),
    {
        self.history.create_boundary();
    }

    /// Takes back the newest undo step: the edits of the step are undone, the
    /// last of them first, and the step moves to the redo stack. The result
    /// is where the caret stood before the step: the start of its first edit.
    /// A redo right after it brings the text back. With nothing to undo, and
    /// in a read-only buffer, nothing changes and the result is `None`.
    pub fn undo(&mut self) -> (r: Option<Position>)
        requires
            old(self).wf(),
            old(self).version_view().value_view() < u64::MAX,
        ensures
            final(self).wf(),
            if old(self).read_only_view() || old(self).history_view().undo.len() == 0 {
                r.is_none() && *final(self) == *old(self)
            } else {
                &&& r == Some(old(self).history_view().undo.last()[0].start)
                &&& final(self).document() == after_undo(old(self).document())
                &&& after_redo(final(self).document()).text == old(self).text_view()
                &&& final(self).version_view().value_view() == old(self).version_view().value_view() + 1
                &&& final(self).dirty_view()
                &&& final(self).same_settings(old(self))
            },
    {
        if self.read_only || !self.history.can_undo() {
            return None;
        }
        let ghost before = self.document();
        proof {
            lemma_undo_keeps_wf(before);
            lemma_redo_after_undo(before);
        }
        let group = match self.history.undo() {
            Some(g) => g,
            None => {
                return None;
            },
        };
        let ghost steps = group@;
        let count: usize = group.operations.len();
        let mut i: usize = count;
        while i > 0
            invariant
                i <= count,
                steps == group@,
                count == group.operations@.len(),
                self.history@ == undone(before.history),
                self.id == old(self).id,
                self.version == old(self).version,
                self.file_path == old(self).file_path,
                self.line_ending == old(self).line_ending,
                self.read_only == old(self).read_only,
                group_reverted(before.text, steps, count as int).is_some(),
                group_reverted(rope_text(self.rope), steps, i as int) == group_reverted(
                    before.text,
                    steps,
                    count as int,
                ),
            decreases i,
        {
            let op = &group.operations[i - 1];
            let ghost current = rope_text(self.rope);
            assert(steps[i - 1] == op@);
            assert(reverts(current, op@));
            // the rope counts its characters in a machine word: offsets cannot overflow
        let _length: usize = rope_len_chars(&self.rope);
            let inserted: usize = match &op.inserted_text {
                Some(s) => s.as_str().unicode_len(),
                None => 0,
            };
            rope_remove(&mut self.rope, op.offset, op.offset + inserted);
            match &op.deleted_text {
                Some(d) => {
                    rope_insert(&mut self.rope, op.offset, d.as_str());
                },
                None => {},
            }
            assert(rope_text(self.rope) =~= reverted(current, op@));
            i = i - 1;
        }
        self.touch();
        Some(group.operations[0].start)
    }

    /// Applies the newest redo step again: its edits are redone in their
    /// order, and the step moves back to the undo stack. The result is where
    /// the caret stands after the step: behind its last edit. With nothing to
    /// redo, and in a read-only buffer, nothing changes and the result is
    /// `None`.
    pub fn redo(&mut self) -> (r: Option<Position>)
        requires
            old(self).wf(),
            old(self).version_view().value_view() < u64::MAX,
        ensures
            final(self).wf(),
            if old(self).read_only_view() || old(self).history_view().redo.len() == 0 {
                r.is_none() && *final(self) == *old(self)
            } else {
                &&& r == Some(old(self).history_view().redo.last().last().cursor_after)
                &&& final(self).document() == after_redo(old(self).document())
                &&& after_undo(final(self).document()).text == old(self).text_view()
                &&& final(self).version_view().value_view() == old(self).version_view().value_view() + 1
                &&& final(self).dirty_view()
                &&& final(self).same_settings(old(self))
            },
    {
        if self.read_only || !self.history.can_redo() {
            return None;
        }
        let ghost before = self.document();
        proof {
            lemma_redo_keeps_wf(before);
            lemma_undo_after_redo(before);
        }
        let group = match self.history.redo() {
            Some(g) => g,
            None => {
                return None;
            },
        };
        let ghost steps = group@;
        let count: usize = group.operations.len();
        let mut i: usize = 0;
        while i < count
            invariant
                i <= count,
                steps == group@,
                count == group.operations@.len(),
                self.history@ == redone(before.history),
                self.id == old(self).id,
                self.version == old(self).version,
                self.file_path == old(self).file_path,
                self.line_ending == old(self).line_ending,
                self.read_only == old(self).read_only,
                group_applied(before.text, steps, count as int).is_some(),
                group_applied(before.text, steps, i as int) == Some(rope_text(self.rope)),
            decreases count - i,
        {
            let op = &group.operations[i];
            let ghost current = rope_text(self.rope);
            proof {
                assert(steps[i as int] == op@);
                lemma_group_applied_steps(before.text, steps, i + 1, count as int);
                assert(applies(current, op@));
            }
            // the rope counts its characters in a machine word: offsets cannot overflow
        let _length: usize = rope_len_chars(&self.rope);
            let deleted: usize = match &op.deleted_text {
                Some(s) => s.as_str().unicode_len(),
                None => 0,
            };
            rope_remove(&mut self.rope, op.offset, op.offset + deleted);
            match &op.inserted_text {
                Some(s) => {
                    rope_insert(&mut self.rope, op.offset, s.as_str());
                },
                None => {},
            }
            assert(rope_text(self.rope) =~= applied(current, op@));
            i = i + 1;
        }
        self.touch();
        Some(group.operations[count - 1].cursor_after)
    }

    /// Deletes the grapheme cluster before `pos` and gives the place where
    /// the caret then stands. At the start of a line that is the line break
    /// of the line above, so that the two lines become one. At the start of
    /// the text there is nothing to delete, and nothing changes.
    pub fn backspace(&mut self, pos: Position) -> (r: Result<Position, EditorError>)
        requires
            old(self).wf(),
            old(self).version_view().value_view() < u64::MAX,
        ensures
            final(self).wf(),
            !valid_position(old(self).text_view(), pos) ==> *final(self) == *old(self) && r
                == Err::<Position, EditorError>(
                EditorError::InvalidPosition { line: pos.line, column: pos.column },
            ),
            valid_position(old(self).text_view(), pos) ==> match position_before(
                old(self).text_view(),
                pos,
            ) {
                None => *final(self) == *old(self) && r == Ok::<Position, EditorError>(pos),
                Some(before) => if old(self).read_only_view() {
                    *final(self) == *old(self) && r == Err::<Position, EditorError>(
                        EditorError::BufferError(BufferError::ReadOnly),
                    )
                } else {
                    &&& r == Ok::<Position, EditorError>(
                        deletion(old(self).text_view(), before, pos).cursor_after,
                    )
                    &&& final(self).document() == edited(
                        old(self).document(),
                        deletion(old(self).text_view(), before, pos),
                    )
                    &&& final(self).version_view().value_view() == old(self).version_view().value_view() + 1
                    &&& final(self).dirty_view()
                    &&& final(self).same_settings(old(self))
                },
            },
    {
        let ghost text = self.text_view();
        if let Err(e) = self.position_to_char_idx(pos) {
            return Err(e);
        }
        let before = if pos.column > 0 {
            Position { line: pos.line, column: pos.column - 1 }
        } else if pos.line > 0 {
            let (start, bounds) = self.line_bounds(pos.line - 1);
            if bounds.len() < 2 {
                return Ok(pos);
            }
            Position { line: pos.line - 1, column: bounds.len() - 2 }
        } else {
            return Ok(pos);
        };
        proof {
            let parts = grapheme_clusters(line_text(text, before.line as int));
            if before.line == pos.line {
                lemma_prefix_len_monotonic(parts, before.column as int, pos.column as int);
            } else {
                lemma_line_start(text, before.line as int);
                lemma_line_starts_ordered(text, before.line as int, pos.line as int);
                lemma_line_starts_ordered(text, before.line + 1, pos.line as int);
                lemma_prefix_len_monotonic(parts, before.column as int, parts.len() as int);
                lemma_prefix_len_monotonic(
                    grapheme_clusters(line_text(text, pos.line as int)),
                    0,
                    pos.column as int,
                );
            }
        }
        let from: usize = match self.position_to_char_idx(before) {
            Ok(i) => i,
            Err(e) => {
                return Err(e);
            },
        };
        match self.delete(before, pos) {
            Ok(_) => Ok(self.caret_at(from)),
            Err(e) => Err(e),
        }
    }

    /// Deletes the grapheme cluster behind `pos` and gives the place where
    /// the caret then stands. Before a line break that is the break, so that
    /// the line and the next become one. At the end of a line there is
    /// nothing to delete, and nothing changes.
    pub fn delete_forward(&mut self, pos: Position) -> (r: Result<Position, EditorError>)
        requires
            old(self).wf(),
            old(self).version_view().value_view() < u64::MAX,
        ensures
            final(self).wf(),
            !valid_position(old(self).text_view(), pos) ==> *final(self) == *old(self) && r
                == Err::<Position, EditorError>(
                EditorError::InvalidPosition { line: pos.line, column: pos.column },
            ),
            valid_position(old(self).text_view(), pos) ==> match position_after(
                old(self).text_view(),
                pos,
            ) {
                None => *final(self) == *old(self) && r == Ok::<Position, EditorError>(pos),
                Some(after) => if old(self).read_only_view() {
                    *final(self) == *old(self) && r == Err::<Position, EditorError>(
                        EditorError::BufferError(BufferError::ReadOnly),
                    )
                } else {
                    &&& r == Ok::<Position, EditorError>(
                        deletion(old(self).text_view(), pos, after).cursor_after,
                    )
                    &&& final(self).document() == edited(
                        old(self).document(),
                        deletion(old(self).text_view(), pos, after),
                    )
                    &&& final(self).version_view().value_view() == old(self).version_view().value_view() + 1
                    &&& final(self).dirty_view()
                    &&& final(self).same_settings(old(self))
                },
            },
    {
        let ghost text = self.text_view();
        let at: usize = match self.position_to_char_idx(pos) {
            Ok(i) => i,
            Err(e) => {
                return Err(e);
            },
        };
        let (start, bounds) = self.line_bounds(pos.line);
        if pos.column + 1 >= bounds.len() {
            return Ok(pos);
        }
        let after = Position { line: pos.line, column: pos.column + 1 };
        proof {
            lemma_prefix_len_monotonic(
                grapheme_clusters(line_text(text, pos.line as int)),
                pos.column as int,
                after.column as int,
            );
        }
        match self.delete(pos, after) {
            Ok(_) => Ok(self.caret_at(at)),
            Err(e) => Err(e),
        }
    }

    /// The nearest word stop on the line of `pos` strictly behind `pos`, or
    /// the end of the line.
    pub fn next_word_boundary(&self, pos: Position) -> (r: Result<Position, EditorError>)
        ensures
            match r {
                Ok(p) => valid_position(self.text_view(), pos) && p.line == pos.line && p.column
                    == next_stop(line_stops(self.text_view(), pos.line as int), (pos.column + 1) as nat)
                    && valid_position(self.text_view(), p) && pos.column <= p.column,
                Err(e) => !valid_position(self.text_view(), pos) && e
                    == (EditorError::InvalidPosition { line: pos.line, column: pos.column }),
            },
    {
        if pos.line >= rope_len_lines(&self.rope) {
            return Err(EditorError::InvalidPosition { line: pos.line, column: pos.column });
        }
        let paragraph = BidiParagraph::new(rope_line(&self.rope, pos.line), None);
        if pos.column > paragraph.len() {
            return Err(EditorError::InvalidPosition { line: pos.line, column: pos.column });
        }
        Ok(
            Position {
                line: pos.line,
                column: CursorMovement::word_stop_after(&paragraph, pos.column),
            },
        )
    }

    /// The nearest word stop on the line of `pos` strictly before `pos`, or
    /// the start of the line.
    pub fn prev_word_boundary(&self, pos: Position) -> (r: Result<Position, EditorError>)
        ensures
            match r {
                Ok(p) => valid_position(self.text_view(), pos) && p.line == pos.line && p.column
                    == prev_stop(line_stops(self.text_view(), pos.line as int), pos.column - 1)
                    && valid_position(self.text_view(), p) && p.column <= pos.column,
                Err(e) => !valid_position(self.text_view(), pos) && e
                    == (EditorError::InvalidPosition { line: pos.line, column: pos.column }),
            },
    {
        if pos.line >= rope_len_lines(&self.rope) {
            return Err(EditorError::InvalidPosition { line: pos.line, column: pos.column });
        }
        let paragraph = BidiParagraph::new(rope_line(&self.rope, pos.line), None);
        if pos.column > paragraph.len() {
            return Err(EditorError::InvalidPosition { line: pos.line, column: pos.column });
        }
        Ok(
            Position {
                line: pos.line,
                column: CursorMovement::word_stop_before(&paragraph, pos.column),
            },
        )
    }

    /// The file that a save goes to. A buffer without a file has none.
    pub fn save_path(&self) -> (r: Result<&PathBuf, EditorError>)
        ensures
            match r {
                Ok(p) => self.path_view() == Some(*p),
                Err(e) => self.path_view().is_none() && e == EditorError::NoFilePath,
            },
    {
        match &self.file_path {
            Some(p) => Ok(p),
            None => Err(EditorError::NoFilePath),
        }
    }

    /// Notes that the text was written to the buffer's file: the buffer no
    /// longer counts as changed.
    pub fn mark_saved(&mut self)
        ensures
            !final(self).dirty_view(),
            final(self).document() == old(self).document(),
            final(self).version_view() == old(self).version_view(),
            final(self).same_settings(old(self)),
    {
        self.dirty = false;
    }

    /// Notes that the text was written to the file at `path`: that file is
    /// now the buffer's, and the buffer no longer counts as changed.
    pub fn mark_saved_as(&mut self, path: PathBuf)
        ensures
            !final(self).dirty_view(),
            final(self).path_view() == Some(path),
            final(self).document() == old(self).document(),
            final(self).version_view() == old(self).version_view(),
            final(self).id_view() == old(self).id_view(),
            final(self).ending_view() == old(self).ending_view(),
            final(self).read_only_view() == old(self).read_only_view(),
    {
        self.file_path = Some(path);
        self.dirty = false;
    }
}

} // verus!
