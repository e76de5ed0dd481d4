//! A paragraph prepared for bidirectional display: its grapheme clusters with
//! their embedding levels, its word stops and its runs in display order.
//!
//! Positions in a paragraph count grapheme clusters, so every step of a caret
//! crosses a whole cluster.

use crate::layout::{
    display_runs, layout_runs, lemma_logical_then_visual, lemma_visual_then_logical,
    logical_of, logical_position, runs_tile, visual_column, visual_of, Direction, VisualRun,
};
use crate::unicode::{
    bidi_resolution, grapheme_clusters, is_whitespace, is_whitespace_spec, lemma_prefix_len_strict,
    piece_bounds, pieces_cover, prefix_len, resolve_levels, split_graphemes, split_words, texts,
    word_segments,
};
use vstd::prelude::*;
use vstd::string::StrSliceExecFns;

verus! {

/// What can go wrong in the bidirectional engine.
#[derive(Debug, Clone, PartialEq, Eq)]
pub enum BidiError {
    /// A line index beyond the lines given.
    InvalidParagraph(usize),
    /// A position beyond the end of the text.
    InvalidPosition(usize),
    /// The engine was asked for something that this entry point cannot do.
    ProcessingError(String),
}

/// Every character of the piece is white space.
pub open spec fn all_whitespace(piece: Seq<char>) -> bool {
    forall|j: int| 0 <= j < piece.len() ==> is_whitespace_spec(#[trigger] piece[j])
}

/// The level of each piece: the level of its first character.
pub open spec fn piece_levels(parts: Seq<Seq<char>>, char_levels: Seq<u8>) -> Seq<u8> {
    Seq::new(parts.len(), |k: int| char_levels[prefix_len(parts, k)])
}

/// For each piece, whether it is white space.
pub open spec fn piece_blanks(parts: Seq<Seq<char>>) -> Seq<bool> {
    Seq::new(parts.len(), |k: int| all_whitespace(parts[k]))
}

/// The boundary before piece `k` of `parts` is also a boundary of `words`.
pub open spec fn is_word_stop(parts: Seq<Seq<char>>, words: Seq<Seq<char>>, k: int) -> bool {
    exists|w: int| 0 <= w <= words.len() && #[trigger] prefix_len(words, w) == prefix_len(parts, k)
}

/// For each boundary of `parts`, the end of the text included, whether a
/// word boundary falls on it.
pub open spec fn piece_stops(parts: Seq<Seq<char>>, words: Seq<Seq<char>>) -> Seq<bool> {
    Seq::new(parts.len() + 1, |k: int| is_word_stop(parts, words, k))
}

/// The paragraph level that stands for a base direction given from outside.
pub open spec fn forced_level(base: Option<Direction>) -> Option<u8> {
    match base {
        None => None,
        Some(Direction::LTR) => Some(0u8),
        Some(Direction::RTL) => Some(1u8),
    }
}

/// Whether a piece of text is white space throughout.
pub fn is_blank(piece: &str) -> (r: bool)
    ensures
        r == all_whitespace(piece@),
{
    let n: usize = piece.unicode_len();
    let mut j: usize = 0;
    while j < n
        invariant
            n == piece@.len(),
            j <= n,
            forall|i: int| 0 <= i < j ==> is_whitespace_spec(#[trigger] piece@[i]),
        decreases n - j,
    {
        if !is_whitespace(piece.get_char(j)) {
            return false;
        }
        j = j + 1;
    }
    true
}

/// The numbers grow from each entry to the next.
pub open spec fn increasing(v: Seq<usize>) -> bool {
    forall|i: int, j: int| 0 <= i < j < v.len() ==> v[i] < v[j]
}

proof fn lemma_bounds_increase(parts: Seq<Seq<char>>, text: Seq<char>, bounds: Seq<usize>)
    requires
        pieces_cover(parts, text),
        bounds.len() == parts.len() + 1,
        forall|k: int| 0 <= k <= parts.len() ==> bounds[k] == prefix_len(parts, k),
    ensures
        increasing(bounds),
        bounds[0] == 0,
        bounds[parts.len() as int] == text.len(),
{
    assert forall|i: int, j: int| 0 <= i < j < bounds.len() implies bounds[i] < bounds[j] by {
        lemma_prefix_len_strict(parts, i, j);
    }
}

/// The level at each of the given places but the last, which is the end of
/// the text.
pub fn levels_at(starts: &Vec<usize>, char_levels: &Vec<u8>) -> (r: Vec<u8>)
    requires
        starts@.len() >= 1,
        increasing(starts@),
        starts@[starts@.len() - 1] <= char_levels@.len(),
    ensures
        r@.len() == starts@.len() - 1,
        forall|k: int| 0 <= k < r@.len() ==> r@[k] == char_levels@[starts@[k] as int],
{
    let n: usize = starts.len() - 1;
    let mut levels: Vec<u8> = Vec::new();
    let mut k: usize = 0;
    while k < n
        invariant
            k <= n,
            n == starts@.len() - 1,
            increasing(starts@),
            starts@[n as int] <= char_levels@.len(),
            levels@.len() == k,
            forall|j: int| 0 <= j < k ==> levels@[j] == char_levels@[starts@[j] as int],
        decreases n - k,
    {
        assert(starts@[k as int] < starts@[n as int]);
        levels.push(char_levels[starts[k]]);
        k = k + 1;
    }
    levels
}

/// For each piece, whether it is white space.
pub fn blanks_of(pieces: &Vec<String>) -> (r: Vec<bool>)
    ensures
        r@ == piece_blanks(texts(pieces@)),
{
    let mut blanks: Vec<bool> = Vec::new();
    let mut k: usize = 0;
    while k < pieces.len()
        invariant
            k <= pieces@.len(),
            blanks@.len() == k,
            forall|j: int| 0 <= j < k ==> blanks@[j] == all_whitespace(pieces@[j]@),
        decreases pieces@.len() - k,
    {
        blanks.push(is_blank(pieces[k].as_str()));
        k = k + 1;
    }
    assert(blanks@ =~= piece_blanks(texts(pieces@)));
    blanks
}

/// For each of `bounds`, whether it is also among `others`. Both lists grow
/// from each entry to the next.
pub fn shared_bounds(bounds: &Vec<usize>, others: &Vec<usize>) -> (r: Vec<bool>)
    requires
        increasing(bounds@),
        increasing(others@),
    ensures
        r@.len() == bounds@.len(),
        forall|k: int| 0 <= k < r@.len() ==> r@[k] == others@.contains(bounds@[k]),
{
    let mut shared: Vec<bool> = Vec::new();
    let mut w: usize = 0;
    let mut k: usize = 0;
    while k < bounds.len()
        invariant
            k <= bounds@.len(),
            w <= others@.len(),
            increasing(bounds@),
            increasing(others@),
            shared@.len() == k,
            forall|j: int| 0 <= j < k ==> shared@[j] == others@.contains(bounds@[j]),
            forall|j: int| 0 <= j < w && k < bounds@.len() ==> others@[j] < bounds@[k as int],
        decreases bounds@.len() - k,
    {
        let bound: usize = bounds[k];
        while w < others.len() && others[w] < bound
            invariant
                w <= others@.len(),
                forall|j: int| 0 <= j < w ==> others@[j] < bound,
            decreases others@.len() - w,
        {
            w = w + 1;
        }
        let found: bool = w < others.len() && others[w] == bound;
        proof {
            if !found && others@.contains(bound) {
                let j = choose|j: int| 0 <= j < others@.len() && others@[j] == bound;
                if j > w {
                    assert(others@[w as int] < others@[j]);
                }
            }
            if k + 1 < bounds@.len() {
                assert(bounds@[k as int] < bounds@[k + 1]);
            }
        }
        shared.push(found);
        k = k + 1;
    }
    shared
}

/// A paragraph with everything that display and caret movement ask of it,
/// computed once.
pub struct BidiParagraph {
    text: String,
    base: Direction,
    levels: Vec<u8>,
    blanks: Vec<bool>,
    stops: Vec<bool>,
    runs: Vec<VisualRun>,
}

impl BidiParagraph {
    /// The text of the paragraph.
    pub closed spec fn text_view(&self) -> Seq<char> {
        self.text@
    }

    /// The base direction of the paragraph.
    pub closed spec fn base_view(&self) -> Direction {
        self.base
    }

    /// The embedding level of each grapheme cluster.
    pub closed spec fn levels_view(&self) -> Seq<u8> {
        self.levels@
    }

    /// For each grapheme cluster, whether it is white space.
    pub closed spec fn blanks_view(&self) -> Seq<bool> {
        self.blanks@
    }

    /// For each cluster boundary, whether a word boundary falls on it.
    pub closed spec fn stops_view(&self) -> Seq<bool> {
        self.stops@
    }

    /// The runs in display order.
    pub closed spec fn runs_view(&self) -> Seq<VisualRun> {
        self.runs@
    }

    /// The number of grapheme clusters: the length that positions count up to.
    pub open spec fn len_view(&self) -> int {
        self.levels_view().len() as int
    }

    /// The parts of a paragraph agree with each other.
    pub open spec fn wf(&self) -> bool {
        &&& self.len_view() <= usize::MAX
        &&& self.blanks_view().len() == self.len_view()
        &&& self.stops_view().len() == self.len_view() + 1
        &&& self.stops_view()[0]
        &&& self.stops_view()[self.len_view()]
        &&& self.runs_view() == display_runs(self.levels_view())
        &&& runs_tile(self.runs_view(), self.len_view())
    }

    /// The visual column of logical position `i`; the end of the text is its
    /// own visual column.
    pub open spec fn visual_spec(&self, i: int) -> int {
        if i >= self.len_view() {
            self.len_view()
        } else {
            visual_of(self.runs_view(), i)
        }
    }

    /// The logical position at visual column `v`; the end of the text is its
    /// own logical position.
    pub open spec fn logical_spec(&self, v: int) -> int {
        if v >= self.len_view() {
            self.len_view()
        } else {
            logical_of(self.runs_view(), v)
        }
    }

    /// Puts a paragraph together from its text, its base direction, its
    /// grapheme clusters, its word segments and the level of each character.
    pub fn assemble(
        text: String,
        base: Direction,
        clusters: &Vec<String>,
        words: &Vec<String>,
        char_levels: &Vec<u8>,
    ) -> (p: BidiParagraph)
        requires
            pieces_cover(texts(clusters@), text@),
            pieces_cover(texts(words@), text@),
            char_levels@.len() == text@.len(),
        ensures
            p.wf(),
            p.text_view() == text@,
            p.base_view() == base,
            p.levels_view() == piece_levels(texts(clusters@), char_levels@),
            p.blanks_view() == piece_blanks(texts(clusters@)),
            p.stops_view() == piece_stops(texts(clusters@), texts(words@)),
    {
        let ghost parts = texts(clusters@);
        let ghost segs = texts(words@);
        // the text counts its characters in a machine word: boundaries cannot overflow
        let _length: usize = text.as_str().unicode_len();
        let starts = piece_bounds(clusters);
        let word_starts = piece_bounds(words);
        proof {
            lemma_bounds_increase(parts, text@, starts@);
            lemma_bounds_increase(segs, text@, word_starts@);
        }
        let levels = levels_at(&starts, char_levels);
        let blanks = blanks_of(clusters);
        let stops = shared_bounds(&starts, &word_starts);
        let runs = layout_runs(&levels);
        proof {
            assert(levels@ =~= piece_levels(parts, char_levels@));
            assert forall|k: int| 0 <= k < stops@.len() implies stops@[k] == is_word_stop(
                parts,
                segs,
                k,
            ) by {
                if stops@[k] {
                    let w = choose|w: int|
                        0 <= w < word_starts@.len() && word_starts@[w] == starts@[k];
                    assert(prefix_len(segs, w) == prefix_len(parts, k));
                }
                if is_word_stop(parts, segs, k) {
                    let w = choose|w: int|
                        0 <= w <= segs.len() && #[trigger] prefix_len(segs, w) == prefix_len(
                            parts,
                            k,
                        );
                    assert(word_starts@[w] == starts@[k]);
                }
            }
            assert(stops@ =~= piece_stops(parts, segs));
            assert(prefix_len(segs, 0) == prefix_len(parts, 0));
            assert(is_word_stop(parts, segs, 0));
            assert(prefix_len(segs, segs.len() as int) == prefix_len(parts, parts.len() as int));
            assert(is_word_stop(parts, segs, parts.len() as int));
        }
        BidiParagraph { text, base, levels, blanks, stops, runs }
    }

    /// Analyses `text` as one paragraph. With `base` given, the paragraph
    /// reads in that direction; without it, the first strongly directional
    /// character decides.
    pub fn new(text: String, base: Option<Direction>) -> (p: BidiParagraph)
        ensures
            p.wf(),
            p.text_view() == text@,
            p.base_view() == (if bidi_resolution(text@, forced_level(base)).0 == 0 {
                Direction::LTR
            } else {
                Direction::RTL
            }),
            base matches Some(d) ==> p.base_view() == d,
            p.levels_view() == piece_levels(
                grapheme_clusters(text@),
                bidi_resolution(text@, forced_level(base)).1,
            ),
            p.blanks_view() == piece_blanks(grapheme_clusters(text@)),
            p.stops_view() == piece_stops(grapheme_clusters(text@), word_segments(text@)),
    {
        let forced: Option<u8> = match base {
            None => None,
            Some(Direction::LTR) => Some(0u8),
            Some(Direction::RTL) => Some(1u8),
        };
        let clusters = split_graphemes(text.as_str());
        let words = split_words(text.as_str());
        let (level, char_levels) = resolve_levels(text.as_str(), forced);
        let direction = if level == 0 {
            Direction::LTR
        } else {
            Direction::RTL
        };
        BidiParagraph::assemble(text, direction, &clusters, &words, &char_levels)
    }

    pub fn text(&self) -> (r: &str)
        ensures
            r@ == self.text_view(),
    {
        self.text.as_str()
    }

    /// The number of grapheme clusters in the paragraph.
    pub fn len(&self) -> (n: usize)
        ensures
            n == self.len_view(),
    {
        self.levels.len()
    }

    pub fn is_empty(&self) -> (r: bool)
        ensures
            r == (self.len_view() == 0),
    {
        self.levels.len() == 0
    }

    /// The base direction of the paragraph.
    pub fn direction(&self) -> (d: Direction)
        ensures
            d == self.base_view(),
    {
        self.base
    }

    /// The embedding level of each grapheme cluster.
    pub fn levels(&self) -> (r: &[u8])
        ensures
            r@ == self.levels_view(),
    {
        self.levels.as_slice()
    }

    /// The runs of the paragraph in display order.
    pub fn visual_runs(&self) -> (r: &[VisualRun])
        ensures
            r@ == self.runs_view(),
    {
        self.runs.as_slice()
    }

    /// Whether the cluster at logical position `i` is white space.
    pub fn is_blank_at(&self, i: usize) -> (r: bool)
        requires
            self.wf(),
            i < self.len_view(),
        ensures
            r == self.blanks_view()[i as int],
    {
        self.blanks[i]
    }

    /// Whether a word boundary falls on the cluster boundary `i`.
    pub fn is_word_stop_at(&self, i: usize) -> (r: bool)
        requires
            self.wf(),
            i <= self.len_view(),
        ensures
            r == self.stops_view()[i as int],
    {
        self.stops[i]
    }

    /// The visual column at which logical position `i` is displayed. A
    /// position beyond the text counts as its end. The way back from the
    /// column leads to the position again.
    pub fn logical_to_visual(&self, i: usize) -> (v: usize)
        requires
            self.wf(),
        ensures
            v == self.visual_spec(i as int),
            v <= self.len_view(),
            i <= self.len_view() ==> self.logical_spec(v as int) == i,
    {
        proof {
            if i <= self.len_view() {
                lemma_positions_are_inverse(*self, i as int);
            }
        }
        if i >= self.levels.len() {
            self.levels.len()
        } else {
            visual_column(&self.runs, self.levels.len(), i)
        }
    }

    /// The logical position displayed at visual column `v`. A column beyond
    /// the text counts as its end. The way back from the position leads to
    /// the column again.
    pub fn visual_to_logical(&self, v: usize) -> (i: usize)
        requires
            self.wf(),
        ensures
            i == self.logical_spec(v as int),
            i <= self.len_view(),
            v <= self.len_view() ==> self.visual_spec(i as int) == v,
    {
        proof {
            if v <= self.len_view() {
                lemma_positions_are_inverse(*self, v as int);
            }
        }
        if v >= self.levels.len() {
            self.levels.len()
        } else {
            logical_position(&self.runs, self.levels.len(), v)
        }
    }
}

/// Logical and visual positions are mutual inverses over the whole range of
/// positions, the end of the text included.
pub proof fn lemma_positions_are_inverse(p: BidiParagraph, i: int)
    requires
        p.wf(),
        0 <= i <= p.len_view(),
    ensures
        0 <= p.visual_spec(i) <= p.len_view(),
        0 <= p.logical_spec(i) <= p.len_view(),
        p.logical_spec(p.visual_spec(i)) == i,
        p.visual_spec(p.logical_spec(i)) == i,
{
    if i < p.len_view() {
        lemma_visual_then_logical(p.runs_view(), p.len_view(), i);
        lemma_logical_then_visual(p.runs_view(), p.len_view(), i);
    }
}

} // verus!
