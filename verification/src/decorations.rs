//! Decorations that the editor draws in and beside the text.

use crate::seqs::{lemma_filter_take_none, lemma_filter_take_step};
use std::ops::Range;
use vstd::prelude::*;

verus! {

/// A decoration over a range of the text.
#[derive(Debug)]
pub struct InlineDecoration {
    pub range: Range<usize>,
    pub kind: InlineDecorationKind,
}

impl Clone for InlineDecoration {
    fn clone(&self) -> (r: InlineDecoration)
        ensures
            r == *self,
    {
        InlineDecoration {
            range: Range { start: self.range.start, end: self.range.end },
            kind: self.kind.clone(),
        }
    }
}

/// The kinds of decoration drawn inside the text.
#[derive(Debug)]
pub enum InlineDecorationKind {
    ErrorSquiggle,
    WarningSquiggle,
    InfoSquiggle,
    HintSquiggle,
    CodeLens(String),
    InlineHint(String),
    MatchingBracket,
}

impl Clone for InlineDecorationKind {
    fn clone(&self) -> (r: InlineDecorationKind)
        ensures
            r == *self,
    {
        match self {
            InlineDecorationKind::ErrorSquiggle => InlineDecorationKind::ErrorSquiggle,
            InlineDecorationKind::WarningSquiggle => InlineDecorationKind::WarningSquiggle,
            InlineDecorationKind::InfoSquiggle => InlineDecorationKind::InfoSquiggle,
            InlineDecorationKind::HintSquiggle => InlineDecorationKind::HintSquiggle,
            InlineDecorationKind::CodeLens(text) => InlineDecorationKind::CodeLens(text.clone()),
            InlineDecorationKind::InlineHint(text) => InlineDecorationKind::InlineHint(
                text.clone(),
            ),
            InlineDecorationKind::MatchingBracket => InlineDecorationKind::MatchingBracket,
        }
    }
}

/// A decoration in the gutter of a line.
#[derive(Debug, Clone)]
pub struct GutterDecoration {
    pub line: usize,
    pub kind: GutterDecorationKind,
}

/// The kinds of decoration drawn in the gutter.
#[derive(Debug, Clone)]
pub enum GutterDecorationKind {
    LineNumber,
    FoldingMarker { folded: bool },
    Diagnostic(DiagnosticSeverity),
    GitDiff(GitDiffKind),
}

/// How serious the diagnostic behind a gutter marker is.
#[derive(Debug, Clone, Copy, PartialEq, Eq, Structural)]
pub enum DiagnosticSeverity {
    Error,
    Warning,
    Info,
    Hint,
}

/// How a line differs from the committed version.
#[derive(Debug, Clone, Copy, PartialEq, Eq, Structural)]
pub enum GitDiffKind {
    Added,
    Modified,
    Deleted,
}

/// The test that a gutter decoration stands on line `line`.
pub open spec fn on_line(line: usize) -> spec_fn(GutterDecoration) -> bool {
    |d: GutterDecoration| d.line == line
}

/// The decorations that a list of references points at.
pub open spec fn pointed_at(v: Seq<&GutterDecoration>) -> Seq<GutterDecoration> {
    Seq::new(v.len(), |i: int| *v[i])
}

/// The gutter decorations of line `line`, in order.
pub fn decorations_of_line(decorations: &[GutterDecoration], line: usize) -> (r: Vec<
    &GutterDecoration,
>)
    ensures
        pointed_at(r@) == decorations@.filter(on_line(line)),
{
    let ghost keep = on_line(line);
    let mut found: Vec<&GutterDecoration> = Vec::new();
    let mut i: usize = 0;
    proof {
        lemma_filter_take_none(decorations@, keep);
        assert(pointed_at(found@) =~= decorations@.take(0).filter(keep));
    }
    while i < decorations.len()
        invariant
            i <= decorations@.len(),
            keep == on_line(line),
            pointed_at(found@) == decorations@.take(i as int).filter(keep),
        decreases decorations@.len() - i,
    {
        proof {
            lemma_filter_take_step(decorations@, keep, i as int);
        }
        let ghost before = found@;
        if decorations[i].line == line {
            found.push(&decorations[i]);
            assert(pointed_at(found@) =~= pointed_at(before).push(decorations@[i as int]));
        }
        i = i + 1;
    }
    assert(decorations@.take(decorations@.len() as int) =~= decorations@);
    found
}

/// What a click in the gutter asks for.
#[derive(Debug, Clone, PartialEq, Eq)]
pub enum GutterAction {
    ToggleFold(usize),
    ShowGitDiff(usize),
    SelectLine(usize),
}

/// The kinds of marker in the gutter.
#[derive(Debug, Clone, Copy, PartialEq, Eq, Structural)]
pub enum MarkerKind {
    Bookmark,
    Error,
    Warning,
}

/// The markers of a document, each with its line.
pub struct Markers {
    pub markers: Vec<(usize, MarkerKind)>,
}

impl Markers {
    pub fn new() -> (r: Markers)
        ensures
            r.markers@.len() == 0,
    {
        Markers { markers: Vec::new() }
    }
}

/// The first diff recorded for `line`, if any.
pub open spec fn first_diff(diffs: Seq<(usize, GitDiffKind)>, line: usize) -> Option<GitDiffKind>
    decreases diffs.len(),
{
    if diffs.len() == 0 {
        None
    } else if diffs[0].0 == line {
        Some(diffs[0].1)
    } else {
        first_diff(diffs.drop_first(), line)
    }
}

/// The diff markers of a document, one entry for each changed line.
pub struct GitDiffIndicators {
    pub diffs: Vec<(usize, GitDiffKind)>,
}

impl GitDiffIndicators {
    pub fn new() -> (r: GitDiffIndicators)
        ensures
            r.diffs@.len() == 0,
    {
        GitDiffIndicators { diffs: Vec::new() }
    }

    pub fn set_diffs(&mut self, diffs: Vec<(usize, GitDiffKind)>)
        ensures
            final(self).diffs@ == diffs@,
    {
        self.diffs = diffs;
    }

    /// The diff marker of `line`: the first one recorded for it.
    pub fn get_diff(&self, line: usize) -> (r: Option<GitDiffKind>)
        ensures
            r == first_diff(self.diffs@, line),
    {
        let mut i: usize = 0;
        assert(self.diffs@.skip(0) =~= self.diffs@);
        while i < self.diffs.len()
            invariant
                i <= self.diffs@.len(),
                first_diff(self.diffs@, line) == first_diff(self.diffs@.skip(i as int), line),
            decreases self.diffs@.len() - i,
        {
            assert(self.diffs@.skip(i as int).drop_first() =~= self.diffs@.skip(i + 1));
            if self.diffs[i].0 == line {
                return Some(self.diffs[i].1);
            }
            i = i + 1;
        }
        None
    }

    pub fn clear(&mut self)
        ensures
            final(self).diffs@.len() == 0,
    {
        self.diffs.clear();
    }
}

/// The folded ranges of a document, each with its first and last line.
pub struct FoldingMarkers {
    pub folded_ranges: Vec<(usize, usize)>,
}

impl FoldingMarkers {
    pub fn new() -> (r: FoldingMarkers)
        ensures
            r.folded_ranges@.len() == 0,
    {
        FoldingMarkers { folded_ranges: Vec::new() }
    }

    /// Whether `line` lies in a folded range, ends included.
    pub fn is_folded(&self, line: usize) -> (r: bool)
        ensures
            r == exists|i: int|
                0 <= i < self.folded_ranges@.len() && (#[trigger] self.folded_ranges@[i]).0 <= line
                    <= self.folded_ranges@[i].1,
    {
        let mut i: usize = 0;
        while i < self.folded_ranges.len()
            invariant
                i <= self.folded_ranges@.len(),
                forall|j: int|
                    0 <= j < i ==> !((#[trigger] self.folded_ranges@[j]).0 <= line
                        <= self.folded_ranges@[j].1),
            decreases self.folded_ranges@.len() - i,
        {
            if self.folded_ranges[i].0 <= line && line <= self.folded_ranges[i].1 {
                return true;
            }
            i = i + 1;
        }
        false
    }

    pub fn unfold_all(&mut self)
        ensures
            final(self).folded_ranges@.len() == 0,
    {
        self.folded_ranges.clear();
    }
}

} // verus!
