//! Bookkeeping of the line renderer: the cache of rendered lines and the
//! widgets shown inside lines.

use crate::decorations::InlineDecoration;
use crate::seqs::{lemma_filter_take_none, lemma_filter_take_step};
use crate::syntax::HighlightToken;
use vstd::prelude::*;

verus! {

/// What was rendered for one line.
pub struct CachedLine {
    /// The rendered shape data.
    pub data: Vec<u8>,
    /// The version of the line that was rendered.
    pub version: usize,
}

/// The test that a cache entry is not for line `line`.
pub open spec fn not_for_line(line: usize) -> spec_fn((usize, CachedLine)) -> bool {
    |e: (usize, CachedLine)| e.0 != line
}

/// The cache entries that are not for line `line`.
pub open spec fn other_lines(cache: Seq<(usize, CachedLine)>, line: usize) -> Seq<
    (usize, CachedLine),
> {
    cache.filter(not_for_line(line))
}

/// The oldest cache entry for line `line`, if there is one.
pub open spec fn first_cached(cache: Seq<(usize, CachedLine)>, line: usize) -> Option<CachedLine>
    decreases cache.len(),
{
    if cache.len() == 0 {
        None
    } else if cache[0].0 == line {
        Some(cache[0].1)
    } else {
        first_cached(cache.drop_first(), line)
    }
}

/// The cache after line `line` was rendered afresh: its old entries are gone,
/// a new entry stands last, and when that makes more than `capacity` entries
/// the oldest one leaves.
pub open spec fn cache_after_render(
    cache: Seq<(usize, CachedLine)>,
    capacity: usize,
    line: usize,
    entry: CachedLine,
) -> Seq<(usize, CachedLine)> {
    let grown = other_lines(cache, line).push((line, entry));
    if grown.len() > capacity {
        grown.remove(0)
    } else {
        grown
    }
}

/// Renders lines and remembers the results, oldest first.
pub struct LineRenderer {
    cache: Vec<(usize, CachedLine)>,
    max_cache_size: usize,
}

impl LineRenderer {
    /// The cached entries, oldest first, each with the number of its line.
    pub closed spec fn cache_view(&self) -> Seq<(usize, CachedLine)> {
        self.cache@
    }

    /// The number of entries that the cache may hold.
    pub closed spec fn capacity_view(&self) -> usize {
        self.max_cache_size
    }

    pub fn new() -> (r: LineRenderer)
        ensures
            r.cache_view().len() == 0,
            r.capacity_view() == 100,
    {
        LineRenderer { cache: Vec::new(), max_cache_size: 100 }
    }

    /// Renders line `line_number` afresh and caches the result.
    pub fn render_line(
        &mut self,
        line_number: usize,
        _tokens: &[HighlightToken],
        _decorations: &[InlineDecoration],
    )
        ensures
            final(self).capacity_view() == old(self).capacity_view(),
            exists|entry: CachedLine|
                entry.data@.len() == 0 && entry.version == line_number && final(self).cache_view()
                    == #[trigger] cache_after_render(
                    old(self).cache_view(),
                    old(self).capacity_view(),
                    line_number,
                    entry,
                ),
    {
        self.invalidate_line(line_number);
        let cached = CachedLine { data: Vec::new(), version: line_number };
        self.cache.push((line_number, cached));
        if self.cache.len() > self.max_cache_size {
            self.cache.remove(0);
        }
        assert(self.cache_view() == cache_after_render(
            old(self).cache_view(),
            old(self).capacity_view(),
            line_number,
            cached,
        ));
    }

    /// The oldest cached rendering of line `line_number`, if there is one.
    pub fn get_cached(&self, line_number: usize) -> (r: Option<&CachedLine>)
        ensures
            match r {
                Some(c) => first_cached(self.cache_view(), line_number) == Some(*c),
                None => first_cached(self.cache_view(), line_number).is_none(),
            },
    {
        let mut i: usize = 0;
        assert(self.cache@.skip(0) =~= self.cache@);
        while i < self.cache.len()
            invariant
                i <= self.cache@.len(),
                first_cached(self.cache@, line_number) == first_cached(
                    self.cache@.skip(i as int),
                    line_number,
                ),
            decreases self.cache@.len() - i,
        {
            assert(self.cache@.skip(i as int).drop_first() =~= self.cache@.skip(i + 1));
            if self.cache[i].0 == line_number {
                return Some(&self.cache[i].1);
            }
            i = i + 1;
        }
        None
    }

    pub fn clear_cache(&mut self)
        ensures
            final(self).cache_view().len() == 0,
            final(self).capacity_view() == old(self).capacity_view(),
    {
        self.cache.clear();
    }

    /// Forgets what was rendered for line `line_number`.
    pub fn invalidate_line(&mut self, line_number: usize)
        ensures
            final(self).cache_view() == other_lines(old(self).cache_view(), line_number),
            final(self).capacity_view() == old(self).capacity_view(),
    {
        let ghost before = self.cache@;
        let ghost keep = not_for_line(line_number);
        let ghost mut seen: int = 0;
        let mut i: usize = 0;
        proof {
            lemma_filter_take_none(before, keep);
            assert(self.cache@ =~= before.take(0).filter(keep) + before.skip(0));
        }
        while i < self.cache.len()
            invariant
                keep == not_for_line(line_number),
                0 <= seen <= before.len(),
                i == before.take(seen).filter(keep).len(),
                self.cache@ == before.take(seen).filter(keep) + before.skip(seen),
                self.max_cache_size == old(self).max_cache_size,
            decreases before.len() - seen,
        {
            proof {
                lemma_filter_take_step(before, keep, seen);
                assert(self.cache@[i as int] == before.skip(seen)[0]);
            }
            if self.cache[i].0 == line_number {
                self.cache.remove(i);
                assert(self.cache@ =~= before.take(seen + 1).filter(keep) + before.skip(seen + 1));
            } else {
                i = i + 1;
                assert(self.cache@ =~= before.take(seen + 1).filter(keep) + before.skip(seen + 1));
            }
            proof {
                seen = seen + 1;
            }
        }
        proof {
            assert(before.skip(seen).len() == 0);
            assert(before.take(seen) =~= before);
            assert(self.cache@ =~= before.filter(keep));
        }
    }
}

/// The kind of an inline widget.
#[derive(Debug, Clone, Copy, PartialEq, Eq, Structural)]
pub enum InlineWidgetKind {
    Diagnostic,
    Hint,
    CodeLens,
    ParameterHint,
}

/// A widget shown inside a line of text.
#[derive(Debug, Clone)]
pub struct InlineWidget {
    pub line: usize,
    pub column: usize,
    pub content: String,
    pub kind: InlineWidgetKind,
}

/// The widgets shown inside lines, in the order they were added.
pub struct InlineWidgets {
    pub widgets: Vec<InlineWidget>,
}

impl InlineWidgets {
    pub fn new() -> (r: InlineWidgets)
        ensures
            r.widgets@.len() == 0,
    {
        InlineWidgets { widgets: Vec::new() }
    }

    pub fn add_widget(&mut self, widget: InlineWidget)
        ensures
            final(self).widgets@ == old(self).widgets@.push(widget),
    {
        self.widgets.push(widget);
    }

    /// Removes the widget at `index`; an index beyond the widgets changes
    /// nothing.
    pub fn remove_widget(&mut self, index: usize)
        ensures
            final(self).widgets@ == if index < old(self).widgets@.len() {
                old(self).widgets@.remove(index as int)
            } else {
                old(self).widgets@
            },
    {
        if index < self.widgets.len() {
            self.widgets.remove(index);
        }
    }

    pub fn clear(&mut self)
        ensures
            final(self).widgets@.len() == 0,
    {
        self.widgets.clear();
    }
}

/// Computes how a logical line breaks into visual lines.
pub struct LineLayout {}

impl LineLayout {
    pub fn new() -> LineLayout {
        LineLayout {  }
    }
}

/// Shapes runs of text into glyphs.
pub struct TextShaper {}

impl TextShaper {
    pub fn new() -> TextShaper {
        TextShaper {  }
    }
}

/// A font to shape text with.
pub struct Font {}

/// The data of a loaded font.
pub struct FontData {}

/// The script a fallback font is chosen for.
pub enum Script {
    Latin,
    Arabic,
    Hebrew,
    Other,
}

/// A font family with the families to fall back on, in order.
pub struct FontFallbackChain {
    pub primary: String,
    pub fallbacks: Vec<String>,
}

/// What identifies a rendered glyph in the glyph cache.
#[derive(Hash, Eq, PartialEq)]
pub struct GlyphCacheKey {
    pub glyph_id: u32,
    pub font_id: usize,
    pub size: u32,
}

} // verus!
