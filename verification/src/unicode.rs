//! Unicode services that the engine takes from outside crates: grapheme and
//! word segmentation and bidirectional level resolution. Their results are
//! named here; the rest of the crate is proved against those names.

use unicode_bidi::{Level, ParagraphBidiInfo};
use unicode_segmentation::UnicodeSegmentation;
use vstd::prelude::*;
use vstd::string::StrSliceExecFns;

verus! {

/// The extended grapheme clusters of `text`, in order.
pub uninterp spec fn grapheme_clusters(text: Seq<char>) -> Seq<Seq<char>>;

/// The pieces of `text` between consecutive Unicode word boundaries, in order.
pub uninterp spec fn word_segments(text: Seq<char>) -> Seq<Seq<char>>;

/// The paragraph embedding level of `text` and the embedding level of each of
/// its characters, as the Unicode Bidirectional Algorithm resolves them when
/// the text is one paragraph on one line. `forced` is the paragraph level
/// given from outside, if any.
pub uninterp spec fn bidi_resolution(text: Seq<char>, forced: Option<u8>) -> (u8, Seq<u8>);

/// The character sequences that a list of strings stands for.
pub open spec fn texts(v: Seq<String>) -> Seq<Seq<char>> {
    Seq::new(v.len(), |i: int| v[i]@)
}

/// The number of characters in the first `k` pieces.
pub open spec fn prefix_len(parts: Seq<Seq<char>>, k: int) -> int
    decreases k,
{
    if k <= 0 {
        0
    } else {
        prefix_len(parts, k - 1) + parts[k - 1].len()
    }
}

/// `parts` cuts `text` into pieces: none is empty, and laid end to end they
/// are the text.
pub open spec fn pieces_cover(parts: Seq<Seq<char>>, text: Seq<char>) -> bool {
    &&& prefix_len(parts, parts.len() as int) == text.len()
    &&& forall|k: int|
        0 <= k < parts.len() ==> (#[trigger] parts[k]).len() > 0 && parts[k] == text.subrange(
            prefix_len(parts, k),
            prefix_len(parts, k + 1),
        )
}

/// Splits `text` into its extended grapheme clusters with
/// `UnicodeSegmentation::graphemes(text, true)`. The clusters are named by
/// `grapheme_clusters`; what is claimed of them is that they cut the text into
/// non-empty pieces.
#[verifier::external_body]
pub(crate) fn split_graphemes(text: &str) -> (r: Vec<String>)
    ensures
        texts(r@) == grapheme_clusters(text@),
        pieces_cover(texts(r@), text@),
{
    text.graphemes(true).map(|g| g.to_string()).collect()
}

/// Splits `text` at Unicode word boundaries with
/// `UnicodeSegmentation::split_word_bounds`. The pieces are named by
/// `word_segments`; what is claimed of them is that they cut the text into
/// non-empty pieces.
#[verifier::external_body]
pub(crate) fn split_words(text: &str) -> (r: Vec<String>)
    ensures
        texts(r@) == word_segments(text@),
        pieces_cover(texts(r@), text@),
{
    text.split_word_bounds().map(|w| w.to_string()).collect()
}

/// Resolves embedding levels with `unicode_bidi::ParagraphBidiInfo::new` and
/// its `reordered_levels_per_char` over the whole text. The result is named by
/// `bidi_resolution`; what is claimed of it is that there is one level for
/// each character, that the paragraph level is 0 or 1, and that a level given
/// from outside becomes the paragraph level.
#[verifier::external_body]
pub(crate) fn resolve_levels(text: &str, forced: Option<u8>) -> (r: (u8, Vec<u8>))
    requires
        forced matches Some(n) ==> n <= 1,
    ensures
        r.0 == bidi_resolution(text@, forced).0,
        r.1@ == bidi_resolution(text@, forced).1,
        r.1@.len() == text@.len(),
        r.0 <= 1,
        forced matches Some(n) ==> r.0 == n,
{
    let info = ParagraphBidiInfo::new(text, forced.map(Level::from));
    let levels = info.reordered_levels_per_char(0..text.len());
    (info.paragraph_level.number(), levels.iter().map(|l| l.number()).collect())
}

/// The characters with the Unicode property White_Space.
pub open spec fn is_whitespace_spec(c: char) -> bool {
    let n = c as u32;
    ||| 0x09 <= n <= 0x0D
    ||| n == 0x20
    ||| n == 0x85
    ||| n == 0xA0
    ||| n == 0x1680
    ||| 0x2000 <= n <= 0x200A
    ||| n == 0x2028
    ||| n == 0x2029
    ||| n == 0x202F
    ||| n == 0x205F
    ||| n == 0x3000
}

pub fn is_whitespace(c: char) -> (r: bool)
    ensures
        r == is_whitespace_spec(c),
{
    let n: u32 = c as u32;
    (0x09 <= n && n <= 0x0D) || n == 0x20 || n == 0x85 || n == 0xA0 || n == 0x1680 || (0x2000 <= n
        && n <= 0x200A) || n == 0x2028 || n == 0x2029 || n == 0x202F || n == 0x205F || n == 0x3000
}

/// Piece boundaries grow with the number of pieces.
pub proof fn lemma_prefix_len_monotonic(parts: Seq<Seq<char>>, j: int, k: int)
    requires
        0 <= j <= k,
    ensures
        0 <= prefix_len(parts, j) <= prefix_len(parts, k),
    decreases k,
{
    if j < k {
        lemma_prefix_len_monotonic(parts, j, k - 1);
    } else {
        if k > 0 {
            lemma_prefix_len_monotonic(parts, 0, k - 1);
        }
    }
}

/// With non-empty pieces, later boundaries lie strictly further on.
pub proof fn lemma_prefix_len_strict(parts: Seq<Seq<char>>, j: int, k: int)
    requires
        0 <= j < k <= parts.len(),
        forall|i: int| 0 <= i < parts.len() ==> (#[trigger] parts[i]).len() > 0,
    ensures
        prefix_len(parts, j) < prefix_len(parts, k),
    decreases k,
{
    lemma_prefix_len_monotonic(parts, j, k - 1);
    assert(parts[k - 1].len() > 0);
}

/// The boundaries of a list of pieces, as character offsets: entry `k` is the
/// offset at which piece `k` starts, and the last entry is the total length.
pub fn piece_bounds(pieces: &Vec<String>) -> (r: Vec<usize>)
    requires
        prefix_len(texts(pieces@), pieces@.len() as int) <= usize::MAX,
    ensures
        r@.len() == pieces@.len() + 1,
        forall|k: int| 0 <= k <= pieces@.len() ==> r@[k] == prefix_len(texts(pieces@), k),
{
    let ghost parts = texts(pieces@);
    let mut bounds: Vec<usize> = Vec::new();
    let mut total: usize = 0;
    bounds.push(total);
    let mut k: usize = 0;
    while k < pieces.len()
        invariant
            parts == texts(pieces@),
            k <= pieces@.len(),
            prefix_len(parts, pieces@.len() as int) <= usize::MAX,
            total == prefix_len(parts, k as int),
            bounds@.len() == k + 1,
            forall|j: int| 0 <= j <= k ==> bounds@[j] == prefix_len(parts, j),
        decreases pieces@.len() - k,
    {
        let n: usize = pieces[k].as_str().unicode_len();
        proof {
            assert(parts[k as int] == pieces@[k as int]@);
            lemma_prefix_len_monotonic(parts, k + 1, pieces@.len() as int);
        }
        total = total + n;
        bounds.push(total);
        k = k + 1;
    }
    bounds
}

} // verus!
