//! The line structure of a text: where line breaks end, how many lines there
//! are, and where each line starts.
//!
//! A line break is one of LF, VT, FF, CR, NEL, the line separator and the
//! paragraph separator; CR followed by LF is one break. A break belongs to the
//! line that it ends, and a text that ends in a break has an empty last line.

use vstd::prelude::*;

verus! {

/// The characters that break a line.
pub open spec fn is_break_char(c: char) -> bool {
    c == '\u{0A}' || c == '\u{0B}' || c == '\u{0C}' || c == '\u{0D}' || c == '\u{85}' || c
        == '\u{2028}' || c == '\u{2029}'
}

/// A line break ends at index `i`: the character there breaks the line, and it
/// is not the CR of a CR LF pair.
pub open spec fn ends_line(s: Seq<char>, i: int) -> bool {
    &&& 0 <= i < s.len()
    &&& is_break_char(s[i])
    &&& !(s[i] == '\u{0D}' && i + 1 < s.len() && s[i + 1] == '\u{0A}')
}

/// The number of line breaks that end before index `n`.
pub open spec fn breaks_before(s: Seq<char>, n: int) -> int
    decreases n,
{
    if n <= 0 {
        0
    } else {
        breaks_before(s, n - 1) + if ends_line(s, n - 1) {
            1int
        } else {
            0int
        }
    }
}

/// The number of lines of a text: one more than it has line breaks.
pub open spec fn line_count(s: Seq<char>) -> int {
    breaks_before(s, s.len() as int) + 1
}

/// The line on which the character at `idx` stands; the end of the text
/// stands on the last line.
pub open spec fn line_of(s: Seq<char>, idx: int) -> int {
    breaks_before(s, idx)
}

/// The first index from `n` on before which `k` line breaks end, or the end
/// of the text if there is none.
pub open spec fn line_start_from(s: Seq<char>, k: int, n: int) -> int
    decreases s.len() - n,
{
    if n >= s.len() {
        s.len() as int
    } else if breaks_before(s, n) >= k {
        n
    } else {
        line_start_from(s, k, n + 1)
    }
}

/// The index at which line `k` starts. One past the last line starts at the
/// end of the text.
pub open spec fn line_start(s: Seq<char>, k: int) -> int {
    line_start_from(s, k, 0)
}

/// The text of line `k`, with the line break that ends it.
pub open spec fn line_text(s: Seq<char>, k: int) -> Seq<char> {
    s.subrange(line_start(s, k), line_start(s, k + 1))
}

/// The text with `piece` put in at index `at`.
pub open spec fn with_inserted(s: Seq<char>, at: int, piece: Seq<char>) -> Seq<char> {
    s.subrange(0, at) + piece + s.subrange(at, s.len() as int)
}

/// The text without the characters from `from` up to `to`.
pub open spec fn with_removed(s: Seq<char>, from: int, to: int) -> Seq<char> {
    s.subrange(0, from) + s.subrange(to, s.len() as int)
}

/// Line breaks are counted one at a time.
pub proof fn lemma_breaks_monotonic(s: Seq<char>, m: int, n: int)
    requires
        0 <= m <= n,
    ensures
        0 <= breaks_before(s, m) <= breaks_before(s, n) <= breaks_before(s, m) + (n - m),
        breaks_before(s, m) <= m,
    decreases n,
{
    if m < n {
        lemma_breaks_monotonic(s, m, n - 1);
    } else if n > 0 {
        lemma_breaks_monotonic(s, 0, n - 1);
    }
}

proof fn lemma_line_start_from(s: Seq<char>, k: int, n: int)
    requires
        0 <= k,
        0 <= n <= s.len(),
        forall|m: int| 0 <= m < n ==> #[trigger] breaks_before(s, m) < k,
    ensures
        n <= line_start_from(s, k, n) <= s.len(),
        forall|m: int| 0 <= m < line_start_from(s, k, n) ==> #[trigger] breaks_before(s, m) < k,
        breaks_before(s, line_start_from(s, k, n)) <= k,
        breaks_before(s, line_start_from(s, k, n)) < k ==> line_start_from(s, k, n) == s.len(),
    decreases s.len() - n,
{
    if n > 0 {
        assert(breaks_before(s, n - 1) < k);
    }
    if n >= s.len() {
    } else if breaks_before(s, n) >= k {
    } else {
        lemma_line_start_from(s, k, n + 1);
    }
}

/// Where a line starts: within the text, after exactly `k` line breaks if the
/// text has that many, and not later than that.
pub proof fn lemma_line_start(s: Seq<char>, k: int)
    requires
        0 <= k,
    ensures
        0 <= line_start(s, k) <= s.len(),
        forall|m: int| 0 <= m < line_start(s, k) ==> #[trigger] breaks_before(s, m) < k,
        k < line_count(s) ==> breaks_before(s, line_start(s, k)) == k,
        k >= line_count(s) ==> line_start(s, k) == s.len(),
        k == 0 ==> line_start(s, k) == 0,
{
    lemma_line_start_from(s, k, 0);
    let r = line_start(s, k);
    lemma_breaks_monotonic(s, r, s.len() as int);
    if k >= line_count(s) {
        if r < s.len() {
            assert(breaks_before(s, r) == k);
        }
    }
}

/// Lines follow each other: a line starts where the line before it ends.
pub proof fn lemma_line_starts_ordered(s: Seq<char>, j: int, k: int)
    requires
        0 <= j <= k,
    ensures
        line_start(s, j) <= line_start(s, k),
        j < k && k < line_count(s) ==> line_start(s, j) < line_start(s, k),
{
    lemma_line_start(s, j);
    lemma_line_start(s, k);
    let a = line_start(s, j);
    let b = line_start(s, k);
    if b < a {
        assert(breaks_before(s, b) < j);
        lemma_breaks_monotonic(s, b, s.len() as int);
    }
    if j < k && k < line_count(s) && a == b {
        lemma_breaks_monotonic(s, 0, s.len() as int);
    }
}

/// An index stands on line `k` exactly if it lies between the start of line
/// `k` and the start of the next line; the end of the text stands on the last
/// line.
pub proof fn lemma_line_of(s: Seq<char>, idx: int)
    requires
        0 <= idx <= s.len(),
    ensures
        0 <= line_of(s, idx) < line_count(s),
        line_start(s, line_of(s, idx)) <= idx <= line_start(s, line_of(s, idx) + 1),
        line_of(s, idx) + 1 < line_count(s) ==> idx < line_start(s, line_of(s, idx) + 1),
{
    let k = line_of(s, idx);
    lemma_breaks_monotonic(s, 0, idx);
    lemma_breaks_monotonic(s, idx, s.len() as int);
    lemma_line_start(s, k);
    lemma_line_start(s, k + 1);
    if idx < line_start(s, k) {
        assert(breaks_before(s, idx) < k);
    }
    if line_start(s, k + 1) < idx {
        lemma_breaks_monotonic(s, line_start(s, k + 1), idx);
    }
    if k + 1 < line_count(s) && idx == line_start(s, k + 1) {
    }
}

/// Every index from the start of line `k` up to the start of the next line
/// stands on line `k`; on the last line, so does the end of the text.
pub proof fn lemma_line_of_between(s: Seq<char>, k: int, idx: int)
    requires
        0 <= k < line_count(s),
        line_start(s, k) <= idx,
        idx < line_start(s, k + 1) || (k + 1 == line_count(s) && idx <= s.len()),
    ensures
        line_of(s, idx) == k,
{
    lemma_line_start(s, k);
    lemma_line_start(s, k + 1);
    lemma_breaks_monotonic(s, line_start(s, k), idx);
    if idx < line_start(s, k + 1) {
        assert(breaks_before(s, idx) < k + 1);
    } else {
        lemma_breaks_monotonic(s, idx, s.len() as int);
    }
}

} // verus!
