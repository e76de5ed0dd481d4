//! Visual runs: the spans of one embedding level, in display order, and the
//! mapping between logical and visual positions that they define.

use vstd::prelude::*;

verus! {

/// The direction in which a span of text reads.
#[derive(Debug, Clone, Copy, PartialEq, Eq, Structural)]
pub enum Direction {
    LTR,
    RTL,
}

/// A maximal span `start..end` of logical positions that share one embedding
/// level. Even levels read left to right, odd levels right to left.
#[derive(Debug, Clone, Copy, PartialEq, Eq, Structural)]
pub struct VisualRun {
    pub start: usize,
    pub end: usize,
    pub level: u8,
    pub direction: Direction,
}

pub open spec fn direction_of(level: u8) -> Direction {
    if level % 2 == 0 {
        Direction::LTR
    } else {
        Direction::RTL
    }
}

pub fn level_direction(level: u8) -> (d: Direction)
    ensures
        d == direction_of(level),
{
    if level % 2 == 0 {
        Direction::LTR
    } else {
        Direction::RTL
    }
}

/// The runs of the first `n` positions in logical order: a position whose
/// level repeats the one before it grows the last run, any other starts a new
/// run.
pub open spec fn level_runs(levels: Seq<u8>, n: int) -> Seq<VisualRun>
    decreases n,
{
    if n <= 0 {
        Seq::empty()
    } else if n >= 2 && levels[n - 2] == levels[n - 1] {
        let before = level_runs(levels, n - 1);
        before.update(
            before.len() - 1,
            VisualRun { end: n as usize, ..before[before.len() - 1] },
        )
    } else {
        level_runs(levels, n - 1).push(
            VisualRun {
                start: (n - 1) as usize,
                end: n as usize,
                level: levels[n - 1],
                direction: direction_of(levels[n - 1]),
            },
        )
    }
}

/// The highest level among the first `n` positions, 0 if there is none.
pub open spec fn max_level(levels: Seq<u8>, n: int) -> int
    decreases n,
{
    if n <= 0 {
        0
    } else if levels[n - 1] > max_level(levels, n - 1) {
        levels[n - 1] as int
    } else {
        max_level(levels, n - 1)
    }
}

/// The lowest odd level among the first `n` positions, 256 if there is none.
pub open spec fn lowest_odd_level(levels: Seq<u8>, n: int) -> int
    decreases n,
{
    if n <= 0 {
        256
    } else if levels[n - 1] % 2 == 1 && levels[n - 1] < lowest_odd_level(levels, n - 1) {
        levels[n - 1] as int
    } else {
        lowest_odd_level(levels, n - 1)
    }
}

/// Where the span of runs at level `lvl` or higher that holds run `k` begins.
pub open spec fn span_lo(runs: Seq<VisualRun>, lvl: int, k: int) -> int
    decreases k,
{
    if k > 0 && runs[k - 1].level >= lvl {
        span_lo(runs, lvl, k - 1)
    } else {
        k
    }
}

/// Where the span of runs at level `lvl` or higher that holds run `k` ends
/// (one past its last run).
pub open spec fn span_hi(runs: Seq<VisualRun>, lvl: int, k: int) -> int
    decreases runs.len() - k,
{
    if k + 1 < runs.len() && runs[k + 1].level >= lvl {
        span_hi(runs, lvl, k + 1)
    } else {
        k + 1
    }
}

/// The place from which run `k` is taken when every span of runs at level
/// `lvl` or higher is reversed.
pub open spec fn mirror(runs: Seq<VisualRun>, lvl: int, k: int) -> int {
    if runs[k].level >= lvl {
        span_lo(runs, lvl, k) + span_hi(runs, lvl, k) - 1 - k
    } else {
        k
    }
}

/// The runs after every maximal span of runs at level `lvl` or higher has been
/// reversed.
pub open spec fn reverse_spans(runs: Seq<VisualRun>, lvl: int) -> Seq<VisualRun> {
    Seq::new(runs.len(), |k: int| runs[mirror(runs, lvl, k)])
}

/// The runs after the reversals for the levels `lvl`, `lvl - 1`, ... down to
/// `lowest`, in that order.
pub open spec fn reorder(runs: Seq<VisualRun>, lvl: int, lowest: int) -> Seq<VisualRun>
    decreases lvl,
{
    if lvl < lowest || lvl <= 0 {
        runs
    } else {
        reorder(reverse_spans(runs, lvl), lvl - 1, lowest)
    }
}

/// The runs of a line in display order: the runs in logical order, reordered
/// from the highest level present down to the lowest odd level present.
pub open spec fn display_runs(levels: Seq<u8>) -> Seq<VisualRun> {
    reorder(
        level_runs(levels, levels.len() as int),
        max_level(levels, levels.len() as int),
        lowest_odd_level(levels, levels.len() as int),
    )
}

/// The number of positions in the first `k` runs.
pub open spec fn width_before(runs: Seq<VisualRun>, k: int) -> int
    decreases k,
{
    if k <= 0 {
        0
    } else {
        width_before(runs, k - 1) + (runs[k - 1].end - runs[k - 1].start)
    }
}

/// Some run holds position `i`.
pub open spec fn covered(runs: Seq<VisualRun>, i: int) -> bool {
    exists|k: int| 0 <= k < runs.len() && (#[trigger] runs[k]).start <= i < runs[k].end
}

/// The runs tile the positions `0..n`: each run is a non-empty span below
/// `n`, no two runs share a position, every position lies in a run, and the
/// runs hold `n` positions in all.
pub open spec fn runs_tile(runs: Seq<VisualRun>, n: int) -> bool {
    &&& forall|k: int| 0 <= k < runs.len() ==> (#[trigger] runs[k]).start < runs[k].end <= n
    &&& forall|j: int, k: int|
        0 <= j < k < runs.len() ==> (#[trigger] runs[j]).end <= (#[trigger] runs[k]).start
            || runs[k].end <= runs[j].start
    &&& forall|i: int| 0 <= i < n ==> #[trigger] covered(runs, i)
    &&& width_before(runs, runs.len() as int) == n
}

proof fn lemma_level_runs(levels: Seq<u8>, n: int)
    requires
        0 <= n <= levels.len(),
        n <= usize::MAX,
    ensures
        runs_tile(level_runs(levels, n), n),
        n > 0 ==> level_runs(levels, n).len() > 0 && level_runs(levels, n).last().end == n
            && level_runs(levels, n).last().level == levels[n - 1],
        n == 0 ==> level_runs(levels, n).len() == 0,
        forall|j: int, k: int|
            0 <= j < k < level_runs(levels, n).len() ==> (#[trigger] level_runs(levels, n)[j]).end <= (
            #[trigger] level_runs(levels, n)[k]).start,
    decreases n,
{
    let runs = level_runs(levels, n);
    if n > 0 {
        lemma_level_runs(levels, n - 1);
        let before = level_runs(levels, n - 1);
        if n >= 2 && levels[n - 2] == levels[n - 1] {
            let last = before.len() - 1;
            assert(runs[last].end == n);
            assert forall|i: int| 0 <= i < n implies #[trigger] covered(runs, i) by {
                if i < n - 1 {
                    assert(covered(before, i));
                    let k = choose|k: int|
                        0 <= k < before.len() && (#[trigger] before[k]).start <= i < before[k].end;
                    assert(runs[k].start <= i < runs[k].end);
                } else {
                    assert(runs[last].start <= i < runs[last].end);
                }
            }
            lemma_width_update_last(before, runs);
        } else {
            assert forall|i: int| 0 <= i < n implies #[trigger] covered(runs, i) by {
                if i < n - 1 {
                    assert(covered(before, i));
                    let k = choose|k: int|
                        0 <= k < before.len() && (#[trigger] before[k]).start <= i < before[k].end;
                    assert(runs[k].start <= i < runs[k].end);
                } else {
                    assert(runs[before.len() as int].start <= i < runs[before.len() as int].end);
                }
            }
            lemma_width_same_prefix(before, runs, before.len() as int);
        }
    }
}

proof fn lemma_width_same_prefix(a: Seq<VisualRun>, b: Seq<VisualRun>, k: int)
    requires
        0 <= k <= a.len(),
        k <= b.len(),
        forall|j: int| 0 <= j < k ==> a[j] == b[j],
    ensures
        width_before(a, k) == width_before(b, k),
    decreases k,
{
    if k > 0 {
        lemma_width_same_prefix(a, b, k - 1);
    }
}

proof fn lemma_width_update_last(before: Seq<VisualRun>, after: Seq<VisualRun>)
    requires
        before.len() > 0,
        after.len() == before.len(),
        forall|j: int| 0 <= j < before.len() - 1 ==> before[j] == after[j],
        after[before.len() - 1].start == before[before.len() - 1].start,
        after[before.len() - 1].end == before[before.len() - 1].end + 1,
    ensures
        width_before(after, after.len() as int) == width_before(before, before.len() as int) + 1,
{
    lemma_width_same_prefix(before, after, before.len() - 1);
}

/// Run widths add up: later prefixes are wider.
pub proof fn lemma_width_monotonic(runs: Seq<VisualRun>, j: int, k: int)
    requires
        0 <= j <= k <= runs.len(),
        forall|i: int| 0 <= i < runs.len() ==> (#[trigger] runs[i]).start < runs[i].end,
    ensures
        0 <= width_before(runs, j) <= width_before(runs, k),
        j < k ==> width_before(runs, j) < width_before(runs, k),
    decreases k,
{
    if j < k {
        lemma_width_monotonic(runs, j, k - 1);
        assert(runs[k - 1].start < runs[k - 1].end);
    } else if k > 0 {
        lemma_width_monotonic(runs, 0, k - 1);
        assert(runs[k - 1].start < runs[k - 1].end);
    }
}

proof fn lemma_span_props(runs: Seq<VisualRun>, lvl: int, k: int)
    requires
        0 <= k < runs.len(),
        runs[k].level >= lvl,
    ensures
        0 <= span_lo(runs, lvl, k) <= k < span_hi(runs, lvl, k) <= runs.len(),
        forall|j: int|
            span_lo(runs, lvl, k) <= j < span_hi(runs, lvl, k) ==> (#[trigger] runs[j]).level >= lvl,
        span_lo(runs, lvl, k) == 0 || runs[span_lo(runs, lvl, k) - 1].level < lvl,
        span_hi(runs, lvl, k) == runs.len() || runs[span_hi(runs, lvl, k)].level < lvl,
{
    lemma_span_lo_props(runs, lvl, k);
    lemma_span_hi_props(runs, lvl, k);
}

proof fn lemma_span_lo_props(runs: Seq<VisualRun>, lvl: int, k: int)
    requires
        0 <= k < runs.len(),
        runs[k].level >= lvl,
    ensures
        0 <= span_lo(runs, lvl, k) <= k,
        forall|j: int| span_lo(runs, lvl, k) <= j <= k ==> (#[trigger] runs[j]).level >= lvl,
        span_lo(runs, lvl, k) == 0 || runs[span_lo(runs, lvl, k) - 1].level < lvl,
    decreases k,
{
    if k > 0 && runs[k - 1].level >= lvl {
        lemma_span_lo_props(runs, lvl, k - 1);
    }
}

proof fn lemma_span_hi_props(runs: Seq<VisualRun>, lvl: int, k: int)
    requires
        0 <= k < runs.len(),
        runs[k].level >= lvl,
    ensures
        k < span_hi(runs, lvl, k) <= runs.len(),
        forall|j: int| k <= j < span_hi(runs, lvl, k) ==> (#[trigger] runs[j]).level >= lvl,
        span_hi(runs, lvl, k) == runs.len() || runs[span_hi(runs, lvl, k)].level < lvl,
    decreases runs.len() - k,
{
    if k + 1 < runs.len() && runs[k + 1].level >= lvl {
        lemma_span_hi_props(runs, lvl, k + 1);
    }
}

proof fn lemma_span_bounds(runs: Seq<VisualRun>, lvl: int, a: int, h: int, k: int)
    requires
        0 <= a <= k < h <= runs.len(),
        forall|j: int| a <= j < h ==> (#[trigger] runs[j]).level >= lvl,
        a == 0 || runs[a - 1].level < lvl,
        h == runs.len() || runs[h].level < lvl,
    ensures
        span_lo(runs, lvl, k) == a,
        span_hi(runs, lvl, k) == h,
{
    lemma_span_lo_is(runs, lvl, a, k);
    lemma_span_hi_is(runs, lvl, h, k);
}

proof fn lemma_span_lo_is(runs: Seq<VisualRun>, lvl: int, a: int, k: int)
    requires
        0 <= a <= k < runs.len(),
        forall|j: int| a <= j <= k ==> (#[trigger] runs[j]).level >= lvl,
        a == 0 || runs[a - 1].level < lvl,
    ensures
        span_lo(runs, lvl, k) == a,
    decreases k - a,
{
    if k > a {
        assert(runs[k - 1].level >= lvl);
        lemma_span_lo_is(runs, lvl, a, k - 1);
    }
}

proof fn lemma_span_hi_is(runs: Seq<VisualRun>, lvl: int, h: int, k: int)
    requires
        0 <= k < h <= runs.len(),
        forall|j: int| k <= j < h ==> (#[trigger] runs[j]).level >= lvl,
        h == runs.len() || runs[h].level < lvl,
    ensures
        span_hi(runs, lvl, k) == h,
    decreases h - k,
{
    if k + 1 < h {
        assert(runs[k + 1].level >= lvl);
        lemma_span_hi_is(runs, lvl, h, k + 1);
    }
}

/// Reversing spans moves every run to a place inside its own span, and doing
/// it twice brings it back.
proof fn lemma_mirror(runs: Seq<VisualRun>, lvl: int, k: int)
    requires
        0 <= k < runs.len(),
    ensures
        0 <= mirror(runs, lvl, k) < runs.len(),
        mirror(runs, lvl, mirror(runs, lvl, k)) == k,
{
    if runs[k].level >= lvl {
        lemma_span_props(runs, lvl, k);
        let a = span_lo(runs, lvl, k);
        let h = span_hi(runs, lvl, k);
        let m = a + h - 1 - k;
        assert(runs[m].level >= lvl);
        lemma_span_bounds(runs, lvl, a, h, m);
    }
}

proof fn lemma_reversed_width(
    s: Seq<VisualRun>,
    t: Seq<VisualRun>,
    sa: int,
    ta: int,
    m: int,
)
    requires
        0 <= m,
        0 <= sa,
        sa + m <= s.len(),
        0 <= ta,
        ta + m <= t.len(),
        forall|i: int| ta <= i < ta + m ==> #[trigger] t[i] == s[sa + m - 1 - (i - ta)],
    ensures
        width_before(t, ta + m) - width_before(t, ta) == width_before(s, sa + m) - width_before(
            s,
            sa,
        ),
    decreases m,
{
    if m > 0 {
        assert forall|i: int| ta <= i < ta + (m - 1) implies #[trigger] t[i] == s[(sa + 1) + (m - 1)
            - 1 - (i - ta)] by {
            assert(t[i] == s[sa + m - 1 - (i - ta)]);
        }
        lemma_reversed_width(s, t, sa + 1, ta, m - 1);
        assert(t[ta + m - 1] == s[sa]);
        assert(width_before(s, sa + 1) == width_before(s, sa) + (s[sa].end - s[sa].start));
    }
}

proof fn lemma_reverse_spans_width(runs: Seq<VisualRun>, lvl: int, b: int)
    requires
        0 <= b <= runs.len(),
        b == 0 || b == runs.len() || runs[b - 1].level < lvl || runs[b].level < lvl,
    ensures
        width_before(reverse_spans(runs, lvl), b) == width_before(runs, b),
    decreases b,
{
    let out = reverse_spans(runs, lvl);
    if b > 0 {
        let k = b - 1;
        if runs[k].level < lvl {
            lemma_reverse_spans_width(runs, lvl, b - 1);
            assert(out[k] == runs[k]);
        } else {
            lemma_span_props(runs, lvl, k);
            let a = span_lo(runs, lvl, k);
            let h = span_hi(runs, lvl, k);
            assert(h == b) by {
                lemma_span_hi_is(runs, lvl, b, k);
            }
            lemma_reverse_spans_width(runs, lvl, a);
            assert forall|i: int| a <= i < a + (b - a) implies #[trigger] out[i] == runs[a + (b - a)
                - 1 - (i - a)] by {
                lemma_span_bounds(runs, lvl, a, b, i);
            }
            lemma_reversed_width(runs, out, a, a, b - a);
        }
    }
}

/// Reversing spans keeps a tiling a tiling.
pub proof fn lemma_reverse_spans_tile(runs: Seq<VisualRun>, lvl: int, n: int)
    requires
        runs_tile(runs, n),
    ensures
        runs_tile(reverse_spans(runs, lvl), n),
{
    let out = reverse_spans(runs, lvl);
    assert forall|k: int| 0 <= k < out.len() implies (#[trigger] out[k]).start < out[k].end <= n by {
        lemma_mirror(runs, lvl, k);
        assert(runs[mirror(runs, lvl, k)].start < runs[mirror(runs, lvl, k)].end);
    }
    assert forall|j: int, k: int| 0 <= j < k < out.len() implies (#[trigger] out[j]).end <= (
    #[trigger] out[k]).start || out[k].end <= out[j].start by {
        lemma_mirror(runs, lvl, j);
        lemma_mirror(runs, lvl, k);
        let mj = mirror(runs, lvl, j);
        let mk = mirror(runs, lvl, k);
        if mj < mk {
            assert(runs[mj].end <= runs[mk].start || runs[mk].end <= runs[mj].start);
        } else {
            assert(mj != mk);
            assert(runs[mk].end <= runs[mj].start || runs[mj].end <= runs[mk].start);
        }
    }
    assert forall|i: int| 0 <= i < n implies #[trigger] covered(out, i) by {
        assert(covered(runs, i));
        let k0 = choose|k: int| 0 <= k < runs.len() && (#[trigger] runs[k]).start <= i < runs[k].end;
        lemma_mirror(runs, lvl, k0);
        let k = mirror(runs, lvl, k0);
        assert(out[k] == runs[k0]);
        assert(out[k].start <= i < out[k].end);
    }
    lemma_reverse_spans_width(runs, lvl, runs.len() as int);
}

/// Reordering keeps a tiling a tiling.
pub proof fn lemma_reorder_tile(runs: Seq<VisualRun>, lvl: int, lowest: int, n: int)
    requires
        runs_tile(runs, n),
    ensures
        runs_tile(reorder(runs, lvl, lowest), n),
        reorder(runs, lvl, lowest).len() == runs.len(),
    decreases lvl,
{
    if lvl < lowest || lvl <= 0 {
    } else {
        lemma_reverse_spans_tile(runs, lvl, n);
        lemma_reorder_tile(reverse_spans(runs, lvl), lvl - 1, lowest, n);
    }
}

/// The runs of a line in display order tile the line.
pub proof fn lemma_display_runs_tile(levels: Seq<u8>)
    requires
        levels.len() <= usize::MAX,
    ensures
        runs_tile(display_runs(levels), levels.len() as int),
{
    lemma_level_runs(levels, levels.len() as int);
    lemma_reorder_tile(
        level_runs(levels, levels.len() as int),
        max_level(levels, levels.len() as int),
        lowest_odd_level(levels, levels.len() as int),
        levels.len() as int,
    );
}

/// The distance of position `i` from the visual start of run `r`.
pub open spec fn offset_in_run(r: VisualRun, i: int) -> int {
    if r.level % 2 == 0 {
        i - r.start
    } else {
        r.end - 1 - i
    }
}

/// The logical position at visual distance `o` from the start of run `r`.
pub open spec fn index_in_run(r: VisualRun, o: int) -> int {
    if r.level % 2 == 0 {
        r.start + o
    } else {
        r.end - 1 - o
    }
}

/// Run `k` is displayed over visual column `v`.
pub open spec fn placed(runs: Seq<VisualRun>, k: int, v: int) -> bool {
    0 <= k < runs.len() && width_before(runs, k) <= v < width_before(runs, k + 1)
}

/// The visual column of logical position `i`: the widths of the runs
/// displayed before the run that holds `i`, plus the distance of `i` from
/// that run's visual start. A position that no run holds maps to itself.
pub open spec fn visual_of(runs: Seq<VisualRun>, i: int) -> int {
    if covered(runs, i) {
        let k = choose|k: int| 0 <= k < runs.len() && (#[trigger] runs[k]).start <= i < runs[k].end;
        width_before(runs, k) + offset_in_run(runs[k], i)
    } else {
        i
    }
}

/// The logical position displayed at visual column `v`. A column beyond the
/// runs maps to itself.
pub open spec fn logical_of(runs: Seq<VisualRun>, v: int) -> int {
    if exists|k: int| placed(runs, k, v) {
        let k = choose|k: int| placed(runs, k, v);
        index_in_run(runs[k], v - width_before(runs, k))
    } else {
        v
    }
}

proof fn lemma_holder_unique(runs: Seq<VisualRun>, n: int, i: int, j: int, k: int)
    requires
        runs_tile(runs, n),
        0 <= j < runs.len(),
        0 <= k < runs.len(),
        runs[j].start <= i < runs[j].end,
        runs[k].start <= i < runs[k].end,
    ensures
        j == k,
{
    if j < k {
        assert(runs[j].end <= runs[k].start || runs[k].end <= runs[j].start);
    }
    if k < j {
        assert(runs[k].end <= runs[j].start || runs[j].end <= runs[k].start);
    }
}

proof fn lemma_place_unique(runs: Seq<VisualRun>, n: int, v: int, j: int, k: int)
    requires
        runs_tile(runs, n),
        placed(runs, j, v),
        placed(runs, k, v),
    ensures
        j == k,
{
    if j < k {
        lemma_width_monotonic(runs, j + 1, k);
    }
    if k < j {
        lemma_width_monotonic(runs, k + 1, j);
    }
}

proof fn lemma_place_exists(runs: Seq<VisualRun>, v: int, m: int)
    requires
        0 <= m <= runs.len(),
        0 <= v < width_before(runs, m),
    ensures
        exists|k: int| placed(runs, k, v),
    decreases m,
{
    if v >= width_before(runs, m - 1) {
        assert(placed(runs, m - 1, v));
    } else {
        lemma_place_exists(runs, v, m - 1);
    }
}

/// Taking a logical position to its visual column and back gives the
/// position again.
pub proof fn lemma_visual_then_logical(runs: Seq<VisualRun>, n: int, i: int)
    requires
        runs_tile(runs, n),
        0 <= i < n,
    ensures
        0 <= visual_of(runs, i) < n,
        logical_of(runs, visual_of(runs, i)) == i,
{
    assert(covered(runs, i));
    let k = choose|k: int| 0 <= k < runs.len() && (#[trigger] runs[k]).start <= i < runs[k].end;
    let v = visual_of(runs, i);
    lemma_width_monotonic(runs, 0, k);
    lemma_width_monotonic(runs, k + 1, runs.len() as int);
    assert(placed(runs, k, v));
    let k2 = choose|k2: int| placed(runs, k2, v);
    lemma_place_unique(runs, n, v, k, k2);
}

/// Taking a visual column to its logical position and back gives the column
/// again.
pub proof fn lemma_logical_then_visual(runs: Seq<VisualRun>, n: int, v: int)
    requires
        runs_tile(runs, n),
        0 <= v < n,
    ensures
        0 <= logical_of(runs, v) < n,
        visual_of(runs, logical_of(runs, v)) == v,
{
    lemma_place_exists(runs, v, runs.len() as int);
    let k = choose|k: int| placed(runs, k, v);
    let i = logical_of(runs, v);
    assert(runs[k].start < runs[k].end <= n);
    assert(runs[k].start <= i < runs[k].end);
    assert(covered(runs, i));
    let k2 = choose|k2: int| 0 <= k2 < runs.len() && (#[trigger] runs[k2]).start <= i < runs[k2].end;
    lemma_holder_unique(runs, n, i, k, k2);
}

/// The runs of `levels` in logical order.
pub fn logical_runs(levels: &Vec<u8>) -> (runs: Vec<VisualRun>)
    ensures
        runs@ == level_runs(levels@, levels@.len() as int),
{
    let mut runs: Vec<VisualRun> = Vec::new();
    let mut i: usize = 0;
    while i < levels.len()
        invariant
            i <= levels@.len(),
            runs@ == level_runs(levels@, i as int),
        decreases levels@.len() - i,
    {
        proof {
            lemma_level_runs(levels@, i as int);
        }
        let level: u8 = levels[i];
        if i >= 1 && levels[i - 1] == level {
            let last: usize = runs.len() - 1;
            let grown = VisualRun {
                start: runs[last].start,
                end: i + 1,
                level: runs[last].level,
                direction: runs[last].direction,
            };
            runs.set(last, grown);
        } else {
            runs.push(VisualRun { start: i, end: i + 1, level, direction: level_direction(level) });
        }
        i = i + 1;
    }
    runs
}

/// Reverses every maximal span of runs at level `lvl` or higher.
pub fn reverse_pass(runs: &Vec<VisualRun>, lvl: u8) -> (out: Vec<VisualRun>)
    ensures
        out@ == reverse_spans(runs@, lvl as int),
{
    let mut out: Vec<VisualRun> = Vec::new();
    let mut k: usize = 0;
    while k < runs.len()
        invariant
            k <= runs@.len(),
            out@.len() == k,
            k == 0 || k == runs@.len() || runs@[k - 1].level < lvl || runs@[k as int].level < lvl,
            forall|j: int| 0 <= j < k ==> #[trigger] out@[j] == runs@[mirror(runs@, lvl as int, j)],
        decreases runs@.len() - k,
    {
        if runs[k].level < lvl {
            out.push(runs[k]);
            k = k + 1;
        } else {
            let mut h: usize = k + 1;
            while h < runs.len() && runs[h].level >= lvl
                invariant
                    k < h <= runs@.len(),
                    forall|j: int| k <= j < h ==> (#[trigger] runs@[j]).level >= lvl,
                decreases runs@.len() - h,
            {
                h = h + 1;
            }
            let mut m: usize = h;
            while m > k
                invariant
                    k <= m <= h <= runs@.len(),
                    out@.len() == k + (h - m),
                    forall|j: int| k <= j < h ==> (#[trigger] runs@[j]).level >= lvl,
                    k == 0 || runs@[k - 1].level < lvl,
                    h == runs@.len() || runs@[h as int].level < lvl,
                    forall|j: int|
                        0 <= j < k + (h - m) ==> #[trigger] out@[j] == runs@[mirror(
                            runs@,
                            lvl as int,
                            j,
                        )],
                decreases m - k,
            {
                m = m - 1;
                proof {
                    lemma_span_bounds(runs@, lvl as int, k as int, h as int, k + (h - m) - 1);
                }
                out.push(runs[m]);
            }
            k = h;
        }
    }
    assert(out@ =~= reverse_spans(runs@, lvl as int));
    out
}

/// The runs of a line in display order.
pub fn layout_runs(levels: &Vec<u8>) -> (runs: Vec<VisualRun>)
    ensures
        runs@ == display_runs(levels@),
        runs_tile(runs@, levels@.len() as int),
{
    let mut highest: u8 = 0;
    let mut lowest_odd: u16 = 256;
    let mut i: usize = 0;
    while i < levels.len()
        invariant
            i <= levels@.len(),
            highest == max_level(levels@, i as int),
            lowest_odd == lowest_odd_level(levels@, i as int),
            1 <= lowest_odd <= 256,
        decreases levels@.len() - i,
    {
        let level: u8 = levels[i];
        if level > highest {
            highest = level;
        }
        if level % 2 == 1 && (level as u16) < lowest_odd {
            lowest_odd = level as u16;
        }
        i = i + 1;
    }
    let mut runs = logical_runs(levels);
    let mut lvl: u8 = highest;
    while lvl as u16 >= lowest_odd
        invariant
            1 <= lowest_odd <= 256,
            reorder(runs@, lvl as int, lowest_odd as int) == display_runs(levels@),
        decreases lvl,
    {
        runs = reverse_pass(&runs, lvl);
        lvl = lvl - 1;
    }
    proof {
        lemma_display_runs_tile(levels@);
    }
    runs
}

/// The visual column of logical position `i` on a line of `n` positions that
/// `runs` tile.
pub fn visual_column(runs: &Vec<VisualRun>, n: usize, i: usize) -> (v: usize)
    requires
        runs_tile(runs@, n as int),
        i < n,
    ensures
        v == visual_of(runs@, i as int),
        v < n,
{
    proof {
        lemma_visual_then_logical(runs@, n as int, i as int);
    }
    let mut acc: usize = 0;
    let mut k: usize = 0;
    while k < runs.len()
        invariant
            k <= runs@.len(),
            runs_tile(runs@, n as int),
            i < n,
            acc == width_before(runs@, k as int),
            forall|j: int| 0 <= j < k ==> !((#[trigger] runs@[j]).start <= i < runs@[j].end),
        decreases runs@.len() - k,
    {
        let r = runs[k];
        proof {
            lemma_width_monotonic(runs@, k + 1, runs@.len() as int);
            assert(runs@[k as int].start < runs@[k as int].end <= n);
        }
        if r.start <= i && i < r.end {
            proof {
                assert(covered(runs@, i as int));
                let k2 = choose|k2: int|
                    0 <= k2 < runs@.len() && (#[trigger] runs@[k2]).start <= i < runs@[k2].end;
                lemma_holder_unique(runs@, n as int, i as int, k as int, k2);
            }
            if r.level % 2 == 0 {
                return acc + (i - r.start);
            } else {
                return acc + (r.end - 1 - i);
            }
        }
        acc = acc + (r.end - r.start);
        k = k + 1;
    }
    proof {
        assert(covered(runs@, i as int));
        let k2 = choose|k2: int|
            0 <= k2 < runs@.len() && (#[trigger] runs@[k2]).start <= i < runs@[k2].end;
        assert(!(runs@[k2].start <= i < runs@[k2].end));
    }
    i
}

/// The logical position displayed at visual column `v` on a line of `n`
/// positions that `runs` tile.
pub fn logical_position(runs: &Vec<VisualRun>, n: usize, v: usize) -> (i: usize)
    requires
        runs_tile(runs@, n as int),
        v < n,
    ensures
        i == logical_of(runs@, v as int),
        i < n,
{
    proof {
        lemma_logical_then_visual(runs@, n as int, v as int);
        lemma_place_exists(runs@, v as int, runs@.len() as int);
    }
    let mut acc: usize = 0;
    let mut k: usize = 0;
    while k < runs.len()
        invariant
            k <= runs@.len(),
            runs_tile(runs@, n as int),
            v < n,
            acc == width_before(runs@, k as int),
            acc <= v,
        decreases runs@.len() - k,
    {
        let r = runs[k];
        proof {
            lemma_width_monotonic(runs@, k + 1, runs@.len() as int);
            assert(runs@[k as int].start < runs@[k as int].end <= n);
        }
        let width: usize = r.end - r.start;
        if v - acc < width {
            proof {
                assert(placed(runs@, k as int, v as int));
                let k2 = choose|k2: int| placed(runs@, k2, v as int);
                lemma_place_unique(runs@, n as int, v as int, k as int, k2);
            }
            if r.level % 2 == 0 {
                return r.start + (v - acc);
            } else {
                return r.end - 1 - (v - acc);
            }
        }
        acc = acc + width;
        k = k + 1;
    }
    v
}

} // verus!
