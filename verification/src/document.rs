//! What edits, undo and redo do to a text, and the laws that hold of them.
//!
//! A document is a text with its undo history. Every edit carries the
//! character offset at which it was applied, so that undoing and redoing it
//! is exact whatever the edit did to lines and grapheme clusters.

use crate::operations::{
    bounded, evicted, history_wf, joins, lemma_evicted_is_suffix, mergeable, recorded, redone,
    text_of, undone, with_edit, HistoryView, OperationType, OperationView,
};
use vstd::prelude::*;

verus! {

/// The edit can be applied to `text`: the text that it deletes stands at its
/// offset.
pub open spec fn applies(text: Seq<char>, op: OperationView) -> bool {
    let deleted = text_of(op.deleted);
    &&& 0 <= op.offset
    &&& op.offset + deleted.len() <= text.len()
    &&& text.subrange(op.offset, op.offset + deleted.len()) == deleted
}

/// The text after the edit: at the edit's offset the deleted text has made
/// way for the inserted text.
pub open spec fn applied(text: Seq<char>, op: OperationView) -> Seq<char> {
    text.subrange(0, op.offset) + text_of(op.inserted) + text.subrange(
        op.offset + text_of(op.deleted).len(),
        text.len() as int,
    )
}

/// The edit can be taken back from `text`: the text that it inserted stands
/// at its offset.
pub open spec fn reverts(text: Seq<char>, op: OperationView) -> bool {
    let inserted = text_of(op.inserted);
    &&& 0 <= op.offset
    &&& op.offset + inserted.len() <= text.len()
    &&& text.subrange(op.offset, op.offset + inserted.len()) == inserted
}

/// The text after the edit was taken back.
pub open spec fn reverted(text: Seq<char>, op: OperationView) -> Seq<char> {
    text.subrange(0, op.offset) + text_of(op.deleted) + text.subrange(
        op.offset + text_of(op.inserted).len(),
        text.len() as int,
    )
}

/// The text after the first `n` edits of a group were applied in order, if
/// each of them can be.
pub open spec fn group_applied(text: Seq<char>, group: Seq<OperationView>, n: int) -> Option<
    Seq<char>,
>
    decreases n,
{
    if n <= 0 {
        Some(text)
    } else {
        match group_applied(text, group, n - 1) {
            Some(t) => if applies(t, group[n - 1]) {
                Some(applied(t, group[n - 1]))
            } else {
                None
            },
            None => None,
        }
    }
}

/// The text after the first `n` edits of a group were taken back, the last
/// of them first, if each of them can be.
pub open spec fn group_reverted(text: Seq<char>, group: Seq<OperationView>, n: int) -> Option<
    Seq<char>,
>
    decreases n,
{
    if n <= 0 {
        Some(text)
    } else if reverts(text, group[n - 1]) {
        group_reverted(reverted(text, group[n - 1]), group, n - 1)
    } else {
        None
    }
}

/// The first `n` groups of an undo stack can be taken back from `text`, the
/// newest first.
pub open spec fn undo_ok(text: Seq<char>, stack: Seq<Seq<OperationView>>, n: int) -> bool
    decreases n,
{
    if n <= 0 {
        true
    } else {
        match group_reverted(text, stack[n - 1], stack[n - 1].len() as int) {
            Some(t) => undo_ok(t, stack, n - 1),
            None => false,
        }
    }
}

/// The first `n` groups of a redo stack can be applied to `text` again, the
/// newest first.
pub open spec fn redo_ok(text: Seq<char>, stack: Seq<Seq<OperationView>>, n: int) -> bool
    decreases n,
{
    if n <= 0 {
        true
    } else {
        match group_applied(text, stack[n - 1], stack[n - 1].len() as int) {
            Some(t) => redo_ok(t, stack, n - 1),
            None => false,
        }
    }
}

/// A text with its history.
pub struct Document {
    pub text: Seq<char>,
    pub history: HistoryView,
}

/// The history fits the text: every step on the undo stack can be taken back
/// and every step on the redo stack can be applied again.
pub open spec fn document_wf(d: Document) -> bool {
    &&& history_wf(d.history)
    &&& undo_ok(d.text, d.history.undo, d.history.undo.len() as int)
    &&& redo_ok(d.text, d.history.redo, d.history.redo.len() as int)
}

/// The document after an edit.
pub open spec fn edited(d: Document, op: OperationView) -> Document {
    Document { text: applied(d.text, op), history: recorded(d.history, op) }
}

/// The document after an undo boundary.
pub open spec fn with_boundary(d: Document) -> Document {
    Document { text: d.text, history: bounded(d.history) }
}

/// The document after an undo step. With nothing to undo, it is unchanged.
pub open spec fn after_undo(d: Document) -> Document {
    if d.history.undo.len() == 0 {
        d
    } else {
        match group_reverted(d.text, d.history.undo.last(), d.history.undo.last().len() as int) {
            Some(t) => Document { text: t, history: undone(d.history) },
            None => d,
        }
    }
}

/// The document after a redo step. With nothing to redo, it is unchanged.
pub open spec fn after_redo(d: Document) -> Document {
    if d.history.redo.len() == 0 {
        d
    } else {
        match group_applied(d.text, d.history.redo.last(), d.history.redo.last().len() as int) {
            Some(t) => Document { text: t, history: redone(d.history) },
            None => d,
        }
    }
}

/// Taking back an edit that was applied gives the text from before.
pub proof fn lemma_revert_applied(text: Seq<char>, op: OperationView)
    requires
        applies(text, op),
    ensures
        reverts(applied(text, op), op),
        reverted(applied(text, op), op) == text,
{
    let after = applied(text, op);
    let ins = text_of(op.inserted);
    assert(after.subrange(op.offset, op.offset + ins.len()) =~= ins);
    assert(reverted(after, op) =~= text);
}

/// Applying an edit that was taken back gives the text from before.
pub proof fn lemma_apply_reverted(text: Seq<char>, op: OperationView)
    requires
        reverts(text, op),
    ensures
        applies(reverted(text, op), op),
        applied(reverted(text, op), op) == text,
{
    let before = reverted(text, op);
    let del = text_of(op.deleted);
    assert(before.subrange(op.offset, op.offset + del.len()) =~= del);
    assert(applied(before, op) =~= text);
}

proof fn lemma_group_applied_prefix(
    text: Seq<char>,
    a: Seq<OperationView>,
    b: Seq<OperationView>,
    n: int,
)
    requires
        0 <= n <= a.len(),
        n <= b.len(),
        forall|i: int| 0 <= i < n ==> a[i] == b[i],
    ensures
        group_applied(text, a, n) == group_applied(text, b, n),
    decreases n,
{
    if n > 0 {
        lemma_group_applied_prefix(text, a, b, n - 1);
    }
}

proof fn lemma_group_reverted_prefix(
    text: Seq<char>,
    a: Seq<OperationView>,
    b: Seq<OperationView>,
    n: int,
)
    requires
        0 <= n <= a.len(),
        n <= b.len(),
        forall|i: int| 0 <= i < n ==> a[i] == b[i],
    ensures
        group_reverted(text, a, n) == group_reverted(text, b, n),
    decreases n,
{
    if n > 0 && reverts(text, a[n - 1]) {
        lemma_group_reverted_prefix(reverted(text, a[n - 1]), a, b, n - 1);
    }
}

/// If a group can be applied, so can every beginning of it.
pub proof fn lemma_group_applied_steps(text: Seq<char>, group: Seq<OperationView>, i: int, n: int)
    requires
        0 <= i <= n,
        group_applied(text, group, n).is_some(),
    ensures
        group_applied(text, group, i).is_some(),
    decreases n - i,
{
    if i < n {
        lemma_group_applied_steps(text, group, i + 1, n);
    }
}

/// A group that was taken back can be applied again, and that gives the text
/// from before.
pub proof fn lemma_apply_group_reverted(text: Seq<char>, group: Seq<OperationView>, n: int)
    requires
        0 <= n <= group.len(),
        group_reverted(text, group, n).is_some(),
    ensures
        group_applied(group_reverted(text, group, n).unwrap(), group, n) == Some(text),
    decreases n,
{
    if n > 0 {
        let op = group[n - 1];
        let mid = reverted(text, op);
        lemma_apply_group_reverted(mid, group, n - 1);
        lemma_apply_reverted(text, op);
    }
}

/// A group that was applied can be taken back, and that gives the text from
/// before.
pub proof fn lemma_revert_group_applied(text: Seq<char>, group: Seq<OperationView>, n: int)
    requires
        0 <= n <= group.len(),
        group_applied(text, group, n).is_some(),
    ensures
        group_reverted(group_applied(text, group, n).unwrap(), group, n) == Some(text),
    decreases n,
{
    if n > 0 {
        let op = group[n - 1];
        let mid = group_applied(text, group, n - 1).unwrap();
        lemma_revert_group_applied(text, group, n - 1);
        lemma_revert_applied(mid, op);
    }
}

proof fn lemma_undo_ok_same(
    text: Seq<char>,
    a: Seq<Seq<OperationView>>,
    b: Seq<Seq<OperationView>>,
    k: int,
    n: int,
)
    requires
        0 <= n,
        0 <= k,
        n + k <= a.len(),
        n <= b.len(),
        forall|i: int| 0 <= i < n ==> a[i + k] == b[i],
    ensures
        undo_ok(text, a, n + k) ==> undo_ok(text, b, n),
        k == 0 ==> undo_ok(text, a, n) == undo_ok(text, b, n),
    decreases n,
{
    if n > 0 {
        assert(a[(n - 1) + k] == b[n - 1]);
        match group_reverted(text, b[n - 1], b[n - 1].len() as int) {
            Some(t) => {
                lemma_undo_ok_same(t, a, b, k, n - 1);
            },
            None => {},
        }
    }
}

proof fn lemma_redo_ok_same(
    text: Seq<char>,
    a: Seq<Seq<OperationView>>,
    b: Seq<Seq<OperationView>>,
    n: int,
)
    requires
        0 <= n <= a.len(),
        n <= b.len(),
        forall|i: int| 0 <= i < n ==> a[i] == b[i],
    ensures
        redo_ok(text, a, n) == redo_ok(text, b, n),
    decreases n,
{
    if n > 0 {
        match group_applied(text, a[n - 1], a[n - 1].len() as int) {
            Some(t) => {
                lemma_redo_ok_same(t, a, b, n - 1);
            },
            None => {},
        }
    }
}

/// What stands on the undo stack right after an edit was put on it can be
/// taken back from the text after the edit, and the first step back undoes
/// the edit.
proof fn lemma_with_edit_ok(d: Document, op: OperationView)
    requires
        document_wf(d),
        applies(d.text, op),
    ensures
        undo_ok(
            applied(d.text, op),
            with_edit(d.history, op),
            with_edit(d.history, op).len() as int,
        ),
        forall|i: int|
            0 <= i < with_edit(d.history, op).len() ==> (#[trigger] with_edit(d.history, op)[i]).len()
                > 0,
{
    let h = d.history;
    let stack = with_edit(h, op);
    let after = applied(d.text, op);
    lemma_revert_applied(d.text, op);
    if joins(h, op) {
        let top = h.undo.last();
        let grown = top.push(op);
        assert(stack[stack.len() - 1] == grown);
        lemma_group_reverted_prefix(d.text, grown, top, top.len() as int);
        assert(group_reverted(after, grown, grown.len() as int) == group_reverted(
            d.text,
            top,
            top.len() as int,
        ));
        match group_reverted(d.text, top, top.len() as int) {
            Some(t) => {
                lemma_undo_ok_same(t, h.undo, stack, 0, h.undo.len() - 1);
            },
            None => {},
        }
        assert forall|i: int| 0 <= i < stack.len() implies (#[trigger] stack[i]).len() > 0 by {
            if i < stack.len() - 1 {
                assert(stack[i] == h.undo[i]);
            }
        }
    } else {
        let single = seq![op];
        assert(stack[stack.len() - 1] == single);
        assert(group_reverted(after, single, 1) == Some(d.text)) by {
            assert(single[0] == op);
            assert(group_reverted(d.text, single, 0) == Some(d.text));
        }
        lemma_undo_ok_same(d.text, h.undo, stack, 0, h.undo.len() as int);
        assert forall|i: int| 0 <= i < stack.len() implies (#[trigger] stack[i]).len() > 0 by {
            if i < stack.len() - 1 {
                assert(stack[i] == h.undo[i]);
            }
        }
    }
}

/// An edit that applies leaves the history fitting the text.
pub proof fn lemma_edit_keeps_wf(d: Document, op: OperationView)
    requires
        document_wf(d),
        applies(d.text, op),
    ensures
        document_wf(edited(d, op)),
{
    let h = d.history;
    let stack = with_edit(h, op);
    let kept = evicted(stack, h.max_groups, h.max_bytes);
    lemma_with_edit_ok(d, op);
    lemma_evicted_is_suffix(stack, h.max_groups, h.max_bytes);
    let k = stack.len() - kept.len();
    lemma_undo_ok_same(applied(d.text, op), stack, kept, k, kept.len() as int);
    assert forall|i: int| 0 <= i < kept.len() implies (#[trigger] kept[i]).len() > 0 by {
        assert(kept[i] == stack[i + k]);
    }
}

/// An undo step leaves the history fitting the text.
pub proof fn lemma_undo_keeps_wf(d: Document)
    requires
        document_wf(d),
    ensures
        document_wf(after_undo(d)),
{
    let h = d.history;
    if h.undo.len() > 0 {
        let top = h.undo.last();
        let t = group_reverted(d.text, top, top.len() as int).unwrap();
        let after = after_undo(d);
        lemma_undo_ok_same(t, h.undo, after.history.undo, 0, h.undo.len() - 1);
        lemma_apply_group_reverted(d.text, top, top.len() as int);
        lemma_redo_ok_same(d.text, h.redo, after.history.redo, h.redo.len() as int);
        assert(after.history.redo[h.redo.len() as int] == top);
    }
}

/// A redo step leaves the history fitting the text.
pub proof fn lemma_redo_keeps_wf(d: Document)
    requires
        document_wf(d),
    ensures
        document_wf(after_redo(d)),
{
    let h = d.history;
    if h.redo.len() > 0 {
        let top = h.redo.last();
        let t = group_applied(d.text, top, top.len() as int).unwrap();
        let after = after_redo(d);
        lemma_redo_ok_same(t, h.redo, after.history.redo, h.redo.len() - 1);
        lemma_revert_group_applied(d.text, top, top.len() as int);
        lemma_undo_ok_same(d.text, h.undo, after.history.undo, 0, h.undo.len() as int);
        assert(after.history.undo[h.undo.len() as int] == top);
    }
}

/// Redo after undo restores the text, and the undo stack, from before the
/// undo. This holds whenever there is something to undo, and also right after
/// any edit, when there is nothing to redo.
pub proof fn lemma_redo_after_undo(d: Document)
    requires
        document_wf(d),
        d.history.undo.len() > 0 || d.history.redo.len() == 0,
    ensures
        after_redo(after_undo(d)).text == d.text,
        after_redo(after_undo(d)).history.undo == d.history.undo,
        after_redo(after_undo(d)).history.redo == d.history.redo,
{
    let h = d.history;
    if h.undo.len() > 0 {
        let top = h.undo.last();
        lemma_apply_group_reverted(d.text, top, top.len() as int);
        let u = after_undo(d);
        assert(u.history.redo.last() == top);
        assert(after_redo(u).history.undo =~= h.undo);
        assert(after_redo(u).history.redo =~= h.redo);
    }
}

/// Undo after redo restores the text, and both stacks, from before the redo,
/// whenever there is something to redo.
pub proof fn lemma_undo_after_redo(d: Document)
    requires
        document_wf(d),
        d.history.redo.len() > 0,
    ensures
        after_undo(after_redo(d)).text == d.text,
        after_undo(after_redo(d)).history.undo == d.history.undo,
        after_undo(after_redo(d)).history.redo == d.history.redo,
{
    let h = d.history;
    let top = h.redo.last();
    lemma_revert_group_applied(d.text, top, top.len() as int);
    let r = after_redo(d);
    assert(r.history.undo.last() == top);
    assert(after_undo(r).history.undo =~= h.undo);
    assert(after_undo(r).history.redo =~= h.redo);
}

/// Redo after undo restores the text after any single edit.
pub proof fn lemma_redo_after_undo_of_edit(d: Document, op: OperationView)
    requires
        document_wf(d),
        applies(d.text, op),
    ensures
        after_redo(after_undo(edited(d, op))).text == edited(d, op).text,
{
    lemma_edit_keeps_wf(d, op);
    lemma_redo_after_undo(edited(d, op));
}

/// What the limits leave of a stack that they do not empty ends with the
/// newest group of the stack.
proof fn lemma_evicted_keeps_newest(stack: Seq<Seq<OperationView>>, max_groups: usize, max_bytes: usize)
    requires
        evicted(stack, max_groups, max_bytes).len() > 0,
    ensures
        stack.len() > 0,
        evicted(stack, max_groups, max_bytes).last() == stack.last(),
        evicted(stack, max_groups, max_bytes).len() >= 2 ==> stack.len() >= 2 && evicted(
            stack,
            max_groups,
            max_bytes,
        )[evicted(stack, max_groups, max_bytes).len() - 2] == stack[stack.len() - 2],
{
    lemma_evicted_is_suffix(stack, max_groups, max_bytes);
}

/// The text after the newest undo group was taken back from `text`.
pub open spec fn without_newest(text: Seq<char>, stack: Seq<Seq<OperationView>>) -> Seq<char> {
    match group_reverted(text, stack.last(), stack.last().len() as int) {
        Some(t) => t,
        None => text,
    }
}

/// The text before the step in which `first` stands, seen from the document
/// `d` to which `first` is applied: `d`'s own text if `first` starts a step,
/// and the text before `d`'s newest step if `first` joins that step.
pub open spec fn step_start(d: Document, first: OperationView) -> Seq<char> {
    if joins(d.history, first) {
        without_newest(d.text, d.history.undo)
    } else {
        d.text
    }
}

proof fn lemma_revert_step_of(d: Document, first: OperationView)
    requires
        document_wf(d),
        applies(d.text, first),
    ensures
        with_edit(d.history, first).len() > 0,
        with_edit(d.history, first).last().len() > 0,
        with_edit(d.history, first).last().last() == first,
        group_reverted(
            applied(d.text, first),
            with_edit(d.history, first).last(),
            with_edit(d.history, first).last().len() as int,
        ) == Some(step_start(d, first)),
{
    let top1 = with_edit(d.history, first).last();
    lemma_revert_applied(d.text, first);
    if joins(d.history, first) {
        let top0 = d.history.undo.last();
        assert(top1 == top0.push(first));
        lemma_group_reverted_prefix(d.text, top1, top0, top0.len() as int);
    } else {
        assert(top1 == seq![first]);
        assert(group_reverted(d.text, top1, 0) == Some(d.text));
    }
}

/// Two insertions in a row, the second starting where the first ended, make
/// one undo step: a single undo takes both back, together with the rest of
/// the step if the first insertion joined one. This holds whenever the limits
/// of the history have not let the step go.
pub proof fn lemma_adjacent_inserts_undo_together(d: Document, first: OperationView, second: OperationView)
    requires
        document_wf(d),
        first.kind == OperationType::Insert,
        second.kind == OperationType::Insert,
        second.start == first.end,
        applies(d.text, first),
        applies(applied(d.text, first), second),
        edited(d, first).history.undo.len() > 0,
        edited(edited(d, first), second).history.undo.len() > 0,
    ensures
        mergeable(first, second),
        joins(edited(d, first).history, second),
        after_undo(edited(edited(d, first), second)).text == step_start(d, first),
{
    let h = d.history;
    let d1 = edited(d, first);
    let d2 = edited(d1, second);
    lemma_revert_step_of(d, first);
    lemma_evicted_keeps_newest(with_edit(h, first), h.max_groups, h.max_bytes);
    let top1 = d1.history.undo.last();
    assert(top1 == with_edit(h, first).last());
    assert(joins(d1.history, second));
    let s2 = with_edit(d1.history, second);
    assert(s2.last() == top1.push(second));
    lemma_evicted_keeps_newest(s2, h.max_groups, h.max_bytes);
    let top2 = d2.history.undo.last();
    assert(top2 == top1.push(second));
    lemma_revert_applied(d1.text, second);
    lemma_group_reverted_prefix(d1.text, top2, top1, top1.len() as int);
}

/// With an undo boundary between them, two insertions make two undo steps:
/// the first undo takes back only the second insertion, and the second undo
/// takes back the first one, together with the rest of its step if it joined
/// one. This holds whenever the limits of the history have let neither step
/// go.
pub proof fn lemma_boundary_separates_inserts(d: Document, first: OperationView, second: OperationView)
    requires
        document_wf(d),
        applies(d.text, first),
        applies(applied(d.text, first), second),
        edited(d, first).history.undo.len() > 0,
        edited(with_boundary(edited(d, first)), second).history.undo.len() >= 2,
    ensures
        !joins(with_boundary(edited(d, first)).history, second),
        after_undo(edited(with_boundary(edited(d, first)), second)).text == applied(d.text, first),
        after_undo(after_undo(edited(with_boundary(edited(d, first)), second))).text
            == step_start(d, first),
{
    let h = d.history;
    let d1 = edited(d, first);
    let b = with_boundary(d1);
    let d2 = edited(b, second);
    lemma_revert_step_of(d, first);
    lemma_evicted_keeps_newest(with_edit(h, first), h.max_groups, h.max_bytes);
    let top1 = d1.history.undo.last();
    assert(top1 == with_edit(h, first).last());
    assert(!joins(b.history, second));
    let s2 = with_edit(b.history, second);
    let single = seq![second];
    assert(s2 == d1.history.undo.push(single));
    lemma_evicted_keeps_newest(s2, h.max_groups, h.max_bytes);
    assert(d2.history.undo.last() == single);
    assert(d2.history.undo[d2.history.undo.len() - 2] == top1);
    lemma_revert_applied(d1.text, second);
    assert(group_reverted(d1.text, single, 0) == Some(d1.text));
    assert(single[0] == second);
    let u1 = after_undo(d2);
    assert(u1.text == d1.text);
    assert(u1.history.undo.last() == top1);
}

} // verus!
