//! Edit operations and the undo history that groups, merges and bounds them.
//!
//! Two operations merge when they are of the same kind and adjacent: an
//! insertion that starts where the one before ended, or a deletion that
//! touches the start of the one before, from either side. Line boundaries
//! play no part in that: a deletion that joins two lines merges like any
//! other. Replacements never merge.

use crate::position::Position;
use vstd::prelude::*;
use vstd::utf8::encode_utf8;

verus! {

/// The kind of an edit.
#[derive(Debug, Clone, Copy, PartialEq, Eq, Structural)]
pub enum OperationType {
    Insert,
    Delete,
    Replace,
}

/// One applied edit. `start` and `end` are the range that the edit replaced,
/// as positions before the edit, except for an insertion, whose `end` is
/// where the inserted text ends. `offset` is the character offset of `start`
/// in the text that the edit was applied to.
#[derive(Debug, PartialEq, Eq)]
pub struct EditOperation {
    pub op_type: OperationType,
    pub start: Position,
    pub end: Position,
    pub inserted_text: Option<String>,
    pub deleted_text: Option<String>,
    pub cursor_after: Position,
    pub offset: usize,
}

/// An edit as contracts see it.
pub struct OperationView {
    pub kind: OperationType,
    pub start: Position,
    pub end: Position,
    pub inserted: Option<Seq<char>>,
    pub deleted: Option<Seq<char>>,
    pub cursor_after: Position,
    pub offset: int,
}

/// The characters of an optional text; none if there is no text.
pub open spec fn text_of(t: Option<Seq<char>>) -> Seq<char> {
    match t {
        Some(s) => s,
        None => Seq::empty(),
    }
}

/// The view of an optional string.
pub open spec fn option_view(t: Option<String>) -> Option<Seq<char>> {
    match t {
        Some(s) => Some(s@),
        None => None,
    }
}

/// Whether `b`, applied right after `a`, continues `a`.
pub open spec fn mergeable(a: OperationView, b: OperationView) -> bool {
    a.kind == b.kind && match a.kind {
        OperationType::Insert => a.end == b.start,
        OperationType::Delete => b.start == a.start || b.end == a.start,
        OperationType::Replace => false,
    }
}

/// The size of an edit: the bytes of the text it inserted and of the text it
/// deleted.
pub open spec fn op_size(op: OperationView) -> int {
    (encode_utf8(text_of(op.inserted)).len() + encode_utf8(text_of(op.deleted)).len()) as int
}

/// The size of the first `n` edits of a group.
pub open spec fn group_size(group: Seq<OperationView>, n: int) -> int
    decreases n,
{
    if n <= 0 {
        0
    } else {
        group_size(group, n - 1) + op_size(group[n - 1])
    }
}

/// The size of the first `n` groups of a stack.
pub open spec fn stack_size(stack: Seq<Seq<OperationView>>, n: int) -> int
    decreases n,
{
    if n <= 0 {
        0
    } else {
        stack_size(stack, n - 1) + group_size(stack[n - 1], stack[n - 1].len() as int)
    }
}

/// A size as a machine word holds it: sizes beyond the largest word count as
/// the largest word.
pub open spec fn capped(size: int) -> int {
    if size > usize::MAX {
        usize::MAX as int
    } else {
        size
    }
}

impl View for EditOperation {
    type V = OperationView;

    open spec fn view(&self) -> OperationView {
        OperationView {
            kind: self.op_type,
            start: self.start,
            end: self.end,
            inserted: option_view(self.inserted_text),
            deleted: option_view(self.deleted_text),
            cursor_after: self.cursor_after,
            offset: self.offset as int,
        }
    }
}

fn clone_text(t: &Option<String>) -> (r: Option<String>)
    ensures
        r == *t,
{
    match t {
        Some(s) => Some(s.clone()),
        None => None,
    }
}

fn text_bytes(t: &Option<String>) -> (n: usize)
    ensures
        n == encode_utf8(text_of(option_view(*t))).len(),
{
    match t {
        Some(s) => s.as_str().as_bytes().len(),
        None => {
            assert(encode_utf8(Seq::<char>::empty()).len() == 0);
            0
        },
    }
}

impl Clone for EditOperation {
    fn clone(&self) -> (r: EditOperation)
        ensures
            r == *self,
    {
        EditOperation {
            op_type: self.op_type,
            start: self.start,
            end: self.end,
            inserted_text: clone_text(&self.inserted_text),
            deleted_text: clone_text(&self.deleted_text),
            cursor_after: self.cursor_after,
            offset: self.offset,
        }
    }
}

impl EditOperation {
    /// An insertion of `text` at `start`, after which the caret stands at
    /// `cursor_after`, where the inserted text ends.
    pub fn insert(start: Position, text: String, cursor_after: Position) -> (op: EditOperation)
        ensures
            op == (EditOperation {
                op_type: OperationType::Insert,
                start,
                end: cursor_after,
                inserted_text: Some(text),
                deleted_text: None,
                cursor_after,
                offset: 0,
            }),
    {
        EditOperation {
            op_type: OperationType::Insert,
            start,
            end: cursor_after,
            inserted_text: Some(text),
            deleted_text: None,
            cursor_after,
            offset: 0,
        }
    }

    /// A deletion of `text`, which stood from `start` to `end`.
    pub fn delete(start: Position, end: Position, text: String, cursor_after: Position) -> (op:
        EditOperation)
        ensures
            op == (EditOperation {
                op_type: OperationType::Delete,
                start,
                end,
                inserted_text: None,
                deleted_text: Some(text),
                cursor_after,
                offset: 0,
            }),
    {
        EditOperation {
            op_type: OperationType::Delete,
            start,
            end,
            inserted_text: None,
            deleted_text: Some(text),
            cursor_after,
            offset: 0,
        }
    }

    /// A replacement of `deleted`, which stood from `start` to `end`, by
    /// `inserted`.
    pub fn replace(
        start: Position,
        end: Position,
        deleted: String,
        inserted: String,
        cursor_after: Position,
    ) -> (op: EditOperation)
        ensures
            op == (EditOperation {
                op_type: OperationType::Replace,
                start,
                end,
                inserted_text: Some(inserted),
                deleted_text: Some(deleted),
                cursor_after,
                offset: 0,
            }),
    {
        EditOperation {
            op_type: OperationType::Replace,
            start,
            end,
            inserted_text: Some(inserted),
            deleted_text: Some(deleted),
            cursor_after,
            offset: 0,
        }
    }

    /// The same edit, applied at character offset `offset`.
    pub fn at_offset(self, offset: usize) -> (op: EditOperation)
        ensures
            op == (EditOperation { offset, ..self }),
    {
        let mut op = self;
        op.offset = offset;
        op
    }

    /// Whether `next`, applied right after `self`, continues it, so that both
    /// belong to one undo step.
    pub fn can_merge_with(&self, next: &EditOperation) -> (r: bool)
        ensures
            r == mergeable(self@, next@),
    {
        match self.op_type {
            OperationType::Insert => next.op_type == OperationType::Insert && self.end
                == next.start,
            OperationType::Delete => next.op_type == OperationType::Delete && (next.start
                == self.start || next.end == self.start),
            OperationType::Replace => false,
        }
    }

    /// The bytes of the text that the edit inserted and deleted, counted up
    /// to the largest machine word.
    pub fn size(&self) -> (n: usize)
        ensures
            n == capped(op_size(self@)),
    {
        text_bytes(&self.inserted_text).saturating_add(text_bytes(&self.deleted_text))
    }
}

/// The edits of one undo step, in the order they were applied.
#[derive(Debug)]
pub struct UndoGroup {
    pub operations: Vec<EditOperation>,
}

impl View for UndoGroup {
    type V = Seq<OperationView>;

    open spec fn view(&self) -> Seq<OperationView> {
        Seq::new(self.operations@.len(), |i: int| self.operations@[i]@)
    }
}

impl Clone for UndoGroup {
    fn clone(&self) -> (r: UndoGroup)
        ensures
            r@ == self@,
    {
        let mut operations: Vec<EditOperation> = Vec::new();
        let mut i: usize = 0;
        while i < self.operations.len()
            invariant
                i <= self.operations@.len(),
                operations@.len() == i,
                forall|j: int| 0 <= j < i ==> operations@[j] == self.operations@[j],
            decreases self.operations@.len() - i,
        {
            operations.push(self.operations[i].clone());
            i = i + 1;
        }
        let r = UndoGroup { operations };
        assert(r@ =~= self@);
        r
    }
}

impl UndoGroup {
    /// The bytes of text that the group holds, counted up to the largest
    /// machine word.
    pub fn size(&self) -> (n: usize)
        ensures
            n == capped(group_size(self@, self@.len() as int)),
    {
        let mut total: usize = 0;
        let mut i: usize = 0;
        while i < self.operations.len()
            invariant
                i <= self.operations@.len(),
                self@.len() == self.operations@.len(),
                total == capped(group_size(self@, i as int)),
                group_size(self@, i as int) >= 0,
            decreases self.operations@.len() - i,
        {
            total = total.saturating_add(self.operations[i].size());
            i = i + 1;
        }
        total
    }
}

/// The groups that a list of undo groups stands for.
pub open spec fn groups_view(stack: Seq<UndoGroup>) -> Seq<Seq<OperationView>> {
    Seq::new(stack.len(), |i: int| stack[i]@)
}

/// An undo history as contracts see it: the undo stack and the redo stack,
/// each with its newest group last; whether the newest undo group is still
/// open for merging; and the limits.
pub struct HistoryView {
    pub undo: Seq<Seq<OperationView>>,
    pub redo: Seq<Seq<OperationView>>,
    pub open: bool,
    pub max_groups: usize,
    pub max_bytes: usize,
}

/// The stack holds more groups or more bytes than the limits allow. Bytes are
/// counted up to the largest machine word.
pub open spec fn over_limit(stack: Seq<Seq<OperationView>>, max_groups: usize, max_bytes: usize) -> bool {
    stack.len() > max_groups || capped(stack_size(stack, stack.len() as int)) > max_bytes
}

/// The stack after its oldest groups have left until it fits the limits.
pub open spec fn evicted(stack: Seq<Seq<OperationView>>, max_groups: usize, max_bytes: usize) -> Seq<
    Seq<OperationView>,
>
    decreases stack.len(),
{
    if stack.len() > 0 && over_limit(stack, max_groups, max_bytes) {
        evicted(stack.drop_first(), max_groups, max_bytes)
    } else {
        stack
    }
}

/// Whether a new edit joins the newest undo group.
pub open spec fn joins(h: HistoryView, op: OperationView) -> bool {
    h.open && h.undo.len() > 0 && h.undo.last().len() > 0 && mergeable(h.undo.last().last(), op)
}

/// The undo stack with a new edit on it, before the limits are applied.
pub open spec fn with_edit(h: HistoryView, op: OperationView) -> Seq<Seq<OperationView>> {
    if joins(h, op) {
        h.undo.update(h.undo.len() - 1, h.undo.last().push(op))
    } else {
        h.undo.push(seq![op])
    }
}

/// The history after a new edit was recorded.
pub open spec fn recorded(h: HistoryView, op: OperationView) -> HistoryView {
    HistoryView {
        undo: evicted(with_edit(h, op), h.max_groups, h.max_bytes),
        redo: Seq::empty(),
        open: true,
        ..h
    }
}

/// The history after an undo step.
pub open spec fn undone(h: HistoryView) -> HistoryView {
    if h.undo.len() == 0 {
        h
    } else {
        HistoryView { undo: h.undo.drop_last(), redo: h.redo.push(h.undo.last()), open: false, ..h }
    }
}

/// The history after a redo step.
pub open spec fn redone(h: HistoryView) -> HistoryView {
    if h.redo.len() == 0 {
        h
    } else {
        HistoryView { undo: h.undo.push(h.redo.last()), redo: h.redo.drop_last(), open: false, ..h }
    }
}

/// The history after an undo boundary.
pub open spec fn bounded(h: HistoryView) -> HistoryView {
    HistoryView { open: false, ..h }
}

/// No group of the history is empty.
pub open spec fn history_wf(h: HistoryView) -> bool {
    &&& forall|i: int| 0 <= i < h.undo.len() ==> (#[trigger] h.undo[i]).len() > 0
    &&& forall|i: int| 0 <= i < h.redo.len() ==> (#[trigger] h.redo[i]).len() > 0
}

proof fn lemma_group_size_nonnegative(group: Seq<OperationView>, n: int)
    ensures
        group_size(group, n) >= 0,
    decreases n,
{
    if n > 0 {
        lemma_group_size_nonnegative(group, n - 1);
    }
}

proof fn lemma_stack_size_nonnegative(stack: Seq<Seq<OperationView>>, n: int)
    ensures
        stack_size(stack, n) >= 0,
    decreases n,
{
    if n > 0 {
        lemma_stack_size_nonnegative(stack, n - 1);
        lemma_group_size_nonnegative(stack[n - 1], stack[n - 1].len() as int);
    }
}

/// What the eviction leaves is the newest part of the stack, with every
/// group as it was.
pub proof fn lemma_evicted_is_suffix(stack: Seq<Seq<OperationView>>, max_groups: usize, max_bytes: usize)
    ensures
        evicted(stack, max_groups, max_bytes).len() <= stack.len(),
        evicted(stack, max_groups, max_bytes) == stack.skip(
            stack.len() - evicted(stack, max_groups, max_bytes).len(),
        ),
        evicted(stack, max_groups, max_bytes).len() == 0 || !over_limit(
            evicted(stack, max_groups, max_bytes),
            max_groups,
            max_bytes,
        ),
    decreases stack.len(),
{
    if stack.len() > 0 && over_limit(stack, max_groups, max_bytes) {
        lemma_evicted_is_suffix(stack.drop_first(), max_groups, max_bytes);
        let rest = evicted(stack.drop_first(), max_groups, max_bytes);
        assert(stack.drop_first().skip(stack.drop_first().len() - rest.len()) =~= stack.skip(
            stack.len() - rest.len(),
        ));
    } else {
        assert(stack.skip(0) =~= stack);
    }
}

/// The undo and redo stacks with their bookkeeping.
pub struct UndoHistory {
    undo_stack: Vec<UndoGroup>,
    redo_stack: Vec<UndoGroup>,
    pending: bool,
    max_groups: usize,
    max_bytes: usize,
}

impl View for UndoHistory {
    type V = HistoryView;

    closed spec fn view(&self) -> HistoryView {
        HistoryView {
            undo: groups_view(self.undo_stack@),
            redo: groups_view(self.redo_stack@),
            open: self.pending,
            max_groups: self.max_groups,
            max_bytes: self.max_bytes,
        }
    }
}

/// The bytes of text that a stack holds, counted up to the largest machine
/// word.
fn stack_bytes(stack: &Vec<UndoGroup>) -> (n: usize)
    ensures
        n == capped(stack_size(groups_view(stack@), stack@.len() as int)),
{
    let ghost groups = groups_view(stack@);
    let mut total: usize = 0;
    let mut i: usize = 0;
    while i < stack.len()
        invariant
            i <= stack@.len(),
            groups == groups_view(stack@),
            total == capped(stack_size(groups, i as int)),
            stack_size(groups, i as int) >= 0,
        decreases stack@.len() - i,
    {
        proof {
            lemma_group_size_nonnegative(groups[i as int], groups[i as int].len() as int);
        }
        total = total.saturating_add(stack[i].size());
        i = i + 1;
    }
    total
}

impl UndoHistory {
    /// A history is well formed when none of its groups is empty.
    pub open spec fn wf(&self) -> bool {
        history_wf(self@)
    }

    /// A history without limits that matter: it keeps as many groups and
    /// bytes as a machine word can count.
    pub fn new() -> (h: UndoHistory)
        ensures
            h.wf(),
            h@ == (HistoryView {
                undo: Seq::empty(),
                redo: Seq::empty(),
                open: false,
                max_groups: usize::MAX,
                max_bytes: usize::MAX,
            }),
    {
        UndoHistory::with_limits(usize::MAX, usize::MAX)
    }

    /// A history that keeps at most `max_groups` undo groups and at most
    /// `max_bytes` bytes of text in them.
    pub fn with_limits(max_groups: usize, max_bytes: usize) -> (h: UndoHistory)
        ensures
            h.wf(),
            h@ == (HistoryView {
                undo: Seq::empty(),
                redo: Seq::empty(),
                open: false,
                max_groups,
                max_bytes,
            }),
    {
        let h = UndoHistory {
            undo_stack: Vec::new(),
            redo_stack: Vec::new(),
            pending: false,
            max_groups,
            max_bytes,
        };
        assert(h@.undo =~= Seq::empty());
        assert(h@.redo =~= Seq::empty());
        h
    }

    /// Records an applied edit. The edit joins the newest undo group if that
    /// group is open and its last edit merges with this one; else it starts a
    /// group. The redo stack is emptied, and the oldest undo groups leave
    /// until the limits are met.
    pub fn record_operation(&mut self, op: EditOperation)
        requires
            old(self).wf(),
        ensures
            final(self).wf(),
            final(self)@ == recorded(old(self)@, op@),
    {
        let count: usize = self.undo_stack.len();
        let mut merge: bool = false;
        if self.pending && count > 0 {
            let group = &self.undo_stack[count - 1];
            let len: usize = group.operations.len();
            if len > 0 && group.operations[len - 1].can_merge_with(&op) {
                merge = true;
            }
        }
        assert(merge == joins(old(self)@, op@));
        if merge {
            let mut group = self.undo_stack.pop().unwrap();
            group.operations.push(op);
            self.undo_stack.push(group);
        } else {
            let mut operations: Vec<EditOperation> = Vec::new();
            operations.push(op);
            self.undo_stack.push(UndoGroup { operations });
        }
        assert(groups_view(self.undo_stack@) =~= with_edit(old(self)@, op@)) by {
            if merge {
                assert(self.undo_stack@[count - 1]@ =~= old(self)@.undo.last().push(op@));
            } else {
                assert(self.undo_stack@[count as int]@ =~= seq![op@]);
            }
        }
        self.redo_stack.clear();
        self.pending = true;
        self.enforce_limits();
        assert(self@.redo =~= Seq::empty());
        proof {
            lemma_evicted_is_suffix(with_edit(old(self)@, op@), self.max_groups, self.max_bytes);
        }
    }

    /// Lets the oldest undo groups go until the limits are met.
    fn enforce_limits(&mut self)
        ensures
            final(self).redo_stack == old(self).redo_stack,
            final(self).pending == old(self).pending,
            final(self).max_groups == old(self).max_groups,
            final(self).max_bytes == old(self).max_bytes,
            groups_view(final(self).undo_stack@) == evicted(
                groups_view(old(self).undo_stack@),
                old(self).max_groups,
                old(self).max_bytes,
            ),
    {
        let ghost before = groups_view(self.undo_stack@);
        loop
            invariant
                self.redo_stack == old(self).redo_stack,
                self.pending == old(self).pending,
                self.max_groups == old(self).max_groups,
                self.max_bytes == old(self).max_bytes,
                evicted(groups_view(self.undo_stack@), self.max_groups, self.max_bytes) == evicted(
                    before,
                    self.max_groups,
                    self.max_bytes,
                ),
            ensures
                groups_view(self.undo_stack@) == evicted(before, self.max_groups, self.max_bytes),
                self.redo_stack == old(self).redo_stack,
                self.pending == old(self).pending,
                self.max_groups == old(self).max_groups,
                self.max_bytes == old(self).max_bytes,
            decreases self.undo_stack@.len(),
        {
            let count: usize = self.undo_stack.len();
            let ghost current = groups_view(self.undo_stack@);
            if count == 0 {
                assert(evicted(current, self.max_groups, self.max_bytes) == current);
                break;
            }
            let bytes: usize = stack_bytes(&self.undo_stack);
            proof {
                lemma_stack_size_nonnegative(
                    groups_view(self.undo_stack@),
                    self.undo_stack@.len() as int,
                );
            }
            if !(count > self.max_groups || bytes > self.max_bytes) {
                assert(!over_limit(current, self.max_groups, self.max_bytes));
                assert(evicted(current, self.max_groups, self.max_bytes) == current);
                break;
            }
            assert(over_limit(current, self.max_groups, self.max_bytes));
            self.undo_stack.remove(0);
            assert(groups_view(self.undo_stack@) =~= current.drop_first());
        }
    }

    pub fn can_undo(&self) -> (r: bool)
        ensures
            r == (self@.undo.len() > 0),
    {
        self.undo_stack.len() > 0
    }

    pub fn can_redo(&self) -> (r: bool)
        ensures
            r == (self@.redo.len() > 0),
    {
        self.redo_stack.len() > 0
    }

    /// Takes the newest undo group, puts it on the redo stack and hands it
    /// out. With nothing to undo, nothing changes.
    pub fn undo(&mut self) -> (r: Option<UndoGroup>)
        requires
            old(self).wf(),
        ensures
            final(self).wf(),
            final(self)@ == undone(old(self)@),
            match r {
                Some(group) => old(self)@.undo.len() > 0 && group@ == old(self)@.undo.last(),
                None => old(self)@.undo.len() == 0,
            },
    {
        match self.undo_stack.pop() {
            None => None,
            Some(group) => {
                let copy = group.clone();
                self.redo_stack.push(group);
                self.pending = false;
                assert(self@.undo =~= old(self)@.undo.drop_last());
                assert(self@.redo =~= old(self)@.redo.push(old(self)@.undo.last()));
                Some(copy)
            },
        }
    }

    /// Takes the newest redo group, puts it back on the undo stack and hands
    /// it out. With nothing to redo, nothing changes.
    pub fn redo(&mut self) -> (r: Option<UndoGroup>)
        requires
            old(self).wf(),
        ensures
            final(self).wf(),
            final(self)@ == redone(old(self)@),
            match r {
                Some(group) => old(self)@.redo.len() > 0 && group@ == old(self)@.redo.last(),
                None => old(self)@.redo.len() == 0,
            },
    {
        match self.redo_stack.pop() {
            None => None,
            Some(group) => {
                let copy = group.clone();
                self.undo_stack.push(group);
                self.pending = false;
                assert(self@.redo =~= old(self)@.redo.drop_last());
                assert(self@.undo =~= old(self)@.undo.push(old(self)@.redo.last()));
                Some(copy)
            },
        }
    }

    /// Closes the newest undo group: the next edit starts a group of its own.
    pub fn create_boundary(&mut self)
        ensures
            final(self)@ == bounded(old(self)@),
    {
        self.pending = false;
    }

    /// Forgets all history. The limits stay.
    pub fn clear(&mut self)
        ensures
            final(self).wf(),
            final(self)@ == (HistoryView {
                undo: Seq::empty(),
                redo: Seq::empty(),
                open: false,
                ..old(self)@
            }),
    {
        self.undo_stack.clear();
        self.redo_stack.clear();
        self.pending = false;
        assert(self@.undo =~= Seq::empty());
        assert(self@.redo =~= Seq::empty());
    }
}

} // verus!
