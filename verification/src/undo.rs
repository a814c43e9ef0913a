//! The undo history.

use vstd::prelude::*;
use crate::state::{
    history_ok, snapshots, stack_mem, Editor, EditorView, Snapshot, SnapshotView, UNDO_MAX, UNDO_MEM_CAP,
};
use crate::text::{copy_lines, mem_of, rows, text_mem};

verus! {

/// What is kept of a history: the oldest snapshots go until the rest is within
/// the limits. The newest stays in any case.
pub open spec fn kept(stack: Seq<SnapshotView>) -> Seq<SnapshotView>
    decreases stack.len(),
{
    if stack.len() > 1 && (stack_mem(stack) > UNDO_MEM_CAP || stack.len() > UNDO_MAX) {
        kept(stack.drop_first())
    } else {
        stack
    }
}

/// The memory of a history without its oldest snapshot.
pub proof fn lemma_stack_mem_drop_first(stack: Seq<SnapshotView>)
    requires
        stack.len() > 0,
    ensures
        stack_mem(stack) == text_mem(stack[0].lines) + stack_mem(stack.drop_first()),
    decreases stack.len(),
{
    if stack.len() == 1 {
        assert(stack.drop_last() =~= Seq::<SnapshotView>::empty());
        assert(stack.drop_first() =~= Seq::<SnapshotView>::empty());
    } else {
        lemma_stack_mem_drop_first(stack.drop_last());
        assert(stack.drop_last().drop_first() =~= stack.drop_first().drop_last());
        assert(stack.drop_first().last() == stack.last());
    }
}

/// What is kept of a history is its newest part, and never empty.
pub proof fn lemma_kept(stack: Seq<SnapshotView>)
    ensures
        kept(stack).len() <= stack.len(),
        kept(stack) == stack.skip(stack.len() - kept(stack).len()),
        stack.len() > 0 ==> kept(stack).len() > 0 && kept(stack).last() == stack.last(),
        kept(stack).len() <= UNDO_MAX,
        kept(stack).len() <= 1 || stack_mem(kept(stack)) <= UNDO_MEM_CAP,
    decreases stack.len(),
{
    if stack.len() > 1 && (stack_mem(stack) > UNDO_MEM_CAP || stack.len() > UNDO_MAX) {
        lemma_kept(stack.drop_first());
        let n = kept(stack).len();
        assert(stack.drop_first().skip(stack.drop_first().len() - n) =~= stack.skip(
            stack.len() - n,
        ));
    } else {
        assert(stack.skip(0) =~= stack);
    }
}

/// The memory of a history with one snapshot is that of the snapshot.
pub proof fn lemma_stack_mem_one(stack: Seq<SnapshotView>)
    requires
        stack.len() == 1,
    ensures
        stack_mem(stack) == text_mem(stack[0].lines),
{
    reveal_with_fuel(stack_mem, 2);
}

impl EditorView {
    /// The text and the cursor as a snapshot.
    pub open spec fn snapshot(self) -> SnapshotView {
        SnapshotView { lines: self.lines, row: self.row, col: self.col }
    }

    /// The state with a snapshot of the text and the cursor in its history.
    pub open spec fn push_undo(self) -> EditorView {
        let stack = kept(self.undo_stack.push(self.snapshot()));
        EditorView { undo_stack: stack, undo_total_mem: stack_mem(stack) as int, ..self }
    }

    /// The state before the newest snapshot was taken, as far as text and
    /// cursor go. The screen follows the cursor.
    pub open spec fn undo(self) -> EditorView {
        if self.undo_stack.len() > 0 {
            let snap = self.undo_stack.last();
            let stack = self.undo_stack.drop_last();
            let top = if snap.row < self.top {
                snap.row
            } else {
                self.top
            };
            EditorView {
                lines: snap.lines,
                row: snap.row,
                col: snap.col,
                top: if snap.row >= top + self.text_rows() {
                    snap.row - (self.text_rows() - 1)
                } else {
                    top
                },
                undo_stack: stack,
                undo_total_mem: stack_mem(stack) as int,
                modified: true,
                status: "Undo"@,
                ..self
            }
        } else {
            EditorView { status: "Nothing to undo."@, ..self }
        }
    }
}

/// What pushing a snapshot keeps in order.
pub proof fn lemma_push_undo(e: EditorView)
    requires
        e.wf(),
        e.fits(),
    ensures
        e.push_undo().wf(),
        e.push_undo().undo_stack.len() > 0,
        e.push_undo().undo_stack.last() == e.snapshot(),
{
    reveal(history_ok);
    let stack = e.undo_stack.push(e.snapshot());
    lemma_kept(stack);
    let after = kept(stack);
    assert forall|i: int| 0 <= i < after.len() implies (#[trigger] after[i]).ok() by {
        let j = i + stack.len() - after.len();
        assert(after[i] == stack[j]);
        if j < e.undo_stack.len() {
            assert(stack[j] == e.undo_stack[j]);
        }
    }
    if after.len() == 1 {
        lemma_stack_mem_one(after);
    }
}

/// The memory of a snapshot.
pub fn snapshot_mem(snap: &Snapshot) -> (mem: usize)
    requires
        text_mem(rows(snap.lines@)) <= usize::MAX,
    ensures
        mem == text_mem(rows(snap.lines@)),
{
    mem_of(&snap.lines)
}

impl Editor {
    /// Takes a snapshot of the text and the cursor.
    pub fn push_undo(&mut self)
        requires
            old(self)@.wf(),
            old(self)@.fits(),
        ensures
            final(self)@ == old(self)@.push_undo(),
            final(self)@.wf(),
    {
        let snap = Snapshot { lines: copy_lines(&self.lines), row: self.row, col: self.col };
        reveal(history_ok);
        let ghost start = self@;
        let ghost pushed = self@.undo_stack.push(snap@);
        proof {
            assert(pushed.drop_last() =~= self@.undo_stack);
            lemma_push_undo(self@);
        }
        self.undo_total_mem = self.undo_total_mem + snapshot_mem(&snap);
        self.undo_stack.push(snap);
        assert(snapshots(self.undo_stack@) =~= pushed);
        while self.undo_stack.len() > 1 && (self.undo_total_mem > UNDO_MEM_CAP
            || self.undo_stack.len() > UNDO_MAX)
            invariant
                self.undo_stack@.len() > 0,
                self.undo_total_mem == stack_mem(self@.undo_stack),
                kept(self@.undo_stack) == kept(pushed),
                self@ == (EditorView {
                    undo_stack: self@.undo_stack,
                    undo_total_mem: self@.undo_total_mem,
                    ..start
                }),
            decreases self.undo_stack@.len(),
        {
            let ghost stack = self@.undo_stack;
            proof {
                lemma_stack_mem_drop_first(stack);
            }
            let evicted = self.undo_stack.remove(0);
            assert(snapshots(self.undo_stack@) =~= stack.drop_first());
            assert(evicted@ == stack[0]);
            self.undo_total_mem = self.undo_total_mem - snapshot_mem(&evicted);
        }
        assert(self@.undo_stack == kept(pushed));
    }

    /// Takes back the last change.
    pub fn undo(&mut self)
        requires
            old(self)@.doc_ok(),
            old(self)@.undo_stack.len() > 0 ==> old(self)@.text_rows() > 0,
        ensures
            final(self)@ == old(self)@.undo(),
            final(self)@.doc_ok(),
            old(self)@.wf() || old(self)@.undo_stack.len() > 0 ==> final(self)@.wf(),
    {
        reveal(history_ok);
        let ghost start = self@;
        match self.undo_stack.pop() {
            Some(snap) => {
                proof {
                    assert(snapshots(self.undo_stack@) =~= start.undo_stack.drop_last());
                    assert(snap@ == start.undo_stack.last());
                    assert(start.undo_stack[start.undo_stack.len() - 1].ok());
                    assert forall|i: int| 0 <= i < start.undo_stack.len() - 1 implies (
                    #[trigger] start.undo_stack.drop_last()[i]).ok() by {
                        assert(start.undo_stack[i].ok());
                    }
                }
                self.undo_total_mem = self.undo_total_mem - snapshot_mem(&snap);
                self.lines = snap.lines;
                self.row = snap.row;
                self.col = snap.col;
                self.modified = true;
                self.status = "Undo".to_owned();
                if self.row < self.top {
                    self.top = self.row;
                }
                let tr = self.text_rows();
                if self.row - self.top >= tr {
                    self.top = self.row.saturating_sub(tr - 1);
                }
                assert(self@ =~= start.undo());
            },
            None => {
                self.status = "Nothing to undo.".to_owned();
                assert(snapshots(self.undo_stack@) =~= start.undo_stack);
                assert(self@ =~= start.undo());
            },
        }
    }
}

} // verus!
