//! Laws that relate several operations of the buffer and of the queue.
use vstd::prelude::*;

use crate::buffer::{
    delete_change, delete_spec, doc_wf, insert_change, insert_spec, lemma_log_edit_wf,
    lemma_undo_wf, redo_spec, replace_change, replace_spec, undo_spec, DocView, EditError,
};
use crate::change::{change_fits, lemma_revert_apply, replay};
use crate::message_queue::{queue_add, queue_take, QueueError};

verus! {

/// A call of `insert`, `delete` or `replace`, with its arguments.
pub enum EditCall {
    Insert(nat, Seq<char>),
    Delete(nat, nat),
    Replace(nat, nat, Seq<char>),
}

/// The outcome of an edit call on a buffer whose value is `d`.
pub open spec fn edit_outcome(d: DocView, e: EditCall) -> Result<DocView, EditError> {
    match e {
        EditCall::Insert(offset, text) => insert_spec(d, offset, text),
        EditCall::Delete(start, end) => delete_spec(d, start, end),
        EditCall::Replace(start, end, text) => replace_spec(d, start, end, text),
    }
}

/// The value of an empty buffer.
pub open spec fn empty_doc() -> DocView {
    DocView { content: Seq::empty(), history: Seq::empty(), position: 0 }
}

/// The buffer after the calls of `calls`, in order, made on `d`; a call that
/// fails leaves the buffer as it was.
pub open spec fn run_edits(d: DocView, calls: Seq<EditCall>) -> DocView
    decreases calls.len(),
{
    if calls.len() == 0 {
        d
    } else {
        let d1 = run_edits(d, calls.drop_last());
        match edit_outcome(d1, calls.last()) {
            Ok(d2) => d2,
            Err(_) => d1,
        }
    }
}

/// A successful edit call keeps the buffer well formed, and its log is the
/// applied part of the old log followed by the new edit.
pub proof fn lemma_edit_wf(d: DocView, e: EditCall)
    requires
        doc_wf(d),
    ensures
        edit_outcome(d, e) matches Ok(d2) ==> doc_wf(d2) && d2.position == d.position + 1
            && d2.history.len() == d2.position && d2.history.take(d.position as int)
            == d.history.take(d.position as int),
{
    match edit_outcome(d, e) {
        Ok(d2) => {
            let c = d2.history.last();
            match e {
                EditCall::Insert(offset, text) => {
                    assert(change_fits(d.content, insert_change(offset, text)));
                    lemma_log_edit_wf(d, insert_change(offset, text));
                },
                EditCall::Delete(start, end) => {
                    assert(change_fits(d.content, delete_change(d.content, start, end)));
                    lemma_log_edit_wf(d, delete_change(d.content, start, end));
                },
                EditCall::Replace(start, end, text) => {
                    assert(change_fits(d.content, replace_change(d.content, start, end, text)));
                    lemma_log_edit_wf(d, replace_change(d.content, start, end, text));
                },
            }
            assert(d2.history.take(d.position as int) =~= d.history.take(d.position as int));
        },
        Err(_) => {},
    }
}

/// Replayability: after any sequence of `insert`, `delete` and `replace`
/// calls on an empty buffer, making the applied edits of the log, in order,
/// on an empty text gives the buffer's text.
pub proof fn lemma_replayability(calls: Seq<EditCall>)
    ensures
        ({
            let d = run_edits(empty_doc(), calls);
            &&& doc_wf(d)
            &&& replay(d.history.take(d.position as int)) == d.content
        }),
    decreases calls.len(),
{
    if calls.len() == 0 {
        assert(empty_doc().history.take(0) =~= Seq::empty());
    } else {
        lemma_replayability(calls.drop_last());
        lemma_edit_wf(run_edits(empty_doc(), calls.drop_last()), calls.last());
    }
}

/// Undo then redo gives back the buffer as it was before the undo.
pub proof fn lemma_undo_redo(d: DocView)
    requires
        doc_wf(d),
        undo_spec(d) is Ok,
    ensures
        redo_spec(undo_spec(d)->Ok_0) == Ok::<DocView, EditError>(d),
{
    let p = d.position as int;
    let c = d.history[p - 1];
    let prev = replay(d.history.take(p - 1));
    assert(d.history.take(p).drop_last() =~= d.history.take(p - 1));
    assert(d.history.take(p).last() == c);
    assert(change_fits(prev, c));
    lemma_revert_apply(prev, c);
    lemma_undo_wf(d);
}

/// A redo right after a successful edit call fails: nothing is left to redo.
pub proof fn lemma_no_redo_after_edit(d: DocView, e: EditCall)
    requires
        doc_wf(d),
        edit_outcome(d, e) is Ok,
    ensures
        redo_spec(edit_outcome(d, e)->Ok_0) == Err::<DocView, EditError>(EditError::NothingToRedo),
{
    lemma_edit_wf(d, e);
}

/// An edit call after an undo drops the undone edit and every later one: the
/// log becomes the edits still applied followed by the new one, and a redo
/// then fails.
pub proof fn lemma_edit_discards_redo(d: DocView, e: EditCall)
    requires
        doc_wf(d),
        undo_spec(d) is Ok,
        edit_outcome(undo_spec(d)->Ok_0, e) is Ok,
    ensures
        ({
            let d2 = edit_outcome(undo_spec(d)->Ok_0, e)->Ok_0;
            &&& d2.history.len() == d.position
            &&& d2.history.take(d.position - 1) == d.history.take(d.position - 1)
            &&& redo_spec(d2) == Err::<DocView, EditError>(EditError::NothingToRedo)
        }),
{
    lemma_undo_wf(d);
    lemma_edit_wf(undo_spec(d)->Ok_0, e);
}

/// An insertion past the end of the text fails with `OutOfBounds`, and so
/// leaves the buffer unchanged.
pub proof fn lemma_insert_past_end(d: DocView, offset: nat, text: Seq<char>)
    requires
        offset > d.content.len(),
    ensures
        insert_spec(d, offset, text) == Err::<DocView, EditError>(EditError::OutOfBounds),
{
}

/// First in, first out: three messages added to an empty queue are taken
/// out in the order they were added, and a fourth take fails with `Empty`.
pub proof fn lemma_fifo<T>(m1: T, m2: T, m3: T)
    ensures
        ({
            let q = queue_add(queue_add(queue_add(Seq::<T>::empty(), m1), m2), m3);
            let (r1, q1) = queue_take(q);
            let (r2, q2) = queue_take(q1);
            let (r3, q3) = queue_take(q2);
            let (r4, q4) = queue_take(q3);
            &&& r1 == Ok::<T, QueueError>(m1)
            &&& r2 == Ok::<T, QueueError>(m2)
            &&& r3 == Ok::<T, QueueError>(m3)
            &&& r4 == Err::<T, QueueError>(QueueError::Empty)
            &&& q4.len() == 0
        }),
{
    let q = queue_add(queue_add(queue_add(Seq::<T>::empty(), m1), m2), m3);
    assert(q =~= seq![m1, m2, m3]);
    assert(q.drop_first() =~= seq![m2, m3]);
    assert(q.drop_first().drop_first() =~= seq![m3]);
    assert(q.drop_first().drop_first().drop_first() =~= Seq::<T>::empty());
}

} // verus!
