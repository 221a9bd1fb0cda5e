//! The document model: the current text, held in a rope, and the log of the
//! edits that produced it, with a cursor that marks the undo/redo boundary.
use vstd::prelude::*;

use jumprope::JumpRope;

use crate::change::{
    apply_change, change_fits, lemma_revert_apply, replay, replayable, revert_change, ChangeKind,
    ChangeRecord, ChangeView,
};
use crate::rope::{
    rope_chars, rope_from, rope_insert, rope_len, rope_new, rope_remove, rope_slice, rope_text,
};

verus! {

/// Why an edit, an undo or a redo was refused.
#[derive(Clone, Copy, Debug, PartialEq, Eq, Structural)]
pub enum EditError {
    OutOfBounds,
    NothingToUndo,
    NothingToRedo,
}

/// The mathematical value of a `FileBuffer`: its text, its log of edits and
/// the cursor into that log. Edits before `position` are applied; those from
/// `position` on were undone and can be redone.
pub struct DocView {
    pub content: Seq<char>,
    pub history: Seq<ChangeView>,
    pub position: nat,
}

/// The text is what the applied edits produce from an empty text, and every
/// logged edit, applied or undone, fits the text it was made on.
pub open spec fn doc_wf(d: DocView) -> bool {
    &&& d.position <= d.history.len()
    &&& replayable(d.history)
    &&& d.content == replay(d.history.take(d.position as int))
}

/// Room for `added` more characters and one more logged edit within `usize`.
pub open spec fn has_room(d: DocView, added: nat) -> bool {
    d.content.len() + added <= usize::MAX && d.position < usize::MAX
}

/// `d` after edit `c` is made and logged; undone edits are dropped.
pub open spec fn log_edit(d: DocView, c: ChangeView) -> DocView {
    DocView {
        content: apply_change(d.content, c),
        history: d.history.take(d.position as int).push(c),
        position: d.position + 1,
    }
}

/// The record of inserting `text` at `offset`.
pub open spec fn insert_change(offset: nat, text: Seq<char>) -> ChangeView {
    ChangeView {
        kind: ChangeKind::Insert,
        start: offset,
        end: offset + text.len(),
        payload: text,
        replaced: Seq::empty(),
        destination: 0,
    }
}

/// The record of deleting `[start, end)` from `content`.
pub open spec fn delete_change(content: Seq<char>, start: nat, end: nat) -> ChangeView {
    ChangeView {
        kind: ChangeKind::Delete,
        start,
        end,
        payload: content.subrange(start as int, end as int),
        replaced: Seq::empty(),
        destination: 0,
    }
}

/// The record of replacing `[start, end)` of `content` with `text`.
pub open spec fn replace_change(
    content: Seq<char>,
    start: nat,
    end: nat,
    text: Seq<char>,
) -> ChangeView {
    ChangeView {
        kind: ChangeKind::Replace,
        start,
        end,
        payload: text,
        replaced: content.subrange(start as int, end as int),
        destination: 0,
    }
}

/// The outcome of inserting `text` at `offset`.
pub open spec fn insert_spec(d: DocView, offset: nat, text: Seq<char>) -> Result<DocView, EditError> {
    if offset <= d.content.len() && has_room(d, text.len()) {
        Ok(log_edit(d, insert_change(offset, text)))
    } else {
        Err(EditError::OutOfBounds)
    }
}

/// The outcome of deleting `[start, end)`.
pub open spec fn delete_spec(d: DocView, start: nat, end: nat) -> Result<DocView, EditError> {
    if start <= end <= d.content.len() && has_room(d, 0) {
        Ok(log_edit(d, delete_change(d.content, start, end)))
    } else {
        Err(EditError::OutOfBounds)
    }
}

/// The outcome of replacing `[start, end)` with `text`.
pub open spec fn replace_spec(d: DocView, start: nat, end: nat, text: Seq<char>) -> Result<
    DocView,
    EditError,
> {
    if start <= end <= d.content.len() && has_room(d, text.len()) {
        Ok(log_edit(d, replace_change(d.content, start, end, text)))
    } else {
        Err(EditError::OutOfBounds)
    }
}

/// The outcome of undoing the last applied edit.
pub open spec fn undo_spec(d: DocView) -> Result<DocView, EditError> {
    if d.position == 0 {
        Err(EditError::NothingToUndo)
    } else {
        Ok(
            DocView {
                content: revert_change(d.content, d.history[d.position - 1]),
                history: d.history,
                position: (d.position - 1) as nat,
            },
        )
    }
}

/// The outcome of redoing the first undone edit.
pub open spec fn redo_spec(d: DocView) -> Result<DocView, EditError> {
    if d.position == d.history.len() {
        Err(EditError::NothingToRedo)
    } else {
        Ok(
            DocView {
                content: apply_change(d.content, d.history[d.position as int]),
                history: d.history,
                position: d.position + 1,
            },
        )
    }
}

/// Logging an edit that fits the current text keeps the buffer well formed.
pub proof fn lemma_log_edit_wf(d: DocView, c: ChangeView)
    requires
        doc_wf(d),
        change_fits(d.content, c),
    ensures
        doc_wf(log_edit(d, c)),
{
    let p = d.position as int;
    let h = d.history;
    let h2 = h.take(p).push(c);
    assert forall|i: int| 0 <= i < h2.len() implies #[trigger] change_fits(
        replay(h2.take(i)),
        h2[i],
    ) by {
        assert(h2.take(i) =~= h.take(i));
        if i < p {
            assert(change_fits(replay(h.take(i)), h[i]));
        }
    }
    assert(h2.take(p + 1) =~= h2);
    assert(h2.drop_last() =~= h.take(p));
}

/// The text before the last applied edit is that edit reversed on the text.
proof fn lemma_undo_content(d: DocView)
    requires
        doc_wf(d),
        d.position > 0,
    ensures
        replay(d.history.take(d.position - 1)) == revert_change(
            d.content,
            d.history[d.position - 1],
        ),
        change_fits(replay(d.history.take(d.position - 1)), d.history[d.position - 1]),
        d.content == apply_change(
            replay(d.history.take(d.position - 1)),
            d.history[d.position - 1],
        ),
{
    let p = d.position as int;
    let h = d.history;
    assert(h.take(p).drop_last() =~= h.take(p - 1));
    assert(h.take(p).last() == h[p - 1]);
    assert(change_fits(replay(h.take(p - 1)), h[p - 1]));
    lemma_revert_apply(replay(h.take(p - 1)), h[p - 1]);
}

/// A successful undo keeps the buffer well formed.
pub proof fn lemma_undo_wf(d: DocView)
    requires
        doc_wf(d),
    ensures
        undo_spec(d) matches Ok(d2) ==> doc_wf(d2),
{
    if d.position > 0 {
        lemma_undo_content(d);
    }
}

/// A successful redo keeps the buffer well formed.
pub proof fn lemma_redo_wf(d: DocView)
    requires
        doc_wf(d),
    ensures
        redo_spec(d) matches Ok(d2) ==> doc_wf(d2),
        d.position < d.history.len() ==> change_fits(d.content, d.history[d.position as int]),
{
    let p = d.position as int;
    if p < d.history.len() {
        assert(d.history.take(p + 1).drop_last() =~= d.history.take(p));
        assert(change_fits(replay(d.history.take(p)), d.history[p]));
    }
}

/// Makes edit `c` on the rope.
fn apply_to_rope(rope: &mut JumpRope, c: &ChangeRecord)
    requires
        change_fits(rope_chars(*old(rope)), c@),
    ensures
        rope_chars(*final(rope)) == apply_change(rope_chars(*old(rope)), c@),
{
    let ghost before = rope_chars(*rope);
    match c.kind {
        ChangeKind::Insert => {
            rope_insert(rope, c.start, c.payload.as_str());
        },
        ChangeKind::Delete => {
            rope_remove(rope, c.start, c.end);
        },
        ChangeKind::Replace => {
            rope_remove(rope, c.start, c.end);
            let ghost mid = rope_chars(*rope);
            rope_insert(rope, c.start, c.payload.as_str());
            assert(mid.take(c.start as int) =~= before.take(c.start as int));
            assert(mid.skip(c.start as int) =~= before.skip(c.end as int));
        },
        _ => {},
    }
}

/// Reverses edit `c` on the rope, which holds `prev` with `c` made on it.
fn revert_on_rope(rope: &mut JumpRope, c: &ChangeRecord, Ghost(prev): Ghost<Seq<char>>)
    requires
        change_fits(prev, c@),
        rope_chars(*old(rope)) == apply_change(prev, c@),
    ensures
        rope_chars(*final(rope)) == revert_change(rope_chars(*old(rope)), c@),
{
    let ghost after = rope_chars(*rope);
    match c.kind {
        ChangeKind::Insert => {
            rope_remove(rope, c.start, c.end);
        },
        ChangeKind::Delete => {
            rope_insert(rope, c.start, c.payload.as_str());
        },
        ChangeKind::Replace => {
            let n = rope_len(rope);
            let added = c.payload.as_str().unicode_len();
            rope_remove(rope, c.start, c.start + added);
            let ghost mid = rope_chars(*rope);
            rope_insert(rope, c.start, c.replaced.as_str());
            assert(mid.take(c.start as int) =~= after.take(c.start as int));
            assert(mid.skip(c.start as int) =~= after.skip(c.start + added));
        },
        _ => {},
    }
}

/// A text buffer: the current text in a rope, and an ordered log of the edits
/// made on it, with a cursor that separates applied edits from undone ones.
pub struct FileBuffer {
    changes: Vec<ChangeRecord>,
    current: JumpRope,
    position: usize,
}

impl View for FileBuffer {
    type V = DocView;

    closed spec fn view(&self) -> DocView {
        DocView {
            content: rope_chars(self.current),
            history: self.changes@.map_values(|c: ChangeRecord| c@),
            position: self.position as nat,
        }
    }
}

impl FileBuffer {
    /// See `doc_wf`.
    pub open spec fn wf(&self) -> bool {
        doc_wf(self@)
    }

    /// An empty buffer with an empty log.
    pub fn new() -> (b: FileBuffer)
        ensures
            b.wf(),
            b@.content == Seq::<char>::empty(),
            b@.history == Seq::<ChangeView>::empty(),
            b@.position == 0,
    {
        let b = FileBuffer { changes: Vec::new(), current: rope_new(), position: 0 };
        assert(b@.history =~= Seq::<ChangeView>::empty());
        b
    }

    /// A buffer holding `s`, whose log is the one insertion of `s` at 0.
    pub fn from_str(s: &str) -> (b: FileBuffer)
        ensures
            b.wf(),
            b@.content == s@,
            b@.history == seq![insert_change(0, s@)],
            b@.position == 1,
    {
        let n = s.unicode_len();
        let c = ChangeRecord {
            kind: ChangeKind::Insert,
            start: 0,
            end: n,
            payload: s.to_owned(),
            replaced: String::new(),
            destination: 0,
        };
        let mut changes: Vec<ChangeRecord> = Vec::new();
        changes.push(c);
        let b = FileBuffer { changes, current: rope_from(s), position: 1 };
        proof {
            let h = b@.history;
            assert(h =~= seq![insert_change(0, s@)]);
            assert(h.take(1) =~= h);
            assert(h.take(0) =~= Seq::<ChangeView>::empty());
            assert(h.drop_last() =~= Seq::<ChangeView>::empty());
            assert(Seq::<char>::empty() + s@ + Seq::<char>::empty() =~= s@);
            assert(change_fits(replay(h.take(0)), h[0]));
        }
        b
    }

    /// Logs `c`, which has just been made on the rope, dropping undone edits.
    fn record(&mut self, c: ChangeRecord, Ghost(d): Ghost<DocView>)
        requires
            doc_wf(d),
            d.history == old(self)@.history,
            d.position == old(self)@.position,
            d.position < usize::MAX,
            change_fits(d.content, c@),
            old(self)@.content == apply_change(d.content, c@),
        ensures
            final(self)@ == log_edit(d, c@),
            final(self).wf(),
    {
        let ghost old_changes = self.changes@;
        self.changes.truncate(self.position);
        self.changes.push(c);
        self.position = self.position + 1;
        proof {
            assert(self@.history =~= d.history.take(d.position as int).push(c@));
            lemma_log_edit_wf(d, c@);
        }
    }

    /// Inserts `text` at character offset `offset`.
    pub fn insert(&mut self, offset: usize, text: &str) -> (r: Result<(), EditError>)
        requires
            old(self).wf(),
        ensures
            final(self).wf(),
            match insert_spec(old(self)@, offset as nat, text@) {
                Ok(d) => r == Ok::<(), EditError>(()) && final(self)@ == d,
                Err(e) => r == Err::<(), EditError>(e) && final(self)@ == old(self)@,
            },
    {
        let len = rope_len(&self.current);
        let n = text.unicode_len();
        if offset > len || n > usize::MAX - len || self.position == usize::MAX {
            return Err(EditError::OutOfBounds);
        }
        let ghost d = self@;
        let c = ChangeRecord {
            kind: ChangeKind::Insert,
            start: offset,
            end: offset + n,
            payload: text.to_owned(),
            replaced: String::new(),
            destination: 0,
        };
        apply_to_rope(&mut self.current, &c);
        self.record(c, Ghost(d));
        Ok(())
    }

    /// Deletes the characters in `[start, end)` and returns them.
    pub fn delete(&mut self, start: usize, end: usize) -> (r: Result<String, EditError>)
        requires
            old(self).wf(),
        ensures
            final(self).wf(),
            match delete_spec(old(self)@, start as nat, end as nat) {
                Ok(d) => r matches Ok(s) && s@ == old(self)@.content.subrange(
                    start as int,
                    end as int,
                ) && final(self)@ == d,
                Err(e) => r matches Err(e2) && e2 == e && final(self)@ == old(self)@,
            },
    {
        let len = rope_len(&self.current);
        if start > end || end > len || self.position == usize::MAX {
            return Err(EditError::OutOfBounds);
        }
        let ghost d = self@;
        let removed = rope_slice(&self.current, start, end);
        let c = ChangeRecord {
            kind: ChangeKind::Delete,
            start,
            end,
            payload: removed.clone(),
            replaced: String::new(),
            destination: 0,
        };
        apply_to_rope(&mut self.current, &c);
        self.record(c, Ghost(d));
        Ok(removed)
    }

    /// Replaces the characters in `[start, end)` with `text`, as one edit.
    pub fn replace(&mut self, start: usize, end: usize, text: &str) -> (r: Result<(), EditError>)
        requires
            old(self).wf(),
        ensures
            final(self).wf(),
            match replace_spec(old(self)@, start as nat, end as nat, text@) {
                Ok(d) => r == Ok::<(), EditError>(()) && final(self)@ == d,
                Err(e) => r == Err::<(), EditError>(e) && final(self)@ == old(self)@,
            },
    {
        let len = rope_len(&self.current);
        let n = text.unicode_len();
        if start > end || end > len || n > usize::MAX - len || self.position == usize::MAX {
            return Err(EditError::OutOfBounds);
        }
        let ghost d = self@;
        let c = ChangeRecord {
            kind: ChangeKind::Replace,
            start,
            end,
            payload: text.to_owned(),
            replaced: rope_slice(&self.current, start, end),
            destination: 0,
        };
        apply_to_rope(&mut self.current, &c);
        self.record(c, Ghost(d));
        Ok(())
    }

    /// Reverses the last applied edit.
    pub fn undo(&mut self) -> (r: Result<(), EditError>)
        requires
            old(self).wf(),
        ensures
            final(self).wf(),
            match undo_spec(old(self)@) {
                Ok(d) => r == Ok::<(), EditError>(()) && final(self)@ == d,
                Err(e) => r == Err::<(), EditError>(e) && final(self)@ == old(self)@,
            },
    {
        if self.position == 0 {
            return Err(EditError::NothingToUndo);
        }
        proof {
            lemma_undo_content(self@);
            lemma_undo_wf(self@);
        }
        let ghost prev = replay(self@.history.take(self@.position - 1));
        let i = self.position - 1;
        revert_on_rope(&mut self.current, &self.changes[i], Ghost(prev));
        self.position = i;
        Ok(())
    }

    /// Makes again the first undone edit.
    pub fn redo(&mut self) -> (r: Result<(), EditError>)
        requires
            old(self).wf(),
        ensures
            final(self).wf(),
            match redo_spec(old(self)@) {
                Ok(d) => r == Ok::<(), EditError>(()) && final(self)@ == d,
                Err(e) => r == Err::<(), EditError>(e) && final(self)@ == old(self)@,
            },
    {
        if self.position == self.changes.len() {
            return Err(EditError::NothingToRedo);
        }
        proof {
            lemma_redo_wf(self@);
        }
        let i = self.position;
        apply_to_rope(&mut self.current, &self.changes[i]);
        self.position = i + 1;
        Ok(())
    }

    /// The current text.
    pub fn text(&self) -> (s: String)
        ensures
            s@ == self@.content,
    {
        rope_text(&self.current)
    }

    /// The length of the current text, in characters.
    pub fn len(&self) -> (n: usize)
        ensures
            n == self@.content.len(),
    {
        rope_len(&self.current)
    }

    /// The number of logged edits, applied or undone.
    pub fn history_len(&self) -> (n: usize)
        ensures
            n == self@.history.len(),
    {
        self.changes.len()
    }

    /// The undo/redo cursor: how many logged edits are applied.
    pub fn history_position(&self) -> (n: usize)
        ensures
            n == self@.position,
    {
        self.position
    }

    /// The logged edit at index `i`.
    pub fn change(&self, i: usize) -> (c: &ChangeRecord)
        requires
            i < self@.history.len(),
        ensures
            c@ == self@.history[i as int],
    {
        &self.changes[i]
    }
}

} // verus!
