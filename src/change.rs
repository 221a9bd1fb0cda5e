//! Change records: one atomic edit each, with the text it carried, so that
//! it can be replayed forward or reversed.
use vstd::prelude::*;

verus! {

/// What kind of edit a record describes.
#[derive(Clone, Copy, Debug, PartialEq, Eq, Structural)]
pub enum ChangeKind {
    Insert,
    Delete,
    Format,
    Replace,
    Move,
}

/// One edit, as recorded at the moment it was made.
///
/// Offsets count Unicode scalar values in the text as it stood before the
/// edit, except for `Insert`, whose range is the span the new text occupies
/// afterwards.
///
/// - `Insert`: `payload` went in at `start`; `end == start + len(payload)`.
/// - `Delete`: `[start, end)` was taken out; `payload` is what it held.
/// - `Replace`: `[start, end)`, which held `replaced`, became `payload`.
/// - `Format`, `Move`: reserved; `Move` carries `destination`.
#[derive(Clone, Debug, PartialEq, Eq)]
pub struct ChangeRecord {
    pub kind: ChangeKind,
    pub start: usize,
    pub end: usize,
    pub payload: String,
    pub replaced: String,
    pub destination: usize,
}

/// The mathematical value of a `ChangeRecord`.
pub struct ChangeView {
    pub kind: ChangeKind,
    pub start: nat,
    pub end: nat,
    pub payload: Seq<char>,
    pub replaced: Seq<char>,
    pub destination: nat,
}

impl View for ChangeRecord {
    type V = ChangeView;

    open spec fn view(&self) -> ChangeView {
        ChangeView {
            kind: self.kind,
            start: self.start as nat,
            end: self.end as nat,
            payload: self.payload@,
            replaced: self.replaced@,
            destination: self.destination as nat,
        }
    }
}

/// The text that results from making edit `c` on `text`.
pub open spec fn apply_change(text: Seq<char>, c: ChangeView) -> Seq<char> {
    match c.kind {
        ChangeKind::Insert => text.take(c.start as int) + c.payload + text.skip(c.start as int),
        ChangeKind::Delete => text.take(c.start as int) + text.skip(c.end as int),
        ChangeKind::Replace => text.take(c.start as int) + c.payload + text.skip(c.end as int),
        ChangeKind::Format => text,
        ChangeKind::Move => {
            let cut = text.take(c.start as int) + text.skip(c.end as int);
            cut.take(c.destination as int) + text.subrange(c.start as int, c.end as int) + cut.skip(
                c.destination as int,
            )
        },
    }
}

/// Edit `c` is one that could have been made on `text` and that can be
/// reversed: its range lies in `text` and the text it records as removed is
/// the text that was there. `Format` and `Move` have no inverse yet, so no
/// text admits them.
pub open spec fn change_fits(text: Seq<char>, c: ChangeView) -> bool {
    match c.kind {
        ChangeKind::Insert => c.start <= text.len() && c.end == (c.start + c.payload.len()) as int,
        ChangeKind::Delete => c.start <= c.end <= text.len() && c.payload == text.subrange(
            c.start as int,
            c.end as int,
        ),
        ChangeKind::Replace => c.start <= c.end <= text.len() && c.replaced == text.subrange(
            c.start as int,
            c.end as int,
        ),
        ChangeKind::Format | ChangeKind::Move => false,
    }
}

/// The text before edit `c`, given the text after it.
pub open spec fn revert_change(text: Seq<char>, c: ChangeView) -> Seq<char> {
    match c.kind {
        ChangeKind::Insert => text.take(c.start as int) + text.skip(c.end as int),
        ChangeKind::Delete => text.take(c.start as int) + c.payload + text.skip(c.start as int),
        ChangeKind::Replace => text.take(c.start as int) + c.replaced + text.skip(
            (c.start + c.payload.len()) as int,
        ),
        ChangeKind::Format | ChangeKind::Move => text,
    }
}

/// The text obtained by making the edits of `changes`, in order, on an empty
/// text.
pub open spec fn replay(changes: Seq<ChangeView>) -> Seq<char>
    decreases changes.len(),
{
    if changes.len() == 0 {
        Seq::empty()
    } else {
        apply_change(replay(changes.drop_last()), changes.last())
    }
}

/// Each edit of `changes` fits the text that the edits before it produce.
pub open spec fn replayable(changes: Seq<ChangeView>) -> bool {
    forall|i: int| 0 <= i < changes.len() ==> #[trigger] change_fits(replay(changes.take(i)), changes[i])
}

/// Reversing an edit that fits gives back the text it was made on.
pub proof fn lemma_revert_apply(text: Seq<char>, c: ChangeView)
    requires
        change_fits(text, c),
    ensures
        revert_change(apply_change(text, c), c) == text,
{
    let after = apply_change(text, c);
    match c.kind {
        ChangeKind::Insert => {
            assert(after.take(c.start as int) =~= text.take(c.start as int));
            assert(after.skip(c.end as int) =~= text.skip(c.start as int));
            assert(text.take(c.start as int) + text.skip(c.start as int) =~= text);
        },
        ChangeKind::Delete => {
            assert(after.take(c.start as int) =~= text.take(c.start as int));
            assert(after.skip(c.start as int) =~= text.skip(c.end as int));
            assert(text.take(c.start as int) + c.payload + text.skip(c.end as int) =~= text);
        },
        ChangeKind::Replace => {
            assert(after.take(c.start as int) =~= text.take(c.start as int));
            assert(after.skip((c.start + c.payload.len()) as int) =~= text.skip(c.end as int));
            assert(text.take(c.start as int) + c.replaced + text.skip(c.end as int) =~= text);
        },
        _ => {},
    }
}

impl ChangeRecord {
    /// A copy of this record.
    pub fn duplicate(&self) -> (r: ChangeRecord)
        ensures
            r == *self,
    {
        ChangeRecord {
            kind: self.kind,
            start: self.start,
            end: self.end,
            payload: self.payload.clone(),
            replaced: self.replaced.clone(),
            destination: self.destination,
        }
    }
}

} // verus!
