//! The backend's side of the coordinator loop: the decisions it takes on each
//! message from the frontend, and on a batch of them. The loop itself, with
//! its locks and its sleeps, is run by the caller.
use vstd::prelude::*;

use crate::buffer::{
    delete_spec, insert_spec, redo_spec, replace_spec, undo_spec, DocView, EditError, FileBuffer,
};
use crate::message_queue::{BackendMessage, BackendMessageView, FrontendMessage, MessageQueue};

verus! {

/// Where a coordinator stands in its life.
#[derive(Clone, Copy, Debug, PartialEq, Eq, Structural)]
pub enum Phase {
    /// Handling messages and doing its work.
    Running,
    /// Shutdown was asked for; no further work is taken on.
    Draining,
    /// The loop is over.
    Stopped,
}

/// What the caller does on the backend's behalf after a message.
#[derive(Clone, Debug, PartialEq, Eq)]
pub enum Action {
    /// Send this message to the frontend.
    Reply(BackendMessage),
    /// Write this diagnostic to the log.
    Log(String),
}

/// The mathematical value of an `Action`.
pub enum ActionView {
    Reply(BackendMessageView),
    Log(Seq<char>),
}

impl View for Action {
    type V = ActionView;

    open spec fn view(&self) -> ActionView {
        match self {
            Action::Reply(m) => ActionView::Reply(m@),
            Action::Log(s) => ActionView::Log(s@),
        }
    }
}

/// The value of an optional action.
pub open spec fn action_view(a: Option<Action>) -> Option<ActionView> {
    match a {
        Some(a) => Some(a@),
        None => None,
    }
}

/// The text that reports an error to the frontend.
pub open spec fn error_text(e: EditError) -> Seq<char> {
    match e {
        EditError::OutOfBounds => "edit out of bounds"@,
        EditError::NothingToUndo => "nothing to undo"@,
        EditError::NothingToRedo => "nothing to redo"@,
    }
}

impl EditError {
    /// A short description of the error.
    pub fn describe(&self) -> (s: String)
        ensures
            s@ == error_text(*self),
    {
        match self {
            EditError::OutOfBounds => "edit out of bounds".to_owned(),
            EditError::NothingToUndo => "nothing to undo".to_owned(),
            EditError::NothingToRedo => "nothing to redo".to_owned(),
        }
    }
}

/// The mathematical value of a `Backend`.
pub struct BackendState {
    pub doc: DocView,
    pub phase: Phase,
}

/// The report of a refused request.
pub open spec fn failure(e: EditError) -> Option<ActionView> {
    Some(ActionView::Reply(BackendMessageView::DebugMessage(error_text(e))))
}

/// The backend after an insert, delete or replace with outcome `r`, and what
/// it sends: the edit that landed, or why none did.
pub open spec fn edit_step(s: BackendState, r: Result<DocView, EditError>) -> (
    BackendState,
    Option<ActionView>,
) {
    match r {
        Ok(d) => (
            BackendState { doc: d, phase: s.phase },
            Some(ActionView::Reply(BackendMessageView::EditApplied(d.history.last()))),
        ),
        Err(e) => (s, failure(e)),
    }
}

/// The backend after handling message `m`, and what it asks the caller to do.
/// Once shutdown has been asked for, no message has any effect.
pub open spec fn step(s: BackendState, m: FrontendMessage) -> (BackendState, Option<ActionView>) {
    if s.phase != Phase::Running {
        (s, None)
    } else {
        match m {
            FrontendMessage::UserQuit => (BackendState { doc: s.doc, phase: Phase::Draining }, None),
            FrontendMessage::DebugMessage(t) => (s, Some(ActionView::Log(t@))),
            FrontendMessage::TestMessage => (s, None),
            FrontendMessage::Insert(offset, t) => edit_step(
                s,
                insert_spec(s.doc, offset as nat, t@),
            ),
            FrontendMessage::Delete(start, end) => edit_step(
                s,
                delete_spec(s.doc, start as nat, end as nat),
            ),
            FrontendMessage::Replace(start, end, t) => edit_step(
                s,
                replace_spec(s.doc, start as nat, end as nat, t@),
            ),
            FrontendMessage::Undo => match undo_spec(s.doc) {
                Ok(d) => (
                    BackendState { doc: d, phase: s.phase },
                    Some(
                        ActionView::Reply(
                            BackendMessageView::EditReverted(s.doc.history[d.position as int]),
                        ),
                    ),
                ),
                Err(e) => (s, failure(e)),
            },
            FrontendMessage::Redo => match redo_spec(s.doc) {
                Ok(d) => (
                    BackendState { doc: d, phase: s.phase },
                    Some(
                        ActionView::Reply(
                            BackendMessageView::EditApplied(s.doc.history[s.doc.position as int]),
                        ),
                    ),
                ),
                Err(e) => (s, failure(e)),
            },
        }
    }
}

/// The backend after handling the messages of `msgs` in order, and the
/// actions asked for, in order.
pub open spec fn run_messages(s: BackendState, msgs: Seq<FrontendMessage>) -> (
    BackendState,
    Seq<ActionView>,
)
    decreases msgs.len(),
{
    if msgs.len() == 0 {
        (s, Seq::empty())
    } else {
        let (s1, acts) = run_messages(s, msgs.drop_last());
        let (s2, a) = step(s1, msgs.last());
        match a {
            Some(a) => (s2, acts.push(a)),
            None => (s2, acts),
        }
    }
}

/// The end of a tick: a backend that began to drain stops.
pub open spec fn finish_tick(s: BackendState) -> BackendState {
    if s.phase == Phase::Draining {
        BackendState { doc: s.doc, phase: Phase::Stopped }
    } else {
        s
    }
}

/// Once a `UserQuit` is handled, the rest of the batch has no effect and
/// asks for nothing, and the tick ends with the backend stopped.
pub proof fn lemma_quit_ends_work(s: BackendState, msgs: Seq<FrontendMessage>, i: int)
    requires
        0 <= i < msgs.len(),
        msgs[i] == FrontendMessage::UserQuit,
    ensures
        run_messages(s, msgs) == run_messages(s, msgs.take(i + 1)),
        finish_tick(run_messages(s, msgs).0).phase == Phase::Stopped,
    decreases msgs.len(),
{
    let q = msgs.take(i + 1);
    assert(q.drop_last() =~= msgs.take(i));
    assert(q.last() == msgs[i]);
    if msgs.len() == i + 1 {
        assert(q =~= msgs);
    } else {
        let rest = msgs.drop_last();
        assert(rest[i] == msgs[i]);
        lemma_quit_ends_work(s, rest, i);
        assert(rest.take(i + 1) =~= q);
    }
}

/// The backend role: it owns the document and applies the edits that the
/// frontend asks for.
pub struct Backend {
    buffer: FileBuffer,
    phase: Phase,
}

impl View for Backend {
    type V = BackendState;

    closed spec fn view(&self) -> BackendState {
        BackendState { doc: self.buffer@, phase: self.phase }
    }
}

impl Backend {
    /// The document it owns is well formed.
    pub open spec fn wf(&self) -> bool {
        crate::buffer::doc_wf(self@.doc)
    }

    /// A running backend that owns `buffer`.
    pub fn new(buffer: FileBuffer) -> (b: Backend)
        requires
            buffer.wf(),
        ensures
            b.wf(),
            b@ == (BackendState { doc: buffer@, phase: Phase::Running }),
    {
        Backend { buffer, phase: Phase::Running }
    }

    /// Where the backend stands.
    pub fn phase(&self) -> (p: Phase)
        ensures
            p == self@.phase,
    {
        self.phase
    }

    /// The document the backend owns.
    pub fn buffer(&self) -> (b: &FileBuffer)
        ensures
            b@ == self@.doc,
            b.wf() == self.wf(),
    {
        &self.buffer
    }

    /// Reports the outcome of an edit: the record it logged, or the error.
    fn edit_reply(&self, r: Result<(), EditError>) -> (a: Option<Action>)
        requires
            self.wf(),
            r is Ok ==> self@.doc.position > 0,
        ensures
            action_view(a) == match r {
                Ok(_) => Some(
                    ActionView::Reply(
                        BackendMessageView::EditApplied(self@.doc.history[self@.doc.position - 1]),
                    ),
                ),
                Err(e) => failure(e),
            },
    {
        match r {
            Ok(()) => {
                let c = self.buffer.change(self.buffer.history_position() - 1).duplicate();
                Some(Action::Reply(BackendMessage::EditApplied(c)))
            },
            Err(e) => Some(Action::Reply(BackendMessage::DebugMessage(e.describe()))),
        }
    }

    /// Handles one message from the frontend.
    pub fn handle(&mut self, m: FrontendMessage) -> (a: Option<Action>)
        requires
            old(self).wf(),
        ensures
            final(self).wf(),
            (final(self)@, action_view(a)) == step(old(self)@, m),
    {
        if self.phase != Phase::Running {
            return None;
        }
        match m {
            FrontendMessage::UserQuit => {
                self.phase = Phase::Draining;
                None
            },
            FrontendMessage::DebugMessage(t) => Some(Action::Log(t)),
            FrontendMessage::TestMessage => None,
            FrontendMessage::Insert(offset, t) => {
                let r = self.buffer.insert(offset, t.as_str());
                self.edit_reply(r)
            },
            FrontendMessage::Delete(start, end) => {
                let r = match self.buffer.delete(start, end) {
                    Ok(_) => Ok(()),
                    Err(e) => Err(e),
                };
                self.edit_reply(r)
            },
            FrontendMessage::Replace(start, end, t) => {
                let r = self.buffer.replace(start, end, t.as_str());
                self.edit_reply(r)
            },
            FrontendMessage::Undo => {
                let r = self.buffer.undo();
                match r {
                    Ok(()) => {
                        let c = self.buffer.change(self.buffer.history_position()).duplicate();
                        Some(Action::Reply(BackendMessage::EditReverted(c)))
                    },
                    Err(e) => Some(Action::Reply(BackendMessage::DebugMessage(e.describe()))),
                }
            },
            FrontendMessage::Redo => {
                let r = self.buffer.redo();
                match r {
                    Ok(()) => {
                        let c = self.buffer.change(self.buffer.history_position() - 1).duplicate();
                        Some(Action::Reply(BackendMessage::EditApplied(c)))
                    },
                    Err(e) => Some(Action::Reply(BackendMessage::DebugMessage(e.describe()))),
                }
            },
        }
    }

    /// One tick of the backend loop, on a batch taken from the inbound queue:
    /// every message is handled in order, and a backend that was asked to
    /// shut down stops at the end of the batch. Returns the actions asked for.
    pub fn tick(&mut self, batch: &mut MessageQueue<FrontendMessage>) -> (acts: Vec<Action>)
        requires
            old(self).wf(),
        ensures
            final(self).wf(),
            final(batch)@.len() == 0,
            ({
                let (s, out) = run_messages(old(self)@, old(batch)@);
                final(self)@ == finish_tick(s) && acts@.map_values(|a: Action| a@) == out
            }),
    {
        let ghost s0 = self@;
        let ghost msgs = batch@;
        let mut acts: Vec<Action> = Vec::new();
        let ghost mut k: int = 0;
        while !batch.is_empty()
            invariant
                self.wf(),
                0 <= k <= msgs.len(),
                batch@ == msgs.skip(k),
                batch@.len() == msgs.len() - k,
                ({
                    let (s, out) = run_messages(s0, msgs.take(k));
                    self@ == s && acts@.map_values(|a: Action| a@) == out
                }),
            decreases batch@.len(),
        {
            let ghost prev = batch@;
            assert(prev[0] == msgs[k]);
            let r = batch.get_message();
            if let Ok(m) = r {
                proof {
                    assert(msgs.take(k + 1).drop_last() =~= msgs.take(k));
                    assert(msgs.take(k + 1).last() == m);
                }
                let a = self.handle(m);
                match a {
                    Some(a) => {
                        let ghost before = acts@;
                        acts.push(a);
                        assert(acts@.map_values(|a: Action| a@) =~= before.map_values(
                            |a: Action| a@,
                        ).push(a@));
                    },
                    None => {},
                }
                proof {
                    k = k + 1;
                }
                assert(batch@ =~= msgs.skip(k));
            }
        }
        assert(msgs.take(k) =~= msgs);
        if self.phase == Phase::Draining {
            self.phase = Phase::Stopped;
        }
        acts
    }
}

} // verus!
