//! A FIFO mailbox for one direction of traffic between the frontend and the
//! backend threads, and the messages that travel in each direction.
use vstd::prelude::*;

use crate::change::{ChangeRecord, ChangeView};

verus! {

/// Why no message could be taken from a queue.
#[derive(Clone, Copy, Debug, PartialEq, Eq, Structural)]
pub enum QueueError {
    Empty,
}

/// A first-in, first-out queue of messages. It is not synchronised itself:
/// the threads that share it hold it behind a lock.
pub struct MessageQueue<T> {
    messages: Vec<T>,
}

/// The queue `q` after `m` is added.
pub open spec fn queue_add<T>(q: Seq<T>, m: T) -> Seq<T> {
    q.push(m)
}

/// What taking a message from `q` returns, and the queue left behind.
pub open spec fn queue_take<T>(q: Seq<T>) -> (Result<T, QueueError>, Seq<T>) {
    if q.len() == 0 {
        (Err(QueueError::Empty), q)
    } else {
        (Ok(q[0]), q.drop_first())
    }
}

impl<T> View for MessageQueue<T> {
    type V = Seq<T>;

    /// The messages, oldest first.
    closed spec fn view(&self) -> Seq<T> {
        self.messages@
    }
}

impl<T> MessageQueue<T> {
    /// An empty queue.
    pub fn new() -> (q: MessageQueue<T>)
        ensures
            q@ == Seq::<T>::empty(),
    {
        MessageQueue { messages: Vec::new() }
    }

    /// The number of messages in the queue.
    pub fn len(&self) -> (n: usize)
        ensures
            n == self@.len(),
    {
        self.messages.len()
    }

    /// Adds a message at the back of the queue.
    pub fn add_message(&mut self, new_message: T)
        ensures
            final(self)@ == queue_add(old(self)@, new_message),
    {
        self.messages.push(new_message);
    }

    /// Takes the oldest message out of the queue; fails at once when the queue
    /// is empty.
    pub fn get_message(&mut self) -> (r: Result<T, QueueError>)
        ensures
            (r, final(self)@) == queue_take(old(self)@),
    {
        if self.messages.len() == 0 {
            return Err(QueueError::Empty);
        }
        let m = self.messages.remove(0);
        assert(self.messages@ =~= old(self)@.drop_first());
        Ok(m)
    }

    /// Whether the queue holds no message.
    pub fn is_empty(&self) -> (b: bool)
        ensures
            b == (self@.len() == 0),
    {
        self.len() == 0
    }

    /// Moves every message into a new queue, in order, and leaves this one
    /// empty, so that a batch can be handled after the lock is released.
    pub fn drain_all(&mut self) -> (batch: MessageQueue<T>)
        ensures
            batch@ == old(self)@,
            final(self)@ == Seq::<T>::empty(),
    {
        let mut batch = MessageQueue::new();
        std::mem::swap(&mut self.messages, &mut batch.messages);
        batch
    }
}

/// Messages that the frontend thread sends to the backend thread.
#[derive(Clone, Debug, PartialEq, Eq)]
pub enum FrontendMessage {
    /// The user asked to quit: the backend shuts down.
    UserQuit,
    /// A diagnostic for the backend to log.
    DebugMessage(String),
    /// A probe that asks for nothing.
    TestMessage,
    /// Insert the text at the character offset.
    Insert(usize, String),
    /// Delete the characters in `[start, end)`.
    Delete(usize, usize),
    /// Replace the characters in `[start, end)` with the text.
    Replace(usize, usize, String),
    /// Undo the last applied edit.
    Undo,
    /// Redo the first undone edit.
    Redo,
}

/// Messages that the backend thread sends to the frontend thread.
#[derive(Clone, Debug, PartialEq, Eq)]
pub enum BackendMessage {
    /// A probe that asks for nothing.
    TestMessage,
    /// This edit was made on the document (a new edit, or a redo).
    EditApplied(ChangeRecord),
    /// This edit was reversed by an undo.
    EditReverted(ChangeRecord),
    /// A request could not be carried out; the text says why.
    DebugMessage(String),
}

/// The mathematical value of a `BackendMessage`.
pub enum BackendMessageView {
    TestMessage,
    EditApplied(ChangeView),
    EditReverted(ChangeView),
    DebugMessage(Seq<char>),
}

impl View for BackendMessage {
    type V = BackendMessageView;

    open spec fn view(&self) -> BackendMessageView {
        match self {
            BackendMessage::TestMessage => BackendMessageView::TestMessage,
            BackendMessage::EditApplied(c) => BackendMessageView::EditApplied(c@),
            BackendMessage::EditReverted(c) => BackendMessageView::EditReverted(c@),
            BackendMessage::DebugMessage(s) => BackendMessageView::DebugMessage(s@),
        }
    }
}

} // verus!
