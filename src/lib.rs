//! The core of a small text editor: a rope-backed text buffer with an
//! undoable log of edits, the FIFO mailboxes that carry messages between the
//! frontend and backend threads, and the backend's message-handling step.
pub mod backend;
pub mod buffer;
pub mod change;
pub mod laws;
pub mod message_queue;
pub mod rope;
