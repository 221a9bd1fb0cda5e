use digit_core::backend::{Action, Backend, Phase};
use digit_core::buffer::FileBuffer;
use digit_core::change::ChangeKind;
use digit_core::message_queue::{BackendMessage, FrontendMessage, MessageQueue};

fn reply(a: &Action) -> &BackendMessage {
    match a {
        Action::Reply(m) => m,
        Action::Log(_) => panic!("expected a reply"),
    }
}

#[test]
fn user_quit_stops_backend_within_one_tick() {
    let mut inbound: MessageQueue<FrontendMessage> = MessageQueue::new();
    assert_eq!(inbound.is_empty(), true);
    inbound.add_message(FrontendMessage::UserQuit);
    let mut backend = Backend::new(FileBuffer::new());
    assert_eq!(backend.phase(), Phase::Running);
    let mut batch = inbound.drain_all();
    let acts = backend.tick(&mut batch);
    assert!(acts.is_empty());
    assert!(batch.is_empty());
    assert_eq!(backend.phase(), Phase::Stopped);
}

#[test]
fn handle_user_quit_enters_draining() {
    let mut backend = Backend::new(FileBuffer::new());
    assert_eq!(backend.handle(FrontendMessage::UserQuit), None);
    assert_eq!(backend.phase(), Phase::Draining);
    assert_eq!(backend.handle(FrontendMessage::Insert(0, "x".to_string())), None);
    assert_eq!(backend.buffer().text(), "");
}

#[test]
fn edits_before_quit_land_and_later_ones_do_not() {
    let mut q: MessageQueue<FrontendMessage> = MessageQueue::new();
    q.add_message(FrontendMessage::Insert(0, "ab".to_string()));
    q.add_message(FrontendMessage::UserQuit);
    q.add_message(FrontendMessage::Insert(0, "zz".to_string()));
    let mut backend = Backend::new(FileBuffer::new());
    let acts = backend.tick(&mut q);
    assert_eq!(acts.len(), 1);
    match reply(&acts[0]) {
        BackendMessage::EditApplied(c) => {
            assert_eq!(c.kind, ChangeKind::Insert);
            assert_eq!(c.payload, "ab");
        }
        other => panic!("unexpected {:?}", other),
    }
    assert_eq!(backend.buffer().text(), "ab");
    assert_eq!(backend.phase(), Phase::Stopped);
    assert!(q.is_empty());
}

#[test]
fn bad_edit_is_reported_and_loop_goes_on() {
    let mut q: MessageQueue<FrontendMessage> = MessageQueue::new();
    q.add_message(FrontendMessage::Delete(0, 4));
    q.add_message(FrontendMessage::Undo);
    q.add_message(FrontendMessage::Insert(0, "ok".to_string()));
    let mut backend = Backend::new(FileBuffer::new());
    let acts = backend.tick(&mut q);
    assert_eq!(acts.len(), 3);
    assert_eq!(
        reply(&acts[0]),
        &BackendMessage::DebugMessage("edit out of bounds".to_string())
    );
    assert_eq!(
        reply(&acts[1]),
        &BackendMessage::DebugMessage("nothing to undo".to_string())
    );
    assert_eq!(backend.buffer().text(), "ok");
    assert_eq!(backend.phase(), Phase::Running);
}

#[test]
fn undo_and_redo_messages_report_the_edit() {
    let mut backend = Backend::new(FileBuffer::from_str("abc"));
    let a = backend.handle(FrontendMessage::Replace(0, 1, "X".to_string())).unwrap();
    assert!(matches!(reply(&a), BackendMessage::EditApplied(c) if c.kind == ChangeKind::Replace));
    let a = backend.handle(FrontendMessage::Undo).unwrap();
    match reply(&a) {
        BackendMessage::EditReverted(c) => {
            assert_eq!(c.kind, ChangeKind::Replace);
            assert_eq!(c.replaced, "a");
        }
        other => panic!("unexpected {:?}", other),
    }
    assert_eq!(backend.buffer().text(), "abc");
    let a = backend.handle(FrontendMessage::Redo).unwrap();
    assert!(matches!(reply(&a), BackendMessage::EditApplied(c) if c.payload == "X"));
    assert_eq!(backend.buffer().text(), "Xbc");
    let a = backend.handle(FrontendMessage::Redo).unwrap();
    assert_eq!(reply(&a), &BackendMessage::DebugMessage("nothing to redo".to_string()));
}

#[test]
fn debug_and_test_messages() {
    let mut backend = Backend::new(FileBuffer::new());
    assert_eq!(
        backend.handle(FrontendMessage::DebugMessage("resize failed".to_string())),
        Some(Action::Log("resize failed".to_string()))
    );
    assert_eq!(backend.handle(FrontendMessage::TestMessage), None);
    assert_eq!(backend.phase(), Phase::Running);
}

#[test]
fn empty_tick_changes_nothing() {
    let mut q: MessageQueue<FrontendMessage> = MessageQueue::new();
    let mut backend = Backend::new(FileBuffer::from_str("x"));
    let acts = backend.tick(&mut q);
    assert!(acts.is_empty());
    assert_eq!(backend.phase(), Phase::Running);
    assert_eq!(backend.buffer().text(), "x");
}
