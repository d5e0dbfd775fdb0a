use tmbf::error::Error;
use tmbf::irc::{InboundEvent, IrcCore};
use tmbf::router::{IrcMessage, SessionState, SessionStep, TwitchRouter};

fn chat(sender: &str, text: &str) -> InboundEvent {
    InboundEvent::Chat {
        channel: "c".to_string(),
        sender: sender.to_string(),
        text: text.to_string(),
    }
}

#[test]
fn chat_event_converts_to_wire_record() {
    let r = IrcMessage::try_from(chat("alice", "hi")).unwrap();
    assert_eq!(r.user, "alice");
    assert_eq!(r.message, "hi");
}

#[test]
fn unsupported_event_is_not_representable() {
    assert!(matches!(
        IrcMessage::try_from(InboundEvent::Unsupported),
        Err(Error::IrcMessageUnsupportedByRouter)
    ));
    assert!(matches!(
        IrcMessage::try_from(InboundEvent::ChannelJoin { channel: "c".to_string() }),
        Err(Error::IrcMessageUnsupportedByRouter)
    ));
}

#[test]
fn broadcast_chat_event_reaches_both_sessions_equally() {
    let mut core = IrcCore::new();
    let router = TwitchRouter::new(core.get_msg_dispatcher());
    let mut s1 = router.open_session(&core.events);
    let mut s2 = router.open_session(&core.events);
    core.broadcast_event(chat("alice", "hi"));
    let m1 = match s1.step(&core.events) {
        SessionStep::Emit { message, lag } => {
            assert_eq!(lag, 0);
            message
        }
        _ => panic!("expected an emitted record"),
    };
    let m2 = match s2.step(&core.events) {
        SessionStep::Emit { message, lag } => {
            assert_eq!(lag, 0);
            message
        }
        _ => panic!("expected an emitted record"),
    };
    assert_eq!(m1.user, m2.user);
    assert_eq!(m1.message, m2.message);
    assert_eq!(m1.user, "alice");
    assert_eq!(m1.message, "hi");

    // one client disconnects; the other session still receives what follows
    s1.note_send_result(false);
    assert_eq!(s1.current_state(), SessionState::Disconnected);
    s2.note_send_result(true);
    core.broadcast_event(chat("bob", "still here"));
    match s2.step(&core.events) {
        SessionStep::Emit { message, .. } => {
            assert_eq!(message.user, "bob");
            assert_eq!(message.message, "still here");
        }
        _ => panic!("expected an emitted record"),
    }
}

#[test]
fn scenario_chat_event_becomes_user_and_message_fields() {
    let mut core = IrcCore::new();
    let router = TwitchRouter::new(core.get_msg_dispatcher());
    let mut s = router.open_session(&core.events);
    core.broadcast_event(chat("alice", "hi"));
    match s.step(&core.events) {
        SessionStep::Emit { message, .. } => {
            assert_eq!(message.user, "alice");
            assert_eq!(message.message, "hi");
        }
        _ => panic!("expected an emitted record"),
    }
}

#[test]
fn scenario_unsupported_event_is_skipped_and_stream_stays_open() {
    let mut core = IrcCore::new();
    let router = TwitchRouter::new(core.get_msg_dispatcher());
    let mut s = router.open_session(&core.events);
    core.broadcast_event(InboundEvent::Unsupported);
    match s.step(&core.events) {
        SessionStep::Skip { lag } => assert_eq!(lag, 0),
        _ => panic!("expected the event to be skipped"),
    }
    assert_eq!(s.current_state(), SessionState::Streaming);
    // the stream is still live: the next chat event is emitted
    core.broadcast_event(chat("alice", "hello"));
    assert!(matches!(s.step(&core.events), SessionStep::Emit { .. }));
}

#[test]
fn scenario_closing_the_event_channel_ends_sessions_cleanly() {
    let mut core = IrcCore::new();
    let router = TwitchRouter::new(core.get_msg_dispatcher());
    let mut s1 = router.open_session(&core.events);
    let mut s2 = router.open_session(&core.events);
    core.shutdown();
    assert!(matches!(s1.step(&core.events), SessionStep::End));
    assert!(matches!(s2.step(&core.events), SessionStep::End));
    assert_eq!(s1.current_state(), SessionState::Closed);
    assert_eq!(s2.current_state(), SessionState::Closed);
}

#[test]
fn session_sees_no_events_from_before_its_call() {
    let mut core = IrcCore::new();
    let router = TwitchRouter::new(core.get_msg_dispatcher());
    core.broadcast_event(chat("alice", "before"));
    let mut s = router.open_session(&core.events);
    assert!(matches!(s.step(&core.events), SessionStep::Pending));
    core.broadcast_event(chat("alice", "after"));
    match s.step(&core.events) {
        SessionStep::Emit { message, .. } => assert_eq!(message.message, "after"),
        _ => panic!("expected an emitted record"),
    }
}
