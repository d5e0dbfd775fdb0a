use tmbf::channel::{EventChannel, NextEvent};
use tmbf::irc::InboundEvent;

fn chat(sender: &str, text: &str) -> InboundEvent {
    InboundEvent::Chat {
        channel: "c".to_string(),
        sender: sender.to_string(),
        text: text.to_string(),
    }
}

fn text_of(ev: &InboundEvent) -> String {
    match ev {
        InboundEvent::Chat { text, .. } => text.clone(),
        InboundEvent::ChannelJoin { channel } => format!("join:{}", channel),
        InboundEvent::Unsupported => "unsupported".to_string(),
    }
}

#[test]
fn subscriber_from_start_sees_all_events_in_order() {
    let mut ch = EventChannel::new(200);
    let mut cursor = ch.subscribe();
    for i in 0..50 {
        ch.broadcast(chat("alice", &format!("msg{}", i)));
    }
    for i in 0..50 {
        match ch.recv(&mut cursor) {
            NextEvent::Event { event, lag } => {
                assert_eq!(lag, 0);
                assert_eq!(text_of(&event), format!("msg{}", i));
            }
            _ => panic!("expected an event"),
        }
    }
    assert!(matches!(ch.recv(&mut cursor), NextEvent::Pending));
}

#[test]
fn two_subscribers_see_the_same_order() {
    let mut ch = EventChannel::new(200);
    let mut c1 = ch.subscribe();
    let mut c2 = ch.subscribe();
    for i in 0..10 {
        ch.broadcast(chat("bob", &format!("m{}", i)));
    }
    let mut seen1 = Vec::new();
    let mut seen2 = Vec::new();
    for _ in 0..10 {
        match ch.recv(&mut c1) {
            NextEvent::Event { event, .. } => seen1.push(text_of(&event)),
            _ => panic!("expected an event"),
        }
        match ch.recv(&mut c2) {
            NextEvent::Event { event, .. } => seen2.push(text_of(&event)),
            _ => panic!("expected an event"),
        }
    }
    assert_eq!(seen1, seen2);
}

#[test]
fn late_subscriber_sees_no_replay() {
    let mut ch = EventChannel::new(200);
    for i in 0..7 {
        ch.broadcast(chat("alice", &format!("early{}", i)));
    }
    let mut cursor = ch.subscribe();
    assert!(matches!(ch.recv(&mut cursor), NextEvent::Pending));
    ch.broadcast(chat("alice", "late"));
    match ch.recv(&mut cursor) {
        NextEvent::Event { event, lag } => {
            assert_eq!(lag, 0);
            assert_eq!(text_of(&event), "late");
        }
        _ => panic!("expected an event"),
    }
}

#[test]
fn paused_subscriber_reports_lag_and_resumes_from_oldest() {
    let mut ch = EventChannel::new(200);
    let mut cursor = ch.subscribe();
    // broadcast more than the capacity: 230 events, so 30 are lost
    for i in 0..230 {
        ch.broadcast(chat("alice", &format!("m{}", i)));
    }
    match ch.recv(&mut cursor) {
        NextEvent::Event { event, lag } => {
            assert_eq!(lag, 30);
            assert_eq!(text_of(&event), "m30");
        }
        _ => panic!("expected an event"),
    }
    // subsequent reads resume in order from the oldest buffered event
    match ch.recv(&mut cursor) {
        NextEvent::Event { event, lag } => {
            assert_eq!(lag, 0);
            assert_eq!(text_of(&event), "m31");
        }
        _ => panic!("expected an event"),
    }
}

#[test]
fn exactly_full_buffer_loses_nothing() {
    let mut ch = EventChannel::new(200);
    let mut cursor = ch.subscribe();
    for i in 0..200 {
        ch.broadcast(chat("alice", &format!("m{}", i)));
    }
    match ch.recv(&mut cursor) {
        NextEvent::Event { event, lag } => {
            assert_eq!(lag, 0);
            assert_eq!(text_of(&event), "m0");
        }
        _ => panic!("expected an event"),
    }
}

#[test]
fn closed_channel_drains_then_signals_close() {
    let mut ch = EventChannel::new(200);
    let mut cursor = ch.subscribe();
    ch.broadcast(chat("alice", "last words"));
    ch.close();
    match ch.recv(&mut cursor) {
        NextEvent::Event { event, lag } => {
            assert_eq!(lag, 0);
            assert_eq!(text_of(&event), "last words");
        }
        _ => panic!("expected an event"),
    }
    assert!(matches!(ch.recv(&mut cursor), NextEvent::Closed));
    // the close signal is stable
    assert!(matches!(ch.recv(&mut cursor), NextEvent::Closed));
}
