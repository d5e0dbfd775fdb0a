use tmbf::channel::NextEvent;
use tmbf::error::Error;
use tmbf::irc::{ChatMessage, ComponentMessage, InboundEvent, IrcCore, JoinChannelMessage};
use tmbf::request::NextRequest;

fn chat_req(channel: &str, message: &str) -> ComponentMessage {
    ComponentMessage::Chat(ChatMessage {
        channel: channel.to_string(),
        message: message.to_string(),
    })
}

fn join_req(channel: &str) -> ComponentMessage {
    ComponentMessage::JoinChannel(JoinChannelMessage { channel: channel.to_string() })
}

fn req_label(r: &ComponentMessage) -> String {
    match r {
        ComponentMessage::Chat(m) => format!("chat:{}:{}", m.channel, m.message),
        ComponentMessage::JoinChannel(m) => format!("join:{}", m.channel),
    }
}

#[test]
fn dispatcher_gets_events_broadcast_after_subscription() {
    let mut core = IrcCore::new();
    core.broadcast_event(InboundEvent::Unsupported);
    let mut d = core.get_msg_dispatcher();
    assert!(matches!(d.next_event(&core.events), NextEvent::Pending));
    core.broadcast_event(InboundEvent::ChannelJoin { channel: "c".to_string() });
    match d.next_event(&core.events) {
        NextEvent::Event { event, lag } => {
            assert_eq!(lag, 0);
            assert!(matches!(event, InboundEvent::ChannelJoin { .. }));
        }
        _ => panic!("expected an event"),
    }
}

#[test]
fn requests_from_two_clones_keep_per_clone_order_and_are_delivered_once() {
    let mut core = IrcCore::new();
    let d1 = core.get_msg_dispatcher();
    let d2 = d1.duplicate(&core.events);
    // interleaved submissions from the two clones
    d1.publish(&mut core.requests, chat_req("c", "a1")).unwrap();
    d2.publish(&mut core.requests, chat_req("c", "b1")).unwrap();
    d1.publish(&mut core.requests, chat_req("c", "a2")).unwrap();
    d2.publish(&mut core.requests, chat_req("c", "b2")).unwrap();
    let mut delivered = Vec::new();
    loop {
        match core.requests.pop() {
            NextRequest::Request { request, lag } => {
                assert_eq!(lag, 0);
                delivered.push(req_label(&request));
            }
            NextRequest::Pending => break,
            NextRequest::Closed => panic!("channel is open"),
        }
    }
    // each request exactly once
    assert_eq!(delivered.len(), 4);
    let a: Vec<String> = delivered.iter().filter(|s| s.contains(":a")).cloned().collect();
    let b: Vec<String> = delivered.iter().filter(|s| s.contains(":b")).cloned().collect();
    // per-clone submission order is preserved
    assert_eq!(a, vec!["chat:c:a1".to_string(), "chat:c:a2".to_string()]);
    assert_eq!(b, vec!["chat:c:b1".to_string(), "chat:c:b2".to_string()]);
}

#[test]
fn publish_after_shutdown_is_refused() {
    let mut core = IrcCore::new();
    let d = core.get_msg_dispatcher();
    d.publish(&mut core.requests, join_req("c")).unwrap();
    core.shutdown();
    assert_eq!(d.publish(&mut core.requests, join_req("c")), Err(Error::ChannelClosed));
    // the consumer still drains what was submitted, then sees the close
    assert!(matches!(core.requests.pop(), NextRequest::Request { .. }));
    assert!(matches!(core.requests.pop(), NextRequest::Closed));
}

#[test]
fn shutdown_unblocks_all_subscribers_with_close_signal() {
    let mut core = IrcCore::new();
    let mut d1 = core.get_msg_dispatcher();
    let mut d2 = core.get_msg_dispatcher();
    core.shutdown();
    assert!(matches!(d1.next_event(&core.events), NextEvent::Closed));
    assert!(matches!(d2.next_event(&core.events), NextEvent::Closed));
}

#[test]
fn clones_lag_independently() {
    let mut core = IrcCore::new();
    let mut fast = core.get_msg_dispatcher();
    let mut slow = fast.duplicate(&core.events);
    for i in 0..250 {
        core.broadcast_event(InboundEvent::Chat {
            channel: "c".to_string(),
            sender: "s".to_string(),
            text: format!("{}", i),
        });
        // the fast reader keeps up
        match fast.next_event(&core.events) {
            NextEvent::Event { lag, .. } => assert_eq!(lag, 0),
            _ => panic!("expected an event"),
        }
    }
    // the slow reader lost the 50 oldest events
    match slow.next_event(&core.events) {
        NextEvent::Event { lag, .. } => assert_eq!(lag, 50),
        _ => panic!("expected an event"),
    }
}
