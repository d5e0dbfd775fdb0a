use tmbf::irc::{ChatMessage, ComponentMessage, IrcCore, JoinChannelMessage};
use tmbf::pump::{OutboundPump, PumpStep, MIN_SEND_INTERVAL_MS};

fn chat_req(message: &str) -> ComponentMessage {
    ComponentMessage::Chat(ChatMessage { channel: "c".to_string(), message: message.to_string() })
}

#[test]
fn back_to_back_requests_are_spaced_by_the_minimum_interval() {
    let mut core = IrcCore::new();
    let d = core.get_msg_dispatcher();
    d.publish(&mut core.requests, chat_req("one")).unwrap();
    d.publish(&mut core.requests, chat_req("two")).unwrap();

    let mut pump = OutboundPump::new(MIN_SEND_INTERVAL_MS);
    let mut now: u64 = 1_000;
    let mut delivery_times = Vec::new();
    // drive the pump with a simulated clock until both requests left
    while delivery_times.len() < 2 {
        match pump.step(&mut core.requests, now) {
            PumpStep::Deliver { .. } => delivery_times.push(now),
            PumpStep::Wait { for_ms } => now += for_ms,
            PumpStep::Idle => panic!("both requests were submitted"),
            PumpStep::Shutdown => panic!("channel is open"),
        }
    }
    assert!(delivery_times[1] - delivery_times[0] >= MIN_SEND_INTERVAL_MS);
    // with an eager driver the spacing is exactly the interval
    assert_eq!(delivery_times[1] - delivery_times[0], MIN_SEND_INTERVAL_MS);
}

#[test]
fn pacing_applies_to_joins_and_chats_alike() {
    let mut core = IrcCore::new();
    let d = core.get_msg_dispatcher();
    d.publish(
        &mut core.requests,
        ComponentMessage::JoinChannel(JoinChannelMessage { channel: "c".to_string() }),
    )
    .unwrap();
    d.publish(&mut core.requests, chat_req("hello")).unwrap();

    let mut pump = OutboundPump::new(2_000);
    // first request goes immediately
    assert!(matches!(pump.step(&mut core.requests, 10_000), PumpStep::Deliver { .. }));
    // the chat right behind the join is held back
    match pump.step(&mut core.requests, 10_001) {
        PumpStep::Wait { for_ms } => assert_eq!(for_ms, 1_999),
        _ => panic!("expected the pump to wait"),
    }
    // and released once the interval elapsed
    assert!(matches!(pump.step(&mut core.requests, 12_000), PumpStep::Deliver { .. }));
}

#[test]
fn drained_pump_is_idle_and_closed_pump_shuts_down() {
    let mut core = IrcCore::new();
    let mut pump = OutboundPump::new(2_000);
    assert!(matches!(pump.step(&mut core.requests, 5), PumpStep::Idle));
    core.shutdown();
    assert!(matches!(pump.step(&mut core.requests, 10), PumpStep::Shutdown));
}

#[test]
fn delivery_preserves_submission_order() {
    let mut core = IrcCore::new();
    let d = core.get_msg_dispatcher();
    for i in 0..5 {
        d.publish(&mut core.requests, chat_req(&format!("m{}", i))).unwrap();
    }
    let mut pump = OutboundPump::new(1);
    let mut now: u64 = 0;
    let mut seen = Vec::new();
    while seen.len() < 5 {
        match pump.step(&mut core.requests, now) {
            PumpStep::Deliver { request, lag } => {
                assert_eq!(lag, 0);
                if let ComponentMessage::Chat(m) = request {
                    seen.push(m.message);
                }
            }
            PumpStep::Wait { for_ms } => now += for_ms,
            _ => panic!("five requests were submitted"),
        }
    }
    let expected: Vec<String> = (0..5).map(|i| format!("m{}", i)).collect();
    assert_eq!(seen, expected);
}
