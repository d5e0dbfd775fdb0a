use vstd::prelude::*;

use crate::channel::{EventChannel, NextEvent};
use crate::error::Error;
use crate::request::RequestChannel;

verus! {

/// Slot capacity of both bus channels.
pub const CHANNEL_CAPACITY: usize = 200;

/// An inbound event produced by the upstream chat connection. Only chat
/// messages and channel-join notices carry data the bus consumers read;
/// every other upstream event kind is carried as `Unsupported`.
pub enum InboundEvent {
    /// A chat message: the channel it was posted to, the sender, the text.
    Chat { channel: String, sender: String, text: String },
    /// A notice that the connection joined a channel.
    ChannelJoin { channel: String },
    /// Any upstream event kind the bus does not interpret.
    Unsupported,
}

impl Clone for InboundEvent {
    fn clone(&self) -> (r: Self)
        ensures
            r == *self,
    {
        match self {
            InboundEvent::Chat { channel, sender, text } => InboundEvent::Chat {
                channel: channel.clone(),
                sender: sender.clone(),
                text: text.clone(),
            },
            InboundEvent::ChannelJoin { channel } => InboundEvent::ChannelJoin {
                channel: channel.clone(),
            },
            InboundEvent::Unsupported => InboundEvent::Unsupported,
        }
    }
}

/// An outbound request to post a chat message.
pub struct ChatMessage {
    pub channel: String,
    pub message: String,
}

impl Clone for ChatMessage {
    fn clone(&self) -> (r: Self)
        ensures
            r == *self,
    {
        ChatMessage { channel: self.channel.clone(), message: self.message.clone() }
    }
}

/// An outbound request to join a channel.
pub struct JoinChannelMessage {
    pub channel: String,
}

impl Clone for JoinChannelMessage {
    fn clone(&self) -> (r: Self)
        ensures
            r == *self,
    {
        JoinChannelMessage { channel: self.channel.clone() }
    }
}

/// An outbound request submitted by a consumer, consumed once by the
/// outbound pump and handed to the upstream connection.
pub enum ComponentMessage {
    Chat(ChatMessage),
    JoinChannel(JoinChannelMessage),
}

impl Clone for ComponentMessage {
    fn clone(&self) -> (r: Self)
        ensures
            r == *self,
    {
        match self {
            ComponentMessage::Chat(m) => ComponentMessage::Chat(m.clone()),
            ComponentMessage::JoinChannel(m) => ComponentMessage::JoinChannel(m.clone()),
        }
    }
}

/// The handle a bus consumer holds: its own read cursor into the event
/// broadcast channel, paired with the (shared, serialized) right to submit
/// outbound requests. It is a capability token: it owns none of the bus state.
pub struct MessageDispatcher {
    cursor: usize,
}

impl MessageDispatcher {
    /// This consumer's read position in the event history: every event before
    /// it was either delivered to this consumer or reported skipped.
    pub closed spec fn cursor(&self) -> int {
        self.cursor as int
    }

    /// A dispatcher is tied to the event channel it was subscribed to: its
    /// cursor never runs past the writer.
    pub open spec fn attached_to(&self, events: &EventChannel) -> bool {
        self.cursor() <= events.seq_no()
    }

    /// Duplicate this handle for another consumer: the copy shares the (cheaply
    /// copyable) right to submit requests and gets its own fresh cursor at the
    /// current end of the event stream — it does not replay events broadcast
    /// before the duplication, and the two copies lag independently.
    pub fn duplicate(&self, events: &EventChannel) -> (d: MessageDispatcher)
        ensures
            d.cursor() == events.seq_no(),
            d.attached_to(events),
    {
        MessageDispatcher { cursor: events.subscribe() }
    }

    /// Wait for the next broadcast event past this consumer's cursor. The
    /// consumer learns how many events it missed (`lag`) if it fell behind,
    /// and receives the terminal `Closed` signal once the bus shuts down and
    /// it has drained the buffer. Only this consumer's cursor moves.
    pub fn next_event(&mut self, events: &EventChannel) -> (r: NextEvent)
        requires
            events.wf(),
            old(self).attached_to(events),
        ensures
            final(self).attached_to(events),
            final(self).cursor() >= old(self).cursor(),
            match r {
                NextEvent::Event { event, lag } => {
                    let i = crate::channel::read_index(events.oldest(), old(self).cursor());
                    &&& old(self).cursor() < events.seq_no()
                    &&& event == events.history()[i]
                    &&& lag == i - old(self).cursor()
                    &&& final(self).cursor() == i + 1
                },
                NextEvent::Pending => {
                    &&& old(self).cursor() == events.seq_no()
                    &&& !events.is_closed()
                    &&& *final(self) == *old(self)
                },
                NextEvent::Closed => {
                    &&& old(self).cursor() == events.seq_no()
                    &&& events.is_closed()
                    &&& *final(self) == *old(self)
                },
            },
    {
        events.recv(&mut self.cursor)
    }

    /// Submit one outbound request into the fan-in channel. Succeeds exactly
    /// when the bus has not shut down.
    pub fn publish(&self, requests: &mut RequestChannel, req: ComponentMessage) -> (r: Result<
        (),
        Error,
    >)
        requires
            old(requests).wf(),
            old(requests).seq_no() < usize::MAX,
        ensures
            final(requests).wf(),
            final(requests).is_closed() == old(requests).is_closed(),
            final(requests).capacity() == old(requests).capacity(),
            final(requests).cursor() == old(requests).cursor(),
            match r {
                Ok(()) => {
                    &&& !old(requests).is_closed()
                    &&& final(requests).history() == old(requests).history().push(req)
                    &&& final(requests).seq_no() == old(requests).seq_no() + 1
                },
                Err(e) => {
                    &&& e == Error::ChannelClosed
                    &&& old(requests).is_closed()
                    &&& *final(requests) == *old(requests)
                },
            },
    {
        requests.send(req)
    }
}

/// The bus core: sole owner of the event broadcast channel and the request
/// fan-in channel. The surrounding runtime pumps it: inbound events from the
/// upstream connection go through `broadcast_event`, and the outbound pump
/// drains `requests` (paced) toward the upstream connection.
pub struct IrcCore {
    pub events: EventChannel,
    pub requests: RequestChannel,
}

impl IrcCore {
    pub open spec fn wf(&self) -> bool {
        &&& self.events.wf()
        &&& self.requests.wf()
    }

    /// A fresh bus with both channels empty, open, and of the design capacity.
    pub fn new() -> (r: IrcCore)
        ensures
            r.wf(),
            r.events.history() == Seq::<InboundEvent>::empty(),
            r.events.seq_no() == 0,
            !r.events.is_closed(),
            r.events.capacity() == CHANNEL_CAPACITY as int,
            r.requests.history() == Seq::<ComponentMessage>::empty(),
            r.requests.seq_no() == 0,
            r.requests.cursor() == 0,
            !r.requests.is_closed(),
            r.requests.capacity() == CHANNEL_CAPACITY as int,
    {
        IrcCore { events: EventChannel::new(CHANNEL_CAPACITY), requests: RequestChannel::new(CHANNEL_CAPACITY) }
    }

    /// Hand out a consumer handle. It never fails: subscribing is a pure
    /// cursor creation, starting at the current write position, so the new
    /// consumer sees only events broadcast after this call.
    pub fn get_msg_dispatcher(&self) -> (d: MessageDispatcher)
        ensures
            d.cursor() == self.events.seq_no(),
            d.attached_to(&self.events),
    {
        MessageDispatcher { cursor: self.events.subscribe() }
    }

    /// Broadcast one inbound event to every subscriber (the inbound pump's
    /// per-event step). Never blocks on a slow subscriber.
    pub fn broadcast_event(&mut self, ev: InboundEvent)
        requires
            old(self).wf(),
            old(self).events.seq_no() < usize::MAX,
        ensures
            final(self).wf(),
            final(self).events.history() == old(self).events.history().push(ev),
            final(self).events.seq_no() == old(self).events.seq_no() + 1,
            final(self).events.capacity() == old(self).events.capacity(),
            final(self).events.is_closed() == old(self).events.is_closed(),
            final(self).events.oldest() >= old(self).events.oldest(),
            final(self).requests == old(self).requests,
    {
        self.events.broadcast(ev)
    }

    /// Shut the bus down: both channels close, producers are refused, and
    /// every blocked reader will drain what is buffered and then receive the
    /// terminal close signal instead of blocking forever.
    pub fn shutdown(&mut self)
        requires
            old(self).wf(),
        ensures
            final(self).wf(),
            final(self).events.is_closed(),
            final(self).requests.is_closed(),
            final(self).events.history() == old(self).events.history(),
            final(self).events.seq_no() == old(self).events.seq_no(),
            final(self).events.oldest() == old(self).events.oldest(),
            final(self).requests.history() == old(self).requests.history(),
            final(self).requests.seq_no() == old(self).requests.seq_no(),
            final(self).requests.cursor() == old(self).requests.cursor(),
    {
        self.events.close();
        self.requests.close();
    }
}

} // verus!
