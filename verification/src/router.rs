use vstd::prelude::*;

use crate::channel::{read_index, EventChannel, NextEvent};
use crate::error::Error;
use crate::irc::{InboundEvent, MessageDispatcher};

verus! {

/// The router's wire record: what a remote subscriber receives per chat
/// event. Only the sender and the text cross the process boundary.
pub struct IrcMessage {
    pub user: String,
    pub message: String,
}

impl Clone for IrcMessage {
    fn clone(&self) -> (r: Self)
        ensures
            r == *self,
    {
        IrcMessage { user: self.user.clone(), message: self.message.clone() }
    }
}

/// The wire representation of an inbound event: chat messages map to a
/// record of their sender and text; no other event kind is representable.
pub open spec fn wire_of(ev: InboundEvent) -> Option<IrcMessage> {
    match ev {
        InboundEvent::Chat { channel, sender, text } => Some(
            IrcMessage { user: sender, message: text },
        ),
        _ => None,
    }
}

impl IrcMessage {
    /// Convert one inbound event to the wire shape; an event of any other
    /// kind than a chat message is unsupported.
    pub fn try_from(ev: InboundEvent) -> (r: Result<IrcMessage, Error>)
        ensures
            match wire_of(ev) {
                Some(m) => r == Ok::<IrcMessage, Error>(m),
                None => r == Err::<IrcMessage, Error>(Error::IrcMessageUnsupportedByRouter),
            },
    {
        match ev {
            InboundEvent::Chat { channel: _, sender, text } => Ok(
                IrcMessage { user: sender, message: text },
            ),
            _ => Err(Error::IrcMessageUnsupportedByRouter),
        }
    }
}

/// The lifecycle of one streaming call.
#[derive(Clone, Copy, PartialEq, Eq, Structural, Debug)]
pub enum SessionState {
    /// The call was accepted; streaming has not started yet.
    Connected,
    /// The session is live and converting events for its client.
    Streaming,
    /// The client went away (a push failed): terminal.
    Disconnected,
    /// The event channel closed under the session: terminal, clean.
    Closed,
}

/// What one session step asks the transport to do.
pub enum SessionStep {
    /// Push this converted record onto the client's stream. `lag` counts
    /// events this session skipped by falling behind (logged, not sent).
    Emit { message: IrcMessage, lag: usize },
    /// The next event has no wire representation: drop it with a local
    /// warning and keep the stream open.
    Skip { lag: usize },
    /// Nothing new was broadcast yet: block until something is.
    Pending,
    /// The event channel closed: the session ends cleanly.
    End,
}

/// Ephemeral per-client state of the router service: one subscription cursor
/// into the event channel plus the lifecycle state of the outbound stream.
/// Sessions share nothing mutable: stepping one cannot affect another.
pub struct RouterClientSession {
    dispatcher: MessageDispatcher,
    state: SessionState,
}

impl RouterClientSession {
    /// This session's read position in the event history.
    pub closed spec fn cursor(&self) -> int {
        self.dispatcher.cursor()
    }

    pub closed spec fn state(&self) -> SessionState {
        self.state
    }

    pub open spec fn attached_to(&self, events: &EventChannel) -> bool {
        self.cursor() <= events.seq_no()
    }

    /// Where this session stands in its lifecycle.
    pub fn current_state(&self) -> (r: SessionState)
        ensures
            r == self.state(),
    {
        self.state
    }

    /// A session over a fresh per-call subscription: it will see only events
    /// broadcast after the call arrived (no replay).
    pub fn new(dispatcher: MessageDispatcher) -> (s: RouterClientSession)
        ensures
            s.cursor() == dispatcher.cursor(),
            s.state() == SessionState::Connected,
    {
        RouterClientSession { dispatcher, state: SessionState::Connected }
    }

    /// One step of the session loop: take the next event past this session's
    /// cursor and decide what the transport should do with it. The channel is
    /// only read: no other session, and no local consumer, is affected.
    pub fn step(&mut self, events: &EventChannel) -> (r: SessionStep)
        requires
            events.wf(),
            old(self).attached_to(events),
            old(self).state() == SessionState::Connected || old(self).state()
                == SessionState::Streaming,
        ensures
            final(self).attached_to(events),
            final(self).cursor() >= old(self).cursor(),
            match r {
                SessionStep::Emit { message, lag } => {
                    let i = read_index(events.oldest(), old(self).cursor());
                    &&& old(self).cursor() < events.seq_no()
                    &&& wire_of(events.history()[i]) == Some(message)
                    &&& lag == i - old(self).cursor()
                    &&& final(self).cursor() == i + 1
                    &&& final(self).state() == SessionState::Streaming
                },
                SessionStep::Skip { lag } => {
                    let i = read_index(events.oldest(), old(self).cursor());
                    &&& old(self).cursor() < events.seq_no()
                    &&& wire_of(events.history()[i]) is None
                    &&& lag == i - old(self).cursor()
                    &&& final(self).cursor() == i + 1
                    &&& final(self).state() == SessionState::Streaming
                },
                SessionStep::Pending => {
                    &&& old(self).cursor() == events.seq_no()
                    &&& !events.is_closed()
                    &&& final(self).cursor() == old(self).cursor()
                    &&& final(self).state() == SessionState::Streaming
                },
                SessionStep::End => {
                    &&& old(self).cursor() == events.seq_no()
                    &&& events.is_closed()
                    &&& final(self).cursor() == old(self).cursor()
                    &&& final(self).state() == SessionState::Closed
                },
            },
    {
        self.state = SessionState::Streaming;
        match self.dispatcher.next_event(events) {
            NextEvent::Event { event, lag } => match IrcMessage::try_from(event) {
                Ok(message) => SessionStep::Emit { message, lag },
                Err(_) => SessionStep::Skip { lag },
            },
            NextEvent::Pending => SessionStep::Pending,
            NextEvent::Closed => {
                self.state = SessionState::Closed;
                SessionStep::End
            },
        }
    }

    /// Record the transport's answer to an `Emit`: a failed push means the
    /// client disconnected, and the session terminates. Discarding the
    /// session frees nothing shared — other sessions and consumers go on.
    pub fn note_send_result(&mut self, delivered: bool)
        requires
            old(self).state() == SessionState::Streaming,
        ensures
            final(self).cursor() == old(self).cursor(),
            final(self).state() == (if delivered {
                SessionState::Streaming
            } else {
                SessionState::Disconnected
            }),
    {
        if !delivered {
            self.state = SessionState::Disconnected;
        }
    }
}

/// The cross-process router service: it owns a dispatcher handle onto the bus
/// and, per remote streaming call, opens an independent session with a fresh
/// subscription. Transport and task plumbing live with the caller.
pub struct TwitchRouter {
    irc_message_dispatcher: MessageDispatcher,
}

impl TwitchRouter {
    /// The bus handle this service holds.
    pub closed spec fn dispatcher(&self) -> MessageDispatcher {
        self.irc_message_dispatcher
    }

    pub fn new(irc_message_dispatcher: MessageDispatcher) -> (r: TwitchRouter)
        ensures
            r.dispatcher() == irc_message_dispatcher,
    {
        TwitchRouter { irc_message_dispatcher }
    }

    /// Accept one streaming call: a new session subscribed at the current end
    /// of the event stream, so the client receives only events broadcast
    /// after its call (no replay), independently of every other session.
    pub fn open_session(&self, events: &EventChannel) -> (s: RouterClientSession)
        ensures
            s.cursor() == events.seq_no(),
            s.state() == SessionState::Connected,
            s.attached_to(events),
    {
        RouterClientSession::new(self.irc_message_dispatcher.duplicate(events))
    }
}

} // verus!
