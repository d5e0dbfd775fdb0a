use vstd::prelude::*;

use crate::channel::read_index;
use crate::error::Error;
use crate::irc::ComponentMessage;

verus! {

/// Outcome of asking the request channel for the next outbound request.
pub enum NextRequest {
    /// The next undelivered request, and how many requests were dropped ahead
    /// of it because the consumer fell behind a full buffer (0 normally).
    Request { request: ComponentMessage, lag: usize },
    /// Every submitted request has been consumed; a blocking consumer would
    /// suspend here.
    Pending,
    /// The channel is closed and drained: terminal.
    Closed,
}

/// A bounded multi-producer, single-consumer fan-in channel for outbound
/// requests. Any number of producers append; submissions are serialized into
/// one total order (`history`), so each producer's own requests keep their
/// submission order. The single consumer (the outbound pump) holds the one
/// read cursor; each request is consumed at most once. When the buffer is
/// full the oldest entry is dropped rather than blocking a producer.
pub struct RequestChannel {
    /// The most recent undropped requests, oldest first; at most `cap`.
    slots: Vec<ComponentMessage>,
    /// The next write sequence number == how many requests were ever sent.
    next_seq: usize,
    /// The consumer's read position in the history.
    read_cursor: usize,
    /// Fixed buffer capacity.
    cap: usize,
    /// Whether the channel has been shut down.
    closed: bool,
    /// The full submission history, which `slots` windows.
    hist: Ghost<Seq<ComponentMessage>>,
}

impl RequestChannel {
    /// The complete sequence of requests submitted so far, in the single
    /// serialized fan-in order.
    pub closed spec fn history(&self) -> Seq<ComponentMessage> {
        self.hist@
    }

    /// The write sequence number: length of the history.
    pub closed spec fn seq_no(&self) -> int {
        self.next_seq as int
    }

    /// The history index of the oldest request still buffered.
    pub closed spec fn oldest(&self) -> int {
        self.next_seq - self.slots@.len()
    }

    /// The consumer's position: every request before it was either delivered
    /// once or reported dropped.
    pub closed spec fn cursor(&self) -> int {
        self.read_cursor as int
    }

    pub closed spec fn capacity(&self) -> int {
        self.cap as int
    }

    pub closed spec fn is_closed(&self) -> bool {
        self.closed
    }

    /// Internal consistency: the buffer is exactly the most recent window of
    /// the history, and the consumer never runs past the writer.
    pub closed spec fn wf(&self) -> bool {
        &&& 1 <= self.cap
        &&& self.hist@.len() == self.next_seq
        &&& self.slots@.len() <= self.cap
        &&& self.slots@.len() <= self.next_seq
        &&& (self.slots@.len() == self.cap || self.slots@.len() == self.next_seq)
        &&& self.slots@ == self.hist@.subrange(
            self.next_seq - self.slots@.len(),
            self.next_seq as int,
        )
        &&& self.read_cursor <= self.next_seq
    }


    /// Facts every well-formed channel's model satisfies, for callers that
    /// cannot see inside `wf`.
    pub proof fn model_facts(&self)
        requires
            self.wf(),
        ensures
            self.history().len() == self.seq_no(),
            0 <= self.oldest() <= self.seq_no(),
            self.seq_no() - self.capacity() <= self.oldest(),
            0 <= self.cursor() <= self.seq_no(),
            1 <= self.capacity(),
    {
    }

    pub fn new(cap: usize) -> (r: RequestChannel)
        requires
            1 <= cap,
        ensures
            r.wf(),
            r.history() == Seq::<ComponentMessage>::empty(),
            r.seq_no() == 0,
            r.cursor() == 0,
            r.capacity() == cap,
            !r.is_closed(),
    {
        let r = RequestChannel {
            slots: Vec::new(),
            next_seq: 0,
            read_cursor: 0,
            cap,
            closed: false,
            hist: Ghost(Seq::empty()),
        };
        proof {
            assert(r.slots@ =~= r.hist@.subrange(0, 0));
        }
        r
    }

    /// How many requests were ever submitted: the current write sequence
    /// number.
    pub fn sent(&self) -> (n: usize)
        ensures
            n == self.seq_no(),
    {
        self.next_seq
    }

    /// Submit one request. Succeeds exactly when the channel is still open;
    /// it never blocks the producer. On a full buffer the oldest buffered
    /// request is dropped (reported to the consumer as lag).
    pub fn send(&mut self, req: ComponentMessage) -> (r: Result<(), Error>)
        requires
            old(self).wf(),
            old(self).seq_no() < usize::MAX,
        ensures
            final(self).wf(),
            final(self).is_closed() == old(self).is_closed(),
            final(self).capacity() == old(self).capacity(),
            final(self).cursor() == old(self).cursor(),
            final(self).oldest() >= old(self).oldest(),
            match r {
                Ok(()) => {
                    &&& !old(self).is_closed()
                    &&& final(self).history() == old(self).history().push(req)
                    &&& final(self).seq_no() == old(self).seq_no() + 1
                },
                Err(e) => {
                    &&& e == Error::ChannelClosed
                    &&& old(self).is_closed()
                    &&& *final(self) == *old(self)
                },
            },
    {
        if self.closed {
            return Err(Error::ChannelClosed);
        }
        if self.slots.len() == self.cap {
            self.slots.remove(0);
        }
        self.slots.push(req);
        self.next_seq = self.next_seq + 1;
        proof {
            self.hist@ = self.hist@.push(req);
            assert(self.slots@ =~= self.hist@.subrange(
                self.next_seq - self.slots@.len(),
                self.next_seq as int,
            ));
        }
        Ok(())
    }

    /// Take the next undelivered request, advancing the consumer cursor past
    /// it, so no request is ever delivered twice. A consumer that fell behind
    /// a full buffer is advanced to the oldest buffered request and told how
    /// many were dropped.
    pub fn pop(&mut self) -> (r: NextRequest)
        requires
            old(self).wf(),
        ensures
            final(self).wf(),
            final(self).history() == old(self).history(),
            final(self).seq_no() == old(self).seq_no(),
            final(self).oldest() == old(self).oldest(),
            final(self).capacity() == old(self).capacity(),
            final(self).is_closed() == old(self).is_closed(),
            final(self).cursor() >= old(self).cursor(),
            match r {
                NextRequest::Request { request, lag } => {
                    let i = read_index(old(self).oldest(), old(self).cursor());
                    &&& old(self).cursor() < old(self).seq_no()
                    &&& request == old(self).history()[i]
                    &&& lag == i - old(self).cursor()
                    &&& final(self).cursor() == i + 1
                },
                NextRequest::Pending => {
                    &&& old(self).cursor() == old(self).seq_no()
                    &&& !old(self).is_closed()
                    &&& *final(self) == *old(self)
                },
                NextRequest::Closed => {
                    &&& old(self).cursor() == old(self).seq_no()
                    &&& old(self).is_closed()
                    &&& *final(self) == *old(self)
                },
            },
    {
        if self.read_cursor == self.next_seq {
            if self.closed {
                NextRequest::Closed
            } else {
                NextRequest::Pending
            }
        } else {
            let oldest = self.next_seq - self.slots.len();
            let i = if self.read_cursor >= oldest {
                self.read_cursor
            } else {
                oldest
            };
            let lag = i - self.read_cursor;
            let request = self.slots[i - oldest].clone();
            self.read_cursor = i + 1;
            NextRequest::Request { request, lag }
        }
    }

    /// Shut the channel down: further `send` calls fail, and once drained the
    /// consumer receives the terminal `Closed` signal.
    pub fn close(&mut self)
        requires
            old(self).wf(),
        ensures
            final(self).wf(),
            final(self).is_closed(),
            final(self).history() == old(self).history(),
            final(self).seq_no() == old(self).seq_no(),
            final(self).cursor() == old(self).cursor(),
            final(self).oldest() == old(self).oldest(),
            final(self).capacity() == old(self).capacity(),
    {
        self.closed = true;
    }
}

} // verus!
