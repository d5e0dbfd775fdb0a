use vstd::prelude::*;

use crate::irc::InboundEvent;

verus! {

/// The history index that a read with position `cursor` actually returns when
/// the oldest still-buffered entry has index `oldest`: a reader that fell
/// behind the buffer is forcibly advanced to the oldest available entry.
pub open spec fn read_index(oldest: int, cursor: int) -> int {
    if cursor >= oldest {
        cursor
    } else {
        oldest
    }
}

/// Outcome of asking a broadcast channel for the next event.
pub enum NextEvent {
    /// The next event for this reader, and how many events the reader skipped
    /// because it fell behind the buffer (0 when it kept up).
    Event { event: InboundEvent, lag: usize },
    /// No event has been broadcast past this reader's position yet; a blocking
    /// reader would suspend here.
    Pending,
    /// The channel is closed and this reader has seen everything: terminal.
    Closed,
}

/// A bounded single-producer, multi-consumer broadcast channel: a sliding
/// window over an append-only event log. Writes carry a monotonic sequence
/// number; each subscriber holds its own read cursor into the log and is
/// skipped ahead (with a lag count) when it falls more than `cap` behind.
/// The writer never waits for a slow reader.
pub struct EventChannel {
    /// The most recent events, oldest first; at most `cap` of them.
    slots: Vec<InboundEvent>,
    /// The next write sequence number == how many events were ever broadcast.
    next_seq: usize,
    /// Fixed buffer capacity.
    cap: usize,
    /// Whether the producer has shut the channel down.
    closed: bool,
    /// The full broadcast history, which `slots` windows.
    hist: Ghost<Seq<InboundEvent>>,
}

impl EventChannel {
    /// The complete sequence of events broadcast so far.
    pub closed spec fn history(&self) -> Seq<InboundEvent> {
        self.hist@
    }

    /// The write sequence number: length of the history.
    pub closed spec fn seq_no(&self) -> int {
        self.next_seq as int
    }

    /// The history index of the oldest event still buffered.
    pub closed spec fn oldest(&self) -> int {
        self.next_seq - self.slots@.len()
    }

    pub closed spec fn capacity(&self) -> int {
        self.cap as int
    }

    pub closed spec fn is_closed(&self) -> bool {
        self.closed
    }

    /// Internal consistency: the buffer is exactly the most recent window of
    /// the history, no longer than the capacity.
    pub closed spec fn wf(&self) -> bool {
        &&& 1 <= self.cap
        &&& self.hist@.len() == self.next_seq
        &&& self.slots@.len() <= self.cap
        &&& self.slots@.len() <= self.next_seq
        &&& (self.slots@.len() == self.cap || self.slots@.len() == self.next_seq)
        &&& self.slots@ == self.hist@.subrange(
            self.next_seq - self.slots@.len(),
            self.next_seq as int,
        )
    }


    /// Facts every well-formed channel's model satisfies, for callers that
    /// cannot see inside `wf`.
    pub proof fn model_facts(&self)
        requires
            self.wf(),
        ensures
            self.history().len() == self.seq_no(),
            0 <= self.oldest() <= self.seq_no(),
            self.seq_no() - self.capacity() <= self.oldest(),
            1 <= self.capacity(),
    {
    }

    pub fn new(cap: usize) -> (r: EventChannel)
        requires
            1 <= cap,
        ensures
            r.wf(),
            r.history() == Seq::<InboundEvent>::empty(),
            r.seq_no() == 0,
            r.capacity() == cap,
            !r.is_closed(),
    {
        let r = EventChannel {
            slots: Vec::new(),
            next_seq: 0,
            cap,
            closed: false,
            hist: Ghost(Seq::empty()),
        };
        proof {
            assert(r.slots@ =~= r.hist@.subrange(0, 0));
        }
        r
    }

    /// Append one event to the log. Never blocks: when the buffer is full the
    /// oldest entry is dropped, to be reported as lag to any reader that still
    /// needed it.
    pub fn broadcast(&mut self, ev: InboundEvent)
        requires
            old(self).wf(),
            old(self).seq_no() < usize::MAX,
        ensures
            final(self).wf(),
            final(self).history() == old(self).history().push(ev),
            final(self).seq_no() == old(self).seq_no() + 1,
            final(self).capacity() == old(self).capacity(),
            final(self).is_closed() == old(self).is_closed(),
            final(self).oldest() >= old(self).oldest(),
    {
        if self.slots.len() == self.cap {
            self.slots.remove(0);
        }
        self.slots.push(ev);
        self.next_seq = self.next_seq + 1;
        proof {
            self.hist@ = self.hist@.push(ev);
            assert(self.slots@ =~= self.hist@.subrange(
                self.next_seq - self.slots@.len(),
                self.next_seq as int,
            ));
        }
    }

    /// A fresh subscription cursor: it starts at the current write position,
    /// so a new subscriber sees no event broadcast before it attached.
    pub fn subscribe(&self) -> (c: usize)
        ensures
            c == self.seq_no(),
    {
        self.next_seq
    }

    /// Read the next event for the reader at `*cursor`, advancing the cursor.
    /// A reader that fell behind the buffer is advanced to the oldest buffered
    /// event and told how many it skipped; a reader that has seen everything
    /// gets `Pending` while the channel is open and `Closed` once it is shut.
    pub fn recv(&self, cursor: &mut usize) -> (r: NextEvent)
        requires
            self.wf(),
            *old(cursor) <= self.seq_no(),
        ensures
            *final(cursor) <= self.seq_no(),
            *final(cursor) >= *old(cursor),
            match r {
                NextEvent::Event { event, lag } => {
                    let i = read_index(self.oldest(), *old(cursor) as int);
                    &&& *old(cursor) < self.seq_no()
                    &&& event == self.history()[i]
                    &&& lag == i - *old(cursor)
                    &&& *final(cursor) == i + 1
                },
                NextEvent::Pending => {
                    &&& *old(cursor) == self.seq_no()
                    &&& !self.is_closed()
                    &&& *final(cursor) == *old(cursor)
                },
                NextEvent::Closed => {
                    &&& *old(cursor) == self.seq_no()
                    &&& self.is_closed()
                    &&& *final(cursor) == *old(cursor)
                },
            },
    {
        if *cursor == self.next_seq {
            if self.closed {
                NextEvent::Closed
            } else {
                NextEvent::Pending
            }
        } else {
            let oldest = self.next_seq - self.slots.len();
            let i = if *cursor >= oldest {
                *cursor
            } else {
                oldest
            };
            let lag = i - *cursor;
            let event = self.slots[i - oldest].clone();
            *cursor = i + 1;
            NextEvent::Event { event, lag }
        }
    }

    /// The buffered window sits exactly `capacity` behind the head: a reader
    /// no further behind than the capacity has not lagged and reads precisely
    /// the entry at its cursor, while one paused until more than the capacity
    /// of events passed it is advanced to `seq_no - capacity` — the oldest
    /// buffered entry — and reports exactly the entries lost to it as lag.
    pub proof fn lemma_buffer_window(&self, cursor: int)
        requires
            self.wf(),
            0 <= cursor <= self.seq_no(),
        ensures
            self.oldest() == if self.seq_no() <= self.capacity() {
                0int
            } else {
                self.seq_no() - self.capacity()
            },
            self.seq_no() - self.capacity() <= cursor ==> read_index(self.oldest(), cursor)
                == cursor,
            cursor < self.seq_no() - self.capacity() ==> {
                &&& read_index(self.oldest(), cursor) == self.seq_no() - self.capacity()
                &&& read_index(self.oldest(), cursor) - cursor == self.seq_no() - self.capacity()
                    - cursor
            },
    {
    }

    /// Shut the channel down: no more events will be broadcast, and every
    /// reader that catches up receives the terminal `Closed` signal instead
    /// of blocking forever.
    pub fn close(&mut self)
        requires
            old(self).wf(),
        ensures
            final(self).wf(),
            final(self).is_closed(),
            final(self).history() == old(self).history(),
            final(self).seq_no() == old(self).seq_no(),
            final(self).capacity() == old(self).capacity(),
            final(self).oldest() == old(self).oldest(),
    {
        self.closed = true;
    }
}

} // verus!
