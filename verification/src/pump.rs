use vstd::prelude::*;

use crate::channel::read_index;
use crate::irc::ComponentMessage;
use crate::request::{NextRequest, RequestChannel};

verus! {

/// Design value: the minimum spacing between two adjacent deliveries to the
/// upstream connection, in milliseconds.
pub const MIN_SEND_INTERVAL_MS: u64 = 2000;

/// Adjacent delivery times are at least `interval` apart.
pub open spec fn paced(times: Seq<u64>, interval: u64) -> bool {
    forall|j: int| 0 <= j < times.len() - 1 ==> #[trigger] times[j + 1] >= times[j] + interval
}

/// What the outbound pump decides to do in one step.
pub enum PumpStep {
    /// Hand this request to the upstream connection now. `lag` counts
    /// requests that were dropped from a full buffer ahead of it.
    Deliver { request: ComponentMessage, lag: usize },
    /// The pacing interval since the previous delivery has not elapsed:
    /// wait this many milliseconds, then step again.
    Wait { for_ms: u64 },
    /// Every submitted request is consumed: block until one arrives.
    Idle,
    /// The request channel is closed and drained: the pump terminates.
    Shutdown,
}

/// The decision core of the outbound pump: it drains the request fan-in
/// channel one request at a time and enforces a fixed minimum spacing between
/// adjacent deliveries, regardless of request type. The surrounding runtime
/// supplies the clock and performs the waiting and the upstream calls.
pub struct OutboundPump {
    /// Fixed minimum spacing between deliveries, milliseconds.
    min_interval: u64,
    /// When the most recent delivery happened, if any.
    last_sent: Option<u64>,
    /// Every delivery time so far, in order.
    deliveries: Ghost<Seq<u64>>,
}

impl OutboundPump {
    pub closed spec fn interval(&self) -> u64 {
        self.min_interval
    }

    /// The times at which the pump released a request to the upstream
    /// connection, in delivery order.
    pub closed spec fn deliveries(&self) -> Seq<u64> {
        self.deliveries@
    }

    pub closed spec fn last_sent(&self) -> Option<u64> {
        self.last_sent
    }

    /// The pacing invariant: the recorded delivery times are spaced by at
    /// least the interval, and `last_sent` is the most recent of them.
    pub closed spec fn wf(&self) -> bool {
        &&& paced(self.deliveries@, self.min_interval)
        &&& match self.last_sent {
            Some(t) => self.deliveries@.len() > 0 && self.deliveries@.last() == t,
            None => self.deliveries@.len() == 0,
        }
    }

    /// A pump that has delivered nothing yet. The pacing policy is supplied by
    /// the caller, so join-request pacing and chat pacing could be configured
    /// independently; the bus core uses `MIN_SEND_INTERVAL_MS` for both.
    pub fn new(min_interval_ms: u64) -> (r: OutboundPump)
        ensures
            r.wf(),
            r.interval() == min_interval_ms,
            r.deliveries() == Seq::<u64>::empty(),
            r.last_sent() is None,
    {
        OutboundPump { min_interval: min_interval_ms, last_sent: None, deliveries: Ghost(Seq::empty()) }
    }

    /// One pump step at clock time `now_ms`. Delivers the next undelivered
    /// request exactly when one is pending and the pacing interval since the
    /// previous delivery has elapsed; otherwise says how long to wait, or
    /// that the channel is drained (`Idle`) or terminated (`Shutdown`).
    pub fn step(&mut self, requests: &mut RequestChannel, now_ms: u64) -> (r: PumpStep)
        requires
            old(self).wf(),
            old(requests).wf(),
            // the caller's clock is monotonic: it never runs behind a time
            // this pump has already observed
            old(self).last_sent() matches Some(t) ==> t <= now_ms,
            // the clock value leaves room for one more interval
            now_ms + old(self).interval() <= u64::MAX,
        ensures
            final(self).wf(),
            final(self).interval() == old(self).interval(),
            final(requests).wf(),
            final(requests).history() == old(requests).history(),
            final(requests).seq_no() == old(requests).seq_no(),
            final(requests).oldest() == old(requests).oldest(),
            final(requests).is_closed() == old(requests).is_closed(),
            match r {
                PumpStep::Deliver { request, lag } => {
                    let i = read_index(old(requests).oldest(), old(requests).cursor());
                    &&& old(requests).cursor() < old(requests).seq_no()
                    &&& request == old(requests).history()[i]
                    &&& lag == i - old(requests).cursor()
                    &&& final(requests).cursor() == i + 1
                    &&& (old(self).last_sent() matches Some(t) ==> now_ms >= t
                        + old(self).interval())
                    &&& final(self).deliveries() == old(self).deliveries().push(now_ms)
                    &&& final(self).last_sent() == Some(now_ms)
                },
                PumpStep::Wait { for_ms } => {
                    &&& old(self).last_sent() matches Some(t) && now_ms < t + old(self).interval()
                        && now_ms + for_ms == t + old(self).interval()
                    &&& *final(self) == *old(self)
                    &&& *final(requests) == *old(requests)
                },
                PumpStep::Idle => {
                    &&& old(requests).cursor() == old(requests).seq_no()
                    &&& !old(requests).is_closed()
                    &&& (old(self).last_sent() matches Some(t) ==> now_ms >= t
                        + old(self).interval())
                    &&& *final(self) == *old(self)
                    &&& *final(requests) == *old(requests)
                },
                PumpStep::Shutdown => {
                    &&& old(requests).cursor() == old(requests).seq_no()
                    &&& old(requests).is_closed()
                    &&& *final(self) == *old(self)
                    &&& *final(requests) == *old(requests)
                },
            },
    {
        match self.last_sent {
            Some(t) => {
                let next_allowed = t + self.min_interval;
                if now_ms < next_allowed {
                    return PumpStep::Wait { for_ms: next_allowed - now_ms };
                }
            },
            None => {},
        }
        match requests.pop() {
            NextRequest::Request { request, lag } => {
                self.last_sent = Some(now_ms);
                proof {
                    self.deliveries@ = self.deliveries@.push(now_ms);
                }
                PumpStep::Deliver { request, lag }
            },
            NextRequest::Pending => PumpStep::Idle,
            NextRequest::Closed => PumpStep::Shutdown,
        }
    }
}

/// Enforced pacing: of any two requests delivered back-to-back by a pump, the
/// later left at least the pump's minimum interval after the earlier — and in
/// general every pair of adjacent deliveries is so spaced.
pub proof fn lemma_enforced_pacing(p: &OutboundPump, j: int)
    requires
        p.wf(),
        0 <= j < p.deliveries().len() - 1,
    ensures
        p.deliveries()[j + 1] - p.deliveries()[j] >= p.interval(),
{
}

} // verus!
