//! Delivery laws of the bus channels, stated over the channels' history
//! model (`history`, `oldest`, cursors) and the shared `read_index` function
//! that both channels' read operations are specified with.

use vstd::prelude::*;

use crate::channel::read_index;

verus! {

/// The history entries a single reader observes over `k` consecutive reads
/// against a fixed channel state: each read returns the entry at
/// `read_index(oldest, cursor)` and advances the cursor just past it.
pub open spec fn observed<T>(hist: Seq<T>, oldest: int, cursor: int, k: nat) -> Seq<T>
    decreases k,
{
    if k == 0 {
        Seq::empty()
    } else {
        seq![hist[read_index(oldest, cursor)]] + observed(
            hist,
            oldest,
            read_index(oldest, cursor) + 1,
            (k - 1) as nat,
        )
    }
}

/// The history indices those `k` consecutive reads return.
pub open spec fn observed_indices(oldest: int, cursor: int, k: nat) -> Seq<int>
    decreases k,
{
    if k == 0 {
        Seq::empty()
    } else {
        seq![read_index(oldest, cursor)] + observed_indices(
            oldest,
            read_index(oldest, cursor) + 1,
            (k - 1) as nat,
        )
    }
}

/// `k` reads yield `k` indices.
pub proof fn lemma_observed_indices_len(oldest: int, cursor: int, k: nat)
    ensures
        observed_indices(oldest, cursor, k).len() == k,
    decreases k,
{
    if k > 0 {
        lemma_observed_indices_len(oldest, read_index(oldest, cursor) + 1, (k - 1) as nat);
    }
}

/// Each of the `k` reads returns the history entry at its index.
pub proof fn lemma_observed_at_indices<T>(hist: Seq<T>, oldest: int, cursor: int, k: nat)
    ensures
        observed(hist, oldest, cursor, k).len() == k,
        observed_indices(oldest, cursor, k).len() == k,
        forall|j: int|
            0 <= j < k ==> #[trigger] observed::<T>(hist, oldest, cursor, k)[j] == hist[
                observed_indices(oldest, cursor, k)[j]
            ],
    decreases k,
{
    if k > 0 {
        lemma_observed_at_indices(hist, oldest, read_index(oldest, cursor) + 1, (k - 1) as nat);
    }
}

/// A reader that never falls behind observes exactly the broadcast history,
/// in broadcast order: `k` reads starting at `cursor`, with the buffer still
/// holding the entry at `cursor` (`oldest <= cursor`), return precisely
/// `hist[cursor .. cursor + k]`. In particular, a subscriber created before
/// the first of `N` events that never lags observes exactly those `N` events
/// in the order they were broadcast (`cursor == 0`, `k == N`).
pub proof fn lemma_in_order_delivery<T>(hist: Seq<T>, oldest: int, cursor: int, k: nat)
    requires
        oldest <= cursor,
        0 <= cursor,
        cursor + k <= hist.len(),
    ensures
        observed(hist, oldest, cursor, k) == hist.subrange(cursor, cursor + k),
    decreases k,
{
    if k == 0 {
        assert(observed::<T>(hist, oldest, cursor, 0) =~= hist.subrange(cursor, cursor));
    } else {
        lemma_in_order_delivery(hist, oldest, cursor + 1, (k - 1) as nat);
        assert(observed::<T>(hist, oldest, cursor, k) =~= hist.subrange(cursor, cursor + k));
    }
}

/// No replay: a read never returns an entry from before the reader's cursor,
/// so a subscriber that attaches when `K` events have already been broadcast
/// (its fresh cursor is `K`) observes only entries with history index at
/// least `K` — events broadcast after it attached.
pub proof fn lemma_no_replay(oldest: int, cursor: int, k: nat)
    ensures
        forall|j: int| 0 <= j < k ==> #[trigger] observed_indices(oldest, cursor, k)[j] >= cursor,
    decreases k,
{
    if k > 0 {
        let i = read_index(oldest, cursor);
        lemma_no_replay(oldest, i + 1, (k - 1) as nat);
        lemma_observed_indices_len(oldest, i + 1, (k - 1) as nat);
        let whole = observed_indices(oldest, cursor, k);
        let rest = observed_indices(oldest, i + 1, (k - 1) as nat);
        assert(whole == seq![i] + rest);
        assert forall|j: int| 0 <= j < k implies #[trigger] whole[j] >= cursor by {
            if j > 0 {
                assert((seq![i] + rest)[j] == rest[j - 1]);
                assert(rest[j - 1] >= i + 1);
            }
        }
    }
}

/// A lagged reader skips exactly what it missed: when a reader's cursor fell
/// behind the oldest buffered entry (more than the buffer capacity of events
/// were broadcast past it), its next read reports a lag count equal to the
/// number of entries that are gone — `oldest - cursor` — returns the oldest
/// still-buffered entry, and resumes in order from there.
pub proof fn lemma_lagged_read<T>(hist: Seq<T>, oldest: int, cursor: int, k: nat)
    requires
        0 <= cursor < oldest,
        oldest + k <= hist.len(),
        1 <= k,
    ensures
        read_index(oldest, cursor) == oldest,
        read_index(oldest, cursor) - cursor == oldest - cursor,
        observed(hist, oldest, cursor, k) == hist.subrange(oldest, oldest + k),
    decreases k,
{
    lemma_in_order_delivery(hist, oldest, oldest + 1, (k - 1) as nat);
    assert(observed::<T>(hist, oldest, cursor, k) =~= hist.subrange(oldest, oldest + k));
}

/// At-most-once, order-preserving delivery: across two successive reads —
/// with any number of interleaved writes, which only grow the history and
/// advance `oldest` — the second read's history index is strictly greater
/// than the first's. No entry is ever delivered twice to one reader, and the
/// entries one reader (in particular the single request-channel consumer)
/// receives appear in history order; since each producer's submissions enter
/// the history in its own submission order, delivery preserves every
/// producer's order.
pub proof fn lemma_deliveries_advance(oldest1: int, cursor1: int, oldest2: int)
    ensures
        read_index(oldest2, read_index(oldest1, cursor1) + 1) > read_index(oldest1, cursor1),
        read_index(oldest1, cursor1) >= cursor1,
{
}

/// The indices of `k` consecutive reads are strictly increasing: within any
/// drain of a channel, every history entry is delivered at most once and
/// deliveries preserve the history (fan-in submission) order.
pub proof fn lemma_indices_strictly_increase(oldest: int, cursor: int, k: nat)
    ensures
        forall|a: int, b: int|
            0 <= a < b < k ==> #[trigger] observed_indices(oldest, cursor, k)[a]
                < #[trigger] observed_indices(oldest, cursor, k)[b],
    decreases k,
{
    if k > 0 {
        let i = read_index(oldest, cursor);
        lemma_indices_strictly_increase(oldest, i + 1, (k - 1) as nat);
        lemma_no_replay(oldest, i + 1, (k - 1) as nat);
        lemma_observed_indices_len(oldest, i + 1, (k - 1) as nat);
        let whole = observed_indices(oldest, cursor, k);
        let rest = observed_indices(oldest, i + 1, (k - 1) as nat);
        assert(whole == seq![i] + rest);
        assert forall|a: int, b: int| 0 <= a < b < k implies #[trigger] whole[a]
            < #[trigger] whole[b] by {
            assert((seq![i] + rest)[b] == rest[b - 1]);
            if a > 0 {
                assert((seq![i] + rest)[a] == rest[a - 1]);
            } else {
                assert((seq![i] + rest)[0] == i);
                assert(rest[b - 1] >= i + 1);
            }
        }
    }
}

} // verus!
