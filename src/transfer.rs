//! Moving an exact number of bytes over a socket that may move fewer bytes per
//! call, with a timeout that restarts whenever bytes move.
//!
//! The caller performs each send or receive and reports what happened; the
//! transfer decides whether to go on, and how the transfer ended.

use vstd::prelude::*;

verus! {

/// How long the peer may stay silent, in milliseconds, before a transfer gives up.
pub const TIMEOUT_MILLIS: u64 = 500;

/// A failed socket call other than "would block".
#[derive(Copy, Clone, Debug, PartialEq, Eq, Structural)]
pub enum IoFailure {
    /// The peer closed its end while we were writing.
    BrokenPipe,
    /// Any other failure.
    Other,
}

/// What one socket call did.
#[derive(Copy, Clone, Debug, PartialEq, Eq, Structural)]
pub enum TransferEvent {
    /// `count` bytes moved; the clock read `now_ms` afterwards.
    Moved { count: usize, now_ms: u64 },
    /// Nothing could move yet; the clock read `now_ms`.
    WouldBlock { now_ms: u64 },
    /// The call failed.
    Failed(IoFailure),
}

/// What the transfer does next, or how it ended.
#[derive(Copy, Clone, Debug, PartialEq, Eq, Structural)]
pub enum TransferStep {
    /// Call the socket again for the rest.
    Continue,
    /// Every byte has moved.
    Complete,
    /// Nothing of the message moved within the window: an ordinary timeout.
    TimedOut,
    /// Part of the message moved, then nothing within the window: the message
    /// is lost and must not be resumed.
    Stalled,
    /// A receive returned no bytes: the peer shut down in order.
    PeerClosed,
    /// The socket call failed.
    Failed(IoFailure),
}

/// Progress of one exact transfer.
#[derive(Copy, Clone, Debug, PartialEq, Eq, Structural)]
pub struct Transfer {
    /// Bytes to move.
    pub total: usize,
    /// Bytes moved so far.
    pub done: usize,
    /// Bytes of the same message moved before this transfer began.
    pub in_message: bool,
    /// Clock reading when the window last restarted.
    pub since_ms: u64,
    /// The transfer has ended.
    pub finished: bool,
}

/// Part of the message has moved, counting this transfer and those before it.
pub open spec fn has_data(t: Transfer) -> bool {
    t.in_message || t.done > 0
}

/// The transfer after `ev`, and the step it calls for.
pub open spec fn spec_step(t: Transfer, ev: TransferEvent) -> (Transfer, TransferStep) {
    match ev {
        TransferEvent::Moved { count, now_ms } => {
            if count == 0 {
                (Transfer { finished: true, ..t }, TransferStep::PeerClosed)
            } else if count > t.total - t.done {
                (Transfer { finished: true, ..t }, TransferStep::Failed(IoFailure::Other))
            } else {
                let done = (t.done + count) as usize;
                if done == t.total {
                    (Transfer { done, since_ms: now_ms, finished: true, ..t }, TransferStep::Complete)
                } else {
                    (Transfer { done, since_ms: now_ms, ..t }, TransferStep::Continue)
                }
            }
        },
        TransferEvent::WouldBlock { now_ms } => {
            if now_ms > t.since_ms && now_ms - t.since_ms > TIMEOUT_MILLIS {
                if has_data(t) {
                    (Transfer { finished: true, ..t }, TransferStep::Stalled)
                } else {
                    (Transfer { finished: true, ..t }, TransferStep::TimedOut)
                }
            } else {
                (t, TransferStep::Continue)
            }
        },
        TransferEvent::Failed(f) => (Transfer { finished: true, ..t }, TransferStep::Failed(f)),
    }
}

impl Transfer {
    /// The transfer is consistent: never more moved than asked for.
    pub open spec fn wf(self) -> bool {
        self.done <= self.total
    }

    /// A fresh transfer of `total` bytes at clock reading `now_ms`.
    pub open spec fn new_spec(total: usize, in_message: bool, now_ms: u64) -> Transfer {
        Transfer { total, done: 0, in_message, since_ms: now_ms, finished: total == 0 }
    }

    /// A transfer of `total` bytes starting at clock reading `now_ms`;
    /// `in_message` tells whether bytes of the same message moved before.
    pub fn new(total: usize, in_message: bool, now_ms: u64) -> (r: Transfer)
        ensures
            r.wf(),
            r == Transfer::new_spec(total, in_message, now_ms),
    {
        Transfer { total, done: 0, in_message, since_ms: now_ms, finished: total == 0 }
    }

    /// Bytes still to move.
    pub fn remaining(&self) -> (r: usize)
        requires
            self.wf(),
        ensures
            r == self.total - self.done,
    {
        self.total - self.done
    }

    /// Takes in what one socket call did and says what comes next.
    pub fn on_event(&mut self, ev: TransferEvent) -> (r: TransferStep)
        requires
            old(self).wf(),
            !old(self).finished,
        ensures
            final(self).wf(),
            (*final(self), r) == spec_step(*old(self), ev),
    {
        match ev {
            TransferEvent::Moved { count, now_ms } => {
                if count == 0 {
                    self.finished = true;
                    TransferStep::PeerClosed
                } else if count > self.total - self.done {
                    self.finished = true;
                    TransferStep::Failed(IoFailure::Other)
                } else {
                    self.done = self.done + count;
                    self.since_ms = now_ms;
                    if self.done == self.total {
                        self.finished = true;
                        TransferStep::Complete
                    } else {
                        TransferStep::Continue
                    }
                }
            },
            TransferEvent::WouldBlock { now_ms } => {
                if now_ms > self.since_ms && now_ms - self.since_ms > TIMEOUT_MILLIS {
                    self.finished = true;
                    if self.in_message || self.done > 0 {
                        TransferStep::Stalled
                    } else {
                        TransferStep::TimedOut
                    }
                } else {
                    TransferStep::Continue
                }
            },
            TransferEvent::Failed(f) => {
                self.finished = true;
                TransferStep::Failed(f)
            },
        }
    }
}

/// The sum of chunk sizes.
pub open spec fn total_of(chunks: Seq<usize>) -> int
    decreases chunks.len(),
{
    if chunks.len() == 0 {
        0
    } else {
        chunks[0] + total_of(chunks.skip(1))
    }
}

/// The steps that a run of chunk events produces, starting from `t`; each chunk
/// moves its bytes at clock reading `now_ms`.
pub open spec fn run_chunks(t: Transfer, chunks: Seq<usize>, now_ms: u64) -> Seq<TransferStep>
    decreases chunks.len(),
{
    if chunks.len() == 0 {
        seq![]
    } else {
        let (next, step) = spec_step(t, TransferEvent::Moved { count: chunks[0], now_ms });
        seq![step] + run_chunks(next, chunks.skip(1), now_ms)
    }
}

/// Bytes that move in chunks of any sizes, none empty, that add up to what is
/// left complete the transfer: every chunk but the last asks to go on, and the
/// last completes it.
pub proof fn lemma_chunks_complete(t: Transfer, chunks: Seq<usize>, now_ms: u64)
    requires
        t.wf(),
        chunks.len() > 0,
        forall|i: int| 0 <= i < chunks.len() ==> chunks[i] > 0,
        total_of(chunks) == t.total - t.done,
    ensures
        run_chunks(t, chunks, now_ms).len() == chunks.len(),
        forall|i: int|
            0 <= i < chunks.len() - 1 ==> run_chunks(t, chunks, now_ms)[i] == TransferStep::Continue,
        run_chunks(t, chunks, now_ms)[chunks.len() - 1] == TransferStep::Complete,
    decreases chunks.len(),
{
    let rest = chunks.skip(1);
    let (next, step) = spec_step(t, TransferEvent::Moved { count: chunks[0], now_ms });
    if chunks.len() == 1 {
        assert(total_of(rest) == 0);
        assert(step == TransferStep::Complete);
    } else {
        assert forall|i: int| 0 <= i < rest.len() implies rest[i] > 0 by {
            assert(rest[i] == chunks[i + 1]);
        }
        lemma_total_of_positive(rest);
        assert(step == TransferStep::Continue);
        lemma_chunks_complete(next, rest, now_ms);
        let tail = run_chunks(next, rest, now_ms);
        assert forall|i: int| 0 <= i < chunks.len() - 1 implies run_chunks(t, chunks, now_ms)[i]
            == TransferStep::Continue by {
            if i > 0 {
                assert(run_chunks(t, chunks, now_ms)[i] == tail[i - 1]);
            }
        }
    }
}

proof fn lemma_total_of_positive(chunks: Seq<usize>)
    requires
        chunks.len() > 0,
        forall|i: int| 0 <= i < chunks.len() ==> chunks[i] > 0,
    ensures
        total_of(chunks) > 0,
    decreases chunks.len(),
{
    if chunks.len() > 1 {
        assert forall|i: int| 0 <= i < chunks.skip(1).len() implies chunks.skip(1)[i] > 0 by {
            assert(chunks.skip(1)[i] == chunks[i + 1]);
        }
        lemma_total_of_positive(chunks.skip(1));
    } else {
        assert(total_of(chunks.skip(1)) == 0);
    }
}

/// A peer that stays silent past the window before any byte of the message
/// moved times the transfer out; once a byte has moved, the same silence is a
/// stall instead.
pub proof fn lemma_timeout_or_stall(t: Transfer, now_ms: u64)
    requires
        t.wf(),
        now_ms > t.since_ms + TIMEOUT_MILLIS,
    ensures
        !has_data(t) ==> spec_step(t, TransferEvent::WouldBlock { now_ms }).1
            == TransferStep::TimedOut,
        has_data(t) ==> spec_step(t, TransferEvent::WouldBlock { now_ms }).1
            == TransferStep::Stalled,
{
}

} // verus!
