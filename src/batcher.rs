use vstd::prelude::*;

use crate::models::EmailRequest;

verus! {

/// A batch is written once it holds this many completions.
pub const BATCH_SIZE: usize = 100;

/// ... or once this long has passed since the last write, in milliseconds.
pub const BATCH_FLUSH_INTERVAL_MS: u64 = 500;

/// How long the batcher waits for a completion before looking at the clock.
pub const BATCH_RECV_TIMEOUT_MS: u64 = 100;

/// What the batcher learns from the result queue.
#[derive(Debug)]
pub enum BatchEvent {
    /// A completed request arrived at time `now_ms`.
    Received(EmailRequest, u64),
    /// Nothing arrived within the wait; the time is `now_ms`.
    Timeout(u64),
    /// The queue is closed and drained.
    Closed,
}

/// Milliseconds from `last` to `now` (none if the clock reads earlier).
pub open spec fn elapsed(now: u64, last: u64) -> int {
    if now >= last {
        now - last
    } else {
        0
    }
}

/// The batcher after an event, and the completions it hands over to be
/// written: `(written, batch, last_flush_ms)`.
pub open spec fn batch_step(b: Seq<EmailRequest>, last: u64, ev: BatchEvent) -> (
    Seq<EmailRequest>,
    Seq<EmailRequest>,
    u64,
) {
    match ev {
        BatchEvent::Received(r, now) => {
            let b2 = b.push(r);
            if b2.len() >= BATCH_SIZE || elapsed(now, last) >= BATCH_FLUSH_INTERVAL_MS {
                (b2, Seq::empty(), now)
            } else {
                (Seq::empty(), b2, last)
            }
        },
        BatchEvent::Timeout(now) => {
            if b.len() > 0 && elapsed(now, last) >= BATCH_FLUSH_INTERVAL_MS {
                (b, Seq::empty(), now)
            } else {
                (Seq::empty(), b, last)
            }
        },
        BatchEvent::Closed => (b, Seq::empty(), last),
    }
}

/// The completions an event brings.
pub open spec fn arrivals(ev: BatchEvent) -> Seq<EmailRequest> {
    match ev {
        BatchEvent::Received(r, _) => seq![r],
        _ => Seq::empty(),
    }
}

/// A run of events: everything written along the way, the batch left, and
/// the time of the last write.
pub open spec fn batch_run(b: Seq<EmailRequest>, last: u64, evs: Seq<BatchEvent>) -> (
    Seq<EmailRequest>,
    Seq<EmailRequest>,
    u64,
)
    decreases evs.len(),
{
    if evs.len() == 0 {
        (Seq::empty(), b, last)
    } else {
        let (w, b2, l2) = batch_step(b, last, evs[0]);
        let (w2, b3, l3) = batch_run(b2, l2, evs.drop_first());
        (w + w2, b3, l3)
    }
}

/// All completions the events bring, in order.
pub open spec fn all_arrivals(evs: Seq<BatchEvent>) -> Seq<EmailRequest>
    decreases evs.len(),
{
    if evs.len() == 0 {
        Seq::empty()
    } else {
        arrivals(evs[0]) + all_arrivals(evs.drop_first())
    }
}

/// No completion is lost or reordered: what has been handed over to be
/// written, followed by what is still batched, is exactly the batch at the
/// start followed by every completion that arrived. When the queue closes,
/// nothing remains batched.
pub proof fn lemma_batcher_loses_nothing(b: Seq<EmailRequest>, last: u64, evs: Seq<BatchEvent>)
    ensures
        batch_run(b, last, evs).0 + batch_run(b, last, evs).1 == b + all_arrivals(evs),
        evs.len() > 0 && evs.last() is Closed ==> batch_run(b, last, evs).1.len() == 0,
    decreases evs.len(),
{
    if evs.len() > 0 {
        let (w, b2, l2) = batch_step(b, last, evs[0]);
        let rest = evs.drop_first();
        lemma_batcher_loses_nothing(b2, l2, rest);
        assert(w + b2 == b + arrivals(evs[0]));
        let (w2, b3, l3) = batch_run(b2, l2, rest);
        assert((w + w2) + b3 =~= b + all_arrivals(evs)) by {
            assert(w2 + b3 == b2 + all_arrivals(rest));
        }
        if evs.last() is Closed && rest.len() > 0 {
            assert(rest.last() == evs.last());
        }
    }
}

/// The completions to write one by one after a bulk write of `batch`: none
/// when the bulk write succeeded, every one of them when it failed, so that
/// one bad row cannot hold back the others.
pub fn singly_after_bulk(batch: Vec<EmailRequest>, bulk_succeeded: bool) -> (r: Vec<EmailRequest>)
    ensures
        bulk_succeeded ==> r@.len() == 0,
        !bulk_succeeded ==> r@ == batch@,
{
    if bulk_succeeded {
        Vec::new()
    } else {
        batch
    }
}

/// The post-send batcher: completions wait here until they are written in
/// one bulk update.
pub struct Batcher {
    pub batch: Vec<EmailRequest>,
    pub last_flush_ms: u64,
}

impl Batcher {
    pub fn new(now_ms: u64) -> (r: Batcher)
        ensures
            r.batch@.len() == 0,
            r.last_flush_ms == now_ms,
    {
        Batcher { batch: Vec::new(), last_flush_ms: now_ms }
    }

    fn take_batch(&mut self) -> (r: Vec<EmailRequest>)
        ensures
            r@ == old(self).batch@,
            final(self).batch@.len() == 0,
            final(self).last_flush_ms == old(self).last_flush_ms,
    {
        let mut out: Vec<EmailRequest> = Vec::new();
        std::mem::swap(&mut self.batch, &mut out);
        out
    }

    /// Handles one event. Returns the completions to write now (empty when
    /// nothing is due).
    pub fn handle(&mut self, ev: BatchEvent) -> (r: Vec<EmailRequest>)
        ensures
            (r@, final(self).batch@, final(self).last_flush_ms) == batch_step(
                old(self).batch@,
                old(self).last_flush_ms,
                ev,
            ),
    {
        match ev {
            BatchEvent::Received(req, now) => {
                self.batch.push(req);
                let waited = if now >= self.last_flush_ms {
                    now - self.last_flush_ms
                } else {
                    0
                };
                if self.batch.len() >= BATCH_SIZE || waited >= BATCH_FLUSH_INTERVAL_MS {
                    self.last_flush_ms = now;
                    self.take_batch()
                } else {
                    Vec::new()
                }
            },
            BatchEvent::Timeout(now) => {
                let waited = if now >= self.last_flush_ms {
                    now - self.last_flush_ms
                } else {
                    0
                };
                if self.batch.len() > 0 && waited >= BATCH_FLUSH_INTERVAL_MS {
                    self.last_flush_ms = now;
                    self.take_batch()
                } else {
                    Vec::new()
                }
            },
            BatchEvent::Closed => self.take_batch(),
        }
    }
}

} // verus!
