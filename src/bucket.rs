use vstd::prelude::*;

verus! {

/// Milliseconds between two refill ticks.
pub const TOKEN_REFILL_INTERVAL_MS: u64 = 100;

/// A token bucket that releases at most `max_per_sec` submissions per
/// second: each submission takes a token; a tick adds a tenth of the
/// capacity, and the bucket is topped up once a second.
#[derive(Debug)]
pub struct TokenBucket {
    pub tokens: u64,
    pub max_per_sec: u64,
}

/// Tokens added by one in-second refill tick: a tenth of the capacity,
/// rounded up.
pub open spec fn tick_refill(cap: nat) -> nat {
    if cap % 10 == 0 {
        cap / 10
    } else {
        cap / 10 + 1
    }
}

/// One thing that happens to a bucket.
#[derive(Clone, Copy, Debug, PartialEq, Eq, Structural)]
pub enum BucketEvent {
    /// A caller tries to take a token.
    Acquire,
    /// A tick adds `tick_refill(capacity)` tokens.
    Refill,
    /// The once-a-second top-up.
    Reset,
}

/// Tokens left after `e`, starting from `t` in a bucket of capacity `cap`.
pub open spec fn tokens_after(t: nat, cap: nat, e: BucketEvent) -> nat {
    match e {
        BucketEvent::Acquire => if t > 0 {
            (t - 1) as nat
        } else {
            t
        },
        BucketEvent::Refill => if t < cap {
            if t + tick_refill(cap) < cap {
                t + tick_refill(cap)
            } else {
                cap
            }
        } else {
            t
        },
        BucketEvent::Reset => cap,
    }
}

/// Whether `e` hands out a token.
pub open spec fn grants(t: nat, e: BucketEvent) -> bool {
    e == BucketEvent::Acquire && t > 0
}

/// Tokens handed out over a run of events.
pub open spec fn granted(t: nat, cap: nat, evs: Seq<BucketEvent>) -> nat
    decreases evs.len(),
{
    if evs.len() == 0 {
        0
    } else {
        (if grants(t, evs[0]) {
            1nat
        } else {
            0nat
        }) + granted(tokens_after(t, cap, evs[0]), cap, evs.drop_first())
    }
}

/// The most tokens a run of events can add: a tick's refill per tick, the
/// whole capacity per top-up.
pub open spec fn added_at_most(cap: nat, evs: Seq<BucketEvent>) -> nat
    decreases evs.len(),
{
    if evs.len() == 0 {
        0
    } else {
        (match evs[0] {
            BucketEvent::Acquire => 0nat,
            BucketEvent::Refill => tick_refill(cap),
            BucketEvent::Reset => cap,
        }) + added_at_most(cap, evs.drop_first())
    }
}

/// Over any run of events, the tokens handed out are at most the tokens
/// held at its start plus what its ticks and top-ups can add.
pub proof fn lemma_granted_bounded(t: nat, cap: nat, evs: Seq<BucketEvent>)
    requires
        t <= cap,
    ensures
        granted(t, cap, evs) <= t + added_at_most(cap, evs),
    decreases evs.len(),
{
    if evs.len() > 0 {
        let t2 = tokens_after(t, cap, evs[0]);
        lemma_granted_bounded(t2, cap, evs.drop_first());
    }
}

pub open spec fn count_refills(evs: Seq<BucketEvent>) -> nat
    decreases evs.len(),
{
    if evs.len() == 0 {
        0
    } else {
        (if evs[0] == BucketEvent::Refill {
            1nat
        } else {
            0nat
        }) + count_refills(evs.drop_first())
    }
}

pub open spec fn count_resets(evs: Seq<BucketEvent>) -> nat
    decreases evs.len(),
{
    if evs.len() == 0 {
        0
    } else {
        (if evs[0] == BucketEvent::Reset {
            1nat
        } else {
            0nat
        }) + count_resets(evs.drop_first())
    }
}

proof fn lemma_added_by_counts(cap: nat, evs: Seq<BucketEvent>)
    ensures
        added_at_most(cap, evs) == count_refills(evs) * tick_refill(cap) + count_resets(evs) * cap,
    decreases evs.len(),
{
    if evs.len() > 0 {
        let rest = evs.drop_first();
        lemma_added_by_counts(cap, rest);
        let r = count_refills(rest);
        let z = count_resets(rest);
        let x = tick_refill(cap);
        match evs[0] {
            BucketEvent::Acquire => {},
            BucketEvent::Refill => {
                assert((r + 1) * x == r * x + x) by (nonlinear_arith);
            },
            BucketEvent::Reset => {
                assert((z + 1) * cap == z * cap + cap) by (nonlinear_arith);
            },
        }
    } else {
        let x = tick_refill(cap);
        assert(0 * x == 0 && 0 * cap == 0) by (nonlinear_arith);
    }
}

/// Rate bound: a stretch of events with no top-up and at most one refill
/// tick hands out at most the capacity plus one tick's refill.
pub proof fn lemma_rate_bound(t: nat, cap: nat, evs: Seq<BucketEvent>)
    requires
        t <= cap,
        count_resets(evs) == 0,
        count_refills(evs) <= 1,
    ensures
        granted(t, cap, evs) <= cap + tick_refill(cap),
{
    lemma_granted_bounded(t, cap, evs);
    lemma_added_by_counts(cap, evs);
    if count_refills(evs) == 1 {
        assert(added_at_most(cap, evs) == tick_refill(cap));
    } else {
        assert(added_at_most(cap, evs) == 0);
    }
}

impl TokenBucket {
    pub open spec fn wf(&self) -> bool {
        self.tokens <= self.max_per_sec
    }

    /// A full bucket of capacity `max_per_sec`.
    pub fn new(max_per_sec: u64) -> (r: TokenBucket)
        ensures
            r.tokens == max_per_sec,
            r.max_per_sec == max_per_sec,
            r.wf(),
    {
        TokenBucket { tokens: max_per_sec, max_per_sec }
    }

    /// Takes a token if one is left.
    pub fn try_acquire(&mut self) -> (r: bool)
        ensures
            r == grants(old(self).tokens as nat, BucketEvent::Acquire),
            final(self).tokens as nat == tokens_after(
                old(self).tokens as nat,
                old(self).max_per_sec as nat,
                BucketEvent::Acquire,
            ),
            final(self).max_per_sec == old(self).max_per_sec,
            old(self).wf() ==> final(self).wf(),
    {
        if self.tokens > 0 {
            self.tokens = self.tokens - 1;
            true
        } else {
            false
        }
    }

    /// Adds `amount` tokens, up to the capacity; a full bucket stays as it is.
    pub fn refill(&mut self, amount: u64)
        ensures
            final(self).tokens as int == if old(self).tokens < old(self).max_per_sec {
                if old(self).tokens + amount < old(self).max_per_sec {
                    old(self).tokens + amount
                } else {
                    old(self).max_per_sec as int
                }
            } else {
                old(self).tokens as int
            },
            final(self).max_per_sec == old(self).max_per_sec,
            old(self).wf() ==> final(self).wf(),
    {
        if self.tokens < self.max_per_sec {
            if amount < self.max_per_sec - self.tokens {
                self.tokens = self.tokens + amount;
            } else {
                self.tokens = self.max_per_sec;
            }
        }
    }

    /// Fills the bucket to capacity.
    pub fn reset(&mut self)
        ensures
            final(self).tokens == old(self).max_per_sec,
            final(self).max_per_sec == old(self).max_per_sec,
            final(self).wf(),
    {
        self.tokens = self.max_per_sec;
    }

    /// The refill of one in-second tick.
    pub fn tick_amount(&self) -> (r: u64)
        ensures
            r as nat == tick_refill(self.max_per_sec as nat),
    {
        let m = self.max_per_sec;
        if m % 10 == 0 {
            m / 10
        } else {
            m / 10 + 1
        }
    }

    /// One refill tick at `now_ms`, the last top-up having been at
    /// `last_reset_ms`: a top-up once a full second has passed, otherwise a
    /// tick's refill. Returns the time of the last top-up after the tick.
    pub fn tick(&mut self, now_ms: u64, last_reset_ms: u64) -> (r: u64)
        ensures
            final(self).max_per_sec == old(self).max_per_sec,
            old(self).wf() ==> final(self).wf(),
            now_ms >= last_reset_ms + 1000 ==> r == now_ms && final(self).tokens as nat
                == tokens_after(
                old(self).tokens as nat,
                old(self).max_per_sec as nat,
                BucketEvent::Reset,
            ),
            now_ms < last_reset_ms + 1000 ==> r == last_reset_ms && final(self).tokens as nat
                == tokens_after(
                old(self).tokens as nat,
                old(self).max_per_sec as nat,
                BucketEvent::Refill,
            ),
    {
        let elapsed = if now_ms >= last_reset_ms {
            now_ms - last_reset_ms
        } else {
            0
        };
        if elapsed >= 1000 {
            self.reset();
            now_ms
        } else {
            let n = self.tick_amount();
            self.refill(n);
            last_reset_ms
        }
    }
}

} // verus!
