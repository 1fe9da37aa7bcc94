//! Token-bucket rate limiter: the transmitter takes one token per
//! packet; tokens refill continuously at `rate` per second, capped at a
//! burst allowance, so cadence stays bounded even after idle periods.

use vstd::prelude::*;

verus! {

/// Milli-tokens per token: refill at `rate` tokens/second is exactly
/// `rate` milli-tokens per millisecond.
pub open spec fn milli() -> int {
    1000
}

/// A token bucket. `avail` is measured in milli-tokens; `updated_at`
/// is the millisecond timestamp of the last refill.
#[derive(Clone, Copy, PartialEq, Eq, Structural, Debug)]
pub struct TokenBucket {
    pub rate: u64,
    pub capacity: u64,
    pub avail: u64,
    pub updated_at: u64,
}

impl TokenBucket {
    pub open spec fn wf(self) -> bool {
        &&& 1 <= self.rate <= 1_000_000_000
        &&& 1 <= self.capacity <= 1_000_000_000
        &&& self.avail <= self.capacity * milli()
    }

    /// The bucket after the clock advances to `now`.
    pub open spec fn spec_refill(self, now: u64) -> TokenBucket
        recommends
            self.wf(),
            now >= self.updated_at,
    {
        let grown = self.avail + (now - self.updated_at) * self.rate;
        let cap = self.capacity * milli();
        let next = if grown >= cap { cap } else { grown };
        TokenBucket { avail: next as u64, updated_at: now, ..self }
    }

    /// The bucket and grant decision after one acquisition attempt at
    /// `now`.
    pub open spec fn spec_acquire(self, now: u64) -> (TokenBucket, bool)
        recommends
            self.wf(),
            now >= self.updated_at,
    {
        let r = self.spec_refill(now);
        if r.avail >= milli() {
            (TokenBucket { avail: (r.avail - milli()) as u64, ..r }, true)
        } else {
            (r, false)
        }
    }

    /// A fresh bucket, full to its burst capacity.
    pub fn new(rate: u64, capacity: u64, now: u64) -> (b: TokenBucket)
        requires
            1 <= rate <= 1_000_000_000,
            1 <= capacity <= 1_000_000_000,
        ensures
            b.wf(),
            b.rate == rate,
            b.capacity == capacity,
            b.avail == capacity * milli(),
            b.updated_at == now,
    {
        let avail = capacity * 1000;
        TokenBucket { rate, capacity, avail, updated_at: now }
    }

    /// Take one token if one is available at `now`, refilling first.
    pub fn try_acquire(&mut self, now: u64) -> (granted: bool)
        requires
            old(self).wf(),
            now >= old(self).updated_at,
        ensures
            final(self).wf(),
            (*final(self), granted) == old(self).spec_acquire(now),
    {
        let elapsed: u64 = now - self.updated_at;
        proof {
            assert((elapsed as u128) * (self.rate as u128)
                <= 0xFFFFFFFFFFFFFFFFu128 * 1_000_000_000) by (nonlinear_arith)
                requires
                    elapsed <= 0xFFFFFFFFFFFFFFFFu64,
                    self.rate <= 1_000_000_000u64,
            ;
        }
        let grown: u128 = (self.avail as u128) + (elapsed as u128) * (self.rate as u128);
        let cap: u128 = (self.capacity as u128) * 1000;
        let refilled: u64 = if grown >= cap { (cap as u64) } else { (grown as u64) };
        self.updated_at = now;
        if refilled >= 1000 {
            self.avail = refilled - 1000;
            true
        } else {
            self.avail = refilled;
            false
        }
    }
}

/// The transmit gate: a bucket, or unlimited mode, which never blocks.
pub enum Limiter {
    Unlimited,
    Bucket(TokenBucket),
}

impl Limiter {
    pub open spec fn wf(self) -> bool {
        match self {
            Limiter::Unlimited => true,
            Limiter::Bucket(b) => b.wf(),
        }
    }

    pub open spec fn spec_clock_ok(self, now: u64) -> bool {
        match self {
            Limiter::Unlimited => true,
            Limiter::Bucket(b) => now >= b.updated_at,
        }
    }

    /// The limiter and grant decision after one attempt at `now`.
    pub open spec fn spec_acquire(self, now: u64) -> (Limiter, bool) {
        match self {
            Limiter::Unlimited => (self, true),
            Limiter::Bucket(b) => {
                let (b2, g) = b.spec_acquire(now);
                (Limiter::Bucket(b2), g)
            },
        }
    }

    /// Build the limiter the configuration asks for: `None` is
    /// unlimited mode.
    pub fn from_rate(rate_limit: Option<u64>, burst: u64, now: u64) -> (l: Limiter)
        requires
            1 <= burst <= 1_000_000_000,
        ensures
            l.wf(),
            l.spec_clock_ok(now),
            match rate_limit {
                None => l is Unlimited,
                Some(r) => {
                    &&& l is Bucket
                    &&& l->Bucket_0.rate == if r < 1 { 1u64 } else if r > 1_000_000_000 { 1_000_000_000u64 } else { r }
                    &&& l->Bucket_0.capacity == burst
                    &&& l->Bucket_0.avail == burst * milli()
                    &&& l->Bucket_0.updated_at == now
                },
            },
    {
        match rate_limit {
            None => Limiter::Unlimited,
            Some(r) => {
                let clamped = if r < 1 { 1 } else if r > 1_000_000_000 { 1_000_000_000 } else { r };
                Limiter::Bucket(TokenBucket::new(clamped, burst, now))
            },
        }
    }

    /// Take a transmit slot. Unlimited mode always grants.
    pub fn try_acquire(&mut self, now: u64) -> (granted: bool)
        requires
            old(self).wf(),
            old(self).spec_clock_ok(now),
        ensures
            final(self).wf(),
            final(self).spec_clock_ok(now),
            (*final(self), granted) == old(self).spec_acquire(now),
    {
        match self {
            Limiter::Unlimited => true,
            Limiter::Bucket(b) => b.try_acquire(now),
        }
    }
}

/// The grant count and end state after attempts at the given times.
pub open spec fn run_bucket(b: TokenBucket, times: Seq<u64>) -> (TokenBucket, nat)
    decreases times.len(),
{
    if times.len() == 0 {
        (b, 0)
    } else {
        let (b1, g) = b.spec_acquire(times.first());
        let (b2, n) = run_bucket(b1, times.drop_first());
        (b2, n + if g { 1nat } else { 0nat })
    }
}

/// The attempt times are in order and do not precede the bucket's clock.
pub open spec fn times_valid(b: TokenBucket, times: Seq<u64>) -> bool {
    &&& (times.len() > 0 ==> times.first() >= b.updated_at)
    &&& forall|i: int| 0 <= i < times.len() - 1 ==> #[trigger] times[i] <= times[i + 1]
}

/// Bookkeeping for the rate law: whatever was granted plus whatever is
/// left never exceeds what was there plus what flowed in.
pub proof fn lemma_run_bucket_accounting(b: TokenBucket, times: Seq<u64>)
    requires
        b.wf(),
        times_valid(b, times),
    ensures
        run_bucket(b, times).0.wf(),
        run_bucket(b, times).0.rate == b.rate,
        run_bucket(b, times).0.capacity == b.capacity,
        run_bucket(b, times).0.updated_at
            == if times.len() == 0 { b.updated_at } else { times.last() },
        run_bucket(b, times).1 * milli() + run_bucket(b, times).0.avail
            <= b.avail + (run_bucket(b, times).0.updated_at - b.updated_at) * b.rate,
    decreases times.len(),
{
    if times.len() > 0 {
        let t0 = times.first();
        let (b1, g) = b.spec_acquire(t0);
        let rest = times.drop_first();
        assert(times_valid(b1, rest)) by {
            assert(forall|i: int| 0 <= i < rest.len() - 1
                ==> #[trigger] rest[i] == times[i + 1] && rest[i + 1] == times[i + 2]);
            if rest.len() > 0 {
                assert(rest.first() == times[1]);
                assert(times[0] <= times[1]);
            }
        }
        // one step's accounting
        assert((g ==> 1 * milli() + b1.avail
                <= b.avail + (t0 - b.updated_at) * b.rate)
            && (!g ==> b1.avail <= b.avail + (t0 - b.updated_at) * b.rate)) by {
            assert((t0 - b.updated_at) * b.rate >= 0) by (nonlinear_arith)
                requires
                    t0 >= b.updated_at,
                    b.rate >= 1,
            ;
        }
        lemma_run_bucket_accounting(b1, rest);
        let fin = run_bucket(b, times).0;
        let end = fin.updated_at;
        assert(times.last() == if rest.len() == 0 { t0 } else { rest.last() });
        // (t0 - u) r + (end - t0) r == (end - u) r
        assert((t0 - b.updated_at) * b.rate + (end - t0) * b.rate
            == (end - b.updated_at) * b.rate) by (nonlinear_arith);
    }
}

/// Rate law: over any run of acquisition attempts, the number of
/// tokens granted is at most the burst capacity plus the refill rate
/// times the elapsed window, counted in milli-tokens.
pub proof fn lemma_rate_bound(b: TokenBucket, times: Seq<u64>)
    requires
        b.wf(),
        times_valid(b, times),
        times.len() > 0,
    ensures
        run_bucket(b, times).1 * milli()
            <= b.capacity * milli() + (times.last() - b.updated_at) * b.rate,
{
    lemma_run_bucket_accounting(b, times);
}

} // verus!
