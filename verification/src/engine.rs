//! The probe engine: one transmitter pass over the target space at
//! limiter-gated cadence, a listener that authenticates and classifies
//! inbound segments, and a retry orchestrator driving `1 + retries`
//! passes, each followed by a drain window. The outside world — raw
//! sockets, clocks, tasks — drives these transitions and performs the
//! returned actions.

use vstd::prelude::*;
use crate::hosts::{HostIterator, HostAddr};
use crate::ports::PortIterator;
use crate::targets::{TargetCursor, space};
use crate::codec::{Target, Probe, TcpSegment, Verdict, spec_cookie, spec_classify,
    build_probe, classify};
use crate::limiter::Limiter;
use crate::sink::{ResultSink, submit_confirmed, submit_emitted};
use crate::fmt::{OutputFormat, record_chars};

verus! {

/// Tokens the bucket may hold at once: the burst allowance.
pub const BURST_CAPACITY: u64 = 100;

/// The per-pass state machine.
#[derive(Clone, Copy, PartialEq, Eq, Structural, Debug)]
pub enum Phase {
    NotStarted,
    Probing,
    Draining,
    Settled,
}

/// What one transmit poll decided.
pub enum TransmitStep {
    /// Send this probe now.
    Sent(Probe),
    /// No token was available; try again later.
    Throttled,
    /// The pass has traversed the whole space; drain, then settle.
    PassComplete,
}

pub open spec fn same_family(a: HostAddr, b: HostAddr) -> bool {
    (a is V4) <==> (b is V4)
}

fn is_same_family(a: &HostAddr, b: &HostAddr) -> (r: bool)
    ensures
        r == same_family(*a, *b),
{
    match (a, b) {
        (HostAddr::V4(_), HostAddr::V4(_)) => true,
        (HostAddr::V6(_), HostAddr::V6(_)) => true,
        _ => false,
    }
}

/// The position `j` steps after `start`, wrapping at `len`.
pub open spec fn rr_idx(start: int, j: int, len: int) -> int {
    if start + j < len {
        start + j
    } else {
        start + j - len
    }
}

/// No configured source address shares the host's family.
pub open spec fn no_source_for(ips: Seq<HostAddr>, h: HostAddr) -> bool {
    forall|i: int| 0 <= i < ips.len() ==> !same_family(#[trigger] ips[i], h)
}

/// The wrapped position just past `k`.
pub open spec fn rr_after(k: int, len: int) -> int {
    if k + 1 < len {
        k + 1
    } else {
        0
    }
}

/// The index of the first address of `h`'s family at or after `start`,
/// cyclically, having already passed over `j` non-matches.
pub open spec fn rr_first_from(ips: Seq<HostAddr>, start: int, h: HostAddr, j: int) -> Option<
    int,
>
    decreases ips.len() - j,
{
    if j < 0 || j >= ips.len() {
        None
    } else if same_family(ips[rr_idx(start, j, ips.len() as int)], h) {
        Some(rr_idx(start, j, ips.len() as int))
    } else {
        rr_first_from(ips, start, h, j + 1)
    }
}

/// The round-robin pick for `h` from cursor `start`: the first
/// family match at or after the cursor, cyclically.
pub open spec fn rr_select(ips: Seq<HostAddr>, start: int, h: HostAddr) -> Option<int> {
    rr_first_from(ips, start, h, 0)
}

/// Pick the next source address of the target's family, round-robin
/// over the configured list: the first match at or after the cursor,
/// cyclically, with the cursor moved just past it. `None` when the
/// family is unrepresented (such a target is skipped and counted, not
/// a failure).
fn select_source(ips: &Vec<HostAddr>, cursor: &mut usize, h: &HostAddr) -> (r: Option<
    HostAddr,
>)
    requires
        ips@.len() > 0,
        *old(cursor) < ips@.len(),
    ensures
        *final(cursor) < ips@.len(),
        match r {
            Some(s) => ({
                let sel = rr_select(ips@, *old(cursor) as int, *h);
                &&& sel is Some
                &&& s == ips@[sel->Some_0]
                &&& ips@.contains(s)
                &&& same_family(s, *h)
                &&& *final(cursor) as int == rr_after(sel->Some_0, ips@.len() as int)
            }),
            None => {
                &&& *final(cursor) == *old(cursor)
                &&& rr_select(ips@, *old(cursor) as int, *h) is None
                &&& no_source_for(ips@, *h)
            },
        },
{
    let len = ips.len();
    let ghost start = *cursor as int;
    let mut j: usize = 0;
    while j < len
        invariant
            ips@.len() == len > 0,
            *cursor < len,
            *cursor == start,
            start == *old(cursor) as int,
            j <= len,
            forall|q: int| 0 <= q < j ==> !same_family(ips@[rr_idx(start, q, len as int)], *h),
            rr_select(ips@, start, *h) == rr_first_from(ips@, start, *h, j as int),
        decreases len - j,
    {
        let k = if j < len - *cursor {
            *cursor + j
        } else {
            j - (len - *cursor)
        };
        proof {
            assert(k as int == rr_idx(start, j as int, len as int));
        }
        if is_same_family(&ips[k], h) {
            proof {
                assert(rr_select(ips@, start, *h) == Some(k as int));
                assert(ips@.contains(ips@[k as int]));
            }
            let s = ips[k];
            *cursor = if k + 1 < len {
                k + 1
            } else {
                0
            };
            return Some(s);
        }
        j = j + 1;
    }
    proof {
        assert forall|m: int| 0 <= m < ips@.len() implies !same_family(ips@[m], *h) by {
            let q = if m >= start {
                m - start
            } else {
                m + len - start
            };
            assert(0 <= q < len);
            assert(rr_idx(start, q, len as int) == m);
        }
    }
    None
}

/// The scan engine's whole state: configuration snapshot, traversal
/// cursor, limiter, and the confirmed-open sink.
pub struct Scanner {
    pub hosts: HostIterator,
    pub ports: PortIterator,
    /// Additional passes beyond the first.
    pub retries: u8,
    /// Drain window after each pass's last probe, in milliseconds.
    pub timeout_ms: u64,
    /// Source port of every probe, and the listener's filter.
    pub listening_port: u16,
    /// The per-run cookie secret, fixed at scan start.
    pub secret: u64,
    pub source_ips: Vec<HostAddr>,
    pub src_idx: usize,
    pub limiter: Limiter,
    /// Current pass, zero-based.
    pub pass: u8,
    pub phase: Phase,
    pub tc: TargetCursor,
    pub sink: ResultSink,
    pub drain_deadline: u64,
    /// Targets skipped because no source address matched their family.
    pub skipped_no_source: u64,
}

impl Scanner {
    pub open spec fn wf(self) -> bool {
        &&& self.hosts.wf()
        &&& self.ports.wf()
        &&& self.ports.ports().len() > 0
        &&& self.tc.wf(self.hosts, self.ports)
        &&& self.limiter.wf()
        &&& self.sink.wf()
        &&& self.source_ips@.len() > 0
        &&& self.src_idx < self.source_ips@.len()
        &&& self.pass <= self.retries
    }

    /// The target space this scan traverses, identically on every pass.
    pub open spec fn target_space(self) -> Seq<Target> {
        space(self.hosts, self.ports)
    }

    /// A target the transmitter passes over: already confirmed open,
    /// or of a family no source address serves.
    pub open spec fn skippable(self, t: Target) -> bool {
        self.sink.confirmed@.contains(t) || no_source_for(self.source_ips@, t.host)
    }

    /// How many targets at positions `[lo, hi)` of the space are
    /// skipped for want of a source address of their family (not
    /// counting those skipped as already confirmed).
    pub open spec fn nosrc_count(self, lo: int, hi: int) -> int
        decreases hi - lo,
    {
        if lo >= hi {
            0
        } else {
            self.nosrc_count(lo, hi - 1) + if !self.sink.confirmed@.contains(
                self.target_space()[hi - 1],
            ) && no_source_for(self.source_ips@, self.target_space()[hi - 1].host) {
                1int
            } else {
                0int
            }
        }
    }

    /// The skip counter after `extra` more skips, saturating.
    pub open spec fn saturating_counted(self, extra: int) -> int {
        if self.skipped_no_source + extra > u64::MAX {
            u64::MAX as int
        } else {
            self.skipped_no_source + extra
        }
    }

    pub fn new(
        hosts: HostIterator,
        ports: PortIterator,
        retries: u8,
        timeout_ms: u64,
        listening_port: u16,
        secret: u64,
        source_ips: Vec<HostAddr>,
        rate_limit: Option<u64>,
        format: OutputFormat,
        stream: bool,
        now: u64,
    ) -> (r: Scanner)
        requires
            hosts.wf(),
            ports.wf(),
            ports.ports().len() > 0,
            source_ips@.len() > 0,
        ensures
            r.wf(),
            r.hosts == hosts,
            r.ports == ports,
            r.retries == retries,
            r.timeout_ms == timeout_ms,
            r.listening_port == listening_port,
            r.secret == secret,
            r.source_ips == source_ips,
            r.phase == Phase::NotStarted,
            r.pass == 0,
            r.src_idx == 0,
            r.drain_deadline == 0,
            r.skipped_no_source == 0,
            match rate_limit {
                None => r.limiter is Unlimited,
                Some(rl) => {
                    &&& r.limiter is Bucket
                    &&& r.limiter->Bucket_0.rate == if rl < 1 { 1u64 } else if rl
                        > 1_000_000_000 { 1_000_000_000u64 } else { rl }
                    &&& r.limiter->Bucket_0.capacity == BURST_CAPACITY
                    &&& r.limiter->Bucket_0.avail == BURST_CAPACITY * 1000
                    &&& r.limiter->Bucket_0.updated_at == now
                },
            },
            r.sink.confirmed@.len() == 0,
            r.sink.emitted@.len() == 0,
            r.sink.held@.len() == 0,
            r.sink.format == format,
            r.sink.stream == stream,
            r.tc.emitted@ == Seq::<Target>::empty(),
    {
        let tc = TargetCursor::new(&hosts, &ports);
        Scanner {
            hosts,
            ports,
            retries,
            timeout_ms,
            listening_port,
            secret,
            source_ips,
            src_idx: 0,
            limiter: Limiter::from_rate(rate_limit, BURST_CAPACITY, now),
            pass: 0,
            phase: Phase::NotStarted,
            tc,
            sink: ResultSink::new(format, stream),
            drain_deadline: 0,
            skipped_no_source: 0,
        }
    }

    /// Begin the first pass.
    pub fn start(&mut self)
        requires
            old(self).wf(),
            old(self).phase == Phase::NotStarted,
        ensures
            final(self).wf(),
            final(self).phase == Phase::Probing,
            *final(self) == (Scanner { phase: Phase::Probing, ..*old(self) }),
    {
        self.phase = Phase::Probing;
    }

    /// One transmitter step: take a token, then hand out the probe for
    /// the next target of this pass that is neither confirmed open nor
    /// without a source address of its family. Every target passed
    /// over on the way was one of those two. When the space is
    /// exhausted the pass moves to its drain window.
    pub fn poll_transmit(&mut self, now: u64) -> (step: TransmitStep)
        requires
            old(self).wf(),
            old(self).phase == Phase::Probing,
            old(self).limiter.spec_clock_ok(now),
        ensures
            final(self).wf(),
            final(self).hosts == old(self).hosts,
            final(self).ports == old(self).ports,
            final(self).sink == old(self).sink,
            final(self).secret == old(self).secret,
            final(self).listening_port == old(self).listening_port,
            final(self).retries == old(self).retries,
            final(self).timeout_ms == old(self).timeout_ms,
            final(self).pass == old(self).pass,
            final(self).source_ips == old(self).source_ips,
            final(self).limiter == old(self).limiter.spec_acquire(now).0,
            final(self).skipped_no_source as int == old(self).saturating_counted(
                old(self).nosrc_count(
                    old(self).tc.emitted@.len() as int,
                    final(self).tc.emitted@.len() as int,
                ),
            ),
            match step {
                TransmitStep::Throttled => {
                    &&& final(self).phase == Phase::Probing
                    &&& final(self).tc.emitted@ == old(self).tc.emitted@
                    &&& final(self).src_idx == old(self).src_idx
                    &&& final(self).drain_deadline == old(self).drain_deadline
                    &&& old(self).limiter.spec_acquire(now).1 == false
                },
                TransmitStep::Sent(p) => {
                    &&& final(self).phase == Phase::Probing
                    &&& final(self).drain_deadline == old(self).drain_deadline
                    &&& old(self).limiter.spec_acquire(now).1 == true
                    &&& ({
                        let sel = rr_select(
                            old(self).source_ips@,
                            old(self).src_idx as int,
                            p.target.host,
                        );
                        &&& sel is Some
                        &&& p.source == old(self).source_ips@[sel->Some_0]
                        &&& final(self).src_idx as int == rr_after(
                            sel->Some_0,
                            old(self).source_ips@.len() as int,
                        )
                    })
                    &&& old(self).tc.emitted@.len() < final(self).tc.emitted@.len()
                    &&& final(self).tc.emitted@
                        == old(self).target_space().take(final(self).tc.emitted@.len() as int)
                    &&& p.target == final(self).tc.emitted@.last()
                    &&& !old(self).sink.confirmed@.contains(p.target)
                    &&& !no_source_for(old(self).source_ips@, p.target.host)
                    &&& old(self).source_ips@.contains(p.source)
                    &&& same_family(p.source, p.target.host)
                    &&& p.source_port == old(self).listening_port
                    &&& p.seq == spec_cookie(p.target, old(self).listening_port, old(self).secret)
                    &&& forall|i: int| old(self).tc.emitted@.len() <= i
                        < final(self).tc.emitted@.len() - 1
                        ==> old(self).skippable(#[trigger] old(self).target_space()[i])
                },
                TransmitStep::PassComplete => {
                    &&& final(self).phase == Phase::Draining
                    &&& final(self).tc.emitted@ == old(self).target_space()
                    &&& final(self).src_idx == old(self).src_idx
                    &&& final(self).drain_deadline as int == (if now + old(self).timeout_ms
                        > u64::MAX {
                        u64::MAX as int
                    } else {
                        now + old(self).timeout_ms
                    })
                    &&& forall|i: int| old(self).tc.emitted@.len() <= i
                        < final(self).tc.emitted@.len()
                        ==> old(self).skippable(#[trigger] old(self).target_space()[i])
                },
            },
    {
        if !self.limiter.try_acquire(now) {
            return TransmitStep::Throttled;
        }
        let ghost snap = *old(self);
        loop
            invariant
                snap == *old(self),
                snap.limiter.spec_acquire(now).1 == true,
                self.wf(),
                self.phase == Phase::Probing,
                self.hosts == snap.hosts,
                self.ports == snap.ports,
                self.sink == snap.sink,
                self.secret == snap.secret,
                self.listening_port == snap.listening_port,
                self.retries == snap.retries,
                self.timeout_ms == snap.timeout_ms,
                self.pass == snap.pass,
                self.source_ips == snap.source_ips,
                self.drain_deadline == snap.drain_deadline,
                self.src_idx == snap.src_idx,
                self.limiter == snap.limiter.spec_acquire(now).0,
                self.skipped_no_source as int == snap.saturating_counted(
                    snap.nosrc_count(
                        snap.tc.emitted@.len() as int,
                        self.tc.emitted@.len() as int,
                    ),
                ),
                snap.tc.emitted@.len() <= self.tc.emitted@.len(),
                self.tc.emitted@ == snap.target_space().take(self.tc.emitted@.len() as int),
                forall|i: int| snap.tc.emitted@.len() <= i < self.tc.emitted@.len()
                    ==> snap.skippable(#[trigger] snap.target_space()[i]),
            decreases snap.target_space().len() - self.tc.emitted@.len(),
        {
            let ghost before = self.tc.emitted@.len() as int;
            match self.tc.next(&self.hosts, &self.ports) {
                None => {
                    self.phase = Phase::Draining;
                    self.drain_deadline = if now > u64::MAX - self.timeout_ms {
                        u64::MAX
                    } else {
                        now + self.timeout_ms
                    };
                    return TransmitStep::PassComplete;
                },
                Some(t) => {
                    let ghost sp = snap.target_space();
                    proof {
                        assert(t == sp[before]);
                        assert(self.tc.emitted@ =~= sp.take(before + 1));
                    }
                    let ghost base = snap.tc.emitted@.len() as int;
                    if self.sink.contains(&t) {
                        proof {
                            assert(snap.skippable(sp[before]));
                            assert(snap.nosrc_count(base, before + 1)
                                == snap.nosrc_count(base, before));
                        }
                    } else {
                        match select_source(&self.source_ips, &mut self.src_idx, &t.host) {
                            None => {
                                proof {
                                    assert(snap.skippable(sp[before]));
                                    assert(snap.nosrc_count(base, before + 1)
                                        == snap.nosrc_count(base, before) + 1);
                                }
                                if self.skipped_no_source < u64::MAX {
                                    self.skipped_no_source = self.skipped_no_source + 1;
                                }
                            },
                            Some(src) => {
                                proof {
                                    if no_source_for(snap.source_ips@, t.host) {
                                        let idx = choose|idx: int| 0 <= idx
                                            < snap.source_ips@.len()
                                            && snap.source_ips@[idx] == src;
                                        assert(!same_family(snap.source_ips@[idx], t.host));
                                        assert(false);
                                    }
                                    assert(snap.nosrc_count(base, before + 1)
                                        == snap.nosrc_count(base, before));
                                }
                                let p = build_probe(t, src, self.listening_port, self.secret);
                                return TransmitStep::Sent(p);
                            },
                        }
                    }
                },
            }
        }
    }

    /// One listener step: authenticate and classify an inbound
    /// segment. An authenticated SYN-ACK confirms its target open and
    /// yields at most one record (streamed here, or held for the final
    /// batch); everything else — RST, noise, stray traffic — changes
    /// nothing visible.
    pub fn handle_segment(&mut self, seg: &TcpSegment) -> (r: Option<String>)
        requires
            old(self).wf(),
            old(self).phase == Phase::Probing || old(self).phase == Phase::Draining,
        ensures
            final(self).wf(),
            final(self).hosts == old(self).hosts,
            final(self).ports == old(self).ports,
            final(self).phase == old(self).phase,
            final(self).pass == old(self).pass,
            final(self).tc == old(self).tc,
            final(self).limiter == old(self).limiter,
            final(self).listening_port == old(self).listening_port,
            final(self).secret == old(self).secret,
            final(self).retries == old(self).retries,
            final(self).timeout_ms == old(self).timeout_ms,
            final(self).source_ips == old(self).source_ips,
            final(self).src_idx == old(self).src_idx,
            final(self).drain_deadline == old(self).drain_deadline,
            final(self).skipped_no_source == old(self).skipped_no_source,
            final(self).sink.format == old(self).sink.format,
            final(self).sink.stream == old(self).sink.stream,
            ({
                let verdict = spec_classify(*seg, old(self).listening_port, old(self).secret);
                let t = Target { host: seg.src, port: seg.src_port };
                if verdict == Verdict::Open {
                    &&& final(self).sink.confirmed@
                        == submit_confirmed(old(self).sink.confirmed@, t)
                    &&& final(self).sink.emitted@ == submit_emitted(
                        old(self).sink.confirmed@,
                        old(self).sink.emitted@,
                        t,
                        old(self).sink.format,
                    )
                    &&& (old(self).sink.confirmed@.contains(t) ==> r is None
                        && final(self).sink.held@ == old(self).sink.held@)
                    &&& (!old(self).sink.confirmed@.contains(t) && old(self).sink.stream
                        ==> r is Some && r->0@ == record_chars(t, old(self).sink.format)
                            && final(self).sink.held@ == old(self).sink.held@)
                    &&& (!old(self).sink.confirmed@.contains(t) && !old(self).sink.stream
                        ==> r is None
                            && final(self).sink.held@.len() == old(self).sink.held@.len() + 1
                            && final(self).sink.held@.take(old(self).sink.held@.len() as int)
                                == old(self).sink.held@
                            && final(self).sink.held@.last()@
                                == record_chars(t, old(self).sink.format))
                } else {
                    final(self).sink == old(self).sink && r is None
                }
            }),
    {
        let v = classify(seg, self.listening_port, self.secret);
        match v {
            Verdict::Open => {
                let t = Target { host: seg.src, port: seg.src_port };
                self.sink.submit(t)
            },
            _ => None,
        }
    }

    /// Whether the drain window has elapsed.
    pub fn drain_elapsed(&self, now: u64) -> (r: bool)
        requires
            self.phase == Phase::Draining,
        ensures
            r == (now >= self.drain_deadline),
    {
        now >= self.drain_deadline
    }

    /// Settle the drained pass. With passes left, rewind the cursor —
    /// the next pass re-traverses exactly the same target space, and
    /// only the confirmed-open filter has changed — else the scan is
    /// over. Returns whether the scan settled for good.
    pub fn settle_pass(&mut self, now: u64) -> (done: bool)
        requires
            old(self).wf(),
            old(self).phase == Phase::Draining,
            now >= old(self).drain_deadline,
        ensures
            final(self).wf(),
            final(self).hosts == old(self).hosts,
            final(self).ports == old(self).ports,
            final(self).sink == old(self).sink,
            final(self).retries == old(self).retries,
            final(self).listening_port == old(self).listening_port,
            final(self).secret == old(self).secret,
            final(self).timeout_ms == old(self).timeout_ms,
            final(self).source_ips == old(self).source_ips,
            final(self).src_idx == old(self).src_idx,
            final(self).limiter == old(self).limiter,
            final(self).drain_deadline == old(self).drain_deadline,
            final(self).skipped_no_source == old(self).skipped_no_source,
            final(self).target_space() == old(self).target_space(),
            done == (old(self).pass == old(self).retries),
            done ==> final(self).phase == Phase::Settled
                && final(self).pass == old(self).pass,
            !done ==> final(self).phase == Phase::Probing
                && final(self).pass == old(self).pass + 1
                && final(self).tc.emitted@ == Seq::<Target>::empty(),
    {
        if self.pass < self.retries {
            self.pass = self.pass + 1;
            self.tc = TargetCursor::new(&self.hosts, &self.ports);
            self.phase = Phase::Probing;
            false
        } else {
            self.phase = Phase::Settled;
            true
        }
    }

    /// Hand out the ordered end-of-scan batch (empty in stream mode).
    pub fn finalize(self) -> (r: Vec<String>)
        requires
            self.phase == Phase::Settled,
        ensures
            r@ == self.sink.held@,
    {
        self.sink.into_held()
    }
}

} // verus!
