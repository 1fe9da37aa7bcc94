//! The port side of the target space: a lazy, restartable traversal of
//! registered single ports and inclusive port ranges, in registration
//! order, without materializing the full list.

use vstd::prelude::*;
use crate::seqs::{concat_all, lemma_concat_all_push, lemma_concat_all_index,
    lemma_concat_all_split, lemma_concat_all_len_lower};

verus! {

/// An inclusive range of ports; a single port is a range with
/// `start == end`.
#[derive(Clone, Copy, PartialEq, Eq, Structural, Debug)]
pub struct PortRange {
    pub start: u16,
    pub end: u16,
}

/// The ports of an inclusive range, ascending.
pub open spec fn range_seq(start: u16, end: u16) -> Seq<u16>
    recommends
        start <= end,
{
    Seq::new((end - start + 1) as nat, |i: int| (start + i) as u16)
}

/// The registered port ranges, traversed in registration order.
pub struct PortIterator {
    pub ranges: Vec<PortRange>,
}

impl PortIterator {
    /// Every registered range is non-empty.
    pub open spec fn wf(self) -> bool {
        forall|k: int| 0 <= k < self.ranges@.len()
            ==> (#[trigger] self.ranges@[k]).start <= self.ranges@[k].end
    }

    /// One expanded segment per registered range.
    pub open spec fn segments(self) -> Seq<Seq<u16>> {
        self.ranges@.map_values(|r: PortRange| range_seq(r.start, r.end))
    }

    /// The full sequence of ports the iterator yields.
    pub open spec fn ports(self) -> Seq<u16> {
        concat_all(self.segments())
    }

    pub fn new() -> (r: Self)
        ensures
            r.wf(),
            r.ports() == Seq::<u16>::empty(),
            r.ranges@.len() == 0,
    {
        let r = PortIterator { ranges: Vec::new() };
        proof {
            assert(r.segments() =~= Seq::<Seq<u16>>::empty());
            assert(r.ports() =~= Seq::<u16>::empty());
        }
        r
    }

    /// Register a single port.
    pub fn add_port(self, port: u16) -> (r: Self)
        requires
            self.wf(),
        ensures
            r.wf(),
            r.ranges@ == self.ranges@.push(PortRange { start: port, end: port }),
            r.ports() == self.ports() + seq![port],
    {
        self.add_range(port, port)
    }

    /// Register an inclusive range. A range with `start > end` is a
    /// configuration error caught by the parser, never registered here.
    pub fn add_range(self, start: u16, end: u16) -> (r: Self)
        requires
            self.wf(),
            start <= end,
        ensures
            r.wf(),
            r.ranges@ == self.ranges@.push(PortRange { start, end }),
            r.ports() == self.ports() + range_seq(start, end),
    {
        let mut ranges = self.ranges;
        let ghost old_ranges = ranges@;
        ranges.push(PortRange { start, end });
        let r = PortIterator { ranges };
        proof {
            assert(r.segments() =~= self.segments().push(range_seq(start, end)));
            lemma_concat_all_push(self.segments(), range_seq(start, end));
        }
        r
    }
}

/// A cursor over a `PortIterator`'s ports. Restartable: a fresh cursor
/// re-derives the same traversal from the registered ranges.
pub struct PortCursor {
    pub seg: usize,
    pub off: u32,
    pub emitted: Ghost<Seq<u16>>,
}

impl PortCursor {
    /// The flat index the cursor stands at.
    pub open spec fn pos(self, it: PortIterator) -> int {
        concat_all(it.segments().take(self.seg as int)).len() + self.off
    }

    pub open spec fn wf(self, it: PortIterator) -> bool {
        &&& it.wf()
        &&& self.seg <= it.ranges@.len()
        &&& (self.seg < it.ranges@.len()
            ==> self.off < range_seq(it.ranges@[self.seg as int].start,
                it.ranges@[self.seg as int].end).len())
        &&& (self.seg == it.ranges@.len() ==> self.off == 0)
        &&& 0 <= self.pos(it) <= it.ports().len()
        &&& self.emitted@ == it.ports().take(self.pos(it))
    }

    pub fn new(it: &PortIterator) -> (r: Self)
        requires
            it.wf(),
        ensures
            r.wf(*it),
            r.emitted@ == Seq::<u16>::empty(),
    {
        let r = PortCursor { seg: 0, off: 0, emitted: Ghost(Seq::empty()) };
        proof {
            assert(it.segments().take(0) =~= Seq::<Seq<u16>>::empty());
            assert(it.ports().take(0) =~= Seq::<u16>::empty());
            if it.ranges@.len() == 0 {
            } else {
                assert(range_seq(it.ranges@[0].start, it.ranges@[0].end).len() > 0);
            }
        }
        r
    }

    /// The next port, or `None` once the traversal is complete.
    pub fn next(&mut self, it: &PortIterator) -> (r: Option<u16>)
        requires
            old(self).wf(*it),
        ensures
            final(self).wf(*it),
            match r {
                Some(p) => {
                    &&& old(self).emitted@.len() < it.ports().len()
                    &&& p == it.ports()[old(self).emitted@.len() as int]
                    &&& final(self).emitted@ == old(self).emitted@.push(p)
                },
                None => {
                    &&& old(self).emitted@ == it.ports()
                    &&& final(self).emitted@ == old(self).emitted@
                },
            },
    {
        let ghost segs = it.segments();
        if self.seg >= it.ranges.len() {
            proof {
                assert(segs.take(self.seg as int) =~= segs);
                assert(self.emitted@ =~= it.ports());
            }
            return None;
        }
        let rg = it.ranges[self.seg];
        let ghost k = self.seg as int;
        let ghost i = self.off as int;
        proof {
            lemma_concat_all_index(segs, k, i);
            assert(it.ports()[self.pos(*it)] == range_seq(rg.start, rg.end)[i]);
            assert(range_seq(rg.start, rg.end)[i] == (rg.start + i) as u16);
            // emitted is a take of ports, so its length equals pos
            assert(self.emitted@.len() == self.pos(*it));
        }
        let p: u16 = rg.start + (self.off as u16);
        let ghost old_pos = self.pos(*it);
        if p == rg.end {
            self.seg = self.seg + 1;
            self.off = 0;
            proof {
                lemma_concat_all_split(segs.take(k + 1), k);
                assert(segs.take(k + 1).take(k) =~= segs.take(k));
                assert(segs.take(k + 1).skip(k) =~= seq![segs[k]]);
                crate::seqs::lemma_concat_all_single(segs[k]);
                assert(concat_all(segs.take(k + 1)).len()
                    == concat_all(segs.take(k)).len() + segs[k].len());
                // the emitted element was the last of its segment
                assert(i == segs[k].len() - 1);
                assert(self.pos(*it) == old_pos + 1);
                if self.seg < it.ranges.len() {
                    assert(range_seq(it.ranges@[self.seg as int].start,
                        it.ranges@[self.seg as int].end).len() > 0);
                }
            }
        } else {
            self.off = self.off + 1;
            proof {
                assert(i + 1 < segs[k].len());
                assert(self.pos(*it) == old_pos + 1);
            }
        }
        self.emitted = Ghost(self.emitted@.push(p));
        proof {
            assert(it.ports().take(old_pos + 1)
                =~= it.ports().take(old_pos).push(it.ports()[old_pos]));
        }
        Some(p)
    }
}

impl PortCursor {
    /// Whether the traversal has yielded every port.
    pub fn done(&self, it: &PortIterator) -> (r: bool)
        requires
            self.wf(*it),
        ensures
            r == (self.emitted@.len() == it.ports().len()),
    {
        if self.seg >= it.ranges.len() {
            proof {
                assert(it.segments().take(self.seg as int) =~= it.segments());
            }
            true
        } else {
            proof {
                lemma_concat_all_len_lower(it.segments(), self.seg as int);
            }
            false
        }
    }
}

/// Materialize the whole traversal; used by tests and by the buffered
/// output path, not by the scan's hot path.
pub fn collect_ports(it: &PortIterator) -> (r: Vec<u16>)
    requires
        it.wf(),
        it.ports().len() < usize::MAX,
    ensures
        r@ == it.ports(),
{
    let mut out: Vec<u16> = Vec::new();
    let mut cur = PortCursor::new(it);
    loop
        invariant
            it.wf(),
            it.ports().len() < usize::MAX,
            cur.wf(*it),
            out@ == cur.emitted@,
        decreases it.ports().len() - cur.emitted@.len(),
    {
        match cur.next(it) {
            Some(p) => {
                out.push(p);
            },
            None => {
                return out;
            },
        }
    }
}

/// Range law: a range registered with `start <= end` yields exactly
/// the integers of `[start, end]`, each exactly once.
pub proof fn lemma_range_exact(start: u16, end: u16)
    requires
        start <= end,
    ensures
        range_seq(start, end).len() == end - start + 1,
        forall|i: int| 0 <= i <= end - start
            ==> range_seq(start, end)[i] == (start + i) as u16,
        forall|p: u16| range_seq(start, end).contains(p) <==> start <= p <= end,
        forall|i: int, j: int|
            0 <= i < j < range_seq(start, end).len()
                ==> range_seq(start, end)[i] != range_seq(start, end)[j],
{
    let s = range_seq(start, end);
    assert forall|p: u16| s.contains(p) <==> start <= p <= end by {
        if start <= p <= end {
            assert(s[p - start] == p);
            assert(s.contains(p));
        }
    }
}

} // verus!
