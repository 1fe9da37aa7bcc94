//! The target space: the cross product of hosts and ports, ports
//! varying fastest, traversed in a fixed order that is identical on
//! every pass — the retry orchestrator re-derives it from the same
//! registered inputs.

use vstd::prelude::*;
use crate::seqs::{concat_all, lemma_concat_all_index, lemma_concat_all_uniform_len};
use crate::hosts::{HostIterator, HostCursor, HostAddr};
use crate::ports::{PortIterator, PortCursor};
use crate::codec::Target;

verus! {

/// One host crossed with every port, in port order.
pub open spec fn row(h: HostAddr, pi: PortIterator) -> Seq<Target> {
    pi.ports().map_values(|p: u16| Target { host: h, port: p })
}

pub open spec fn space_segments(hi: HostIterator, pi: PortIterator) -> Seq<Seq<Target>> {
    hi.hosts().map_values(|h: HostAddr| row(h, pi))
}

/// The full target space in traversal order.
pub open spec fn space(hi: HostIterator, pi: PortIterator) -> Seq<Target> {
    concat_all(space_segments(hi, pi))
}

/// Pass invariance: the space's length is hosts times ports, and it is
/// a pure function of the registered inputs, so every pass traverses
/// the same sequence.
pub proof fn lemma_space_len(hi: HostIterator, pi: PortIterator)
    ensures
        space(hi, pi).len() == hi.hosts().len() * pi.ports().len(),
{
    lemma_concat_all_uniform_len(space_segments(hi, pi), pi.ports().len());
}

/// A cursor over the target space. Restartable: a fresh cursor yields
/// the same traversal again.
pub struct TargetCursor {
    pub hc: HostCursor,
    pub pc: PortCursor,
    pub cur_host: Option<HostAddr>,
    pub emitted: Ghost<Seq<Target>>,
}

impl TargetCursor {
    pub open spec fn wf(self, hi: HostIterator, pi: PortIterator) -> bool {
        &&& hi.wf()
        &&& pi.wf()
        &&& pi.ports().len() > 0
        &&& self.hc.wf(hi)
        &&& self.pc.wf(pi)
        &&& self.emitted@.len() <= space(hi, pi).len()
        &&& self.emitted@ == space(hi, pi).take(self.emitted@.len() as int)
        &&& match self.cur_host {
            None => {
                &&& self.pc.emitted@ == Seq::<u16>::empty()
                &&& self.emitted@ == space(hi, pi).take(
                    self.hc.emitted@.len() as int * pi.ports().len() as int)
            },
            Some(h) => {
                &&& self.hc.emitted@.len() >= 1
                &&& h == self.hc.emitted@.last()
                &&& self.pc.emitted@.len() < pi.ports().len()
                &&& self.emitted@ == space(hi, pi).take(
                    (self.hc.emitted@.len() - 1) as int * pi.ports().len() as int
                        + self.pc.emitted@.len() as int)
            },
        }
    }

    pub fn new(hi: &HostIterator, pi: &PortIterator) -> (r: Self)
        requires
            hi.wf(),
            pi.wf(),
            pi.ports().len() > 0,
        ensures
            r.wf(*hi, *pi),
            r.emitted@ == Seq::<Target>::empty(),
    {
        let r = TargetCursor {
            hc: HostCursor::new(hi),
            pc: PortCursor::new(pi),
            cur_host: None,
            emitted: Ghost(Seq::empty()),
        };
        proof {
            assert(space(*hi, *pi).take(0) =~= Seq::<Target>::empty());
            assert(r.hc.emitted@.len() as int * pi.ports().len() as int == 0);
            assert(r.emitted@ == space(*hi, *pi).take(
                r.hc.emitted@.len() as int * pi.ports().len() as int));
            assert(r.wf(*hi, *pi));
        }
        r
    }

    /// The next target of this pass, or `None` once the space is
    /// exhausted.
    pub fn next(&mut self, hi: &HostIterator, pi: &PortIterator) -> (r: Option<Target>)
        requires
            old(self).wf(*hi, *pi),
        ensures
            final(self).wf(*hi, *pi),
            match r {
                Some(t) => {
                    &&& old(self).emitted@.len() < space(*hi, *pi).len()
                    &&& t == space(*hi, *pi)[old(self).emitted@.len() as int]
                    &&& final(self).emitted@ == old(self).emitted@.push(t)
                },
                None => {
                    &&& old(self).emitted@ == space(*hi, *pi)
                    &&& final(self).emitted@ == old(self).emitted@
                },
            },
    {
        let ghost segs = space_segments(*hi, *pi);
        let ghost p_len = pi.ports().len() as int;
        proof {
            lemma_concat_all_uniform_len(segs, pi.ports().len());
        }
        let h = match self.cur_host {
            Some(h) => h,
            None => {
                match self.hc.next(hi) {
                    None => {
                        proof {
                            assert(self.hc.emitted@.len() == hi.hosts().len());
                            assert(self.emitted@ =~= space(*hi, *pi));
                        }
                        return None;
                    },
                    Some(h) => {
                        self.cur_host = Some(h);
                        h
                    },
                }
            },
        };
        let ghost hrow = (self.hc.emitted@.len() - 1) as int;
        let ghost poff = self.pc.emitted@.len() as int;
        proof {
            assert(h == hi.hosts()[hrow]);
            assert(segs[hrow] == row(h, *pi));
            lemma_concat_all_index(segs, hrow, poff);
            lemma_concat_all_take_rows(*hi, *pi, hrow);
        }
        let p = match self.pc.next(pi) {
            Some(p) => p,
            None => {
                // cannot happen: the cursor never rests at a finished row
                proof {
                    assert(false);
                }
                return None;
            },
        };
        let t = Target { host: h, port: p };
        let ghost old_emitted = self.emitted@;
        proof {
            assert(space(*hi, *pi)[hrow * p_len + poff] == row(h, *pi)[poff]);
            assert(row(h, *pi)[poff] == t);
            assert(old_emitted.len() == hrow * p_len + poff) by {
                assert(0 <= hrow * p_len) by (nonlinear_arith)
                    requires hrow >= 0, p_len >= 0,
                ;
            }
        }
        self.emitted = Ghost(self.emitted@.push(t));
        proof {
            assert(space(*hi, *pi).take(hrow * p_len + poff + 1)
                =~= space(*hi, *pi).take(hrow * p_len + poff).push(t));
        }
        if self.pc.done(pi) {
            self.pc = PortCursor::new(pi);
            self.cur_host = None;
            proof {
                assert((hrow + 1) * p_len == hrow * p_len + p_len) by (nonlinear_arith);
            }
        }
        Some(t)
    }
}

/// The first `k` rows of the space hold `k * ports` targets.
pub proof fn lemma_concat_all_take_rows(hi: HostIterator, pi: PortIterator, k: int)
    requires
        0 <= k <= hi.hosts().len(),
    ensures
        concat_all(space_segments(hi, pi).take(k)).len() == k * pi.ports().len(),
{
    let segs = space_segments(hi, pi);
    assert(forall|j: int| 0 <= j < segs.take(k).len()
        ==> (#[trigger] segs.take(k)[j]).len() == pi.ports().len());
    lemma_concat_all_uniform_len(segs.take(k), pi.ports().len());
}

} // verus!
