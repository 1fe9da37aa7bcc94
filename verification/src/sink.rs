//! The result sink: the set of confirmed-open targets, deduplicated
//! across passes, with records streamed immediately or buffered for
//! one ordered emission after the final pass.

use vstd::prelude::*;
use crate::codec::Target;
use crate::fmt::{OutputFormat, record_chars, format_record};

verus! {

/// What confirming `t` does to the confirmed list: nothing if it is
/// already there, else it is appended.
pub open spec fn submit_confirmed(c: Seq<Target>, t: Target) -> Seq<Target> {
    if c.contains(t) {
        c
    } else {
        c.push(t)
    }
}

/// What confirming `t` does to the stream of emitted records.
pub open spec fn submit_emitted(
    c: Seq<Target>,
    e: Seq<Seq<char>>,
    t: Target,
    f: OutputFormat,
) -> Seq<Seq<char>> {
    if c.contains(t) {
        e
    } else {
        e.push(record_chars(t, f))
    }
}

pub struct ResultSink {
    pub confirmed: Vec<Target>,
    /// Records held back for end-of-scan emission (buffered mode).
    pub held: Vec<String>,
    /// Every record ever emitted, streamed or held.
    pub emitted: Ghost<Seq<Seq<char>>>,
    pub format: OutputFormat,
    pub stream: bool,
}

impl ResultSink {
    pub open spec fn wf(self) -> bool {
        &&& forall|i: int, j: int| 0 <= i < j < self.confirmed@.len()
            ==> self.confirmed@[i] != self.confirmed@[j]
        &&& self.emitted@.len() == self.confirmed@.len()
        &&& forall|i: int| 0 <= i < self.emitted@.len()
            ==> #[trigger] self.emitted@[i] == record_chars(self.confirmed@[i], self.format)
        &&& (!self.stream ==> self.held@.len() == self.confirmed@.len()
            && forall|i: int| 0 <= i < self.held@.len()
                ==> (#[trigger] self.held@[i])@ == self.emitted@[i])
        &&& (self.stream ==> self.held@.len() == 0)
    }

    pub fn new(format: OutputFormat, stream: bool) -> (r: Self)
        ensures
            r.wf(),
            r.confirmed@.len() == 0,
            r.emitted@.len() == 0,
            r.format == format,
            r.stream == stream,
    {
        ResultSink {
            confirmed: Vec::new(),
            held: Vec::new(),
            emitted: Ghost(Seq::empty()),
            format,
            stream,
        }
    }

    /// Whether `t` is already confirmed open. The retry orchestrator
    /// uses this as the traversal filter for later passes.
    pub fn contains(&self, t: &Target) -> (r: bool)
        ensures
            r == self.confirmed@.contains(*t),
    {
        let mut i: usize = 0;
        while i < self.confirmed.len()
            invariant
                i <= self.confirmed@.len(),
                forall|j: int| 0 <= j < i ==> self.confirmed@[j] != *t,
            decreases self.confirmed@.len() - i,
        {
            if self.confirmed[i] == *t {
                return true;
            }
            i = i + 1;
        }
        false
    }

    /// Deliver a confirmed-open target. A duplicate (the same port
    /// reconfirmed in a later pass) changes nothing and emits nothing;
    /// a new target is recorded once, and its record is returned for
    /// immediate output in stream mode or held otherwise.
    pub fn submit(&mut self, t: Target) -> (r: Option<String>)
        requires
            old(self).wf(),
        ensures
            final(self).wf(),
            final(self).format == old(self).format,
            final(self).stream == old(self).stream,
            final(self).confirmed@ == submit_confirmed(old(self).confirmed@, t),
            final(self).emitted@
                == submit_emitted(old(self).confirmed@, old(self).emitted@, t, old(self).format),
            old(self).confirmed@.contains(t) ==> r is None
                && final(self).held@ == old(self).held@,
            !old(self).confirmed@.contains(t) && old(self).stream
                ==> r is Some && r->0@ == record_chars(t, old(self).format)
                    && final(self).held@ == old(self).held@,
            !old(self).confirmed@.contains(t) && !old(self).stream
                ==> r is None
                    && final(self).held@.len() == old(self).held@.len() + 1
                    && final(self).held@.take(old(self).held@.len() as int)
                        == old(self).held@
                    && final(self).held@.last()@ == record_chars(t, old(self).format),
    {
        if self.contains(&t) {
            return None;
        }
        let rec = format_record(&t, self.format);
        self.confirmed.push(t);
        self.emitted = Ghost(self.emitted@.push(rec@));
        if self.stream {
            Some(rec)
        } else {
            let ghost held0 = self.held@;
            self.held.push(rec);
            proof {
                assert(self.held@.take(held0.len() as int) =~= held0);
            }
            None
        }
    }

    /// The records for the ordered end-of-scan batch (empty in stream
    /// mode, where each record was already handed out by `submit`).
    pub fn into_held(self) -> (r: Vec<String>)
        ensures
            r@ == self.held@,
    {
        self.held
    }
}

/// Idempotence law: delivering the same confirmed-open target twice
/// yields exactly one emitted record — the second delivery changes
/// neither the confirmed set nor the emission stream.
pub proof fn lemma_sink_idempotent(c: Seq<Target>, e: Seq<Seq<char>>, t: Target, f: OutputFormat)
    ensures
        submit_confirmed(submit_confirmed(c, t), t) == submit_confirmed(c, t),
        submit_emitted(submit_confirmed(c, t), submit_emitted(c, e, t, f), t, f)
            == submit_emitted(c, e, t, f),
        !c.contains(t) ==> submit_emitted(c, e, t, f).len() == e.len() + 1,
{
    if !c.contains(t) {
        assert(c.push(t)[c.len() as int] == t);
        assert(c.push(t).contains(t));
    }
}

} // verus!
