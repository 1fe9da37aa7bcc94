//! The host side of the target space: single addresses and CIDR blocks,
//! expanded lazily in ascending numeric order within each block, blocks
//! visited in registration order.

use vstd::prelude::*;
use vstd::arithmetic::power2::{pow2, lemma_pow2_adds, lemma_pow2_pos, lemma2_to64,
    lemma_pow2_strictly_increases};
use vstd::arithmetic::div_mod::{lemma_fundamental_div_mod, lemma_mod_multiples_basic};
use crate::seqs::{concat_all, lemma_concat_all_push, lemma_concat_all_index,
    lemma_concat_all_split, lemma_concat_all_contains, lemma_concat_all_single};

verus! {

/// An IP address, v4 or v6, as its numeric value.
#[derive(Clone, Copy, PartialEq, Eq, Structural, Debug)]
pub enum HostAddr {
    V4(u32),
    V6(u128),
}

/// A CIDR block: a network base address with `prefix` fixed leading bits.
/// The host bits of `base` are zero.
#[derive(Clone, Copy, PartialEq, Eq, Structural, Debug)]
pub struct CidrBlock {
    pub v6: bool,
    pub base: u128,
    pub prefix: u8,
}

impl CidrBlock {
    /// Number of address bits of the block's family.
    pub open spec fn bits(self) -> nat {
        if self.v6 { 128 } else { 32 }
    }

    /// Number of free host bits.
    pub open spec fn host_bits(self) -> nat {
        (self.bits() - self.prefix) as nat
    }

    pub open spec fn wf(self) -> bool {
        &&& self.prefix <= self.bits()
        &&& self.base < pow2(self.bits())
        &&& (self.base as int) % (pow2(self.host_bits()) as int) == 0
    }

    /// How many addresses the block spans.
    pub open spec fn count(self) -> nat {
        pow2(self.host_bits())
    }

    /// The `i`-th address of the block, ascending from the base.
    pub open spec fn addr_at(self, i: int) -> HostAddr {
        if self.v6 {
            HostAddr::V6((self.base + i) as u128)
        } else {
            HostAddr::V4((self.base + i) as u32)
        }
    }

    /// All addresses of the block, ascending.
    pub open spec fn addrs(self) -> Seq<HostAddr> {
        Seq::new(self.count(), |i: int| self.addr_at(i))
    }
}

/// `pow2(128)` written out, for bounds on `u128` arithmetic.
pub proof fn lemma_pow2_128()
    ensures
        pow2(128) == 0x100000000000000000000000000000000,
{
    lemma2_to64();
    lemma_pow2_adds(64, 64);
}

/// Any offset below the block's span stays below the family's address
/// space: the base is a multiple of the span and lies below the top.
pub proof fn lemma_multiple_plus_offset(base: int, m: int, total: int, i: int)
    requires
        m > 0,
        0 <= base,
        base % m == 0,
        total % m == 0,
        base < total,
        0 <= i < m,
    ensures
        base + i < total,
{
    let q1 = base / m;
    let q2 = total / m;
    lemma_fundamental_div_mod(base, m);
    lemma_fundamental_div_mod(total, m);
    assert(q1 < q2) by (nonlinear_arith)
        requires
            m > 0,
            m * q1 < m * q2,
    ;
    assert(m * q1 + i < m * q2) by (nonlinear_arith)
        requires
            m > 0,
            q1 < q2,
            0 <= i < m,
    ;
}

/// Every address of a well-formed block fits its family's address width.
pub proof fn lemma_block_addr_in_range(b: CidrBlock, i: int)
    requires
        b.wf(),
        0 <= i < b.count(),
    ensures
        b.base + i < pow2(b.bits()),
        b.base + i <= u128::MAX,
    {
    lemma_pow2_pos(b.host_bits());
    lemma_pow2_adds((b.prefix) as nat, b.host_bits());
    lemma_mod_multiples_basic(pow2(b.prefix as nat) as int, pow2(b.host_bits()) as int);
    lemma_multiple_plus_offset(
        b.base as int,
        pow2(b.host_bits()) as int,
        pow2(b.bits()) as int,
        i,
    );
    lemma_pow2_128();
    if !b.v6 {
        lemma_pow2_strictly_increases(32, 128);
    }
}

/// A registered input: one address, or one CIDR block.
#[derive(Clone, Copy, PartialEq, Eq, Structural, Debug)]
pub enum HostEntry {
    One(HostAddr),
    Block(CidrBlock),
}

/// The addresses an input implies.
pub open spec fn entry_seq(e: HostEntry) -> Seq<HostAddr> {
    match e {
        HostEntry::One(a) => seq![a],
        HostEntry::Block(b) => b.addrs(),
    }
}

pub open spec fn entry_wf(e: HostEntry) -> bool {
    match e {
        HostEntry::One(_) => true,
        HostEntry::Block(b) => b.wf(),
    }
}

/// The registered addresses and blocks, traversed in registration order.
pub struct HostIterator {
    pub entries: Vec<HostEntry>,
}

impl HostIterator {
    pub open spec fn wf(self) -> bool {
        forall|k: int| 0 <= k < self.entries@.len() ==> entry_wf(#[trigger] self.entries@[k])
    }

    pub open spec fn segments(self) -> Seq<Seq<HostAddr>> {
        self.entries@.map_values(|e: HostEntry| entry_seq(e))
    }

    /// The full sequence of hosts the iterator yields.
    pub open spec fn hosts(self) -> Seq<HostAddr> {
        concat_all(self.segments())
    }

    pub fn new() -> (r: Self)
        ensures
            r.wf(),
            r.hosts() == Seq::<HostAddr>::empty(),
            r.entries@.len() == 0,
    {
        let r = HostIterator { entries: Vec::new() };
        proof {
            assert(r.segments() =~= Seq::<Seq<HostAddr>>::empty());
            assert(r.hosts() =~= Seq::<HostAddr>::empty());
        }
        r
    }

    /// Register a single address.
    pub fn add_ip(self, a: HostAddr) -> (r: Self)
        requires
            self.wf(),
        ensures
            r.wf(),
            r.entries@ == self.entries@.push(HostEntry::One(a)),
            r.hosts() == self.hosts() + seq![a],
    {
        let mut entries = self.entries;
        entries.push(HostEntry::One(a));
        let r = HostIterator { entries };
        proof {
            assert(r.segments() =~= self.segments().push(seq![a]));
            lemma_concat_all_push(self.segments(), seq![a]);
        }
        r
    }

    /// Register a CIDR block.
    pub fn add_cidr(self, b: CidrBlock) -> (r: Self)
        requires
            self.wf(),
            b.wf(),
        ensures
            r.wf(),
            r.entries@ == self.entries@.push(HostEntry::Block(b)),
            r.hosts() == self.hosts() + b.addrs(),
    {
        let mut entries = self.entries;
        entries.push(HostEntry::Block(b));
        let r = HostIterator { entries };
        proof {
            assert(r.segments() =~= self.segments().push(b.addrs()));
            lemma_concat_all_push(self.segments(), b.addrs());
        }
        r
    }
}

/// Completeness law: every address implied by any registered input
/// occurs in the iterator's output.
pub proof fn lemma_hosts_complete(it: HostIterator, k: int, a: HostAddr)
    requires
        it.wf(),
        0 <= k < it.entries@.len(),
        entry_seq(it.entries@[k]).contains(a),
    ensures
        it.hosts().contains(a),
{
    lemma_concat_all_contains(it.segments(), k, a);
}

/// The all-ones mask of `hb` host bits, `pow2(hb) - 1`.
pub fn host_mask(hb: u8) -> (r: u128)
    requires
        hb <= 128,
    ensures
        r == pow2(hb as nat) - 1,
{
    let mut r: u128 = 0;
    let mut j: u8 = 0;
    proof {
        lemma_pow2_128();
        lemma2_to64();
    }
    while j < hb
        invariant
            j <= hb <= 128,
            r == pow2(j as nat) - 1,
            pow2(128) == 0x100000000000000000000000000000000,
        decreases hb - j,
    {
        proof {
            if ((j + 1) as nat) < 128 {
                lemma_pow2_strictly_increases((j + 1) as nat, 128);
            }
            assert(pow2((j + 1) as nat) == 2 * pow2(j as nat)) by {
                lemma_pow2_adds(1, j as nat);
                lemma2_to64();
            }
        }
        r = 2 * r + 1;
        j = j + 1;
    }
    r
}

/// A cursor over a `HostIterator`'s addresses. Restartable: a fresh
/// cursor re-derives the same traversal from the registered inputs.
pub struct HostCursor {
    pub ent: usize,
    pub off: u128,
    pub emitted: Ghost<Seq<HostAddr>>,
}

impl HostCursor {
    pub open spec fn pos(self, it: HostIterator) -> int {
        concat_all(it.segments().take(self.ent as int)).len() + self.off
    }

    pub open spec fn wf(self, it: HostIterator) -> bool {
        &&& it.wf()
        &&& self.ent <= it.entries@.len()
        &&& (self.ent < it.entries@.len()
            ==> self.off < entry_seq(it.entries@[self.ent as int]).len())
        &&& (self.ent == it.entries@.len() ==> self.off == 0)
        &&& 0 <= self.pos(it) <= it.hosts().len()
        &&& self.emitted@ == it.hosts().take(self.pos(it))
    }

    pub fn new(it: &HostIterator) -> (r: Self)
        requires
            it.wf(),
        ensures
            r.wf(*it),
            r.emitted@ == Seq::<HostAddr>::empty(),
    {
        let r = HostCursor { ent: 0, off: 0, emitted: Ghost(Seq::empty()) };
        proof {
            assert(it.segments().take(0) =~= Seq::<Seq<HostAddr>>::empty());
            assert(it.hosts().take(0) =~= Seq::<HostAddr>::empty());
            if it.entries@.len() > 0 {
                match it.entries@[0] {
                    HostEntry::One(_) => {},
                    HostEntry::Block(b) => {
                        lemma_pow2_pos(b.host_bits());
                    },
                }
            }
        }
        r
    }

    /// The next address, or `None` once the traversal is complete.
    pub fn next(&mut self, it: &HostIterator) -> (r: Option<HostAddr>)
        requires
            old(self).wf(*it),
        ensures
            final(self).wf(*it),
            match r {
                Some(a) => {
                    &&& old(self).emitted@.len() < it.hosts().len()
                    &&& a == it.hosts()[old(self).emitted@.len() as int]
                    &&& final(self).emitted@ == old(self).emitted@.push(a)
                },
                None => {
                    &&& old(self).emitted@ == it.hosts()
                    &&& final(self).emitted@ == old(self).emitted@
                },
            },
    {
        let ghost segs = it.segments();
        if self.ent >= it.entries.len() {
            proof {
                assert(segs.take(self.ent as int) =~= segs);
                assert(self.emitted@ =~= it.hosts());
            }
            return None;
        }
        let e = self.entries_at(it);
        let ghost k = self.ent as int;
        let ghost i = self.off as int;
        proof {
            lemma_concat_all_index(segs, k, i);
            assert(self.emitted@.len() == self.pos(*it));
        }
        let ghost old_pos = self.pos(*it);
        let (a, last) = match e {
            HostEntry::One(addr) => (addr, true),
            HostEntry::Block(b) => {
                proof {
                    lemma_block_addr_in_range(b, i);
                }
                let hb: u8 = if b.v6 { 128 - b.prefix } else { 32 - b.prefix };
                let mask = host_mask(hb);
                let p: u128 = b.base + self.off;
                let addr = if b.v6 { HostAddr::V6(p) } else { HostAddr::V4(p as u32) };
                proof {
                    lemma_pow2_pos(hb as nat);
                    assert(b.addrs()[i] == addr);
                }
                (addr, self.off == mask)
            },
        };
        proof {
            assert(it.hosts()[old_pos] == segs[k][i]);
        }
        if last {
            self.ent = self.ent + 1;
            self.off = 0;
            proof {
                lemma_concat_all_split(segs.take(k + 1), k);
                assert(segs.take(k + 1).take(k) =~= segs.take(k));
                assert(segs.take(k + 1).skip(k) =~= seq![segs[k]]);
                lemma_concat_all_single(segs[k]);
                assert(i == segs[k].len() - 1);
                assert(self.pos(*it) == old_pos + 1);
                if self.ent < it.entries.len() {
                    match it.entries@[self.ent as int] {
                        HostEntry::One(_) => {},
                        HostEntry::Block(b2) => {
                            lemma_pow2_pos(b2.host_bits());
                        },
                    }
                }
            }
        } else {
            self.off = self.off + 1;
            proof {
                assert(i + 1 < segs[k].len());
                assert(self.pos(*it) == old_pos + 1);
            }
        }
        self.emitted = Ghost(self.emitted@.push(a));
        proof {
            assert(it.hosts().take(old_pos + 1)
                =~= it.hosts().take(old_pos).push(it.hosts()[old_pos]));
        }
        Some(a)
    }

    /// Copy out the entry the cursor stands on.
    fn entries_at(&self, it: &HostIterator) -> (e: HostEntry)
        requires
            self.ent < it.entries@.len(),
        ensures
            e == it.entries@[self.ent as int],
    {
        it.entries[self.ent]
    }
}

/// Materialize the whole traversal; for tests and small target sets.
pub fn collect_hosts(it: &HostIterator) -> (r: Vec<HostAddr>)
    requires
        it.wf(),
        it.hosts().len() < usize::MAX,
    ensures
        r@ == it.hosts(),
{
    let mut out: Vec<HostAddr> = Vec::new();
    let mut cur = HostCursor::new(it);
    loop
        invariant
            it.wf(),
            it.hosts().len() < usize::MAX,
            cur.wf(*it),
            out@ == cur.emitted@,
        decreases it.hosts().len() - cur.emitted@.len(),
    {
        match cur.next(it) {
            Some(a) => {
                out.push(a);
            },
            None => {
                return out;
            },
        }
    }
}

} // verus!
