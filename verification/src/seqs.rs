//! Concatenation of a sequence of segments, with the lemmas the
//! iterator cursors need to relate a (segment, offset) position to an
//! index into the flattened sequence.

use vstd::prelude::*;

verus! {

/// All segments joined in order.
pub open spec fn concat_all<A>(ss: Seq<Seq<A>>) -> Seq<A>
    decreases ss.len(),
{
    if ss.len() == 0 {
        Seq::empty()
    } else {
        ss.first() + concat_all(ss.drop_first())
    }
}

/// Splitting the segment list splits the concatenation.
pub proof fn lemma_concat_all_split<A>(ss: Seq<Seq<A>>, k: int)
    requires
        0 <= k <= ss.len(),
    ensures
        concat_all(ss) == concat_all(ss.take(k)) + concat_all(ss.skip(k)),
    decreases k,
{
    if k == 0 {
        assert(ss.take(0) =~= Seq::<Seq<A>>::empty());
        assert(ss.skip(0) =~= ss);
        assert(concat_all(ss.take(k)) + concat_all(ss.skip(k)) =~= concat_all(ss));
    } else {
        let rest = ss.drop_first();
        lemma_concat_all_split(rest, k - 1);
        assert(ss.take(k).first() == ss.first());
        assert(ss.take(k).drop_first() =~= rest.take(k - 1));
        assert(ss.skip(k) =~= rest.skip(k - 1));
        assert(concat_all(ss.take(k)) == ss.first() + concat_all(rest.take(k - 1)));
        assert(concat_all(ss.take(k)) + concat_all(ss.skip(k)) =~= concat_all(ss));
    }
}

/// Appending a segment appends its elements.
pub proof fn lemma_concat_all_push<A>(ss: Seq<Seq<A>>, s: Seq<A>)
    ensures
        concat_all(ss.push(s)) == concat_all(ss) + s,
{
    let whole = ss.push(s);
    lemma_concat_all_split(whole, ss.len() as int);
    assert(whole.take(ss.len() as int) =~= ss);
    assert(whole.skip(ss.len() as int) =~= seq![s]);
    lemma_concat_all_single(s);
}

/// A single segment concatenates to itself.
pub proof fn lemma_concat_all_single<A>(s: Seq<A>)
    ensures
        concat_all(seq![s]) == s,
{
    let one = seq![s];
    assert(one.len() == 1);
    assert(one.first() == s);
    assert(one.drop_first() =~= Seq::<Seq<A>>::empty());
    assert(concat_all(one) == s + concat_all(Seq::<Seq<A>>::empty()));
    assert(s + Seq::<A>::empty() =~= s);
}

/// The element at offset `i` of segment `k` sits at index
/// `concat_all(ss.take(k)).len() + i` of the concatenation.
pub proof fn lemma_concat_all_index<A>(ss: Seq<Seq<A>>, k: int, i: int)
    requires
        0 <= k < ss.len(),
        0 <= i < ss[k].len(),
    ensures
        concat_all(ss.take(k)).len() + i < concat_all(ss).len(),
        concat_all(ss)[concat_all(ss.take(k)).len() + i] == ss[k][i],
{
    lemma_concat_all_split(ss, k);
    let tail = ss.skip(k);
    assert(tail.first() == ss[k]);
    assert(concat_all(tail) == ss[k] + concat_all(tail.drop_first()));
    let head_len = concat_all(ss.take(k)).len() as int;
    assert(concat_all(ss)[head_len + i] == concat_all(tail)[i]);
    assert(concat_all(tail)[i] == ss[k][i]);
}

/// When every segment has the same width, the concatenation's length
/// is the product.
pub proof fn lemma_concat_all_uniform_len<A>(ss: Seq<Seq<A>>, w: nat)
    requires
        forall|k: int| 0 <= k < ss.len() ==> (#[trigger] ss[k]).len() == w,
    ensures
        concat_all(ss).len() == ss.len() * w,
    decreases ss.len(),
{
    if ss.len() == 0 {
        assert(concat_all(ss).len() == 0);
    } else {
        let rest = ss.drop_first();
        assert(forall|k: int| 0 <= k < rest.len() ==> (#[trigger] rest[k]).len() == w);
        lemma_concat_all_uniform_len(rest, w);
        assert(w + (ss.len() - 1) * w == ss.len() * w) by (nonlinear_arith);
    }
}

/// A segment's elements all fit before the concatenation's end.
pub proof fn lemma_concat_all_len_lower<A>(ss: Seq<Seq<A>>, k: int)
    requires
        0 <= k < ss.len(),
    ensures
        concat_all(ss.take(k)).len() + ss[k].len() <= concat_all(ss).len(),
{
    lemma_concat_all_split(ss, k);
    let tail = ss.skip(k);
    assert(tail.first() == ss[k]);
    assert(concat_all(tail) == ss[k] + concat_all(tail.drop_first()));
}

/// Every element of every segment occurs in the concatenation.
pub proof fn lemma_concat_all_contains<A>(ss: Seq<Seq<A>>, k: int, x: A)
    requires
        0 <= k < ss.len(),
        ss[k].contains(x),
    ensures
        concat_all(ss).contains(x),
{
    let i = choose|i: int| 0 <= i < ss[k].len() && ss[k][i] == x;
    lemma_concat_all_index(ss, k, i);
    let pos = concat_all(ss.take(k)).len() + i;
    assert(concat_all(ss)[pos as int] == x);
}

} // verus!
