//! Facts about filtered sequences.

use vstd::prelude::*;

verus! {

/// Whether `part` holds the elements of `whole` at the positions `from`, and
/// those positions increase: `part` is `whole` with some elements left out.
pub open spec fn taken_in_order<A>(part: Seq<A>, whole: Seq<A>, from: Seq<int>) -> bool {
    &&& from.len() == part.len()
    &&& forall|k: int|
        0 <= k < from.len() ==> 0 <= #[trigger] from[k] < whole.len() && part[k] == whole[from[k]]
    &&& forall|k: int, l: int| 0 <= k < l < from.len() ==> from[k] < from[l]
}

/// A filter keeps a sequence whole when every element passes.
pub proof fn lemma_filter_keeps_all<A>(s: Seq<A>, pred: spec_fn(A) -> bool)
    requires
        forall|j: int| 0 <= j < s.len() ==> pred(s[j]),
    ensures
        s.filter(pred) == s,
    decreases s.len(),
{
    reveal(Seq::filter);
    if s.len() > 0 {
        lemma_filter_keeps_all(s.drop_last(), pred);
    }
}

/// A filter that keeps the length of a sequence keeps the sequence.
pub proof fn lemma_filter_full_length<A>(s: Seq<A>, pred: spec_fn(A) -> bool)
    requires
        s.filter(pred).len() == s.len(),
    ensures
        s.filter(pred) == s,
    decreases s.len(),
{
    reveal(Seq::filter);
    if s.len() > 0 {
        s.drop_last().lemma_filter_len(pred);
        lemma_filter_full_length(s.drop_last(), pred);
    }
}

/// A filter that only the element at `i` fails removes that element.
pub proof fn lemma_filter_drops_one<A>(s: Seq<A>, pred: spec_fn(A) -> bool, i: int)
    requires
        0 <= i < s.len(),
        !pred(s[i]),
        forall|j: int| 0 <= j < s.len() && j != i ==> pred(s[j]),
    ensures
        s.filter(pred) == s.remove(i),
    decreases s.len(),
{
    reveal(Seq::filter);
    if i == s.len() - 1 {
        lemma_filter_keeps_all(s.drop_last(), pred);
    } else {
        lemma_filter_drops_one(s.drop_last(), pred, i);
    }
}

/// How a filter treats the last element of a sequence.
pub proof fn lemma_filter_push<A>(s: Seq<A>, pred: spec_fn(A) -> bool, last: A)
    ensures
        s.push(last).filter(pred) == if pred(last) {
            s.filter(pred).push(last)
        } else {
            s.filter(pred)
        },
{
    reveal(Seq::filter);
    assert(s.push(last).drop_last() =~= s);
}

/// A filter and its complement split a sequence.
pub proof fn lemma_filter_split<A>(s: Seq<A>, pred: spec_fn(A) -> bool, rest: spec_fn(A) -> bool)
    requires
        forall|a: A| #[trigger] rest(a) == !pred(a),
    ensures
        s.filter(pred).len() + s.filter(rest).len() == s.len(),
    decreases s.len(),
{
    reveal(Seq::filter);
    if s.len() > 0 {
        lemma_filter_split(s.drop_last(), pred, rest);
    }
}

/// A filter leaves elements out and moves none: the result holds the
/// elements at the returned positions, which increase.
pub proof fn lemma_filter_positions<A>(s: Seq<A>, pred: spec_fn(A) -> bool) -> (from: Seq<int>)
    ensures
        taken_in_order(s.filter(pred), s, from),
        forall|k: int| 0 <= k < from.len() ==> pred(s[#[trigger] from[k]]),
        forall|i: int| 0 <= i < s.len() && pred(s[i]) ==> from.contains(i),
    decreases s.len(),
{
    reveal(Seq::filter);
    if s.len() == 0 {
        Seq::<int>::empty()
    } else {
        let shorter = lemma_filter_positions(s.drop_last(), pred);
        if pred(s.last()) {
            let from = shorter.push(s.len() - 1);
            assert forall|i: int| 0 <= i < s.len() && pred(s[i]) implies from.contains(i) by {
                if i < s.len() - 1 {
                    assert(shorter.contains(i));
                    let k = choose|k: int| 0 <= k < shorter.len() && shorter[k] == i;
                    assert(from[k] == i);
                } else {
                    assert(from[from.len() - 1] == i);
                }
            }
            from
        } else {
            shorter
        }
    }
}

} // verus!
