//! Facts about filtered sequences that the registry's proofs rest on.

use vstd::prelude::*;

verus! {

/// Filtering after a push filters what was there and then judges the new
/// element.
pub proof fn lemma_filter_push<A>(s: Seq<A>, x: A, pred: spec_fn(A) -> bool)
    ensures
        s.push(x).filter(pred) == if pred(x) {
            s.filter(pred).push(x)
        } else {
            s.filter(pred)
        },
{
    reveal(Seq::filter);
    assert(s.push(x).drop_last() =~= s);
}

/// A filter that every element passes changes nothing.
pub proof fn lemma_filter_keeps_all<A>(s: Seq<A>, pred: spec_fn(A) -> bool)
    requires
        forall|i: int| 0 <= i < s.len() ==> pred(#[trigger] s[i]),
    ensures
        s.filter(pred) == s,
    decreases s.len(),
{
    if s.len() == 0 {
        reveal(Seq::filter);
    } else {
        lemma_filter_keeps_all(s.drop_last(), pred);
        lemma_filter_push(s.drop_last(), s.last(), pred);
        assert(s.drop_last().push(s.last()) =~= s);
    }
}

/// A filter that only the element at `i` fails removes that element.
pub proof fn lemma_filter_drops_one<A>(s: Seq<A>, i: int, pred: spec_fn(A) -> bool)
    requires
        0 <= i < s.len(),
        !pred(s[i]),
        forall|j: int| 0 <= j < s.len() && j != i ==> pred(#[trigger] s[j]),
    ensures
        s.filter(pred) == s.remove(i),
    decreases s.len(),
{
    let front = s.drop_last();
    lemma_filter_push(front, s.last(), pred);
    assert(front.push(s.last()) =~= s);
    if i == s.len() - 1 {
        lemma_filter_keeps_all(front, pred);
        assert(s.remove(i) =~= front);
    } else {
        lemma_filter_drops_one(front, i, pred);
        assert(s.remove(i) =~= front.remove(i).push(s.last()));
    }
}

/// What passes a filter is what was there and passes the test, and a
/// filter brings in no duplicates.
pub proof fn lemma_filter_members<A>(s: Seq<A>, pred: spec_fn(A) -> bool)
    ensures
        forall|x: A| #[trigger] s.filter(pred).contains(x) <==> s.contains(x) && pred(x),
        s.no_duplicates() ==> s.filter(pred).no_duplicates(),
    decreases s.len(),
{
    let f = s.filter(pred);
    if s.len() == 0 {
        reveal(Seq::filter);
        assert(f =~= Seq::<A>::empty());
    } else {
        let front = s.drop_last();
        let last = s.last();
        let kept = front.filter(pred);
        lemma_filter_members(front, pred);
        lemma_filter_push(front, last, pred);
        assert(front.push(last) =~= s);
        assert(f == if pred(last) {
            kept.push(last)
        } else {
            kept
        });
        assert forall|x: A| #[trigger] f.contains(x) <==> s.contains(x) && pred(x) by {
            if f.contains(x) {
                let k = choose|k: int| 0 <= k < f.len() && f[k] == x;
                if k < kept.len() {
                    assert(kept[k] == x);
                    assert(kept.contains(x));
                    assert(front.contains(x));
                    let j = choose|j: int| 0 <= j < front.len() && front[j] == x;
                    assert(s[j] == x);
                } else {
                    assert(s[s.len() - 1] == x);
                }
            }
            if s.contains(x) && pred(x) {
                let j = choose|j: int| 0 <= j < s.len() && s[j] == x;
                if j == s.len() - 1 {
                    assert(f[kept.len() as int] == x);
                } else {
                    assert(front[j] == x);
                    assert(front.contains(x));
                    assert(kept.contains(x));
                    let k = choose|k: int| 0 <= k < kept.len() && kept[k] == x;
                    assert(f[k] == x);
                }
            }
        }
        if s.no_duplicates() {
            assert(front.no_duplicates());
            assert forall|a: int, b: int|
                0 <= a < f.len() && 0 <= b < f.len() && a != b implies f[a] != f[b] by {
                if a < kept.len() && b < kept.len() {
                    assert(kept[a] != kept[b]);
                } else {
                    let other = if a < kept.len() {
                        a
                    } else {
                        b
                    };
                    assert(other < kept.len());
                    assert(kept.contains(kept[other]));
                    assert(front.contains(kept[other]));
                    let j = choose|j: int| 0 <= j < front.len() && front[j] == kept[other];
                    assert(s[j] != s[s.len() - 1]);
                }
            }
        }
    }
}

} // verus!
