//! Facts about filtered sequences.

use vstd::prelude::*;

verus! {

/// A value is in the filtered sequence exactly if it is in the sequence and
/// passes the filter.
pub proof fn lemma_filter_contains<V>(s: Seq<V>, pred: spec_fn(V) -> bool)
    ensures
        forall|x: V| #[trigger] s.filter(pred).contains(x) <==> s.contains(x) && pred(x),
    decreases s.len(),
{
    reveal(Seq::filter);
    if s.len() > 0 {
        let rest = s.drop_last();
        lemma_filter_contains(rest, pred);
        let last = s.last();
        assert forall|x: V| #[trigger] s.filter(pred).contains(x) <==> s.contains(x) && pred(
            x,
        ) by {
            let f = s.filter(pred);
            let fr = rest.filter(pred);
            if f.contains(x) {
                let i = choose|i: int| 0 <= i < f.len() && f[i] == x;
                if pred(last) && i == f.len() - 1 {
                    assert(s[s.len() - 1] == x);
                } else {
                    assert(fr[i] == x);
                    assert(fr.contains(x));
                    let j = choose|j: int| 0 <= j < rest.len() && rest[j] == x;
                    assert(s[j] == x);
                }
            }
            if s.contains(x) && pred(x) {
                let i = choose|i: int| 0 <= i < s.len() && s[i] == x;
                if i == s.len() - 1 {
                    assert(f[f.len() - 1] == x);
                } else {
                    assert(rest[i] == x);
                    assert(rest.contains(x));
                    assert(fr.contains(x));
                    let j = choose|j: int| 0 <= j < fr.len() && fr[j] == x;
                    assert(f[j] == x);
                }
            }
        }
    }
}

/// Filtering twice by the same test is filtering once.
pub proof fn lemma_filter_idempotent<V>(s: Seq<V>, pred: spec_fn(V) -> bool)
    ensures
        s.filter(pred).filter(pred) == s.filter(pred),
    decreases s.len(),
{
    reveal(Seq::filter);
    if s.len() > 0 {
        let rest = s.drop_last();
        lemma_filter_idempotent(rest, pred);
        if pred(s.last()) {
            rest.filter(pred).lemma_filter_push(s.last(), pred);
        }
    }
}

/// Filtering a sequence in opposite order gives what filtering it gives,
/// in opposite order.
pub proof fn lemma_filter_reverse<V>(s: Seq<V>, pred: spec_fn(V) -> bool)
    ensures
        s.reverse().filter(pred) == s.filter(pred).reverse(),
    decreases s.len(),
{
    reveal(Seq::filter);
    if s.len() == 0 {
        assert(s.reverse() =~= s);
        assert(s.filter(pred).reverse() =~= s.filter(pred));
    } else {
        let rest = s.drop_last();
        let x = s.last();
        lemma_filter_reverse(rest, pred);
        assert(s.reverse() =~= seq![x] + rest.reverse());
        Seq::filter_distributes_over_add(seq![x], rest.reverse(), pred);
        assert(seq![x] =~= Seq::<V>::empty().push(x));
        Seq::<V>::empty().lemma_filter_push(x, pred);
        if pred(x) {
            assert(s.filter(pred) == rest.filter(pred).push(x));
            assert(rest.filter(pred).push(x).reverse() =~= seq![x] + rest.filter(pred).reverse());
            assert(seq![x].filter(pred) =~= seq![x]);
        } else {
            assert(seq![x].filter(pred) =~= Seq::<V>::empty());
            assert(Seq::<V>::empty() + rest.reverse().filter(pred) =~= rest.reverse().filter(pred));
        }
    }
}

} // verus!
