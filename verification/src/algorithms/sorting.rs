//! Stable sorting of sequences, stated as a function on sequences.

use vstd::prelude::*;

verus! {

/// A strict order that a sort can go by: nothing is below itself, being
/// below carries over, and so does not being below.
pub open spec fn is_strict_weak_order<V>(lt: spec_fn(V, V) -> bool) -> bool {
    &&& forall|a: V| !#[trigger] lt(a, a)
    &&& forall|a: V, b: V, c: V| #[trigger] lt(a, b) && #[trigger] lt(b, c) ==> lt(a, c)
    &&& forall|a: V, b: V, c: V|
        !#[trigger] lt(a, b) && !#[trigger] lt(b, c) ==> !lt(a, c)
}

/// How many leading values of `s` are below `x`.
pub open spec fn insert_index<V>(x: V, s: Seq<V>, lt: spec_fn(V, V) -> bool) -> int
    decreases s.len(),
{
    if s.len() == 0 || !lt(s[0], x) {
        0
    } else {
        1 + insert_index(x, s.drop_first(), lt)
    }
}

/// Put `x` into `s` behind the leading values that are below it.
pub open spec fn insert_sorted<V>(x: V, s: Seq<V>, lt: spec_fn(V, V) -> bool) -> Seq<V> {
    s.insert(insert_index(x, s, lt), x)
}

/// The values of `s` in ascending order; values of which neither is below
/// the other keep the order they had in `s`.
pub open spec fn sort_seq<V>(s: Seq<V>, lt: spec_fn(V, V) -> bool) -> Seq<V>
    decreases s.len(),
{
    if s.len() == 0 {
        Seq::empty()
    } else {
        insert_sorted(s[0], sort_seq(s.drop_first(), lt), lt)
    }
}

/// No value stands before one that is below it.
pub open spec fn is_sorted<V>(s: Seq<V>, lt: spec_fn(V, V) -> bool) -> bool {
    forall|i: int, j: int| 0 <= i < j < s.len() ==> !lt(#[trigger] s[j], #[trigger] s[i])
}

/// The index of insertion ends the leading run of values below `x`.
pub proof fn lemma_insert_index<V>(x: V, s: Seq<V>, lt: spec_fn(V, V) -> bool)
    ensures
        0 <= insert_index(x, s, lt) <= s.len(),
        forall|i: int| 0 <= i < insert_index(x, s, lt) ==> lt(#[trigger] s[i], x),
        insert_index(x, s, lt) < s.len() ==> !lt(s[insert_index(x, s, lt)], x),
    decreases s.len(),
{
    if s.len() == 0 || !lt(s[0], x) {
    } else {
        let rest = s.drop_first();
        lemma_insert_index(x, rest, lt);
        let p = insert_index(x, rest, lt);
        assert forall|i: int| 0 <= i < p + 1 implies lt(#[trigger] s[i], x) by {
            if i > 0 {
                assert(rest[i - 1] == s[i]);
            }
        }
        if p + 1 < s.len() {
            assert(rest[p] == s[p + 1]);
        }
    }
}

/// An index that ends a run of values below `x`, and stands before one that
/// is not, is the index of insertion.
pub proof fn lemma_insert_index_unique<V>(x: V, s: Seq<V>, p: int, lt: spec_fn(V, V) -> bool)
    requires
        0 <= p <= s.len(),
        forall|i: int| 0 <= i < p ==> lt(#[trigger] s[i], x),
        p < s.len() ==> !lt(s[p], x),
    ensures
        insert_index(x, s, lt) == p,
    decreases p,
{
    if p > 0 {
        let rest = s.drop_first();
        assert(lt(s[0], x));
        assert forall|i: int| 0 <= i < p - 1 implies lt(#[trigger] rest[i], x) by {
            assert(rest[i] == s[i + 1]);
        }
        if p - 1 < rest.len() {
            assert(rest[p - 1] == s[p]);
        }
        lemma_insert_index_unique(x, rest, p - 1, lt);
    }
}

/// Inserting keeps the values: the result holds `x` and what `s` held.
pub proof fn lemma_insert_sorted_contains<V>(x: V, s: Seq<V>, lt: spec_fn(V, V) -> bool)
    ensures
        insert_sorted(x, s, lt).len() == s.len() + 1,
        insert_sorted(x, s, lt).to_multiset() == s.to_multiset().insert(x),
        forall|y: V| insert_sorted(x, s, lt).contains(y) <==> (y == x || s.contains(y)),
{
    lemma_insert_index(x, s, lt);
    let p = insert_index(x, s, lt);
    let r = s.insert(p, x);
    vstd::seq_lib::to_multiset_insert(s, p, x);
    assert forall|y: V| r.contains(y) <==> (y == x || s.contains(y)) by {
        if r.contains(y) {
            let i = choose|i: int| 0 <= i < r.len() && r[i] == y;
            if i < p {
                assert(s[i] == y);
            } else if i > p {
                assert(s[i - 1] == y);
            }
        }
        if y == x {
            assert(r[p] == x);
        }
        if s.contains(y) {
            let i = choose|i: int| 0 <= i < s.len() && s[i] == y;
            if i < p {
                assert(r[i] == y);
            } else {
                assert(r[i + 1] == y);
            }
        }
    }
}

/// Inserting into a sorted sequence leaves it sorted.
pub proof fn lemma_insert_sorted_is_sorted<V>(x: V, s: Seq<V>, lt: spec_fn(V, V) -> bool)
    requires
        is_strict_weak_order(lt),
        is_sorted(s, lt),
    ensures
        is_sorted(insert_sorted(x, s, lt), lt),
{
    lemma_insert_index(x, s, lt);
    let p = insert_index(x, s, lt);
    let r = s.insert(p, x);
    assert forall|i: int, j: int| 0 <= i < j < r.len() implies !lt(
        #[trigger] r[j],
        #[trigger] r[i],
    ) by {
        if j == p {
            assert(r[i] == s[i]);
            assert(lt(s[i], x));
            if lt(x, s[i]) {
                assert(lt(x, x));
            }
        } else if i == p {
            assert(r[j] == s[j - 1]);
            assert(!lt(s[p], x));
            if j - 1 > p {
                assert(!lt(s[j - 1], s[p]));
            }
        } else {
            let si = if i < p { i } else { i - 1 };
            let sj = if j < p { j } else { j - 1 };
            assert(r[i] == s[si]);
            assert(r[j] == s[sj]);
        }
    }
}

/// A sorted sequence holds what the unsorted one held, in ascending order.
pub proof fn lemma_sort_seq_properties<V>(s: Seq<V>, lt: spec_fn(V, V) -> bool)
    ensures
        sort_seq(s, lt).len() == s.len(),
        sort_seq(s, lt).to_multiset() == s.to_multiset(),
        forall|y: V| sort_seq(s, lt).contains(y) <==> s.contains(y),
        is_strict_weak_order(lt) ==> is_sorted(sort_seq(s, lt), lt),
    decreases s.len(),
{
    if s.len() == 0 {
        assert(s =~= Seq::empty());
    } else {
        let rest = s.drop_first();
        let sorted_rest = sort_seq(rest, lt);
        lemma_sort_seq_properties(rest, lt);
        lemma_insert_sorted_contains(s[0], sorted_rest, lt);
        if is_strict_weak_order(lt) {
            lemma_insert_sorted_is_sorted(s[0], sorted_rest, lt);
        }
        assert(s =~= rest.insert(0, s[0]));
        vstd::seq_lib::to_multiset_insert(rest, 0, s[0]);
        assert forall|y: V| sort_seq(s, lt).contains(y) <==> s.contains(y) by {
            if s.contains(y) {
                let i = choose|i: int| 0 <= i < s.len() && s[i] == y;
                if i > 0 {
                    assert(rest[i - 1] == y);
                }
            }
            if rest.contains(y) {
                let j = choose|j: int| 0 <= j < rest.len() && rest[j] == y;
                assert(s[j + 1] == y);
            }
        }
    }
}

/// Every two values at different places stand in the relation.
pub open spec fn is_pairwise<V>(s: Seq<V>, rel: spec_fn(V, V) -> bool) -> bool {
    forall|i: int, j: int|
        0 <= i < s.len() && 0 <= j < s.len() && i != j ==> rel(#[trigger] s[i], #[trigger] s[j])
}

/// A value that is related to all of a pairwise related sequence, both
/// ways, can be inserted anywhere.
pub proof fn lemma_insert_keeps_pairwise<V>(s: Seq<V>, p: int, x: V, rel: spec_fn(V, V) -> bool)
    requires
        0 <= p <= s.len(),
        is_pairwise(s, rel),
        forall|i: int| 0 <= i < s.len() ==> rel(#[trigger] s[i], x) && rel(x, s[i]),
    ensures
        is_pairwise(s.insert(p, x), rel),
{
    let r = s.insert(p, x);
    assert forall|i: int, j: int| 0 <= i < r.len() && 0 <= j < r.len() && i != j implies rel(
        #[trigger] r[i],
        #[trigger] r[j],
    ) by {
        let si = if i < p { i } else { i - 1 };
        let sj = if j < p { j } else { j - 1 };
        if i == p {
            assert(r[j] == s[sj]);
        } else if j == p {
            assert(r[i] == s[si]);
        } else {
            assert(r[i] == s[si]);
            assert(r[j] == s[sj]);
        }
    }
}

/// Sorting keeps a sequence pairwise related.
pub proof fn lemma_sort_seq_keeps_pairwise<V>(
    s: Seq<V>,
    lt: spec_fn(V, V) -> bool,
    rel: spec_fn(V, V) -> bool,
)
    requires
        is_pairwise(s, rel),
    ensures
        is_pairwise(sort_seq(s, lt), rel),
    decreases s.len(),
{
    if s.len() > 0 {
        let rest = s.drop_first();
        let sorted_rest = sort_seq(rest, lt);
        assert forall|i: int, j: int|
            0 <= i < rest.len() && 0 <= j < rest.len() && i != j implies rel(
            #[trigger] rest[i],
            #[trigger] rest[j],
        ) by {
            assert(rest[i] == s[i + 1]);
            assert(rest[j] == s[j + 1]);
        }
        lemma_sort_seq_keeps_pairwise(rest, lt, rel);
        lemma_sort_seq_properties(rest, lt);
        lemma_insert_index(s[0], sorted_rest, lt);
        assert forall|i: int| 0 <= i < sorted_rest.len() implies rel(
            #[trigger] sorted_rest[i],
            s[0],
        ) && rel(s[0], sorted_rest[i]) by {
            let y = sorted_rest[i];
            assert(sorted_rest.contains(y));
            assert(rest.contains(y));
            let k = choose|k: int| 0 <= k < rest.len() && rest[k] == y;
            assert(s[k + 1] == y);
            assert(rel(s[k + 1], s[0]) && rel(s[0], s[k + 1]));
        }
        lemma_insert_keeps_pairwise(sorted_rest, insert_index(s[0], sorted_rest, lt), s[0], rel);
    }
}

} // verus!
