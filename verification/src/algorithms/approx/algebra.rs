//! Laws of the algebra on partial curve approximations.

use vstd::prelude::*;
use crate::algorithms::approx::curve::{
    has_no_empty, is_nonempty, left_in, merge_result, merged_segment, merged_with, restrict,
    reverse_result, segment_lt, split_from, stored_part, subset_result, taken_out,
};
use crate::algorithms::approx::points::{
    inside, lemma_points_before_irreflexive, lemma_points_before_total,
    lemma_points_before_transitive, lemma_points_not_before_transitive,
};
use crate::algorithms::approx::segment::SegmentModel;
use crate::algorithms::sequences::{lemma_filter_contains, lemma_filter_idempotent};
use crate::algorithms::sorting::{
    is_pairwise, lemma_insert_keeps_pairwise, lemma_sort_seq_keeps_pairwise,
    lemma_sort_seq_properties,
};
use crate::geometry::boundary::CurveBoundary;

verus! {

/// The boundaries of two segments do not overlap.
pub open spec fn no_overlap() -> spec_fn(SegmentModel, SegmentModel) -> bool {
    |a: SegmentModel, b: SegmentModel| !a.boundary.spec_overlaps(b.boundary)
}

/// No two segments have boundaries that overlap.
pub open spec fn is_disjoint(segs: Seq<SegmentModel>) -> bool {
    is_pairwise(segs, no_overlap())
}

/// Some segment's boundary covers the parameter.
pub open spec fn covers(segs: Seq<SegmentModel>, t: int) -> bool {
    exists|i: int| 0 <= i < segs.len() && (#[trigger] segs[i]).boundary.covers(t)
}

/// What an approximation holds after the segments were merged into it one
/// after the other.
pub open spec fn merge_all(segs: Seq<SegmentModel>, news: Seq<SegmentModel>) -> Seq<SegmentModel>
    decreases news.len(),
{
    if news.len() == 0 {
        segs
    } else {
        merge_result(merge_all(segs, news.drop_last()), news.last())
    }
}

/// Two boundaries overlap exactly if some parameter is covered by both.
pub proof fn lemma_overlap_is_shared_parameter(a: CurveBoundary, b: CurveBoundary)
    ensures
        a.spec_overlaps(b) <==> exists|t: int| a.covers(t) && b.covers(t),
{
    if a.spec_overlaps(b) {
        let t = if a.lo() >= b.lo() {
            a.lo()
        } else {
            b.lo()
        };
        assert(a.covers(t) && b.covers(t));
    }
}

/// The union of two overlapping boundaries covers what either covers, and
/// nothing else.
pub proof fn lemma_union_covers(a: CurveBoundary, b: CurveBoundary)
    requires
        a.spec_overlaps(b),
    ensures
        forall|t: int| a.spec_union(b).covers(t) <==> a.covers(t) || b.covers(t),
{
}

/// Some segment whose boundary overlaps the given one covers the parameter.
pub open spec fn covers_near(segs: Seq<SegmentModel>, boundary: CurveBoundary, t: int) -> bool {
    exists|i: int|
        0 <= i < segs.len() && (#[trigger] segs[i]).boundary.spec_overlaps(boundary)
            && segs[i].boundary.covers(t)
}

/// The merged boundary covers the new boundary and the boundaries of the
/// segments that overlap the new one, and nothing else.
pub proof fn lemma_merged_segment_covers(segs: Seq<SegmentModel>, new: SegmentModel, t: int)
    ensures
        merged_segment(segs, new).boundary.covers(t) <==> new.boundary.covers(t) || covers_near(
            segs,
            new.boundary,
            t,
        ),
    decreases segs.len(),
{
    if segs.len() > 0 {
        let rest = segs.drop_last();
        let s = segs.last();
        let acc = merged_segment(rest, new);
        let all = merged_segment(segs, new);
        lemma_merged_segment_covers(rest, new, t);
        crate::algorithms::approx::curve::lemma_merged_segment_covers_new(rest, new);
        if covers_near(rest, new.boundary, t) {
            let i = choose|i: int|
                0 <= i < rest.len() && (#[trigger] rest[i]).boundary.spec_overlaps(new.boundary)
                    && rest[i].boundary.covers(t);
            assert(segs[i] == rest[i]);
            assert(covers_near(segs, new.boundary, t));
        }
        if covers_near(segs, new.boundary, t) {
            let i = choose|i: int|
                0 <= i < segs.len() && (#[trigger] segs[i]).boundary.spec_overlaps(new.boundary)
                    && segs[i].boundary.covers(t);
            if i < rest.len() {
                assert(rest[i] == segs[i]);
                assert(covers_near(rest, new.boundary, t));
            } else {
                assert(segs[i] == s);
            }
        }
        if s.boundary.spec_overlaps(new.boundary) {
            lemma_union_covers(acc.boundary, s.boundary);
            assert(all.boundary == acc.boundary.spec_union(s.boundary));
            assert(all.boundary.covers(t) <==> acc.boundary.covers(t) || s.boundary.covers(t));
            if s.boundary.covers(t) {
                assert(segs[segs.len() - 1] == s);
                assert(covers_near(segs, new.boundary, t));
            }
        } else {
            assert(all == acc);
        }
    }
}

/// Where segments were merged into the new one, the merged boundary is
/// written with its smaller end first.
pub proof fn lemma_merged_segment_is_normalized(segs: Seq<SegmentModel>, new: SegmentModel)
    ensures
        merged_segment(segs, new) == new || merged_segment(
            segs,
            new,
        ).boundary.spec_is_normalized(),
        forall|i: int|
            0 <= i < segs.len() && (#[trigger] segs[i]).boundary.spec_overlaps(new.boundary)
                ==> merged_segment(segs, new).boundary.spec_is_normalized(),
    decreases segs.len(),
{
    if segs.len() > 0 {
        let rest = segs.drop_last();
        lemma_merged_segment_is_normalized(rest, new);
        assert forall|i: int|
            0 <= i < segs.len() && (#[trigger] segs[i]).boundary.spec_overlaps(
                new.boundary,
            ) implies merged_segment(segs, new).boundary.spec_is_normalized() by {
            if !segs.last().boundary.spec_overlaps(new.boundary) {
                assert(rest[i] == segs[i]);
            }
        }
    }
}

/// A merged segment with an empty boundary is the new segment, and no
/// segment with a boundary that is not empty was merged into it.
pub proof fn lemma_empty_merged_segment(segs: Seq<SegmentModel>, new: SegmentModel)
    requires
        merged_segment(segs, new).boundary.spec_is_empty(),
    ensures
        new.boundary.spec_is_empty(),
        forall|i: int|
            0 <= i < segs.len() && (#[trigger] segs[i]).boundary.spec_overlaps(new.boundary)
                ==> segs[i].boundary.spec_is_empty(),
{
    let merged = merged_segment(segs, new);
    lemma_merged_segment_is_normalized(segs, new);
    crate::algorithms::approx::curve::lemma_merged_segment_covers_new(segs, new);
    assert forall|i: int|
        0 <= i < segs.len() && (#[trigger] segs[i]).boundary.spec_overlaps(
            new.boundary,
        ) implies segs[i].boundary.spec_is_empty() by {
        let b = segs[i].boundary;
        lemma_merged_segment_covers(segs, new, b.lo());
        lemma_merged_segment_covers(segs, new, b.hi());
        assert(covers_near(segs, new.boundary, b.lo()));
        assert(covers_near(segs, new.boundary, b.hi()));
        lemma_merged_segment_covers(segs, new, new.boundary.lo());
        lemma_merged_segment_covers(segs, new, new.boundary.hi());
    }
    lemma_merged_segment_covers(segs, new, new.boundary.lo());
    lemma_merged_segment_covers(segs, new, new.boundary.hi());
}

/// A value is in a sequence with the stored part of a merged segment at its
/// end exactly if it is in the sequence or is the merged segment, stored.
proof fn lemma_with_stored_part(kept: Seq<SegmentModel>, merged: SegmentModel)
    ensures
        forall|x: SegmentModel|
            (kept + stored_part(merged)).contains(x) <==> kept.contains(x) || (x == merged
                && !merged.boundary.spec_is_empty()),
{
    let all = kept + stored_part(merged);
    assert forall|x: SegmentModel|
        all.contains(x) <==> kept.contains(x) || (x == merged
            && !merged.boundary.spec_is_empty()) by {
        if all.contains(x) {
            let i = choose|i: int| 0 <= i < all.len() && all[i] == x;
            if i < kept.len() {
                assert(kept[i] == x);
            }
        }
        if kept.contains(x) {
            let i = choose|i: int| 0 <= i < kept.len() && kept[i] == x;
            assert(all[i] == x);
        }
        if x == merged && !merged.boundary.spec_is_empty() {
            assert(all[kept.len() as int] == x);
        }
    }
}

/// What a merge takes out are the segments that overlap the boundary, what
/// it leaves in are those that do not, and every segment is among the ones
/// or the others.
pub proof fn lemma_split(segs: Seq<SegmentModel>, boundary: CurveBoundary, place: int)
    requires
        0 <= place <= segs.len(),
        forall|j: int| 0 <= j < place ==> !(#[trigger] segs[j]).boundary.spec_overlaps(boundary),
    ensures
        forall|x: SegmentModel| #[trigger]
            split_from(segs, boundary, place).0.contains(x) ==> segs.contains(x)
                && x.boundary.spec_overlaps(boundary),
        forall|x: SegmentModel| #[trigger]
            split_from(segs, boundary, place).1.contains(x) ==> segs.contains(x)
                && !x.boundary.spec_overlaps(boundary),
        forall|x: SegmentModel| #[trigger]
            segs.contains(x) ==> split_from(segs, boundary, place).0.contains(x) || split_from(
                segs,
                boundary,
                place,
            ).1.contains(x),
    decreases segs.len() - place,
{
    let taken = split_from(segs, boundary, place).0;
    let left = split_from(segs, boundary, place).1;
    if place >= segs.len() {
        assert(taken =~= Seq::<SegmentModel>::empty());
        assert(left == segs);
        assert forall|x: SegmentModel| #[trigger] left.contains(x) implies segs.contains(x)
            && !x.boundary.spec_overlaps(boundary) by {
            let i = choose|i: int| 0 <= i < left.len() && left[i] == x;
            assert(segs[i] == x);
        }
        assert forall|x: SegmentModel| #[trigger] taken.contains(x) implies segs.contains(x)
            && x.boundary.spec_overlaps(boundary) by {
            let i = choose|i: int| 0 <= i < taken.len() && taken[i] == x;
        }
    } else if segs[place].boundary.spec_overlaps(boundary) {
        let fewer = segs.update(place, segs.last()).drop_last();
        assert forall|j: int| 0 <= j < place implies !(#[trigger] fewer[j]).boundary.spec_overlaps(
            boundary,
        ) by {
            assert(fewer[j] == segs[j]);
        }
        lemma_split(fewer, boundary, place);
        let rest = split_from(fewer, boundary, place);
        assert(taken == seq![segs[place]] + rest.0);
        assert(left == rest.1);
        assert forall|x: SegmentModel| #[trigger] fewer.contains(x) implies segs.contains(x) by {
            let i = choose|i: int| 0 <= i < fewer.len() && fewer[i] == x;
            if i == place {
                assert(segs[segs.len() - 1] == x);
            } else {
                assert(segs[i] == x);
            }
        }
        assert forall|x: SegmentModel| #[trigger] left.contains(x) implies segs.contains(x)
            && !x.boundary.spec_overlaps(boundary) by {
            assert(rest.1.contains(x));
            assert(fewer.contains(x));
        }
        assert forall|x: SegmentModel| #[trigger] taken.contains(x) implies segs.contains(x)
            && x.boundary.spec_overlaps(boundary) by {
            let i = choose|i: int| 0 <= i < taken.len() && taken[i] == x;
            if i == 0 {
                assert(segs[place] == x);
            } else {
                assert(rest.0[i - 1] == x);
                assert(rest.0.contains(x));
                assert(fewer.contains(x));
            }
        }
        assert forall|x: SegmentModel| #[trigger] segs.contains(x) implies taken.contains(x)
            || left.contains(x) by {
            let i = choose|i: int| 0 <= i < segs.len() && segs[i] == x;
            if i == place {
                assert(taken[0] == x);
            } else {
                if i == segs.len() - 1 {
                    assert(fewer[place] == x);
                } else {
                    assert(fewer[i] == x);
                }
                assert(fewer.contains(x));
                if rest.0.contains(x) {
                    let k = choose|k: int| 0 <= k < rest.0.len() && rest.0[k] == x;
                    assert(taken[k + 1] == x);
                }
            }
        }
    } else {
        lemma_split(segs, boundary, place + 1);
        assert(taken == split_from(segs, boundary, place + 1).0);
        assert(left == split_from(segs, boundary, place + 1).1);
    }
}

/// Taking the segment at a place out and putting the last one there leaves
/// a pairwise related sequence pairwise related.
proof fn lemma_swap_remove_keeps_pairwise(
    segs: Seq<SegmentModel>,
    place: int,
    rel: spec_fn(SegmentModel, SegmentModel) -> bool,
)
    requires
        0 <= place < segs.len(),
        is_pairwise(segs, rel),
    ensures
        is_pairwise(segs.update(place, segs.last()).drop_last(), rel),
{
    let fewer = segs.update(place, segs.last()).drop_last();
    assert forall|i: int, j: int|
        0 <= i < fewer.len() && 0 <= j < fewer.len() && i != j implies rel(
        #[trigger] fewer[i],
        #[trigger] fewer[j],
    ) by {
        let si = if i == place {
            segs.len() - 1
        } else {
            i
        };
        let sj = if j == place {
            segs.len() - 1
        } else {
            j
        };
        assert(fewer[i] == segs[si]);
        assert(fewer[j] == segs[sj]);
    }
}

/// What a merge leaves in of a pairwise related sequence is pairwise
/// related.
pub proof fn lemma_split_keeps_pairwise(
    segs: Seq<SegmentModel>,
    boundary: CurveBoundary,
    place: int,
    rel: spec_fn(SegmentModel, SegmentModel) -> bool,
)
    requires
        0 <= place <= segs.len(),
        is_pairwise(segs, rel),
    ensures
        is_pairwise(split_from(segs, boundary, place).1, rel),
    decreases segs.len() - place,
{
    if place >= segs.len() {
    } else if segs[place].boundary.spec_overlaps(boundary) {
        lemma_swap_remove_keeps_pairwise(segs, place, rel);
        lemma_split_keeps_pairwise(
            segs.update(place, segs.last()).drop_last(),
            boundary,
            place,
            rel,
        );
    } else {
        lemma_split_keeps_pairwise(segs, boundary, place + 1, rel);
    }
}

/// After a merge that stores the merged segment, the approximation covers
/// what it covered before and what the new segment's boundary covers, and
/// nothing else. After a merge that stores nothing, into an approximation
/// without empty boundaries, it covers what it covered before.
pub proof fn lemma_merge_covers(segs: Seq<SegmentModel>, new: SegmentModel)
    ensures
        !merged_with(segs, new).boundary.spec_is_empty() ==> forall|t: int|
            covers(merge_result(segs, new), t) <==> covers(segs, t) || new.boundary.covers(t),
        merged_with(segs, new).boundary.spec_is_empty() && has_no_empty(segs) ==> forall|t: int|
            covers(merge_result(segs, new), t) <==> covers(segs, t),
{
    let taken = taken_out(segs, new.boundary);
    let kept = left_in(segs, new.boundary);
    let merged = merged_with(segs, new);
    let all = kept + stored_part(merged);
    let result = merge_result(segs, new);
    lemma_sort_seq_properties(all, segment_lt());
    lemma_split(segs, new.boundary, 0);
    lemma_with_stored_part(kept, merged);
    if merged.boundary.spec_is_empty() {
        if has_no_empty(segs) {
            lemma_empty_merged_segment(taken, new);
            assert forall|t: int| covers(result, t) <==> covers(segs, t) by {
                if covers(result, t) {
                    let i = choose|i: int|
                        0 <= i < result.len() && (#[trigger] result[i]).boundary.covers(t);
                    assert(result.contains(result[i]));
                    assert(all.contains(result[i]));
                    assert(kept.contains(result[i]));
                    assert(segs.contains(result[i]));
                    let k = choose|k: int| 0 <= k < segs.len() && segs[k] == result[i];
                    assert(segs[k].boundary.covers(t));
                }
                if covers(segs, t) {
                    let k = choose|k: int|
                        0 <= k < segs.len() && (#[trigger] segs[k]).boundary.covers(t);
                    assert(segs.contains(segs[k]));
                    if taken.contains(segs[k]) {
                        let o = choose|o: int| 0 <= o < taken.len() && taken[o] == segs[k];
                        assert(taken[o].boundary.spec_overlaps(new.boundary));
                    }
                    assert(kept.contains(segs[k]));
                    assert(all.contains(segs[k]));
                    assert(result.contains(segs[k]));
                    let i = choose|i: int| 0 <= i < result.len() && result[i] == segs[k];
                    assert(result[i].boundary.covers(t));
                }
            }
        }
    } else {
        assert forall|t: int|
            covers(result, t) <==> covers(segs, t) || new.boundary.covers(t) by {
            lemma_merged_segment_covers(taken, new, t);
            if covers_near(taken, new.boundary, t) {
                let o = choose|o: int|
                    0 <= o < taken.len() && (#[trigger] taken[o]).boundary.spec_overlaps(
                        new.boundary,
                    ) && taken[o].boundary.covers(t);
                assert(taken.contains(taken[o]));
                assert(segs.contains(taken[o]));
                let k = choose|k: int| 0 <= k < segs.len() && segs[k] == taken[o];
                assert(segs[k].boundary.covers(t));
                assert(covers(segs, t));
            }
            if covers(result, t) {
                let i = choose|i: int|
                    0 <= i < result.len() && (#[trigger] result[i]).boundary.covers(t);
                assert(result.contains(result[i]));
                assert(all.contains(result[i]));
                if kept.contains(result[i]) {
                    assert(segs.contains(result[i]));
                    let k = choose|k: int| 0 <= k < segs.len() && segs[k] == result[i];
                    assert(segs[k].boundary.covers(t));
                }
            }
            if new.boundary.covers(t) {
                assert(all[kept.len() as int] == merged);
                assert(all.contains(merged));
                assert(result.contains(merged));
                let i = choose|i: int| 0 <= i < result.len() && result[i] == merged;
                assert(result[i].boundary.covers(t));
            }
            if covers(segs, t) {
                let k = choose|k: int|
                    0 <= k < segs.len() && (#[trigger] segs[k]).boundary.covers(t);
                assert(segs.contains(segs[k]));
                if kept.contains(segs[k]) {
                    assert(all.contains(segs[k]));
                    assert(result.contains(segs[k]));
                    let i = choose|i: int| 0 <= i < result.len() && result[i] == segs[k];
                    assert(result[i].boundary.covers(t));
                } else {
                    assert(taken.contains(segs[k]));
                    let o = choose|o: int| 0 <= o < taken.len() && taken[o] == segs[k];
                    assert(taken[o].boundary.spec_overlaps(new.boundary));
                    assert(covers_near(taken, new.boundary, t));
                    assert(all[kept.len() as int] == merged);
                    assert(all.contains(merged));
                    assert(result.contains(merged));
                    let i = choose|i: int| 0 <= i < result.len() && result[i] == merged;
                    assert(result[i].boundary.covers(t));
                }
            }
        }
    }
}

/// A merge into an approximation without empty boundaries leaves it without
/// empty boundaries.
pub proof fn lemma_merge_keeps_nonempty(segs: Seq<SegmentModel>, new: SegmentModel)
    requires
        has_no_empty(segs),
    ensures
        has_no_empty(merge_result(segs, new)),
{
    let kept = left_in(segs, new.boundary);
    let merged = merged_with(segs, new);
    let result = merge_result(segs, new);
    lemma_sort_seq_properties(kept + stored_part(merged), segment_lt());
    lemma_split(segs, new.boundary, 0);
    lemma_with_stored_part(kept, merged);
    assert forall|i: int| 0 <= i < result.len() implies !(
    #[trigger] result[i]).boundary.spec_is_empty() by {
        assert(result.contains(result[i]));
        assert((kept + stored_part(merged)).contains(result[i]));
        if kept.contains(result[i]) {
            assert(segs.contains(result[i]));
            let k = choose|k: int| 0 <= k < segs.len() && segs[k] == result[i];
        }
    }
}

/// A new segment whose boundary is not empty is stored, whatever is merged
/// into it.
pub proof fn lemma_nonempty_is_stored(segs: Seq<SegmentModel>, new: SegmentModel)
    requires
        !new.boundary.spec_is_empty(),
    ensures
        !merged_segment(segs, new).boundary.spec_is_empty(),
{
    lemma_merged_segment_is_normalized(segs, new);
    crate::algorithms::approx::curve::lemma_merged_segment_covers_new(segs, new);
}

/// A merge into an approximation without overlaps leaves it without
/// overlaps.
pub proof fn lemma_merge_keeps_disjoint(segs: Seq<SegmentModel>, new: SegmentModel)
    requires
        is_disjoint(segs),
    ensures
        is_disjoint(merge_result(segs, new)),
{
    let taken = taken_out(segs, new.boundary);
    let kept = left_in(segs, new.boundary);
    let merged = merged_with(segs, new);
    lemma_split_keeps_pairwise(segs, new.boundary, 0, no_overlap());
    lemma_split(segs, new.boundary, 0);
    assert forall|i: int| 0 <= i < kept.len() implies no_overlap()(#[trigger] kept[i], merged)
        && no_overlap()(merged, kept[i]) by {
        let k = kept[i];
        assert(kept.contains(k));
        assert(segs.contains(k));
        let j = choose|j: int| 0 <= j < segs.len() && segs[j] == k;
        lemma_overlap_is_shared_parameter(k.boundary, merged.boundary);
        if k.boundary.spec_overlaps(merged.boundary) {
            let t = choose|t: int| k.boundary.covers(t) && merged.boundary.covers(t);
            lemma_merged_segment_covers(taken, new, t);
            if new.boundary.covers(t) {
                lemma_overlap_is_shared_parameter(k.boundary, new.boundary);
            } else {
                let o = choose|o: int|
                    0 <= o < taken.len() && (#[trigger] taken[o]).boundary.spec_overlaps(
                        new.boundary,
                    ) && taken[o].boundary.covers(t);
                assert(taken.contains(taken[o]));
                assert(segs.contains(taken[o]));
                let p = choose|p: int| 0 <= p < segs.len() && segs[p] == taken[o];
                assert(p != j);
                lemma_overlap_is_shared_parameter(segs[j].boundary, segs[p].boundary);
                assert(no_overlap()(segs[j], segs[p]));
            }
        }
    }
    if merged.boundary.spec_is_empty() {
        assert(kept + stored_part(merged) =~= kept);
    } else {
        lemma_insert_keeps_pairwise(kept, kept.len() as int, merged, no_overlap());
        assert(kept.insert(kept.len() as int, merged) =~= kept + stored_part(merged));
    }
    lemma_sort_seq_keeps_pairwise(kept + stored_part(merged), segment_lt(), no_overlap());
}

/// Whatever segments with boundaries that are not empty are merged into an
/// approximation without overlaps and without empty boundaries, one after
/// the other: afterwards it is without overlaps and without empty
/// boundaries, and it covers what it covered before together with what the
/// boundaries of the merged segments cover.
pub proof fn lemma_merge_all(segs: Seq<SegmentModel>, news: Seq<SegmentModel>)
    requires
        is_disjoint(segs),
        has_no_empty(segs),
        has_no_empty(news),
    ensures
        is_disjoint(merge_all(segs, news)),
        has_no_empty(merge_all(segs, news)),
        forall|t: int| covers(merge_all(segs, news), t) <==> covers(segs, t) || covers(news, t),
    decreases news.len(),
{
    if news.len() > 0 {
        let before = news.drop_last();
        let last = news.last();
        assert forall|i: int| 0 <= i < before.len() implies !(
        #[trigger] before[i]).boundary.spec_is_empty() by {
            assert(before[i] == news[i]);
        }
        lemma_merge_all(segs, before);
        let mid = merge_all(segs, before);
        lemma_merge_keeps_disjoint(mid, last);
        lemma_merge_keeps_nonempty(mid, last);
        assert(news[news.len() - 1] == last);
        lemma_nonempty_is_stored(taken_out(mid, last.boundary), last);
        lemma_merge_covers(mid, last);
        assert forall|t: int|
            covers(merge_all(segs, news), t) <==> covers(segs, t) || covers(news, t) by {
            assert(covers(merge_all(segs, news), t) <==> covers(mid, t) || last.boundary.covers(t));
            assert(covers(mid, t) <==> covers(segs, t) || covers(before, t));
            if covers(before, t) {
                let k = choose|k: int|
                    0 <= k < before.len() && (#[trigger] before[k]).boundary.covers(t);
                assert(news[k] == before[k]);
                assert(covers(news, t));
            }
            if covers(news, t) {
                let k = choose|k: int|
                    0 <= k < news.len() && (#[trigger] news[k]).boundary.covers(t);
                if k < before.len() {
                    assert(before[k] == news[k]);
                    assert(covers(before, t));
                } else {
                    assert(news[k] == last);
                }
            }
            if last.boundary.covers(t) {
                assert(covers(news, t));
            }
        }
    } else {
        assert forall|t: int| !covers(news, t) by {}
    }
}

/// Starting from an approximation that covers nothing, any sequence of
/// merges of segments with boundaries that are not empty leaves segments of
/// which no two overlap and none has an empty boundary, and which together
/// cover exactly what the merged boundaries cover.
pub proof fn lemma_merges_from_empty(news: Seq<SegmentModel>)
    requires
        has_no_empty(news),
    ensures
        is_disjoint(merge_all(Seq::empty(), news)),
        has_no_empty(merge_all(Seq::empty(), news)),
        forall|t: int| covers(merge_all(Seq::empty(), news), t) <==> covers(news, t),
{
    lemma_merge_all(Seq::empty(), news);
    assert forall|t: int| !covers(Seq::<SegmentModel>::empty(), t) by {}
}

/// A segment that was cut down to a boundary and is not empty is not
/// changed by cutting it down again.
pub proof fn lemma_restrict_idempotent(s: SegmentModel, boundary: CurveBoundary)
    requires
        is_nonempty()(restrict(boundary)(s)),
    ensures
        restrict(boundary)(restrict(boundary)(s)) == restrict(boundary)(s),
{
    lemma_filter_idempotent(s.points, inside(boundary.spec_normalize()));
}

/// Cutting an approximation down to the same boundary twice gives what
/// cutting it down once gives.
pub proof fn lemma_subset_idempotent(segs: Seq<SegmentModel>, boundary: CurveBoundary)
    ensures
        subset_result(subset_result(segs, boundary), boundary) == subset_result(segs, boundary),
    decreases segs.len(),
{
    reveal(Seq::filter);
    let f = restrict(boundary);
    let ne = is_nonempty();
    if segs.len() == 0 {
        assert(segs.map_values(f) =~= Seq::<SegmentModel>::empty());
        assert(Seq::<SegmentModel>::empty().map_values(f) =~= Seq::<SegmentModel>::empty());
    } else {
        let rest = segs.drop_last();
        let x = segs.last();
        lemma_subset_idempotent(rest, boundary);
        let once_rest = subset_result(rest, boundary);
        assert(segs =~= rest.push(x));
        assert(rest.push(x).map_values(f) =~= rest.map_values(f).push(f(x)));
        rest.map_values(f).lemma_filter_push(f(x), ne);
        if ne(f(x)) {
            lemma_restrict_idempotent(x, boundary);
            assert(subset_result(segs, boundary) == once_rest.push(f(x)));
            assert(once_rest.push(f(x)).map_values(f) =~= once_rest.map_values(f).push(f(f(x))));
            once_rest.map_values(f).lemma_filter_push(f(f(x)), ne);
        }
    }
}

/// The order of segments is a strict order, and a total one: of two
/// different segments one comes before the other.
pub proof fn lemma_segment_lt_is_order()
    ensures
        crate::algorithms::sorting::is_strict_weak_order(segment_lt()),
        forall|a: SegmentModel, b: SegmentModel|
            !#[trigger] segment_lt()(a, b) && !segment_lt()(b, a) ==> a == b,
{
    let lt = segment_lt();
    assert forall|a: SegmentModel| !#[trigger] lt(a, a) by {
        lemma_points_before_irreflexive(a.points);
    }
    assert forall|a: SegmentModel, b: SegmentModel, c: SegmentModel|
        #[trigger] lt(a, b) && #[trigger] lt(b, c) implies lt(a, c) by {
        if a.boundary == b.boundary && b.boundary == c.boundary {
            lemma_points_before_transitive(a.points, b.points, c.points);
        }
    }
    assert forall|a: SegmentModel, b: SegmentModel, c: SegmentModel|
        !#[trigger] lt(a, b) && !#[trigger] lt(b, c) implies !lt(a, c) by {
        if a.boundary.start.t == b.boundary.start.t && a.boundary.end.t == b.boundary.end.t
            && b.boundary.start.t == c.boundary.start.t && b.boundary.end.t == c.boundary.end.t {
            lemma_points_not_before_transitive(a.points, b.points, c.points);
        }
    }
    assert forall|a: SegmentModel, b: SegmentModel|
        !#[trigger] lt(a, b) && !lt(b, a) implies a == b by {
        lemma_points_before_total(a.points, b.points);
    }
}

/// After a merge the segments stand in ascending order.
pub proof fn lemma_merge_result_is_sorted(segs: Seq<SegmentModel>, new: SegmentModel)
    ensures
        crate::algorithms::sorting::is_sorted(merge_result(segs, new), segment_lt()),
{
    lemma_segment_lt_is_order();
    lemma_sort_seq_properties(
        left_in(segs, new.boundary) + stored_part(merged_with(segs, new)),
        segment_lt(),
    );
}

/// Turning an approximation around twice gives the approximation.
pub proof fn lemma_reverse_twice(segs: Seq<SegmentModel>)
    ensures
        reverse_result(reverse_result(segs)) == segs,
{
    let once = reverse_result(segs);
    let twice = reverse_result(once);
    assert forall|i: int| 0 <= i < segs.len() implies twice[i] == segs[i] by {
        crate::algorithms::approx::cache::lemma_reverse_twice(segs[i]);
        assert(once[segs.len() - 1 - i] == segs[i].reverse());
    }
    assert(twice =~= segs);
}

/// Turning an approximation without overlaps around leaves it without
/// overlaps.
pub proof fn lemma_reverse_keeps_disjoint(segs: Seq<SegmentModel>)
    requires
        is_disjoint(segs),
    ensures
        is_disjoint(reverse_result(segs)),
{
    let turned = reverse_result(segs);
    assert forall|i: int, j: int|
        0 <= i < turned.len() && 0 <= j < turned.len() && i != j implies no_overlap()(
        #[trigger] turned[i],
        #[trigger] turned[j],
    ) by {
        let a = segs[segs.len() - 1 - i];
        let b = segs[segs.len() - 1 - j];
        assert(no_overlap()(a, b));
    }
}

/// Cutting an approximation without overlaps down to a boundary leaves it
/// without overlaps.
pub proof fn lemma_subset_keeps_disjoint(segs: Seq<SegmentModel>, boundary: CurveBoundary)
    requires
        is_disjoint(segs),
    ensures
        is_disjoint(subset_result(segs, boundary)),
{
    let cut = segs.map_values(restrict(boundary));
    assert forall|i: int, j: int|
        0 <= i < cut.len() && 0 <= j < cut.len() && i != j implies no_overlap()(
        #[trigger] cut[i],
        #[trigger] cut[j],
    ) || cut[i].boundary.spec_is_empty() || cut[j].boundary.spec_is_empty() by {
        assert(no_overlap()(segs[i], segs[j]));
    }
    lemma_nonempty_keeps_disjoint(cut);
}

/// Where every two segments either do not overlap or one of them is empty,
/// the segments that are not empty do not overlap.
proof fn lemma_nonempty_keeps_disjoint(cut: Seq<SegmentModel>)
    requires
        forall|i: int, j: int|
            0 <= i < cut.len() && 0 <= j < cut.len() && i != j ==> no_overlap()(
                #[trigger] cut[i],
                #[trigger] cut[j],
            ) || cut[i].boundary.spec_is_empty() || cut[j].boundary.spec_is_empty(),
    ensures
        is_disjoint(cut.filter(is_nonempty())),
    decreases cut.len(),
{
    reveal(Seq::filter);
    if cut.len() > 0 {
        let rest = cut.drop_last();
        let last = cut.last();
        assert forall|i: int, j: int|
            0 <= i < rest.len() && 0 <= j < rest.len() && i != j implies no_overlap()(
            #[trigger] rest[i],
            #[trigger] rest[j],
        ) || rest[i].boundary.spec_is_empty() || rest[j].boundary.spec_is_empty() by {
            assert(rest[i] == cut[i]);
            assert(rest[j] == cut[j]);
        }
        lemma_nonempty_keeps_disjoint(rest);
        lemma_filter_contains(rest, is_nonempty());
        let kept = rest.filter(is_nonempty());
        if is_nonempty()(last) {
            assert forall|i: int| 0 <= i < kept.len() implies no_overlap()(#[trigger] kept[i], last)
                && no_overlap()(last, kept[i]) by {
                assert(kept.contains(kept[i]));
                assert(rest.contains(kept[i]));
                let k = choose|k: int| 0 <= k < rest.len() && rest[k] == kept[i];
                assert(cut[k] == kept[i]);
                assert(cut[cut.len() - 1] == last);
                assert(no_overlap()(cut[k], cut[cut.len() - 1]) || cut[k].boundary.spec_is_empty()
                    || cut[cut.len() - 1].boundary.spec_is_empty());
                assert(no_overlap()(cut[cut.len() - 1], cut[k]) || cut[k].boundary.spec_is_empty()
                    || cut[cut.len() - 1].boundary.spec_is_empty());
            }
            lemma_insert_keeps_pairwise(kept, kept.len() as int, last, no_overlap());
            assert(kept.insert(kept.len() as int, last) =~= kept.push(last));
        }
    }
}

} // verus!
