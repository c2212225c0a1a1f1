//! Partial approximations of a curve and the algebra on them.

use vstd::prelude::*;
use crate::algorithms::approx::points::{
    inside, merged_points, points_before, CurveApproxPoints,
};
use crate::algorithms::approx::segment::{CurveApproxSegment, SegmentModel};
use crate::algorithms::approx::algebra::{
    covers, is_disjoint, lemma_merge_covers, lemma_merge_keeps_disjoint,
    lemma_merge_keeps_nonempty, lemma_merge_result_is_sorted, lemma_reverse_keeps_disjoint,
    lemma_subset_keeps_disjoint,
};
use crate::algorithms::sorting::{is_sorted, lemma_insert_index_unique, sort_seq};
use crate::geometry::boundary::CurveBoundary;

verus! {

/// The segments of a vector, as values.
pub open spec fn models(s: Seq<CurveApproxSegment>) -> Seq<SegmentModel> {
    s.map_values(|x: CurveApproxSegment| x@)
}

/// Segments are ordered by the start of their boundary, then by its end,
/// then by their points.
pub open spec fn segment_lt() -> spec_fn(SegmentModel, SegmentModel) -> bool {
    |a: SegmentModel, b: SegmentModel|
        a.boundary.start.t < b.boundary.start.t || (a.boundary.start.t == b.boundary.start.t && (
            a.boundary.end.t < b.boundary.end.t || (a.boundary.end.t == b.boundary.end.t
                && points_before(a.points, b.points))))
}

/// The segments whose boundary is not empty.
pub open spec fn is_nonempty() -> spec_fn(SegmentModel) -> bool {
    |s: SegmentModel| !s.boundary.spec_is_empty()
}

/// A segment cut down to a boundary: its boundary is intersected with the
/// given one, and the points strictly inside the given one stay.
pub open spec fn restrict(boundary: CurveBoundary) -> spec_fn(SegmentModel) -> SegmentModel {
    |s: SegmentModel|
        SegmentModel {
            boundary: s.boundary.spec_subset(boundary),
            points: s.points.filter(inside(boundary.spec_normalize())),
        }
}

/// The segments that a merge takes out and those that it leaves in, looking
/// from the given place on: a segment that overlaps the boundary is taken
/// out and the last segment is put in its place, which is looked at next.
pub open spec fn split_from(segs: Seq<SegmentModel>, boundary: CurveBoundary, place: int) -> (
    Seq<SegmentModel>,
    Seq<SegmentModel>,
)
    decreases segs.len() - place,
{
    if place < 0 || place >= segs.len() {
        (Seq::empty(), segs)
    } else if segs[place].boundary.spec_overlaps(boundary) {
        let rest = split_from(segs.update(place, segs.last()).drop_last(), boundary, place);
        (seq![segs[place]] + rest.0, rest.1)
    } else {
        split_from(segs, boundary, place + 1)
    }
}

/// The segments whose boundary overlaps the given one, in the order in
/// which a merge takes them out.
pub open spec fn taken_out(segs: Seq<SegmentModel>, boundary: CurveBoundary) -> Seq<SegmentModel> {
    split_from(segs, boundary, 0).0
}

/// The segments whose boundary does not overlap the given one, as a merge
/// leaves them.
pub open spec fn left_in(segs: Seq<SegmentModel>, boundary: CurveBoundary) -> Seq<SegmentModel> {
    split_from(segs, boundary, 0).1
}

/// The new segment after the segments that overlap its boundary have been
/// merged into it, one after the other.
pub open spec fn merged_segment(segs: Seq<SegmentModel>, new: SegmentModel) -> SegmentModel
    decreases segs.len(),
{
    if segs.len() == 0 {
        new
    } else {
        let acc = merged_segment(segs.drop_last(), new);
        let s = segs.last();
        if s.boundary.spec_overlaps(new.boundary) {
            SegmentModel {
                boundary: acc.boundary.spec_union(s.boundary),
                points: merged_points(acc.points, s.points, s.boundary),
            }
        } else {
            acc
        }
    }
}

/// What is stored of a merged segment: the segment, unless its boundary is
/// empty.
pub open spec fn stored_part(merged: SegmentModel) -> Seq<SegmentModel> {
    if merged.boundary.spec_is_empty() {
        Seq::empty()
    } else {
        seq![merged]
    }
}

/// The new segment after every stored segment that overlaps its boundary
/// has been merged into it, in the order in which they are taken out.
pub open spec fn merged_with(segs: Seq<SegmentModel>, new: SegmentModel) -> SegmentModel {
    merged_segment(taken_out(segs, new.boundary), new)
}

/// What an approximation holds after a merge: the segments that do not
/// overlap the new one, and the merged segment unless its boundary is
/// empty, in ascending order.
pub open spec fn merge_result(segs: Seq<SegmentModel>, new: SegmentModel) -> Seq<SegmentModel> {
    sort_seq(left_in(segs, new.boundary) + stored_part(merged_with(segs, new)), segment_lt())
}

/// No segment has an empty boundary.
pub open spec fn has_no_empty(segs: Seq<SegmentModel>) -> bool {
    forall|i: int| 0 <= i < segs.len() ==> !(#[trigger] segs[i]).boundary.spec_is_empty()
}

/// What an approximation holds after it was cut down to a boundary.
pub open spec fn subset_result(segs: Seq<SegmentModel>, boundary: CurveBoundary) -> Seq<
    SegmentModel,
> {
    segs.map_values(restrict(boundary)).filter(is_nonempty())
}

/// What an approximation holds after it was turned around: the segments in
/// opposite order, each of them reversed.
pub open spec fn reverse_result(segs: Seq<SegmentModel>) -> Seq<SegmentModel> {
    Seq::new(segs.len(), |i: int| segs[segs.len() - 1 - i].reverse())
}

/// The merged boundary covers the new one, whatever was merged in.
pub proof fn lemma_merged_segment_covers_new(segs: Seq<SegmentModel>, new: SegmentModel)
    ensures
        merged_segment(segs, new).boundary.lo() <= new.boundary.lo(),
        merged_segment(segs, new).boundary.hi() >= new.boundary.hi(),
    decreases segs.len(),
{
    if segs.len() > 0 {
        lemma_merged_segment_covers_new(segs.drop_last(), new);
    }
}

/// Move the values out of a vector, last one first.
pub fn drain_reversed<T>(v: &mut Vec<T>) -> (out: Vec<T>)
    ensures
        out@ == old(v)@.reverse(),
        final(v)@.len() == 0,
{
    let mut out: Vec<T> = Vec::new();
    let ghost orig = v@;
    while v.len() > 0
        invariant
            v@.len() + out@.len() == orig.len(),
            v@ == orig.subrange(0, v@.len() as int),
            forall|i: int| 0 <= i < out@.len() ==> out@[i] == orig[orig.len() - 1 - i],
        decreases v.len(),
    {
        let x = v.pop().unwrap();
        proof {
            assert(v@ =~= orig.subrange(0, v@.len() as int));
        }
        out.push(x);
    }
    proof {
        assert(out@ =~= orig.reverse());
    }
    out
}

/// A partial approximation of a curve: segments that each cover a piece of
/// the curve's parameter range.
#[derive(Clone, Debug, PartialEq, Eq, Hash, PartialOrd, Ord)]
pub struct CurveApprox {
    segments: Vec<CurveApproxSegment>,
}

impl View for CurveApprox {
    type V = Seq<SegmentModel>;

    closed spec fn view(&self) -> Seq<SegmentModel> {
        models(self.segments@)
    }
}

impl Default for CurveApprox {
    fn default() -> (r: CurveApprox)
        ensures
            r@ == Seq::<SegmentModel>::empty(),
    {
        CurveApprox::new()
    }
}

impl CurveApprox {
    /// An approximation that covers nothing.
    pub fn new() -> (r: CurveApprox)
        ensures
            r@ == Seq::<SegmentModel>::empty(),
    {
        let r = CurveApprox { segments: Vec::new() };
        proof {
            assert(r@ =~= Seq::<SegmentModel>::empty());
        }
        r
    }

    /// An approximation that holds the given segments, as they come.
    pub fn from_segments(segments: Vec<CurveApproxSegment>) -> (r: CurveApprox)
        ensures
            r@ == models(segments@),
    {
        CurveApprox { segments }
    }

    /// The segments, in the order in which they are stored.
    pub fn segments(&self) -> (r: &Vec<CurveApproxSegment>)
        ensures
            models(r@) == self@,
    {
        &self.segments
    }

    /// The one segment that covers exactly the given boundary, if that is
    /// all that the approximation holds.
    pub fn into_single_segment(self, boundary: CurveBoundary) -> (r: Option<CurveApproxSegment>)
        ensures
            r.is_some() <==> self@.len() == 1 && self@[0].boundary == boundary,
            r.is_some() ==> r.unwrap()@ == self@[0],
    {
        let mut segments = self.segments;
        let ghost orig = segments@;
        if segments.len() != 1 {
            return None;
        }
        let segment = segments.pop().unwrap();
        proof {
            assert(models(orig)[0] == segment@);
        }
        if segment.boundary.start.t == boundary.start.t && segment.boundary.end.t
            == boundary.end.t {
            Some(segment)
        } else {
            None
        }
    }

    /// Turn the approximation around.
    pub fn reverse(&mut self)
        ensures
            final(self)@ == reverse_result(old(self)@),
            is_disjoint(old(self)@) ==> is_disjoint(final(self)@),
            has_no_empty(old(self)@) ==> has_no_empty(final(self)@),
    {
        let ghost orig = self.segments@;
        let mut out: Vec<CurveApproxSegment> = Vec::new();
        while self.segments.len() > 0
            invariant
                self.segments@.len() + out@.len() == orig.len(),
                self.segments@ == orig.subrange(0, self.segments@.len() as int),
                forall|i: int|
                    0 <= i < out@.len() ==> (#[trigger] out@[i])@ == orig[orig.len() - 1 - i]@.reverse(),
            decreases self.segments.len(),
        {
            let mut segment = self.segments.pop().unwrap();
            proof {
                assert(self.segments@ =~= orig.subrange(0, self.segments@.len() as int));
            }
            segment.reverse();
            out.push(segment);
        }
        self.segments = out;
        proof {
            assert(self@ =~= reverse_result(models(orig)));
            if is_disjoint(models(orig)) {
                lemma_reverse_keeps_disjoint(models(orig));
            }
            if has_no_empty(models(orig)) {
                assert forall|i: int| 0 <= i < self@.len() implies !(
                #[trigger] self@[i]).boundary.spec_is_empty() by {
                    assert(self@[i] == models(orig)[orig.len() - 1 - i].reverse());
                }
            }
        }
    }

    /// Cut the approximation down to what lies within the boundary.
    ///
    /// Every segment's boundary is intersected with the given one, its points
    /// outside are dropped, and segments that end up empty are removed.
    pub fn make_subset(&mut self, boundary: CurveBoundary)
        ensures
            final(self)@ == subset_result(old(self)@, boundary),
            is_disjoint(old(self)@) ==> is_disjoint(final(self)@),
            has_no_empty(final(self)@),
    {
        let ghost orig = self.segments@;
        let mut rest = drain_reversed(&mut self.segments);
        let mut out: Vec<CurveApproxSegment> = Vec::new();
        let ghost n = orig.len();
        proof {
            assert(models(orig).subrange(0, 0) =~= Seq::<SegmentModel>::empty());
            assert(Seq::<SegmentModel>::empty().map_values(restrict(boundary))
                =~= Seq::<SegmentModel>::empty());
            reveal(Seq::filter);
        }
        while rest.len() > 0
            invariant
                n == orig.len(),
                rest@.len() <= n,
                rest@ == orig.reverse().subrange(0, rest@.len() as int),
                models(out@) == subset_result(
                    models(orig).subrange(0, n - rest@.len()),
                    boundary,
                ),
            decreases rest.len(),
        {
            let ghost i = n - rest@.len();
            let mut segment = rest.pop().unwrap();
            proof {
                assert(rest@ =~= orig.reverse().subrange(0, rest@.len() as int));
                assert(segment == orig[i]);
                let done = models(orig).subrange(0, i);
                assert(models(orig).subrange(0, i + 1) =~= done.push(segment@));
                assert(done.push(segment@).map_values(restrict(boundary)) =~= done.map_values(
                    restrict(boundary),
                ).push(restrict(boundary)(segment@)));
                done.map_values(restrict(boundary)).lemma_filter_push(
                    restrict(boundary)(segment@),
                    is_nonempty(),
                );
            }
            segment.boundary = segment.boundary.subset(boundary);
            segment.points.make_subset(boundary.normalize());
            let ghost before = out@;
            if !segment.boundary.is_empty() {
                out.push(segment);
                proof {
                    assert(models(out@) =~= models(before).push(segment@));
                }
            }
        }
        self.segments = out;
        proof {
            assert(models(orig).subrange(0, n as int) =~= models(orig));
            if is_disjoint(models(orig)) {
                lemma_subset_keeps_disjoint(models(orig), boundary);
            }
            crate::algorithms::sequences::lemma_filter_contains(
                models(orig).map_values(restrict(boundary)),
                is_nonempty(),
            );
            assert forall|i: int| 0 <= i < self@.len() implies !(
            #[trigger] self@[i]).boundary.spec_is_empty() by {
                assert(self@.contains(self@[i]));
            }
        }
    }

    /// Merge a segment into the approximation.
    ///
    /// Every stored segment whose boundary overlaps the new one is taken out
    /// and merged into it; the merged segment is stored and returned.
    ///
    /// A merged segment whose boundary is empty is returned and not stored.
    ///
    /// Afterwards the segments stand in ascending order. If no two of them
    /// overlapped before, no two overlap afterwards; if none had an empty
    /// boundary, none has one afterwards. Where the merged segment is
    /// stored, they cover what they covered before and what the new
    /// segment covers.
    pub fn merge(&mut self, new_segment: CurveApproxSegment) -> (merged: CurveApproxSegment)
        ensures
            merged@ == merged_with(old(self)@, new_segment@),
            final(self)@ == merge_result(old(self)@, new_segment@),
            is_sorted(final(self)@, segment_lt()),
            is_disjoint(old(self)@) ==> is_disjoint(final(self)@),
            has_no_empty(old(self)@) ==> has_no_empty(final(self)@),
            !merged@.boundary.spec_is_empty() ==> forall|t: int|
                covers(final(self)@, t) <==> covers(old(self)@, t) || new_segment@.boundary.covers(
                    t,
                ),
            merged@.boundary.spec_is_empty() && has_no_empty(old(self)@) ==> forall|t: int|
                covers(final(self)@, t) <==> covers(old(self)@, t),
    {
        let ghost orig = models(self.segments@);
        let ghost new = new_segment@;
        let new_boundary = new_segment.boundary;
        let taken = self.take_overlapping(new_boundary);
        let ghost left = models(self.segments@);
        let mut merged_boundary = new_segment.boundary;
        let mut merged_points: CurveApproxPoints = new_segment.points;
        let mut i: usize = 0;
        proof {
            assert(models(taken@).subrange(0, 0) =~= Seq::<SegmentModel>::empty());
        }
        while i < taken.len()
            invariant
                i <= taken.len(),
                (SegmentModel { boundary: merged_boundary, points: merged_points@ })
                    == merged_segment(models(taken@).subrange(0, i as int), new),
                new_boundary == new.boundary,
            decreases taken.len() - i,
        {
            let segment = &taken[i];
            proof {
                let done = models(taken@).subrange(0, i as int);
                let next = models(taken@).subrange(0, i + 1);
                assert(next.drop_last() =~= done);
                assert(next.last() == segment@);
                lemma_merged_segment_covers_new(done, new);
            }
            if segment.boundary.overlaps(&new_boundary) {
                merged_boundary = merged_boundary.union(segment.boundary);
                merged_points.merge(&segment.points, segment.boundary);
            }
            i += 1;
        }
        proof {
            assert(models(taken@).subrange(0, taken@.len() as int) =~= models(taken@));
        }
        let merged = CurveApproxSegment {
            boundary: merged_boundary,
            points: merged_points.duplicate(),
        };
        let ghost n = left.len();
        let ghost part = stored_part(merged@);
        let mut out: Vec<CurveApproxSegment> = Vec::new();
        if !merged_boundary.is_empty() {
            out.push(CurveApproxSegment { boundary: merged_boundary, points: merged_points });
        }
        proof {
            let none = left.subrange(n as int, n as int);
            assert(none =~= Seq::<SegmentModel>::empty());
            assert(none + part =~= part);
            if part.len() > 0 {
                assert(part.drop_first() =~= Seq::<SegmentModel>::empty());
                assert(sort_seq(part.drop_first(), segment_lt())
                    =~= Seq::<SegmentModel>::empty());
            }
            assert(models(out@) =~= sort_seq(part, segment_lt()));
        }
        while self.segments.len() > 0
            invariant
                n == left.len(),
                self.segments@.len() <= n,
                models(self.segments@) == left.subrange(0, self.segments@.len() as int),
                part == stored_part(merged@),
                models(out@) == sort_seq(
                    left.subrange(self.segments@.len() as int, n as int) + part,
                    segment_lt(),
                ),
            decreases self.segments.len(),
        {
            let ghost k = self.segments@.len() - 1;
            let ghost stored = self.segments@;
            let segment = self.segments.pop().unwrap();
            proof {
                assert(models(self.segments@) =~= left.subrange(0, k));
                assert(segment@ == models(stored)[k]);
                assert(left.subrange(k, n as int) =~= seq![segment@] + left.subrange(
                    k + 1,
                    n as int,
                ));
            }
            let mut p: usize = 0;
            while p < out.len() && Self::precedes(&out[p], &segment)
                invariant
                    p <= out.len(),
                    forall|j: int| 0 <= j < p ==> segment_lt()(#[trigger] models(out@)[j], segment@),
                decreases out.len() - p,
            {
                p += 1;
            }
            proof {
                let tail = left.subrange(k + 1, n as int);
                let sorted_tail = models(out@);
                lemma_insert_index_unique(segment@, sorted_tail, p as int, segment_lt());
                let all = (seq![segment@] + tail) + part;
                assert(all[0] == segment@);
                assert(all.drop_first() =~= tail + part);
                assert(left.subrange(k, n as int) + part =~= all);
                assert(models(out@.insert(p as int, segment)) =~= sorted_tail.insert(
                    p as int,
                    segment@,
                ));
            }
            out.insert(p, segment);
        }
        self.segments = out;
        proof {
            assert(left.subrange(0, n as int) =~= left);
            lemma_merge_result_is_sorted(orig, new);
            lemma_merge_covers(orig, new);
            if is_disjoint(orig) {
                lemma_merge_keeps_disjoint(orig, new);
            }
            if has_no_empty(orig) {
                lemma_merge_keeps_nonempty(orig, new);
            }
        }
        merged
    }

    /// Take the segments out whose boundary overlaps the given one: each
    /// is taken from its place and the last segment is put there.
    fn take_overlapping(&mut self, boundary: CurveBoundary) -> (taken: Vec<CurveApproxSegment>)
        ensures
            models(taken@) == taken_out(old(self)@, boundary),
            final(self)@ == left_in(old(self)@, boundary),
    {
        let ghost orig = models(self.segments@);
        let mut taken: Vec<CurveApproxSegment> = Vec::new();
        let mut i: usize = 0;
        proof {
            assert(models(taken@) + split_from(orig, boundary, 0).0 =~= split_from(
                orig,
                boundary,
                0,
            ).0);
        }
        while i < self.segments.len()
            invariant
                i <= self.segments.len(),
                split_from(orig, boundary, 0).0 == models(taken@) + split_from(
                    models(self.segments@),
                    boundary,
                    i as int,
                ).0,
                split_from(orig, boundary, 0).1 == split_from(
                    models(self.segments@),
                    boundary,
                    i as int,
                ).1,
            decreases self.segments.len() - i,
        {
            let ghost current = self.segments@;
            let ghost so_far = taken@;
            if self.segments[i].boundary.overlaps(&boundary) {
                let segment = self.segments.swap_remove(i);
                taken.push(segment);
                proof {
                    let before = models(current);
                    assert(models(self.segments@) =~= before.update(
                        i as int,
                        before.last(),
                    ).drop_last());
                    let rest = split_from(models(self.segments@), boundary, i as int);
                    assert(models(taken@) + rest.0 =~= models(so_far) + (seq![before[i as int]]
                        + rest.0));
                }
            } else {
                i += 1;
            }
        }
        proof {
            assert(models(taken@) + Seq::<SegmentModel>::empty() =~= models(taken@));
        }
        taken
    }

    fn precedes(a: &CurveApproxSegment, b: &CurveApproxSegment) -> (r: bool)
        ensures
            r == segment_lt()(a@, b@),
    {
        a.boundary.start.t < b.boundary.start.t || (a.boundary.start.t == b.boundary.start.t && (
            a.boundary.end.t < b.boundary.end.t || (a.boundary.end.t == b.boundary.end.t
                && a.points.comes_before(&b.points))))
    }
}

} // verus!
