//! The cache of curve approximations.
//!
//! A cache lives as long as one request for an approximation. It sees to it
//! that a curve is approximated once within a boundary, whichever of the
//! two half-edges on it asks, and in whichever direction.

use vstd::prelude::*;
use crate::algorithms::approx::segment::{CurveApproxSegment, SegmentModel};
use crate::geometry::boundary::CurveBoundary;
use crate::storage::Handle;
use crate::topology::edge::Curve;

verus! {

/// What an approximation is cached under: the identity of the curve and
/// the boundary on it.
pub type CacheKey = (nat, CurveBoundary);

/// What a cache answers when it is asked for a curve within a boundary:
/// what is stored under that boundary; else what is stored under the
/// reversed boundary, turned around; else nothing.
pub open spec fn cached(
    entries: Map<CacheKey, SegmentModel>,
    curve: nat,
    boundary: CurveBoundary,
) -> Option<SegmentModel> {
    if entries.contains_key((curve, boundary)) {
        Some(entries[(curve, boundary)])
    } else if entries.contains_key((curve, boundary.spec_reverse())) {
        Some(entries[(curve, boundary.spec_reverse())].reverse())
    } else {
        None
    }
}

/// A cache is symmetric where what it holds for a boundary and for the
/// reversed boundary are reverses of one another. A boundary whose two
/// ends are the same is its own reverse and is not asked about.
pub open spec fn is_symmetric(entries: Map<CacheKey, SegmentModel>) -> bool {
    forall|curve: nat, boundary: CurveBoundary|
        boundary.start != boundary.end && #[trigger] entries.contains_key((curve, boundary))
            && entries.contains_key((curve, boundary.spec_reverse())) ==> entries[(
            curve,
            boundary.spec_reverse(),
        )] == entries[(curve, boundary)].reverse()
}

/// Turning a segment around twice gives the segment.
pub proof fn lemma_reverse_twice(segment: SegmentModel)
    ensures
        segment.reverse().reverse() == segment,
{
    assert(segment.points.reverse().reverse() =~= segment.points);
}

/// A symmetric cache answers for a reversed boundary with the reverse of
/// what it answers for the boundary.
pub proof fn lemma_reverse_symmetry(
    entries: Map<CacheKey, SegmentModel>,
    curve: nat,
    boundary: CurveBoundary,
)
    requires
        is_symmetric(entries),
        boundary.start != boundary.end,
    ensures
        cached(entries, curve, boundary.spec_reverse()) == match cached(entries, curve, boundary) {
            Some(segment) => Some(segment.reverse()),
            None => None,
        },
{
    let reversed = boundary.spec_reverse();
    assert(reversed.spec_reverse() == boundary);
    if entries.contains_key((curve, boundary)) {
    } else if entries.contains_key((curve, reversed)) {
        lemma_reverse_twice(entries[(curve, reversed)]);
    }
}

struct CacheEntry {
    curve: Handle<Curve>,
    boundary: CurveBoundary,
    approx: CurveApproxSegment,
}

impl CacheEntry {
    spec fn key(self) -> CacheKey {
        (self.curve.id(), self.boundary)
    }
}

spec fn has_key(entries: Seq<CacheEntry>, key: CacheKey) -> bool {
    exists|i: int| 0 <= i < entries.len() && (#[trigger] entries[i]).key() == key
}

spec fn index_of(entries: Seq<CacheEntry>, key: CacheKey) -> int {
    choose|i: int| 0 <= i < entries.len() && (#[trigger] entries[i]).key() == key
}

spec fn distinct_keys(entries: Seq<CacheEntry>) -> bool {
    forall|i: int, j: int|
        0 <= i < entries.len() && 0 <= j < entries.len() && i != j ==> (#[trigger] entries[i]).key()
            != (#[trigger] entries[j]).key()
}

spec fn as_map(entries: Seq<CacheEntry>) -> Map<CacheKey, SegmentModel> {
    Map::new(
        |key: CacheKey| has_key(entries, key),
        |key: CacheKey| entries[index_of(entries, key)].approx@,
    )
}

/// Cache for curve approximations
///
/// A cache is symmetric: an approximation is stored only where the cache
/// has no answer yet, neither for the boundary nor for its reverse.
pub struct CurveApproxCache {
    entries: Vec<CacheEntry>,
}

impl View for CurveApproxCache {
    type V = Map<CacheKey, SegmentModel>;

    closed spec fn view(&self) -> Map<CacheKey, SegmentModel> {
        as_map(self.entries@)
    }
}

impl Default for CurveApproxCache {
    fn default() -> (c: CurveApproxCache)
        ensures
            c@ == Map::<CacheKey, SegmentModel>::empty(),
    {
        CurveApproxCache::new()
    }
}

impl CurveApproxCache {
    #[verifier::type_invariant]
    spec fn wf(&self) -> bool {
        distinct_keys(self.entries@) && is_symmetric(as_map(self.entries@))
    }

    /// A cache that holds nothing.
    pub fn new() -> (c: CurveApproxCache)
        ensures
            c@ == Map::<CacheKey, SegmentModel>::empty(),
    {
        proof {
            assert(as_map(Seq::<CacheEntry>::empty()) =~= Map::<CacheKey, SegmentModel>::empty());
        }
        let c = CurveApproxCache { entries: Vec::new() };
        proof {
            assert(c@ =~= Map::<CacheKey, SegmentModel>::empty());
        }
        c
    }

    /// The number of approximations that the cache holds.
    pub fn len(&self) -> (n: usize)
        ensures
            n == self@.dom().len(),
            self@.dom().finite(),
    {
        proof {
            use_type_invariant(self);
            lemma_domain_size(self.entries@);
        }
        self.entries.len()
    }

    fn find(&self, handle: &Handle<Curve>, boundary: CurveBoundary) -> (r: Option<usize>)
        ensures
            r.is_some() <==> self@.contains_key((handle.id(), boundary)),
            r.is_some() ==> r.unwrap() < self.entries@.len() && self.entries@[r.unwrap() as int].key()
                == (handle.id(), boundary) && self.entries@[r.unwrap() as int].approx@ == self@[(
                handle.id(),
                boundary,
            )],
    {
        proof {
            use_type_invariant(self);
        }
        let ghost key = (handle.id(), boundary);
        let mut i: usize = 0;
        while i < self.entries.len()
            invariant
                i <= self.entries.len(),
                key == (handle.id(), boundary),
                distinct_keys(self.entries@),
                forall|j: int| 0 <= j < i ==> (#[trigger] self.entries@[j]).key() != key,
            decreases self.entries.len() - i,
        {
            let entry = &self.entries[i];
            if entry.curve.same_as(handle) && entry.boundary.start.t == boundary.start.t
                && entry.boundary.end.t == boundary.end.t {
                proof {
                    assert(self.entries@[i as int].key() == key);
                    assert(has_key(self.entries@, key));
                    let b = index_of(self.entries@, key);
                    assert(self.entries@[b].key() == key);
                    assert(b == i);
                }
                return Some(i);
            }
            i += 1;
        }
        None
    }

    /// Look up the approximation of a curve within a boundary.
    ///
    /// Where there is none for the boundary, but one for the reversed
    /// boundary, the answer is a reversed copy of that one.
    pub fn get(&self, handle: &Handle<Curve>, boundary: CurveBoundary) -> (r: Option<
        CurveApproxSegment,
    >)
        ensures
            r.is_some() == cached(self@, handle.id(), boundary).is_some(),
            r.is_some() ==> r.unwrap()@ == cached(self@, handle.id(), boundary).unwrap(),
            is_symmetric(self@),
    {
        proof {
            use_type_invariant(self);
        }
        match self.find(handle, boundary) {
            Some(i) => Some(self.entries[i].approx.duplicate()),
            None => match self.find(handle, boundary.reverse()) {
                Some(i) => {
                    let mut approx = self.entries[i].approx.duplicate();
                    approx.reverse();
                    Some(approx)
                },
                None => None,
            },
        }
    }

    /// Store the approximation of a curve within a boundary, for which the
    /// cache has no answer.
    pub(crate) fn insert(
        &mut self,
        handle: Handle<Curve>,
        boundary: CurveBoundary,
        approx: CurveApproxSegment,
    ) -> (r: CurveApproxSegment)
        requires
            cached(old(self)@, handle.id(), boundary) is None,
        ensures
            final(self)@ == old(self)@.insert((handle.id(), boundary), approx@),
            r@ == approx@,
            is_symmetric(final(self)@),
    {
        proof {
            use_type_invariant(&*self);
        }
        let ghost key = (handle.id(), boundary);
        let ghost before = self.entries@;
        let returned = approx.duplicate();
        let mut taken = CurveApproxCache::new();
        core::mem::swap(self, &mut taken);
        let mut entries = taken.entries;
        entries.push(CacheEntry { curve: handle, boundary, approx });
        proof {
            lemma_after_push(before, entries@.last());
            lemma_insert_keeps_symmetry(as_map(before), key.0, boundary, approx@);
        }
        *self = CurveApproxCache { entries };
        returned
    }
}

/// Storing an approximation where a symmetric cache has no answer leaves
/// the cache symmetric.
pub proof fn lemma_insert_keeps_symmetry(
    entries: Map<CacheKey, SegmentModel>,
    curve: nat,
    boundary: CurveBoundary,
    approx: SegmentModel,
)
    requires
        is_symmetric(entries),
        cached(entries, curve, boundary) is None,
    ensures
        is_symmetric(entries.insert((curve, boundary), approx)),
{
    let after = entries.insert((curve, boundary), approx);
    assert forall|c: nat, b: CurveBoundary|
        b.start != b.end && #[trigger] after.contains_key((c, b)) && after.contains_key(
            (c, b.spec_reverse()),
        ) implies after[(c, b.spec_reverse())] == after[(c, b)].reverse() by {
        assert(b.spec_reverse().spec_reverse() == b);
        assert((c, b) != (curve, boundary));
        assert((c, b.spec_reverse()) != (curve, boundary));
        assert(entries.contains_key((c, b)));
    }
}

proof fn lemma_domain_size(entries: Seq<CacheEntry>)
    requires
        distinct_keys(entries),
    ensures
        as_map(entries).dom().finite(),
        as_map(entries).dom().len() == entries.len(),
    decreases entries.len(),
{
    if entries.len() == 0 {
        assert(as_map(entries).dom() =~= Set::<CacheKey>::empty());
    } else {
        let rest = entries.drop_last();
        let last = entries.last();
        assert forall|i: int, j: int|
            0 <= i < rest.len() && 0 <= j < rest.len() && i != j implies (#[trigger] rest[i]).key()
            != (#[trigger] rest[j]).key() by {
            assert(rest[i] == entries[i]);
            assert(rest[j] == entries[j]);
        }
        lemma_domain_size(rest);
        assert(!has_key(rest, last.key())) by {
            if has_key(rest, last.key()) {
                let i = choose|i: int| 0 <= i < rest.len() && (#[trigger] rest[i]).key() == last.key();
                assert(entries[i] == rest[i]);
                assert(entries[entries.len() - 1] == last);
            }
        }
        assert(as_map(entries).dom() =~= as_map(rest).dom().insert(last.key())) by {
            assert forall|k: CacheKey|
                has_key(entries, k) <==> has_key(rest, k) || k == last.key() by {
                if has_key(entries, k) {
                    let i = choose|i: int|
                        0 <= i < entries.len() && (#[trigger] entries[i]).key() == k;
                    if i < rest.len() {
                        assert(rest[i] == entries[i]);
                    }
                }
                if has_key(rest, k) {
                    let i = choose|i: int| 0 <= i < rest.len() && (#[trigger] rest[i]).key() == k;
                    assert(entries[i] == rest[i]);
                }
                if k == last.key() {
                    assert(entries[entries.len() - 1].key() == k);
                }
            }
        }
    }
}

proof fn lemma_after_push(before: Seq<CacheEntry>, entry: CacheEntry)
    requires
        distinct_keys(before),
        !has_key(before, entry.key()),
    ensures
        distinct_keys(before.push(entry)),
        as_map(before.push(entry)) == as_map(before).insert(entry.key(), entry.approx@),
{
    let after = before.push(entry);
    let key = entry.key();
    assert forall|i: int, j: int|
        0 <= i < after.len() && 0 <= j < after.len() && i != j implies (#[trigger] after[i]).key()
        != (#[trigger] after[j]).key() by {
        if i < before.len() {
            assert(after[i] == before[i]);
        }
        if j < before.len() {
            assert(after[j] == before[j]);
        }
    }
    assert forall|k: CacheKey| has_key(after, k) <==> has_key(before, k) || k == key by {
        if has_key(after, k) {
            let i = choose|i: int| 0 <= i < after.len() && (#[trigger] after[i]).key() == k;
            if i < before.len() {
                assert(before[i] == after[i]);
            }
        }
        if has_key(before, k) {
            let i = choose|i: int| 0 <= i < before.len() && (#[trigger] before[i]).key() == k;
            assert(after[i] == before[i]);
        }
        if k == key {
            assert(after[before.len() as int].key() == k);
        }
    }
    assert forall|k: CacheKey| has_key(after, k) implies as_map(after)[k] == as_map(
        before,
    ).insert(key, entry.approx@)[k] by {
        let i = index_of(after, k);
        assert(after[i].key() == k);
        if i < before.len() {
            assert(after[i] == before[i]);
            let b = index_of(before, k);
            assert(before[b].key() == k);
            assert(b == i);
        }
    }
    assert(as_map(after).dom() =~= as_map(before).insert(key, entry.approx@).dom());
    assert(as_map(after) =~= as_map(before).insert(key, entry.approx@));
}

} // verus!
