//! Scenes: lists of shapes.
use crate::fixed::Fixed;
use crate::hittable::{spec_before, HitRecord, Hittable};
use crate::interval::Interval;
use crate::ray::Ray;
use vstd::prelude::*;

verus! {

/// The shapes of a scene, in the order in which they are tested.
pub struct HittableList<H: Hittable> {
    pub objects: Vec<H>,
}

/// The nearer of two hits. The earlier one wins where both are equally
/// near.
pub open spec fn nearer_hit(earlier: Option<HitRecord>, later: Option<HitRecord>) -> Option<
    HitRecord,
> {
    match (earlier, later) {
        (None, _) => later,
        (Some(_), None) => earlier,
        (Some(a), Some(b)) => if b.t@ < a.t@ {
            later
        } else {
            earlier
        },
    }
}

/// The nearest of `hits`. Among equally near hits it is the earliest.
pub open spec fn nearest_of(hits: Seq<Option<HitRecord>>) -> Option<HitRecord>
    decreases hits.len(),
{
    if hits.len() == 0 {
        None
    } else {
        nearer_hit(nearest_of(hits.drop_last()), hits.last())
    }
}

/// The hits that the shapes give when each is tested by itself against
/// the whole of `ray_t`.
pub open spec fn single_hits<H: Hittable>(objects: Seq<H>, r: Ray, ray_t: Interval) -> Seq<
    Option<HitRecord>,
> {
    Seq::new(objects.len(), |i: int| objects[i].spec_hit(r, ray_t))
}

/// Whether `hits[i]` is the hit `best`, no hit is nearer, and none before
/// it is as near.
pub open spec fn is_least_at(hits: Seq<Option<HitRecord>>, i: int, best: HitRecord) -> bool {
    &&& 0 <= i < hits.len()
    &&& hits[i] == Some(best)
    &&& forall|j: int|
        0 <= j < hits.len() ==> (#[trigger] hits[j] matches Some(other) ==> best.t@ <= other.t@ && (j
            < i ==> best.t@ < other.t@))
}

impl<H: Hittable> HittableList<H> {
    pub fn new(list: Vec<H>) -> (l: HittableList<H>)
        ensures
            l.objects == list,
    {
        HittableList { objects: list }
    }
}

impl<H: Hittable> Hittable for HittableList<H> {
    /// The nearest of the hits of the single shapes.
    open spec fn spec_hit(&self, r: Ray, ray_t: Interval) -> Option<HitRecord> {
        nearest_of(single_hits(self.objects@, r, ray_t))
    }

    /// Tests the shapes in order, each against the interval that ends at
    /// the nearest hit so far.
    fn hit(&self, r: &Ray, ray_t: Interval) -> (out: Option<HitRecord>) {
        let mut temp_rec: Option<HitRecord> = None;
        let mut closest_so_far = ray_t.max;
        let mut i: usize = 0;
        let ghost hits = single_hits(self.objects@, *r, ray_t);
        while i < self.objects.len()
            invariant
                i <= self.objects.len(),
                hits == single_hits(self.objects@, *r, ray_t),
                temp_rec == nearest_of(hits.take(i as int)),
                closest_so_far == match temp_rec {
                    Some(rec) => rec.t,
                    None => ray_t.max,
                },
                closest_so_far@ <= ray_t.max@,
                temp_rec matches Some(rec) ==> ray_t.spec_surrounds(rec.t) && rec.normal.spec_dot(
                    r.direction,
                )@ <= 0,
            decreases self.objects.len() - i,
        {
            let narrowed = Interval { min: ray_t.min, max: closest_so_far };
            proof {
                let s = self.objects@[i as int];
                s.lemma_hit_in_shorter_interval(*r, ray_t, closest_so_far);
                assert(hits.take(i + 1).drop_last() =~= hits.take(i as int));
                assert(hits.take(i + 1).last() == s.spec_hit(*r, ray_t));
                if temp_rec is None {
                    assert(narrowed == ray_t);
                }
            }
            if let Some(rec) = self.objects[i].hit(r, narrowed) {
                closest_so_far = rec.t;
                temp_rec = Some(rec);
            }
            i = i + 1;
        }
        assert(hits.take(i as int) =~= hits);
        temp_rec
    }

    proof fn lemma_hit_in_shorter_interval(&self, r: Ray, ray_t: Interval, end: Fixed) {
        let shorter = Interval { min: ray_t.min, max: end };
        let whole = single_hits(self.objects@, r, ray_t);
        let part = single_hits(self.objects@, r, shorter);
        assert forall|i: int| 0 <= i < whole.len() implies #[trigger] part[i] == spec_before(
            whole[i],
            end,
        ) by {
            self.objects@[i].lemma_hit_in_shorter_interval(r, ray_t, end);
        }
        lemma_nearest_of_before(whole, part, end);
    }
}

/// To drop the hits at or beyond `end` and then to take the nearest is to
/// take the nearest and then to drop it where it lies at or beyond `end`.
pub proof fn lemma_nearest_of_before(
    whole: Seq<Option<HitRecord>>,
    part: Seq<Option<HitRecord>>,
    end: Fixed,
)
    requires
        part.len() == whole.len(),
        forall|i: int| 0 <= i < whole.len() ==> #[trigger] part[i] == spec_before(whole[i], end),
    ensures
        nearest_of(part) == spec_before(nearest_of(whole), end),
    decreases whole.len(),
{
    if whole.len() > 0 {
        lemma_nearest_of_before(whole.drop_last(), part.drop_last(), end);
        assert(part.last() == spec_before(whole.last(), end));
    }
}

/// The nearest hit is one of the hits, no other of them is nearer, and
/// none before it is as near. There is no nearest hit only where there is
/// no hit at all.
pub proof fn lemma_nearest_of_is_least(hits: Seq<Option<HitRecord>>)
    ensures
        match nearest_of(hits) {
            Some(best) => exists|i: int| is_least_at(hits, i, best),
            None => forall|j: int| 0 <= j < hits.len() ==> #[trigger] hits[j] is None,
        },
    decreases hits.len(),
{
    if hits.len() > 0 {
        let front = hits.drop_last();
        let last = hits.len() - 1;
        lemma_nearest_of_is_least(front);
        match nearest_of(hits) {
            Some(best) => {
                if nearest_of(front) == Some(best) {
                    let i = choose|i: int| is_least_at(front, i, best);
                    assert(hits[i] == front[i]);
                    assert forall|j: int| 0 <= j < hits.len() implies (#[trigger] hits[j] matches Some(
                        other,
                    ) ==> best.t@ <= other.t@ && (j < i ==> best.t@ < other.t@)) by {
                        if j < last {
                            assert(hits[j] == front[j]);
                        }
                    }
                    assert(is_least_at(hits, i, best));
                } else {
                    assert forall|j: int| 0 <= j < hits.len() implies (#[trigger] hits[j] matches Some(
                        other,
                    ) ==> best.t@ <= other.t@ && (j < last ==> best.t@ < other.t@)) by {
                        if j < last {
                            assert(hits[j] == front[j]);
                            match nearest_of(front) {
                                Some(b) => {
                                    let k = choose|k: int| is_least_at(front, k, b);
                                    assert(is_least_at(front, k, b));
                                },
                                None => {},
                            }
                        }
                    }
                    assert(is_least_at(hits, last, best));
                }
            },
            None => {
                assert forall|j: int| 0 <= j < hits.len() implies #[trigger] hits[j] is None by {
                    if j < last {
                        assert(hits[j] == front[j]);
                    }
                }
            },
        }
    }
}

/// What a scene returns for a ray is the nearest of the hits that its
/// shapes give when each is tested by itself: it is one of those hits, no
/// other of them is nearer, and none of an earlier shape is as near.
pub proof fn lemma_list_hit_is_nearest_single_hit<H: Hittable>(
    list: HittableList<H>,
    r: Ray,
    ray_t: Interval,
)
    ensures
        match list.spec_hit(r, ray_t) {
            Some(best) => exists|i: int|
                0 <= i < list.objects@.len() && list.objects@[i].spec_hit(r, ray_t) == Some(best)
                    && #[trigger] is_least_at(single_hits(list.objects@, r, ray_t), i, best),
            None => forall|j: int|
                0 <= j < list.objects@.len() ==> #[trigger] list.objects@[j].spec_hit(r, ray_t)
                    is None,
        },
{
    let hits = single_hits(list.objects@, r, ray_t);
    lemma_nearest_of_is_least(hits);
    match list.spec_hit(r, ray_t) {
        Some(best) => {
            let i = choose|i: int| is_least_at(hits, i, best);
            assert(is_least_at(hits, i, best));
            assert(hits[i] == list.objects@[i].spec_hit(r, ray_t));
        },
        None => {
            assert forall|j: int| 0 <= j < list.objects@.len() implies #[trigger] list.objects@[j].spec_hit(
                r,
                ray_t,
            ) is None by {
                assert(hits[j] is None);
            }
        },
    }
}

} // verus!
