//! Geometry that a ray can hit, and collections of such geometry.

use crate::material::Surface;
use crate::ray::Ray;
use crate::scalar::Scalar;
use crate::vec3::Vec3;
use vstd::prelude::*;

verus! {

/// One intersection of a ray with a surface.
#[derive(Clone, Copy, Debug, PartialEq, Eq, Structural)]
pub struct HitRecord {
    /// The point of intersection.
    pub p: Vec3,
    /// The surface normal at `p`, turned against the incoming ray.
    pub normal: Vec3,
    /// The ray parameter of `p`.
    pub t: Scalar,
    /// Whether the ray arrives from outside the surface.
    pub front_face: bool,
    /// The material of the surface.
    pub material: Surface,
}

/// Geometry that can be tested for intersection with a ray.
pub trait Hittable {
    /// The intersection of `ray` with `self` that `hit` reports for the
    /// parameter range `[t_min, t_max]`, if there is one.
    spec fn hit_spec(&self, ray: Ray, t_min: Scalar, t_max: Scalar) -> Option<HitRecord>;

    /// The nearest intersection of `ray` with `self` whose parameter lies in
    /// `[t_min, t_max]`.
    fn hit(&self, ray: Ray, t_min: Scalar, t_max: Scalar) -> (r: Option<HitRecord>)
        ensures
            r == self.hit_spec(ray, t_min, t_max),
            r matches Some(rec) ==> t_min@ <= rec.t@ <= t_max@,
    ;
}

/// The nearer of two optional hits; `best` is kept where both are equally
/// near.
pub open spec fn closer(best: Option<HitRecord>, candidate: Option<HitRecord>) -> Option<
    HitRecord,
> {
    match (best, candidate) {
        (Some(b), Some(c)) => if c.t@ < b.t@ {
            Some(c)
        } else {
            Some(b)
        },
        (None, _) => candidate,
        (_, None) => best,
    }
}

/// What each of `members` reports for `ray` in `[t_min, t_max]`, in order.
pub open spec fn member_hits(
    members: Seq<Box<dyn Hittable>>,
    ray: Ray,
    t_min: Scalar,
    t_max: Scalar,
) -> Seq<Option<HitRecord>> {
    Seq::new(members.len(), |i: int| members[i].hit_spec(ray, t_min, t_max))
}

/// The nearest of `hits`, met in order: the one with the smallest parameter
/// is kept, the earliest of them where several are equally near.
pub open spec fn nearest(hits: Seq<Option<HitRecord>>) -> Option<HitRecord>
    decreases hits.len(),
{
    if hits.len() == 0 {
        None
    } else {
        closer(nearest(hits.drop_last()), hits.last())
    }
}

/// Entry `i` of `hits` is `rec`, no entry is nearer, and no earlier entry is
/// as near.
pub open spec fn is_first_nearest(hits: Seq<Option<HitRecord>>, rec: HitRecord, i: int) -> bool {
    &&& 0 <= i < hits.len()
    &&& hits[i] == Some(rec)
    &&& forall|j: int|
        0 <= j < hits.len() ==> (#[trigger] hits[j] matches Some(h) ==> rec.t@ <= h.t@ && (j < i
            ==> rec.t@ < h.t@))
}

/// `result` is the globally nearest of `hits`: none if there is no hit at
/// all, otherwise the first hit with the smallest parameter of all.
pub open spec fn is_nearest(hits: Seq<Option<HitRecord>>, result: Option<HitRecord>) -> bool {
    match result {
        None => forall|i: int| 0 <= i < hits.len() ==> (#[trigger] hits[i]) is None,
        Some(rec) => exists|i: int| is_first_nearest(hits, rec, i),
    }
}

/// Keeping the nearer hit member by member finds the globally nearest one.
pub proof fn lemma_nearest_is_global(hits: Seq<Option<HitRecord>>)
    ensures
        is_nearest(hits, nearest(hits)),
    decreases hits.len(),
{
    if hits.len() > 0 {
        let init = hits.drop_last();
        let n = init.len() as int;
        lemma_nearest_is_global(init);
        let result = nearest(hits);
        assert(forall|i: int| 0 <= i < n ==> init[i] == hits[i]);
        match result {
            None => {
                assert forall|i: int| 0 <= i < hits.len() implies (#[trigger] hits[i]) is None by {
                    if i < n {
                        assert(init[i] is None);
                    }
                }
            },
            Some(rec) => {
                let w = if nearest(init) == Some(rec) {
                    choose|i: int| is_first_nearest(init, rec, i)
                } else {
                    n
                };
                assert forall|j: int| 0 <= j < hits.len() implies (#[trigger] hits[j] matches Some(
                    h,
                ) ==> rec.t@ <= h.t@ && (j < w ==> rec.t@ < h.t@)) by {
                    if j < n {
                        assert(init[j] == hits[j]);
                    }
                }
                assert(is_first_nearest(hits, rec, w));
            },
        }
    }
}

/// Rearranging the members changes neither whether the collection is hit nor
/// how near: where `xs` and `ys` hold the same hits in different order, the
/// nearest of one is as near as the nearest of the other.
pub proof fn lemma_nearest_ignores_order(xs: Seq<Option<HitRecord>>, ys: Seq<Option<HitRecord>>)
    requires
        xs.to_multiset() == ys.to_multiset(),
    ensures
        nearest(xs) is None <==> nearest(ys) is None,
        nearest(xs) matches Some(rx) ==> nearest(ys) matches Some(ry) && rx.t == ry.t,
{
    xs.to_multiset_ensures();
    ys.to_multiset_ensures();
    lemma_nearest_is_global(xs);
    lemma_nearest_is_global(ys);
    if let Some(rx) = nearest(xs) {
        let i = choose|i: int| is_first_nearest(xs, rx, i);
        assert(xs.contains(Some(rx)));
        assert(xs.to_multiset().count(Some(rx)) > 0);
        assert(ys.contains(Some(rx)));
        let k = choose|k: int| 0 <= k < ys.len() && ys[k] == Some(rx);
        assert(ys[k] is Some);
        let ry = nearest(ys)->Some_0;
        let j = choose|j: int| is_first_nearest(ys, ry, j);
        assert(ys.contains(Some(ry)));
        assert(ys.to_multiset().count(Some(ry)) > 0);
        assert(xs.contains(Some(ry)));
        let l = choose|l: int| 0 <= l < xs.len() && xs[l] == Some(ry);
        assert(xs[l] is Some);
    } else if let Some(ry) = nearest(ys) {
        let j = choose|j: int| is_first_nearest(ys, ry, j);
        assert(ys.contains(Some(ry)));
        assert(ys.to_multiset().count(Some(ry)) > 0);
        assert(xs.contains(Some(ry)));
        let l = choose|l: int| 0 <= l < xs.len() && xs[l] == Some(ry);
        assert(xs[l] is Some);
    }
}

impl Hittable for Vec<Box<dyn Hittable>> {
    /// The nearest of the members' hits.
    open spec fn hit_spec(&self, ray: Ray, t_min: Scalar, t_max: Scalar) -> Option<HitRecord> {
        nearest(member_hits(self@, ray, t_min, t_max))
    }

    fn hit(&self, ray: Ray, t_min: Scalar, t_max: Scalar) -> (r: Option<HitRecord>)
        ensures
            is_nearest(member_hits(self@, ray, t_min, t_max), r),
    {
        let ghost hits = member_hits(self@, ray, t_min, t_max);
        let mut hit: Option<HitRecord> = None;
        let mut i: usize = 0;
        while i < self.len()
            invariant
                i <= self.len(),
                hits == member_hits(self@, ray, t_min, t_max),
                hit == nearest(hits.take(i as int)),
                hit matches Some(rec) ==> t_min@ <= rec.t@ <= t_max@,
            decreases self.len() - i,
        {
            proof {
                assert(hits.take(i as int + 1).drop_last() =~= hits.take(i as int));
                assert(hits.take(i as int + 1).last() == self@[i as int].hit_spec(
                    ray,
                    t_min,
                    t_max,
                ));
            }
            if let Some(candidate_hit) = self[i].hit(ray, t_min, t_max) {
                match hit {
                    None => hit = Some(candidate_hit),
                    Some(prev) => {
                        if candidate_hit.t.raw < prev.t.raw {
                            hit = Some(candidate_hit);
                        }
                    },
                }
            }
            i += 1;
        }
        proof {
            assert(hits.take(i as int) =~= hits);
            lemma_nearest_is_global(hits);
        }
        hit
    }
}

} // verus!
