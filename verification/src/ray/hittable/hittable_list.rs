//! A scene: many surfaces tested as one.

use vstd::prelude::*;

use super::sphere::lemma_hit_narrowed;
use super::{HitInfo, Hittable, Sphere};
use crate::ray::Ray;
use crate::scalar::Scalar;

verus! {

/// The surfaces of a scene, in the order in which they were added.
pub struct HittableList {
    pub objects: Vec<Sphere>,
}

/// What testing the surfaces one after the other finds: each surface is
/// asked for a hit nearer than the nearest found so far.
pub open spec fn nearest(objects: Seq<Sphere>, ray: Ray, t_min: Scalar, t_max: Scalar) -> Option<
    HitInfo,
>
    decreases objects.len(),
{
    if objects.len() == 0 {
        None
    } else {
        let before = nearest(objects.drop_last(), ray, t_min, t_max);
        let limit = match before {
            Some(rec) => rec.t,
            None => t_max,
        };
        match objects.last().intersection(ray, t_min, limit) {
            Some(rec) => Some(rec),
            None => before,
        }
    }
}

/// `rec` is the hit of a surface of `objects`, and no surface of `objects`
/// is hit nearer.
pub open spec fn is_nearest_hit(
    objects: Seq<Sphere>,
    ray: Ray,
    t_min: Scalar,
    t_max: Scalar,
    rec: HitInfo,
) -> bool {
    &&& exists|k: int|
        0 <= k < objects.len() && #[trigger] objects[k].intersection(ray, t_min, t_max) == Some(rec)
    &&& forall|i: int|
        0 <= i < objects.len() ==> match #[trigger] objects[i].intersection(ray, t_min, t_max) {
            Some(other) => rec.t@ <= other.t@,
            None => true,
        }
}

/// No surface of `objects` is hit.
pub open spec fn nothing_hit(objects: Seq<Sphere>, ray: Ray, t_min: Scalar, t_max: Scalar) -> bool {
    forall|i: int|
        0 <= i < objects.len() ==> (#[trigger] objects[i].intersection(ray, t_min, t_max)) is None
}

/// The scene reports the nearest hit among all its surfaces, and reports
/// none only if no surface is hit.
pub proof fn lemma_nearest_is_nearest(objects: Seq<Sphere>, ray: Ray, t_min: Scalar, t_max: Scalar)
    ensures
        match nearest(objects, ray, t_min, t_max) {
            Some(rec) => is_nearest_hit(objects, ray, t_min, t_max, rec),
            None => nothing_hit(objects, ray, t_min, t_max),
        },
    decreases objects.len(),
{
    if objects.len() > 0 {
        let init = objects.drop_last();
        let last = objects.last();
        let k_last = objects.len() - 1;
        lemma_nearest_is_nearest(init, ray, t_min, t_max);
        let before = nearest(init, ray, t_min, t_max);
        assert(forall|i: int| 0 <= i < init.len() ==> init[i] == objects[i]);
        assert(objects[k_last] == last);
        match before {
            Some(found) => {
                let k = choose|k: int|
                    0 <= k < init.len() && #[trigger] init[k].intersection(ray, t_min, t_max) == Some(
                        found,
                    );
                assert(objects[k].intersection(ray, t_min, t_max) == Some(found));
                lemma_hit_in_bounds(init[k], ray, t_min, t_max);
                lemma_hit_narrowed(last, ray, t_min, found.t, t_max);
                match last.intersection(ray, t_min, found.t) {
                    Some(rec) => {
                        assert(objects[k_last].intersection(ray, t_min, t_max) == Some(rec));
                        assert forall|i: int| 0 <= i < objects.len() implies match #[trigger] objects[i].intersection(
                            ray,
                            t_min,
                            t_max,
                        ) {
                            Some(other) => rec.t@ <= other.t@,
                            None => true,
                        } by {
                            if i < init.len() {
                                assert(init[i].intersection(ray, t_min, t_max) == objects[i].intersection(
                                    ray,
                                    t_min,
                                    t_max,
                                ));
                            }
                        }
                    },
                    None => {
                        assert forall|i: int| 0 <= i < objects.len() implies match #[trigger] objects[i].intersection(
                            ray,
                            t_min,
                            t_max,
                        ) {
                            Some(other) => found.t@ <= other.t@,
                            None => true,
                        } by {
                            if i < init.len() {
                                assert(init[i].intersection(ray, t_min, t_max) == objects[i].intersection(
                                    ray,
                                    t_min,
                                    t_max,
                                ));
                            }
                        }
                    },
                }
            },
            None => {
                match last.intersection(ray, t_min, t_max) {
                    Some(rec) => {
                        assert(objects[k_last].intersection(ray, t_min, t_max) == Some(rec));
                        assert forall|i: int| 0 <= i < objects.len() implies match #[trigger] objects[i].intersection(
                            ray,
                            t_min,
                            t_max,
                        ) {
                            Some(other) => rec.t@ <= other.t@,
                            None => true,
                        } by {
                            if i < init.len() {
                                assert(init[i].intersection(ray, t_min, t_max) is None);
                            }
                        }
                    },
                    None => {
                        assert forall|i: int| 0 <= i < objects.len() implies (
                        #[trigger] objects[i].intersection(ray, t_min, t_max)) is None by {
                            if i < init.len() {
                                assert(init[i].intersection(ray, t_min, t_max) is None);
                            }
                        }
                    },
                }
            },
        }
    }
}

/// The parameter of a sphere's hit lies strictly between the bounds.
pub proof fn lemma_hit_in_bounds(sphere: Sphere, ray: Ray, t_min: Scalar, t_max: Scalar)
    ensures
        match sphere.intersection(ray, t_min, t_max) {
            Some(rec) => t_min@ < rec.t@ < t_max@,
            None => true,
        },
{
}

/// How far away the nearest hit is does not depend on the order in which
/// the surfaces were added to the scene: two scenes that hold the same
/// surfaces either both report no hit or report hits at the same parameter.
pub proof fn lemma_nearest_order_independent(
    first: Seq<Sphere>,
    second: Seq<Sphere>,
    ray: Ray,
    t_min: Scalar,
    t_max: Scalar,
)
    requires
        first.to_multiset() == second.to_multiset(),
    ensures
        nearest(first, ray, t_min, t_max) is Some == nearest(second, ray, t_min, t_max) is Some,
        nearest(first, ray, t_min, t_max) is Some ==> nearest(first, ray, t_min, t_max).unwrap().t
            == nearest(second, ray, t_min, t_max).unwrap().t,
{
    lemma_nearest_is_nearest(first, ray, t_min, t_max);
    lemma_nearest_is_nearest(second, ray, t_min, t_max);
    lemma_not_nearer(first, second, ray, t_min, t_max);
    lemma_not_nearer(second, first, ray, t_min, t_max);
}

/// If every surface of `first` is in `second`, a hit in `first` means a hit
/// in `second` that is at least as near.
proof fn lemma_not_nearer(
    first: Seq<Sphere>,
    second: Seq<Sphere>,
    ray: Ray,
    t_min: Scalar,
    t_max: Scalar,
)
    requires
        first.to_multiset() == second.to_multiset(),
        match nearest(first, ray, t_min, t_max) {
            Some(rec) => is_nearest_hit(first, ray, t_min, t_max, rec),
            None => nothing_hit(first, ray, t_min, t_max),
        },
        match nearest(second, ray, t_min, t_max) {
            Some(rec) => is_nearest_hit(second, ray, t_min, t_max, rec),
            None => nothing_hit(second, ray, t_min, t_max),
        },
    ensures
        match nearest(first, ray, t_min, t_max) {
            Some(rec) => match nearest(second, ray, t_min, t_max) {
                Some(other) => other.t@ <= rec.t@,
                None => false,
            },
            None => true,
        },
{
    broadcast use vstd::seq_lib::group_to_multiset_ensures;

    match nearest(first, ray, t_min, t_max) {
        Some(rec) => {
            let k = choose|k: int|
                0 <= k < first.len() && #[trigger] first[k].intersection(ray, t_min, t_max) == Some(
                    rec,
                );
            assert(first.contains(first[k]));
            assert(first.to_multiset().count(first[k]) > 0);
            assert(second.contains(first[k]));
            let j = choose|j: int| 0 <= j < second.len() && second[j] == first[k];
            assert(second[j].intersection(ray, t_min, t_max) == Some(rec));
        },
        None => {},
    }
}

impl HittableList {
    /// A scene without surfaces.
    pub fn new() -> (r: HittableList)
        ensures
            r.objects@.len() == 0,
    {
        HittableList { objects: Vec::new() }
    }
}

impl Hittable for HittableList {
    open spec fn hit_spec(&self, ray: Ray, t_min: Scalar, t_max: Scalar) -> Option<HitInfo> {
        nearest(self.objects@, ray, t_min, t_max)
    }

    /// Tests the ray against every surface. The hit that is reported is
    /// the nearest among the hits of all surfaces, the first of them where
    /// several are equally near; none is reported only if no surface is hit.
    fn hit(&self, ray: &Ray, t_min: Scalar, t_max: Scalar) -> (r: (bool, HitInfo))
        ensures
            r.0 ==> is_nearest_hit(self.objects@, *ray, t_min, t_max, r.1),
            !r.0 ==> nothing_hit(self.objects@, *ray, t_min, t_max),
    {
        let mut hit_anything = false;
        let mut closest_hit = t_max;
        let mut rec = HitInfo::empty();

        let mut i: usize = 0;
        while i < self.objects.len()
            invariant
                i <= self.objects@.len(),
                closest_hit@ <= t_max@,
                hit_anything == nearest(self.objects@.take(i as int), *ray, t_min, t_max).is_some(),
                hit_anything ==> rec == nearest(
                    self.objects@.take(i as int),
                    *ray,
                    t_min,
                    t_max,
                ).unwrap(),
                hit_anything ==> closest_hit == rec.t,
                hit_anything ==> t_min@ < rec.t@ < t_max@,
                hit_anything ==> ray.direction@.dot(rec.normal@) <= 0,
                !hit_anything ==> closest_hit == t_max,
                !hit_anything ==> rec == HitInfo::empty_spec(),
            decreases self.objects@.len() - i,
        {
            proof {
                assert(self.objects@.take(i + 1).drop_last() == self.objects@.take(i as int));
                assert(self.objects@.take(i + 1).last() == self.objects@[i as int]);
            }
            let (hit, info) = self.objects[i].hit(ray, t_min, closest_hit);
            if hit {
                hit_anything = true;
                closest_hit = info.t;
                rec = info;
            }
            i = i + 1;
        }
        proof {
            assert(self.objects@.take(i as int) == self.objects@);
            lemma_nearest_is_nearest(self.objects@, *ray, t_min, t_max);
        }
        (hit_anything, rec)
    }
}

} // verus!
