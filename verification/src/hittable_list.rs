//! Scenes: ordered collections of spheres, hit at their nearest member.

use crate::hittable::{HitRecord, Hittable};
use crate::ray::Ray;
use crate::scalar::Scalar;
use crate::sphere::{lemma_sphere_hit_sound, lemma_sphere_hit_window, sphere_hit, Sphere};
use vstd::prelude::*;

verus! {

/// The intersection that a sweep over `objects` in order reports: each
/// member is asked for a hit closer than the closest one found before it,
/// and the last hit found is kept.
pub open spec fn nearest_hit(objects: Seq<Sphere>, r: Ray, t_min: int, t_max: int) -> Option<
    HitRecord,
>
    decreases objects.len(),
{
    if objects.len() == 0 {
        None
    } else {
        let before = nearest_hit(objects.drop_last(), r, t_min, t_max);
        let limit = match before {
            Some(h) => h.t@,
            None => t_max,
        };
        match sphere_hit(objects.last()@, r, t_min, limit) {
            Some(h) => Some(h),
            None => before,
        }
    }
}

/// Whether a hit `h` of the member at index `i` wins against the outcome
/// `other` of the member at index `j`: it is strictly nearer, or equally near
/// and not behind in the order.
pub open spec fn wins(h: HitRecord, i: int, other: Option<HitRecord>, j: int) -> bool {
    match other {
        Some(g) => h.t@ < g.t@ || (h.t@ == g.t@ && i <= j),
        None => true,
    }
}

/// Whether `h` is the hit of the member at index `i` and wins against every
/// member's outcome inside the window.
pub open spec fn is_winner(
    objects: Seq<Sphere>,
    r: Ray,
    t_min: int,
    t_max: int,
    h: HitRecord,
    i: int,
) -> bool {
    &&& 0 <= i < objects.len()
    &&& sphere_hit(objects[i]@, r, t_min, t_max) == Some(h)
    &&& forall|j: int|
        0 <= j < objects.len() ==> wins(
            h,
            i,
            #[trigger] sphere_hit(objects[j]@, r, t_min, t_max),
            j,
        )
}

/// Whether `out` is the nearest intersection of the ray with the members of
/// `objects` inside the window: nothing when no member is hit; otherwise the
/// hit of a member that no other member's hit undercuts, the earliest such
/// member when several are hit at the same parameter.
pub open spec fn is_nearest(
    objects: Seq<Sphere>,
    r: Ray,
    t_min: int,
    t_max: int,
    out: Option<HitRecord>,
) -> bool {
    match out {
        None => forall|j: int|
            0 <= j < objects.len() ==> (#[trigger] sphere_hit(objects[j]@, r, t_min, t_max))
                is None,
        Some(h) => exists|i: int| #[trigger] is_winner(objects, r, t_min, t_max, h, i),
    }
}

/// The sweep finds the nearest intersection: the result of the sweep is the
/// hit with the least parameter among the hits of all members inside the
/// window.
pub proof fn lemma_nearest_hit_is_nearest(objects: Seq<Sphere>, r: Ray, t_min: int, t_max: int)
    ensures
        is_nearest(objects, r, t_min, t_max, nearest_hit(objects, r, t_min, t_max)),
        nearest_hit(objects, r, t_min, t_max) matches Some(h) ==> t_min < h.t@ < t_max,
    decreases objects.len(),
{
    if objects.len() > 0 {
        let front = objects.drop_last();
        let n = objects.len() - 1;
        let before = nearest_hit(front, r, t_min, t_max);
        lemma_nearest_hit_is_nearest(front, r, t_min, t_max);
        let limit = match before {
            Some(h) => h.t@,
            None => t_max,
        };
        lemma_sphere_hit_window(objects[n]@, r, t_min, limit, t_max);
        lemma_sphere_hit_sound(objects[n]@, r, t_min, limit);
        assert forall|j: int| 0 <= j < n implies objects[j] == front[j] by {}
        match (sphere_hit(objects[n]@, r, t_min, limit), before) {
            (Some(h), _) => {
                assert(is_winner(objects, r, t_min, t_max, h, n));
            },
            (None, Some(b)) => {
                let i = choose|i: int| is_winner(front, r, t_min, t_max, b, i);
                assert(is_winner(objects, r, t_min, t_max, b, i));
            },
            (None, None) => {},
        }
    }
}

/// The parameter of the nearest intersection depends only on which spheres
/// the scene holds, not on their order: two scenes with the same members
/// are hit by a ray either both or neither, and at the same parameter.
pub proof fn lemma_nearest_hit_order_independent(
    a: Seq<Sphere>,
    b: Seq<Sphere>,
    r: Ray,
    t_min: int,
    t_max: int,
)
    requires
        forall|s: Sphere| a.contains(s) <==> b.contains(s),
    ensures
        nearest_hit(a, r, t_min, t_max) is None <==> nearest_hit(b, r, t_min, t_max) is None,
        nearest_hit(a, r, t_min, t_max) is Some ==> nearest_hit(a, r, t_min, t_max).unwrap().t@
            == nearest_hit(b, r, t_min, t_max).unwrap().t@,
{
    lemma_nearest_hit_is_nearest(a, r, t_min, t_max);
    lemma_nearest_hit_is_nearest(b, r, t_min, t_max);
    lemma_winner_is_matched(a, b, r, t_min, t_max);
    lemma_winner_is_matched(b, a, r, t_min, t_max);
}

/// When every member of `a` is a member of `b`, a nearest hit in `a` is
/// matched in `b` by a hit that is at least as near.
proof fn lemma_winner_is_matched(a: Seq<Sphere>, b: Seq<Sphere>, r: Ray, t_min: int, t_max: int)
    requires
        forall|s: Sphere| a.contains(s) ==> b.contains(s),
        is_nearest(a, r, t_min, t_max, nearest_hit(a, r, t_min, t_max)),
        is_nearest(b, r, t_min, t_max, nearest_hit(b, r, t_min, t_max)),
    ensures
        nearest_hit(a, r, t_min, t_max) matches Some(h) ==> nearest_hit(b, r, t_min, t_max)
            is Some && nearest_hit(b, r, t_min, t_max).unwrap().t@ <= h.t@,
{
    match nearest_hit(a, r, t_min, t_max) {
        Some(h) => {
            let i = choose|i: int| is_winner(a, r, t_min, t_max, h, i);
            assert(a.contains(a[i]));
            let j = choose|j: int| 0 <= j < b.len() && b[j] == a[i];
            assert(sphere_hit(b[j]@, r, t_min, t_max) == Some(h));
            match nearest_hit(b, r, t_min, t_max) {
                Some(g) => {
                    let k = choose|k: int| is_winner(b, r, t_min, t_max, g, k);
                    assert(wins(g, k, sphere_hit(b[j]@, r, t_min, t_max), j));
                },
                None => {},
            }
        },
        None => {},
    }
}

/// A scene: spheres in the order in which they were added.
pub struct HittableList {
    pub objects: Vec<Sphere>,
}

impl HittableList {
    /// The empty scene.
    pub fn new() -> (list: HittableList)
        ensures
            list.objects@ == Seq::<Sphere>::empty(),
    {
        HittableList { objects: Vec::new() }
    }

    /// The scene that holds `object` alone.
    pub fn from_hittable(object: Sphere) -> (list: HittableList)
        ensures
            list.objects@ == seq![object],
    {
        let mut list = HittableList { objects: Vec::new() };
        list.add(object);
        list
    }

    /// Removes every member.
    pub fn clear(&mut self)
        ensures
            final(self).objects@ == Seq::<Sphere>::empty(),
    {
        self.objects.clear();
    }

    /// Adds `object` behind the members already there.
    pub fn add(&mut self, object: Sphere)
        ensures
            final(self).objects@ == old(self).objects@.push(object),
    {
        self.objects.push(object);
    }
}

impl Hittable for HittableList {
    open spec fn hit_spec(&self, r: Ray, t_min: int, t_max: int) -> Option<HitRecord> {
        nearest_hit(self.objects@, r, t_min, t_max)
    }

    /// Reports the nearest intersection of the ray with the members.
    fn hit(&self, ray: &Ray, t_min: Scalar, t_max: Scalar) -> (rec: Option<HitRecord>)
        ensures
            is_nearest(self.objects@, *ray, t_min@, t_max@, rec),
    {
        let mut temp_rec: Option<HitRecord> = None;
        let mut closest_so_far = t_max;
        let mut i: usize = 0;
        while i < self.objects.len()
            invariant
                i <= self.objects.len(),
                temp_rec == nearest_hit(self.objects@.take(i as int), *ray, t_min@, t_max@),
                closest_so_far@ == match temp_rec {
                    Some(h) => h.t@,
                    None => t_max@,
                },
                closest_so_far@ <= t_max@,
                temp_rec matches Some(h) ==> {
                    &&& t_min@ < h.t@ < t_max@
                    &&& h.normal@.dot(ray.dir@) <= 0
                    &&& (h.front_face ==> h.normal@.dot(ray.dir@) < 0)
                },
            decreases self.objects.len() - i,
        {
            proof {
                let next = self.objects@.take(i + 1);
                assert(next.drop_last() == self.objects@.take(i as int));
                assert(next.last() == self.objects@[i as int]);
            }
            match self.objects[i].hit(ray, t_min, closest_so_far) {
                Some(rec) => {
                    closest_so_far = rec.t;
                    temp_rec = Some(rec);
                },
                None => {},
            }
            i = i + 1;
        }
        proof {
            assert(self.objects@.take(self.objects.len() as int) == self.objects@);
            lemma_nearest_hit_is_nearest(self.objects@, *ray, t_min@, t_max@);
        }
        temp_rec
    }
}

} // verus!
