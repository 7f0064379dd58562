//! An unordered scene of spheres, answering with the nearest hit.

use vstd::prelude::*;

verus! {

use crate::hittable::HitRecord;
use crate::hittable::rec_wf;
use crate::ray::Ray;
use crate::sphere::Sphere;
use crate::sphere::sphere_hit_spec;
use crate::sphere::sphere_wf;
use crate::sphere::NORMAL_LS_TOL;
use crate::fixed::SCALE;
use crate::vec3::vls;
use crate::vec3::bounded;
use crate::vec3::is_zero;
use crate::vec3::vdot;

pub struct HittableList {
    pub objects: Vec<Sphere>,
}

pub open spec fn list_wf(l: HittableList) -> bool {
    forall|i: int| 0 <= i < l.objects@.len() ==> sphere_wf(#[trigger] l.objects@[i])
}

/// State of the shrinking-window scan after the first `n` objects:
/// the narrowed upper bound and the nearest record so far.
pub open spec fn list_hit_prefix(
    objs: Seq<Sphere>,
    r: Ray,
    t_min: int,
    t_max: int,
    n: int,
) -> (int, Option<HitRecord>)
    decreases n,
{
    if n <= 0 {
        (t_max, None::<HitRecord>)
    } else {
        let prev = list_hit_prefix(objs, r, t_min, t_max, n - 1);
        match sphere_hit_spec(objs[n - 1], r, t_min, prev.0) {
            Some(rec) => (rec.t as int, Some(rec)),
            None => prev,
        }
    }
}

/// The nearest valid hit over the whole list, or nothing.
pub open spec fn list_hit_spec(objs: Seq<Sphere>, r: Ray, t_min: int, t_max: int) -> Option<
    HitRecord,
> {
    list_hit_prefix(objs, r, t_min, t_max, objs.len() as int).1
}

impl HittableList {
    pub fn new() -> (l: HittableList)
        ensures
            l.objects@.len() == 0,
            list_wf(l),
    {
        HittableList { objects: Vec::new() }
    }

    pub fn clear(&mut self)
        ensures
            final (self).objects@.len() == 0,
            list_wf(*final (self)),
    {
        self.objects.clear();
    }

    pub fn add(&mut self, object: Sphere)
        requires
            sphere_wf(object),
        ensures
            final (self).objects@ == old(self).objects@.push(object),
            list_wf(*old(self)) ==> list_wf(*final (self)),
    {
        self.objects.push(object);
    }

    /// Linear scan that narrows the search window to the closest hit so far.
    pub fn hit(&self, r: Ray, t_min: i128, t_max: i128) -> (res: Option<HitRecord>)
        requires
            list_wf(*self),
        ensures
            res == list_hit_spec(self.objects@, r, t_min as int, t_max as int),
            match res {
                Some(rec) => t_min <= rec.t <= t_max && rec_wf(rec) && vdot(
                    r.direction,
                    rec.normal,
                ) <= 0 && !is_zero(r.direction) && bounded(r.direction, 0x1000_0000_0000_0000)
                    && SCALE as int - NORMAL_LS_TOL as int <= vls(rec.normal) <= SCALE as int
                    + NORMAL_LS_TOL as int,
                None => true,
            },
    {
        let ghost objs = self.objects@;
        let mut rec: Option<HitRecord> = None;
        let mut closest_so_far: i128 = t_max;
        let n: usize = self.objects.len();
        let mut i: usize = 0;
        while i < n
            invariant
                list_wf(*self),
                objs == self.objects@,
                n == objs.len(),
                0 <= i <= n,
                (closest_so_far as int, rec) == list_hit_prefix(
                    objs,
                    r,
                    t_min as int,
                    t_max as int,
                    i as int,
                ),
                match rec {
                    Some(h) => t_min <= h.t <= t_max && h.t == closest_so_far && rec_wf(h) && vdot(
                        r.direction,
                        h.normal,
                    ) <= 0 && !is_zero(r.direction) && bounded(
                        r.direction,
                        0x1000_0000_0000_0000,
                    ) && SCALE as int - NORMAL_LS_TOL as int <= vls(h.normal) <= SCALE as int
                        + NORMAL_LS_TOL as int,
                    None => closest_so_far == t_max,
                },
            decreases n - i,
        {
            let object: Sphere = self.objects[i];
            if let Some(temp_rec) = object.hit(r, t_min, closest_so_far) {
                closest_so_far = temp_rec.t;
                rec = Some(temp_rec);
            }
            i = i + 1;
        }
        rec
    }
}

} // verus!
