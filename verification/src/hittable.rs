//! The hit record produced by an intersection test.

use vstd::prelude::*;

verus! {

use crate::material::Material;
use crate::material::mat_wf;
use crate::ray::Ray;
use crate::vec3::Point3;
use crate::vec3::Vec3;
use crate::vec3::bounded;
use crate::vec3::vdot;
use crate::vec3::vneg;

/// Magnitude cap on hit-point components.
pub const P_LIMIT: i128 = 0x4_0000_0000_0000;

/// Magnitude cap on stored surface-normal components (twice unit length).
pub const NORMAL_LIMIT: i128 = 2000000;

#[derive(Clone, Copy, PartialEq, Eq, Structural, Debug)]
pub struct HitRecord {
    pub p: Point3,
    pub normal: Vec3,
    pub material: Material,
    pub t: i128,
    pub front_face: bool,
}

/// A record fit to hand to a material: point and normal in range,
/// material parameters in range.
pub open spec fn rec_wf(rec: HitRecord) -> bool {
    bounded(rec.p, P_LIMIT as int) && bounded(rec.normal, NORMAL_LIMIT as int) && mat_wf(
        rec.material,
    )
}

impl HitRecord {
    /// Orients the stored normal against the incoming ray and remembers
    /// which side was struck.
    pub fn set_face_normal(&mut self, r: Ray, outward_normal: Vec3)
        requires
            bounded(r.direction, 0x1000_0000_0000_0000),
            bounded(outward_normal, 0x1000_0000_0000_0000),
        ensures
            final(self).front_face == (vdot(r.direction, outward_normal) < 0),
            final(self).normal == (if vdot(r.direction, outward_normal) < 0 {
                outward_normal
            } else {
                vneg(outward_normal)
            }),
            final(self).p == old(self).p,
            final(self).material == old(self).material,
            final(self).t == old(self).t,
    {
        let d: i128 = crate::vec3::dot(r.direction(), outward_normal);
        self.front_face = d < 0;
        self.normal = if self.front_face {
            outward_normal
        } else {
            outward_normal.neg()
        };
    }
}

} // verus!
