//! A ray: origin plus direction, with the parametric position function.

use vstd::prelude::*;

verus! {

use crate::fixed::iabs;
use crate::vec3::Point3;
use crate::vec3::Vec3;
use crate::vec3::bounded;
use crate::vec3::lemma_vscale_bound;
use crate::vec3::vadd;
use crate::vec3::vscale;

/// Magnitude cap on the parameter of `Ray::at`.
pub const T_LIMIT: i128 = 0x10_0000_0000_0000;

/// Magnitude cap on direction components accepted by `Ray::at`.
pub const DIR_LIMIT: i128 = 0x4_0000_0000_0000;

/// Magnitude cap on origin components accepted by `Ray::at`.
pub const ORIGIN_LIMIT: i128 = 0x1000_0000_0000_0000;

#[derive(Clone, Copy, PartialEq, Eq, Structural, Debug)]
pub struct Ray {
    pub origin: Point3,
    pub direction: Vec3,
}

/// `origin + t * direction`.
pub open spec fn ray_at(r: Ray, t: int) -> Point3 {
    vadd(r.origin, vscale(t, r.direction))
}

impl Ray {
    pub fn new(origin: Point3, direction: Vec3) -> (r: Ray)
        ensures
            r == (Ray { origin, direction }),
    {
        Ray { origin, direction }
    }

    pub fn origin(&self) -> (r: Point3)
        ensures
            r == self.origin,
    {
        self.origin
    }

    pub fn direction(&self) -> (r: Vec3)
        ensures
            r == self.direction,
    {
        self.direction
    }

    pub fn at(&self, t: i128) -> (r: Point3)
        requires
            iabs(t as int) <= T_LIMIT as int,
            bounded(self.direction, DIR_LIMIT as int),
            bounded(self.origin, ORIGIN_LIMIT as int),
        ensures
            r == ray_at(*self, t as int),
            bounded(r, 20000000000000000000000000),
    {
        proof {
            lemma_vscale_bound(
                t as int,
                self.direction,
                T_LIMIT as int,
                DIR_LIMIT as int,
                10000000000000000000000000,
            );
        }
        let scaled: Vec3 = self.direction.scale(t);
        self.origin.add(scaled)
    }
}

} // verus!
