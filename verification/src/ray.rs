//! A ray: origin, direction and a time value used for motion blur.

use crate::vec3::{spec_vadd, spec_vscale, Vec3};
use vstd::prelude::*;

verus! {

#[derive(Clone, Copy, PartialEq, Eq, Structural, Debug)]
pub struct Ray {
    pub orig: Vec3,
    pub dir: Vec3,
    /// Time of the ray in `[0, 1)`, in fixed-point scale.
    pub tm: i64,
}

/// The point the ray reaches at parameter `t`.
pub open spec fn spec_ray_at(r: Ray, t: int) -> Vec3 {
    spec_vadd(r.orig, spec_vscale(r.dir, t))
}

impl Ray {
    pub fn new(orig: Vec3, dir: Vec3, tm: i64) -> (r: Ray)
        ensures
            r == (Ray { orig, dir, tm }),
    {
        Ray { orig, dir, tm }
    }

    pub fn at(&self, t: i64) -> (p: Vec3)
        ensures
            p == spec_ray_at(*self, t as int),
    {
        self.orig.add(self.dir.scale(t))
    }
}

} // verus!
