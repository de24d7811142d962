//! An orthonormal basis built from a single reference vector, used to carry
//! directions sampled in a canonical frame into world space.

use crate::fixed::spec_fabs;
use crate::vec3::{spec_cross, spec_unit, spec_vadd, spec_vscale, Vec3};
use vstd::prelude::*;

verus! {

/// The fixed-point representation of 0.9, the threshold below which the x
/// axis is a safe helper vector for the cross products.
pub const NINE_TENTHS: i64 = 58982;

#[derive(Clone, Copy, PartialEq, Eq, Structural, Debug)]
pub struct ONB {
    pub u: Vec3,
    pub v: Vec3,
    pub w: Vec3,
}

/// The linear combination `u*a.x + v*a.y + w*a.z`.
pub open spec fn spec_onb_local(o: ONB, a: Vec3) -> Vec3 {
    spec_vadd(
        spec_vadd(spec_vscale(o.u, a.x as int), spec_vscale(o.v, a.y as int)),
        spec_vscale(o.w, a.z as int),
    )
}

/// The frame built from a reference vector: `w` along the unit direction of
/// `n`, `v` orthogonal to `w` and a helper axis, `u` completing the frame.
pub open spec fn spec_build_from_w(n: Vec3) -> ONB {
    let w = spec_unit(n);
    let a = if spec_fabs(w.x as int) > NINE_TENTHS as int {
        Vec3 { x: 0i64, y: crate::fixed::ONE, z: 0i64 }
    } else {
        Vec3 { x: crate::fixed::ONE, y: 0i64, z: 0i64 }
    };
    let v = spec_unit(spec_cross(w, a));
    let u = spec_cross(w, v);
    ONB { u, v, w }
}

impl ONB {
    /// The axis with index `i` (0 is u, 1 is v, 2 is w).
    pub fn at(&self, i: usize) -> (r: Vec3)
        requires
            i < 3,
        ensures
            r == if i == 0 {
                self.u
            } else if i == 1 {
                self.v
            } else {
                self.w
            },
    {
        if i == 0 {
            self.u
        } else if i == 1 {
            self.v
        } else {
            self.w
        }
    }

    pub fn new() -> (r: ONB)
        ensures
            r.u == (Vec3 { x: 0i64, y: 0i64, z: 0i64 }),
            r.v == (Vec3 { x: 0i64, y: 0i64, z: 0i64 }),
            r.w == (Vec3 { x: 0i64, y: 0i64, z: 0i64 }),
    {
        ONB { u: Vec3::zero(), v: Vec3::zero(), w: Vec3::zero() }
    }

    /// The world-space vector with coordinates `a` in this frame.
    pub fn local_with_vec(&self, a: Vec3) -> (r: Vec3)
        ensures
            r == spec_onb_local(*self, a),
    {
        self.u.scale(a.x).add(self.v.scale(a.y)).add(self.w.scale(a.z))
    }

    /// Rebuild the frame from the reference vector `n`.
    pub fn build_from_w(&mut self, n: Vec3)
        ensures
            *final(self) == spec_build_from_w(n),
    {
        let w = n.unit();
        let wx = crate::fixed::fabs(w.x);
        let a = if wx > NINE_TENTHS {
            Vec3::new(0, crate::fixed::ONE, 0)
        } else {
            Vec3::new(crate::fixed::ONE, 0, 0)
        };
        let v = Vec3::cross(w, a).unit();
        let u = Vec3::cross(w, v);
        self.w = w;
        self.v = v;
        self.u = u;
    }
}

} // verus!
