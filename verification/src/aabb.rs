//! Axis-aligned bounding boxes with the slab intersection test and the
//! box-union merge used by the bounding-volume hierarchy.

use crate::fixed::{fdiv, fmax, fmin, fsub, spec_fdiv, spec_fmax, spec_fmin, spec_fsub};
use crate::ray::Ray;
use crate::vec3::{spec_at, Vec3};
use vstd::prelude::*;

verus! {

#[derive(Clone, Copy, PartialEq, Eq, Structural, Debug)]
pub struct AABB {
    pub minimum: Vec3,
    pub maximum: Vec3,
}

/// One axis of the slab test: narrow `[t_min, t_max]` by the parameter
/// interval in which the ray stays between `mn` and `mx` on this axis, or
/// report a miss.  A zero direction component leaves the interval untouched
/// when the origin lies within the slab and misses otherwise, which is what
/// the infinities of floating-point division yield.
pub open spec fn spec_slab(mn: int, mx: int, o: int, d: int, t_min: int, t_max: int) -> Option<
    (int, int),
> {
    if d == 0 {
        if mn <= o <= mx {
            Some((t_min, t_max))
        } else {
            None
        }
    } else {
        let ta = spec_fdiv(spec_fsub(mn, o), d);
        let tb = spec_fdiv(spec_fsub(mx, o), d);
        let t0 = if d < 0 {
            tb
        } else {
            ta
        };
        let t1 = if d < 0 {
            ta
        } else {
            tb
        };
        let nt_min = spec_fmax(t0, t_min);
        let nt_max = spec_fmin(t1, t_max);
        if nt_max <= nt_min {
            None
        } else {
            Some((nt_min, nt_max))
        }
    }
}

/// The slab test over all three axes.
pub open spec fn spec_aabb_hit(b: AABB, r: Ray, t_min: int, t_max: int) -> bool {
    match spec_slab(
        b.minimum.x as int,
        b.maximum.x as int,
        r.orig.x as int,
        r.dir.x as int,
        t_min,
        t_max,
    ) {
        None => false,
        Some((m1, x1)) => match spec_slab(
            b.minimum.y as int,
            b.maximum.y as int,
            r.orig.y as int,
            r.dir.y as int,
            m1,
            x1,
        ) {
            None => false,
            Some((m2, x2)) => spec_slab(
                b.minimum.z as int,
                b.maximum.z as int,
                r.orig.z as int,
                r.dir.z as int,
                m2,
                x2,
            ) is Some,
        },
    }
}

/// The component-wise union of two boxes.
pub open spec fn spec_surrounding_box(a: AABB, b: AABB) -> AABB {
    AABB {
        minimum: Vec3 {
            x: spec_fmin(a.minimum.x as int, b.minimum.x as int) as i64,
            y: spec_fmin(a.minimum.y as int, b.minimum.y as int) as i64,
            z: spec_fmin(a.minimum.z as int, b.minimum.z as int) as i64,
        },
        maximum: Vec3 {
            x: spec_fmax(a.maximum.x as int, b.maximum.x as int) as i64,
            y: spec_fmax(a.maximum.y as int, b.maximum.y as int) as i64,
            z: spec_fmax(a.maximum.z as int, b.maximum.z as int) as i64,
        },
    }
}

/// `inner` lies entirely within `outer`, interval by interval.
pub open spec fn spec_box_contains(outer: AABB, inner: AABB) -> bool {
    &&& outer.minimum.x <= inner.minimum.x
    &&& outer.minimum.y <= inner.minimum.y
    &&& outer.minimum.z <= inner.minimum.z
    &&& outer.maximum.x >= inner.maximum.x
    &&& outer.maximum.y >= inner.maximum.y
    &&& outer.maximum.z >= inner.maximum.z
}

impl AABB {
    pub fn new(a: Vec3, b: Vec3) -> (r: AABB)
        ensures
            r == (AABB { minimum: a, maximum: b }),
    {
        AABB { minimum: a, maximum: b }
    }

    fn slab(mn: i64, mx: i64, o: i64, d: i64, t_min: i64, t_max: i64) -> (res: Option<(i64, i64)>)
        ensures
            match res {
                Some((nt_min, nt_max)) => spec_slab(
                    mn as int,
                    mx as int,
                    o as int,
                    d as int,
                    t_min as int,
                    t_max as int,
                ) == Some((nt_min as int, nt_max as int)),
                None => spec_slab(
                    mn as int,
                    mx as int,
                    o as int,
                    d as int,
                    t_min as int,
                    t_max as int,
                ) is None,
            },
    {
        if d == 0 {
            if mn <= o && o <= mx {
                Some((t_min, t_max))
            } else {
                None
            }
        } else {
            let ta = fdiv(fsub(mn, o), d);
            let tb = fdiv(fsub(mx, o), d);
            let t0 = if d < 0 {
                tb
            } else {
                ta
            };
            let t1 = if d < 0 {
                ta
            } else {
                tb
            };
            let nt_min = fmax(t0, t_min);
            let nt_max = fmin(t1, t_max);
            if nt_max <= nt_min {
                None
            } else {
                Some((nt_min, nt_max))
            }
        }
    }

    /// The slab test: whether the ray passes through the box for some
    /// parameter strictly inside `[t_min, t_max]`.
    pub fn hit(&self, r: &Ray, t_min: i64, t_max: i64) -> (res: bool)
        ensures
            res == spec_aabb_hit(*self, *r, t_min as int, t_max as int),
    {
        let sx = Self::slab(self.minimum.x, self.maximum.x, r.orig.x, r.dir.x, t_min, t_max);
        match sx {
            None => false,
            Some((m1, x1)) => {
                let sy = Self::slab(self.minimum.y, self.maximum.y, r.orig.y, r.dir.y, m1, x1);
                match sy {
                    None => false,
                    Some((m2, x2)) => {
                        let sz = Self::slab(
                            self.minimum.z,
                            self.maximum.z,
                            r.orig.z,
                            r.dir.z,
                            m2,
                            x2,
                        );
                        sz.is_some()
                    },
                }
            },
        }
    }

    /// The smallest box containing both arguments.
    pub fn surrounding_box(box0: &AABB, box1: &AABB) -> (r: AABB)
        ensures
            r == spec_surrounding_box(*box0, *box1),
    {
        let small = Vec3 {
            x: fmin(box0.minimum.x, box1.minimum.x),
            y: fmin(box0.minimum.y, box1.minimum.y),
            z: fmin(box0.minimum.z, box1.minimum.z),
        };
        let big = Vec3 {
            x: fmax(box0.maximum.x, box1.maximum.x),
            y: fmax(box0.maximum.y, box1.maximum.y),
            z: fmax(box0.maximum.z, box1.maximum.z),
        };
        AABB { minimum: small, maximum: big }
    }
}

/// The union of a box with itself is the box again.
pub proof fn lemma_surrounding_box_idempotent(a: AABB)
    ensures
        spec_surrounding_box(a, a) == a,
{
}

/// The union of two boxes contains each of them entirely.
pub proof fn lemma_surrounding_box_contains(a: AABB, b: AABB)
    ensures
        spec_box_contains(spec_surrounding_box(a, b), a),
        spec_box_contains(spec_surrounding_box(a, b), b),
{
}

/// The union of boxes does not depend on their order.
pub proof fn lemma_surrounding_box_commutative(a: AABB, b: AABB)
    ensures
        spec_surrounding_box(a, b) == spec_surrounding_box(b, a),
{
}

/// The union of boxes does not depend on grouping, so a tree can merge its
/// children's boxes incrementally in any shape.
pub proof fn lemma_surrounding_box_associative(a: AABB, b: AABB, c: AABB)
    ensures
        spec_surrounding_box(spec_surrounding_box(a, b), c) == spec_surrounding_box(
            a,
            spec_surrounding_box(b, c),
        ),
{
}

/// A box whose low corner lies at or below its high corner on every axis.
pub open spec fn spec_box_ordered(b: AABB) -> bool {
    b.minimum.x <= b.maximum.x && b.minimum.y <= b.maximum.y && b.minimum.z <= b.maximum.z
}

/// The union of two ordered boxes is ordered.
pub proof fn lemma_surrounding_box_ordered(a: AABB, b: AABB)
    requires
        spec_box_ordered(a),
        spec_box_ordered(b),
    ensures
        spec_box_ordered(spec_surrounding_box(a, b)),
{
}

/// Containment of boxes is transitive.
pub proof fn lemma_box_contains_trans(a: AABB, b: AABB, c: AABB)
    requires
        spec_box_contains(a, b),
        spec_box_contains(b, c),
    ensures
        spec_box_contains(a, c),
{
}

/// A ray whose direction is zero along some axis, fired from an origin that
/// lies outside the box's slab on that same axis, never hits the box.
pub proof fn lemma_zero_direction_miss(b: AABB, r: Ray, t_min: int, t_max: int, axis: int)
    requires
        0 <= axis < 3,
        spec_at(r.dir, axis) == 0,
        !(spec_at(b.minimum, axis) <= spec_at(r.orig, axis) <= spec_at(b.maximum, axis)),
    ensures
        !spec_aabb_hit(b, r, t_min, t_max),
{
}

} // verus!
