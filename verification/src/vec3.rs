//! The three-component fixed-point vector used throughout the renderer as
//! point, direction and color.  Every operation is pinned to an exact spec
//! mirror built from the fixed-point scalar model.

use crate::fixed::{
    fadd, fsub, fneg, fmul, fdiv, fabs, fmin, fmax, fsqrt, sabs, tdiv, spec_fadd, spec_fsub,
    spec_fneg, spec_fmul, spec_fdiv, spec_fabs, spec_fmin, spec_fsqrt, HALF, ONE,
};
use crate::rng::Rng;
use vstd::prelude::*;

verus! {

#[derive(Clone, Copy, PartialEq, Eq, Structural, Debug)]
pub struct Vec3 {
    pub x: i64,
    pub y: i64,
    pub z: i64,
}

pub open spec fn spec_vadd(a: Vec3, b: Vec3) -> Vec3 {
    Vec3 {
        x: spec_fadd(a.x as int, b.x as int) as i64,
        y: spec_fadd(a.y as int, b.y as int) as i64,
        z: spec_fadd(a.z as int, b.z as int) as i64,
    }
}

pub open spec fn spec_vsub(a: Vec3, b: Vec3) -> Vec3 {
    Vec3 {
        x: spec_fsub(a.x as int, b.x as int) as i64,
        y: spec_fsub(a.y as int, b.y as int) as i64,
        z: spec_fsub(a.z as int, b.z as int) as i64,
    }
}

pub open spec fn spec_vneg(a: Vec3) -> Vec3 {
    Vec3 {
        x: spec_fneg(a.x as int) as i64,
        y: spec_fneg(a.y as int) as i64,
        z: spec_fneg(a.z as int) as i64,
    }
}

/// Componentwise product: the Hadamard product used for color attenuation.
pub open spec fn spec_velemul(a: Vec3, b: Vec3) -> Vec3 {
    Vec3 {
        x: spec_fmul(a.x as int, b.x as int) as i64,
        y: spec_fmul(a.y as int, b.y as int) as i64,
        z: spec_fmul(a.z as int, b.z as int) as i64,
    }
}

pub open spec fn spec_vscale(a: Vec3, k: int) -> Vec3 {
    Vec3 {
        x: spec_fmul(a.x as int, k) as i64,
        y: spec_fmul(a.y as int, k) as i64,
        z: spec_fmul(a.z as int, k) as i64,
    }
}

pub open spec fn spec_vdiv(a: Vec3, k: int) -> Vec3 {
    Vec3 {
        x: spec_fdiv(a.x as int, k) as i64,
        y: spec_fdiv(a.y as int, k) as i64,
        z: spec_fdiv(a.z as int, k) as i64,
    }
}

pub open spec fn spec_dot(a: Vec3, b: Vec3) -> int {
    spec_fadd(
        spec_fadd(spec_fmul(a.x as int, b.x as int), spec_fmul(a.y as int, b.y as int)),
        spec_fmul(a.z as int, b.z as int),
    )
}

pub open spec fn spec_cross(a: Vec3, b: Vec3) -> Vec3 {
    Vec3 {
        x: spec_fsub(spec_fmul(a.y as int, b.z as int), spec_fmul(a.z as int, b.y as int)) as i64,
        y: spec_fsub(spec_fmul(a.z as int, b.x as int), spec_fmul(a.x as int, b.z as int)) as i64,
        z: spec_fsub(spec_fmul(a.x as int, b.y as int), spec_fmul(a.y as int, b.x as int)) as i64,
    }
}

pub open spec fn spec_sqlen(a: Vec3) -> int {
    spec_dot(a, a)
}

pub open spec fn spec_len(a: Vec3) -> int {
    spec_fsqrt(spec_sqlen(a))
}

pub open spec fn spec_unit(a: Vec3) -> Vec3 {
    spec_vdiv(a, spec_len(a))
}

pub open spec fn spec_at(a: Vec3, i: int) -> int {
    if i == 0 {
        a.x as int
    } else if i == 1 {
        a.y as int
    } else {
        a.z as int
    }
}

/// All three components are nonnegative: the well-formedness of a color.
pub open spec fn spec_nonneg(a: Vec3) -> bool {
    a.x >= 0 && a.y >= 0 && a.z >= 0
}

/// A fixed-point square is never negative.
pub proof fn lemma_fmul_self_nonneg(x: int)
    requires
        i64::MIN <= x <= i64::MAX,
    ensures
        0 <= spec_fmul(x, x) <= i64::MAX,
{
    assert(x * x >= 0) by (nonlinear_arith);
    assert(tdiv(x * x, ONE as int) >= 0) by {
        assert(sabs(x * x) / sabs(ONE as int) >= 0) by (nonlinear_arith)
            requires
                sabs(x * x) >= 0,
                sabs(ONE as int) >= 1,
        ;
    }
}

/// The squared length of any vector is nonnegative (and clipped, so it fits).
pub proof fn lemma_sqlen_nonneg(a: Vec3)
    ensures
        0 <= spec_sqlen(a) <= i64::MAX,
{
    lemma_fmul_self_nonneg(a.x as int);
    lemma_fmul_self_nonneg(a.y as int);
    lemma_fmul_self_nonneg(a.z as int);
}

impl Vec3 {
    pub fn new(x: i64, y: i64, z: i64) -> (r: Vec3)
        ensures
            r == (Vec3 { x, y, z }),
    {
        Vec3 { x, y, z }
    }

    pub fn zero() -> (r: Vec3)
        ensures
            r == (Vec3 { x: 0i64, y: 0i64, z: 0i64 }),
    {
        Vec3 { x: 0, y: 0, z: 0 }
    }

    pub fn ones() -> (r: Vec3)
        ensures
            r == (Vec3 { x: ONE, y: ONE, z: ONE }),
    {
        Vec3 { x: ONE, y: ONE, z: ONE }
    }

    /// The component along axis `i` (0 is x, 1 is y, 2 is z).
    pub fn at(&self, i: usize) -> (r: i64)
        requires
            i < 3,
        ensures
            r as int == spec_at(*self, i as int),
    {
        if i == 0 {
            self.x
        } else if i == 1 {
            self.y
        } else {
            self.z
        }
    }

    pub fn add(self, o: Vec3) -> (r: Vec3)
        ensures
            r == spec_vadd(self, o),
    {
        Vec3 { x: fadd(self.x, o.x), y: fadd(self.y, o.y), z: fadd(self.z, o.z) }
    }

    pub fn sub(self, o: Vec3) -> (r: Vec3)
        ensures
            r == spec_vsub(self, o),
    {
        Vec3 { x: fsub(self.x, o.x), y: fsub(self.y, o.y), z: fsub(self.z, o.z) }
    }

    pub fn neg(self) -> (r: Vec3)
        ensures
            r == spec_vneg(self),
    {
        Vec3 { x: fneg(self.x), y: fneg(self.y), z: fneg(self.z) }
    }

    /// Componentwise product, used for color attenuation.
    pub fn elemul(a: Vec3, b: Vec3) -> (r: Vec3)
        ensures
            r == spec_velemul(a, b),
    {
        Vec3 { x: fmul(a.x, b.x), y: fmul(a.y, b.y), z: fmul(a.z, b.z) }
    }

    pub fn scale(self, k: i64) -> (r: Vec3)
        ensures
            r == spec_vscale(self, k as int),
    {
        Vec3 { x: fmul(self.x, k), y: fmul(self.y, k), z: fmul(self.z, k) }
    }

    pub fn divs(self, k: i64) -> (r: Vec3)
        ensures
            r == spec_vdiv(self, k as int),
    {
        Vec3 { x: fdiv(self.x, k), y: fdiv(self.y, k), z: fdiv(self.z, k) }
    }

    pub fn dot(self, o: Vec3) -> (r: i64)
        ensures
            r as int == spec_dot(self, o),
    {
        fadd(fadd(fmul(self.x, o.x), fmul(self.y, o.y)), fmul(self.z, o.z))
    }

    pub fn cross(a: Vec3, b: Vec3) -> (r: Vec3)
        ensures
            r == spec_cross(a, b),
    {
        Vec3 {
            x: fsub(fmul(a.y, b.z), fmul(a.z, b.y)),
            y: fsub(fmul(a.z, b.x), fmul(a.x, b.z)),
            z: fsub(fmul(a.x, b.y), fmul(a.y, b.x)),
        }
    }

    pub fn squared_length(self) -> (r: i64)
        ensures
            r as int == spec_sqlen(self),
            r >= 0,
    {
        proof {
            lemma_sqlen_nonneg(self);
        }
        self.dot(self)
    }

    pub fn length(self) -> (r: i64)
        ensures
            r as int == spec_len(self),
            r >= 0,
    {
        let sq = self.squared_length();
        fsqrt(sq)
    }

    /// The vector rescaled to unit length; a zero vector saturates.
    pub fn unit(self) -> (r: Vec3)
        ensures
            r == spec_unit(self),
    {
        let len = self.length();
        self.divs(len)
    }

    /// Mirror reflection of `v` about the normal `n`.
    pub fn reflect(v: Vec3, n: Vec3) -> (r: Vec3)
        ensures
            r == spec_reflect(v, n),
    {
        let d = v.dot(n);
        let td = fadd(d, d);
        v.sub(n.scale(td))
    }

    /// Snell refraction of the unit direction `uv` at a surface with unit
    /// normal `n` and refraction ratio `etai_over_etat`.
    pub fn refract(uv: Vec3, n: Vec3, etai_over_etat: i64) -> (r: Vec3)
        ensures
            spec_refract(uv, n, etai_over_etat as int) == r,
    {
        let cos_theta = fmin(fneg(uv.dot(n)), ONE);
        let r_out_perp = uv.add(n.scale(cos_theta)).scale(etai_over_etat);
        let par_sq = fabs(fsub(ONE, r_out_perp.squared_length()));
        let r_out_parallel = n.scale(fneg(fsqrt(par_sq)));
        r_out_perp.add(r_out_parallel)
    }

    /// Each component uniform in `[lo, hi)`.
    pub fn random_min_max(rng: &mut Rng, lo: i64, hi: i64) -> (r: Vec3)
        requires
            lo < hi,
        ensures
            lo <= r.x < hi,
            lo <= r.y < hi,
            lo <= r.z < hi,
    {
        let x = rng.next_range(lo, hi);
        let y = rng.next_range(lo, hi);
        let z = rng.next_range(lo, hi);
        Vec3 { x, y, z }
    }

    /// A point drawn from the open unit ball, by rejection sampling with a
    /// bounded number of attempts and a safe fallback.
    pub fn random_in_unit_sphere(rng: &mut Rng) -> (r: Vec3)
        ensures
            spec_sqlen(r) < ONE,
    {
        let mut tries: u32 = 0;
        while tries < 64
            invariant
                true,
            decreases 64 - tries,
        {
            let p = Vec3::random_min_max(rng, -ONE + 1, ONE);
            if p.squared_length() < ONE {
                return p;
            }
            tries = tries + 1;
        }
        proof {
            lemma_sqlen_nonneg(Vec3 { x: 0i64, y: 0i64, z: HALF });
        }
        let fallback = Vec3 { x: 0, y: 0, z: HALF };
        let sq = fallback.squared_length();
        if sq < ONE {
            fallback
        } else {
            Vec3 { x: 0, y: 0, z: 0 }
        }
    }

    /// A point drawn from the open unit disk in the xy-plane.
    pub fn random_in_unit_disk(rng: &mut Rng) -> (r: Vec3)
        ensures
            spec_sqlen(r) < ONE,
            r.z == 0,
    {
        let mut tries: u32 = 0;
        while tries < 64
            invariant
                true,
            decreases 64 - tries,
        {
            let x = rng.next_range(-ONE + 1, ONE);
            let y = rng.next_range(-ONE + 1, ONE);
            let p = Vec3 { x, y, z: 0 };
            if p.squared_length() < ONE {
                return p;
            }
            tries = tries + 1;
        }
        let fallback = Vec3 { x: 0, y: HALF, z: 0 };
        let sq = fallback.squared_length();
        if sq < ONE {
            fallback
        } else {
            Vec3 { x: 0, y: 0, z: 0 }
        }
    }

    /// A cosine-weighted direction over the hemisphere around +z, sampled by
    /// lifting a uniform point of the unit disk onto the sphere.
    pub fn random_cosine_direction(rng: &mut Rng) -> (r: Vec3)
        ensures
            r.z >= 0,
    {
        let p = Vec3::random_in_unit_disk(rng);
        let sq = p.squared_length();
        proof {
            lemma_sqlen_nonneg(p);
        }
        let zsq = fmax(fsub(ONE, sq), 0);
        let z = fsqrt(zsq);
        Vec3 { x: p.x, y: p.y, z }
    }

    /// A direction toward a sphere of radius `radius` whose center lies at
    /// squared distance `distance_squared` along +z, uniform over the
    /// subtended solid angle.
    pub fn random_to_sphere(rng: &mut Rng, radius: i64, distance_squared: i64) -> (r: Vec3)
        ensures
            true,
    {
        let r1 = rng.next_unit();
        let r2 = rng.next_unit();
        let ratio = fdiv(fmul(radius, radius), distance_squared);
        let cos_max_sq = fmax(fsub(ONE, ratio), 0);
        let cos_max = fsqrt(cos_max_sq);
        let z = fadd(ONE, fmul(r2, fsub(cos_max, ONE)));
        let zsq = fmul(z, z);
        let ssq = fmax(fsub(ONE, zsq), 0);
        let s = fsqrt(ssq);
        // a uniform point of the unit circle stands in for (cos phi, sin phi)
        let d = Vec3::random_in_unit_disk(rng);
        let u = d.unit();
        Vec3 { x: fmul(u.x, s), y: fmul(u.y, s), z }
    }
}

/// Scaling by zero gives the zero vector.
pub proof fn lemma_vscale_zero(a: Vec3)
    ensures
        spec_vscale(a, 0) == (Vec3 { x: 0i64, y: 0i64, z: 0i64 }),
{
    crate::fixed::lemma_fmul_zero(a.x as int);
    crate::fixed::lemma_fmul_zero(a.y as int);
    crate::fixed::lemma_fmul_zero(a.z as int);
}

/// Componentwise nonnegativity carries through addition.
pub proof fn lemma_vadd_nonneg(a: Vec3, b: Vec3)
    requires
        spec_nonneg(a),
        spec_nonneg(b),
    ensures
        spec_nonneg(spec_vadd(a, b)),
{
}

/// Componentwise nonnegativity carries through the Hadamard product.
pub proof fn lemma_velemul_nonneg(a: Vec3, b: Vec3)
    requires
        spec_nonneg(a),
        spec_nonneg(b),
    ensures
        spec_nonneg(spec_velemul(a, b)),
{
    crate::fixed::lemma_fmul_nonneg(a.x as int, b.x as int);
    crate::fixed::lemma_fmul_nonneg(a.y as int, b.y as int);
    crate::fixed::lemma_fmul_nonneg(a.z as int, b.z as int);
}

/// Componentwise nonnegativity carries through a nonnegative scale.
pub proof fn lemma_vscale_nonneg(a: Vec3, k: int)
    requires
        spec_nonneg(a),
        k >= 0,
    ensures
        spec_nonneg(spec_vscale(a, k)),
{
    crate::fixed::lemma_fmul_nonneg(a.x as int, k);
    crate::fixed::lemma_fmul_nonneg(a.y as int, k);
    crate::fixed::lemma_fmul_nonneg(a.z as int, k);
}

/// Componentwise nonnegativity carries through a nonnegative division.
pub proof fn lemma_vdiv_nonneg(a: Vec3, k: int)
    requires
        spec_nonneg(a),
        k >= 0,
    ensures
        spec_nonneg(spec_vdiv(a, k)),
{
    crate::fixed::lemma_fdiv_nonneg(a.x as int, k);
    crate::fixed::lemma_fdiv_nonneg(a.y as int, k);
    crate::fixed::lemma_fdiv_nonneg(a.z as int, k);
}

/// The mirror reflection `v - 2 (v . n) n` over the fixed-point model.
pub open spec fn spec_reflect(v: Vec3, n: Vec3) -> Vec3 {
    spec_vsub(v, spec_vscale(n, spec_fadd(spec_dot(v, n), spec_dot(v, n))))
}

/// The dot product does not depend on the order of its arguments.
pub proof fn lemma_dot_symmetric(a: Vec3, b: Vec3)
    ensures
        spec_dot(a, b) == spec_dot(b, a),
{
}

/// The Snell refraction formula over the fixed-point model.
pub open spec fn spec_refract(uv: Vec3, n: Vec3, etai_over_etat: int) -> Vec3 {
    let cos_theta = spec_fmin(spec_fneg(spec_dot(uv, n)), ONE as int);
    let r_out_perp = spec_vscale(spec_vadd(uv, spec_vscale(n, cos_theta)), etai_over_etat);
    let par_sq = spec_fabs(spec_fsub(ONE as int, spec_sqlen(r_out_perp)));
    let r_out_parallel = spec_vscale(n, spec_fneg(spec_fsqrt(par_sq)));
    spec_vadd(r_out_perp, r_out_parallel)
}

} // verus!
