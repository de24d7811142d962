//! Probability densities over directions: the cosine-weighted density of a
//! surface frame, the density of sampling toward a hittable, and their
//! even mixture.

use crate::fixed::{
    fadd, fdiv, fmul, lemma_fdiv_nonneg, spec_fadd, spec_fdiv, spec_fmax, spec_fmin, spec_fmul,
    HALF, ONE, PI_FX,
};
use crate::hittable::{hittable_geom_wf, random_outcome, spec_pdf_value, Hittable};
use crate::onb::{spec_build_from_w, ONB};
use crate::rng::Rng;
use crate::vec3::{spec_dot, spec_unit, Vec3};
use vstd::prelude::*;

verus! {

#[derive(Clone, Copy, PartialEq, Eq, Structural, Debug)]
pub struct CosinePDF {
    pub uvw: ONB,
}

/// The cosine-weighted density of `d` in the frame `p`: the cosine of the
/// angle to the frame's `w` axis over pi, and zero over the lower
/// hemisphere.
pub open spec fn spec_cosine_pdf_value(p: CosinePDF, d: Vec3) -> int {
    let cosine = spec_dot(spec_unit(d), p.uvw.w);
    if cosine <= 0 {
        0
    } else {
        spec_fdiv(cosine, PI_FX as int)
    }
}

impl CosinePDF {
    pub fn new(w: &Vec3) -> (p: CosinePDF)
        ensures
            p.uvw == spec_build_from_w(*w),
    {
        let mut uvw = ONB::new();
        uvw.build_from_w(*w);
        CosinePDF { uvw }
    }

    /// The density of direction `direction`; never negative.
    pub fn value(&self, direction: &Vec3) -> (r: i64)
        ensures
            r as int == spec_cosine_pdf_value(*self, *direction),
            r >= 0,
    {
        let cosine = direction.unit().dot(self.uvw.w);
        if cosine <= 0 {
            0
        } else {
            proof {
                lemma_fdiv_nonneg(cosine as int, PI_FX as int);
            }
            fdiv(cosine, PI_FX)
        }
    }

    /// A cosine-weighted direction around the frame's `w` axis: the image
    /// under the frame of some canonical direction over the upper
    /// hemisphere.
    pub fn generate(&self, rng: &mut Rng) -> (dir: Vec3)
        ensures
            exists|q: Vec3|
                q.z >= 0 && dir == crate::onb::spec_onb_local(self.uvw, q),
    {
        let q = Vec3::random_cosine_direction(rng);
        let dir = self.uvw.local_with_vec(q);
        proof {
            assert(q.z >= 0 && dir == crate::onb::spec_onb_local(self.uvw, q));
        }
        dir
    }
}

/// The density of sampling toward a target hittable from a fixed origin.
pub struct HittablePDF<'a> {
    pub orig: Vec3,
    pub ptr: &'a Hittable,
}

impl<'a> HittablePDF<'a> {
    pub fn new(p: &'a Hittable, origin: &Vec3) -> (r: HittablePDF<'a>)
        ensures
            r.orig == *origin,
            r.ptr == p,
    {
        HittablePDF { orig: *origin, ptr: p }
    }

    /// The target's own density of `direction` seen from the stored origin.
    pub fn value(&self, direction: &Vec3) -> (r: i64)
        requires
            hittable_geom_wf(*self.ptr),
        ensures
            r as int == spec_pdf_value(*self.ptr, self.orig, *direction),
            r >= 0,
    {
        self.ptr.pdf_value(&self.orig, direction)
    }

    /// A direction sampled toward the target.
    pub fn generate(&self, rng: &mut Rng) -> (dir: Vec3)
        ensures
            random_outcome(*self.ptr, self.orig, dir),
    {
        self.ptr.random(&self.orig, rng)
    }
}

/// The even mixture of two densities: half their sum, halved after the sum
/// so that the mean stays within the operands' range.
pub open spec fn spec_mixture_value(a: int, b: int) -> int {
    spec_fmul(HALF as int, spec_fadd(a, b))
}

/// The even mixture of the density toward a hittable and a cosine density:
/// the standard multiple-importance combination of light sampling and
/// surface sampling.
pub struct MixturePDF<'a> {
    pub p0: HittablePDF<'a>,
    pub p1: CosinePDF,
}

impl<'a> MixturePDF<'a> {
    pub fn new(p0: HittablePDF<'a>, p1: CosinePDF) -> (r: MixturePDF<'a>)
        ensures
            r.p0 == p0,
            r.p1 == p1,
    {
        MixturePDF { p0, p1 }
    }

    /// The mean of the two densities of `direction`; never negative.
    pub fn value(&self, direction: &Vec3) -> (r: i64)
        requires
            hittable_geom_wf(*self.p0.ptr),
        ensures
            r as int == spec_mixture_value(
                spec_pdf_value(*self.p0.ptr, self.p0.orig, *direction),
                spec_cosine_pdf_value(self.p1, *direction),
            ),
            r >= 0,
    {
        let v0 = self.p0.value(direction);
        let v1 = self.p1.value(direction);
        proof {
            crate::fixed::lemma_fmul_nonneg(HALF as int, spec_fadd(v0 as int, v1 as int));
        }
        fmul(HALF, fadd(v0, v1))
    }

    /// A direction drawn from one of the two strategies by a fair coin: a
    /// sample toward the target, or a cosine-weighted sample of the frame.
    pub fn generate(&self, rng: &mut Rng) -> (dir: Vec3)
        ensures
            random_outcome(*self.p0.ptr, self.p0.orig, dir) || (exists|q: Vec3|
                #![auto]
                q.z >= 0 && dir == crate::onb::spec_onb_local(self.p1.uvw, q)),
    {
        let coin = rng.next_unit();
        if coin < HALF {
            self.p0.generate(rng)
        } else {
            self.p1.generate(rng)
        }
    }
}

/// The mixture density always lies between the lesser and the greater of
/// its two components' densities, for any densities whose sum does not
/// saturate the scalar range.
pub proof fn lemma_mixture_value_bounds(a: int, b: int)
    requires
        0 <= a,
        0 <= b,
        a + b <= i64::MAX,
    ensures
        spec_fmin(a, b) <= spec_mixture_value(a, b) <= spec_fmax(a, b),
{
    let s = a + b;
    assert(spec_fadd(a, b) == s);
    assert(spec_fmul(HALF as int, s) == (HALF as int) * s / (ONE as int)) by {
        assert((HALF as int) * s >= 0) by (nonlinear_arith)
            requires
                s >= 0,
        ;
    }
    assert(spec_fmin(a, b) <= (HALF as int) * s / (ONE as int) <= spec_fmax(a, b))
        by (nonlinear_arith)
        requires
            0 <= a,
            0 <= b,
            s == a + b,
    ;
}

} // verus!
