//! Spheres: the static sphere with solid-angle importance sampling, and the
//! moving sphere whose center is interpolated by ray time.

use crate::aabb::AABB;
use crate::fixed::{
    fadd, fdiv, fmax, fmin, fmul, fneg, fsqrt, fsub, spec_fadd, spec_fdiv, spec_fmax, spec_fmin,
    spec_fmul, spec_fneg, spec_fsqrt, spec_fsub, ONE, PI_FX, TWO_PI_FX,
};
use crate::hittable::{spec_face_normal_flag, spec_face_normal_vec, HitRecord};
use crate::onb::ONB;
use crate::ray::{spec_ray_at, Ray};
use crate::rng::Rng;
use crate::trig::{acos_fx, atan2_fx, spec_acos, spec_atan2};
use crate::vec3::{spec_dot, spec_sqlen, spec_vadd, spec_vdiv, spec_vscale, spec_vsub, Vec3};
use vstd::prelude::*;

verus! {

/// The fixed-point hit threshold that stands in for the 0.001 lower bound of
/// shadow rays.
pub const EPS_FX: i64 = 66;

/// The stand-in for an unbounded upper ray parameter.
pub const INF_FX: i64 = i64::MAX;

pub struct Sphere {
    pub center: Vec3,
    pub radius: i64,
    pub mat: usize,
}

pub struct MovingSphere {
    pub center0: Vec3,
    pub center1: Vec3,
    pub time0: i64,
    pub time1: i64,
    pub radius: i64,
    pub mat: usize,
}

/// The root of the sphere quadratic within `[t_min, t_max]`, preferring the
/// nearer root.
pub open spec fn spec_sphere_root(center: Vec3, radius: int, r: Ray, t_min: int, t_max: int) -> Option<
    int,
> {
    let oc = spec_vsub(r.orig, center);
    let a = spec_sqlen(r.dir);
    let half_b = spec_dot(oc, r.dir);
    let c = spec_fsub(spec_sqlen(oc), spec_fmul(radius, radius));
    let disc = spec_fsub(spec_fmul(half_b, half_b), spec_fmul(a, c));
    if disc < 0 {
        None
    } else {
        let sqrtd = spec_fsqrt(disc);
        let r1 = spec_fdiv(spec_fsub(spec_fneg(half_b), sqrtd), a);
        if t_min <= r1 <= t_max {
            Some(r1)
        } else {
            let r2 = spec_fdiv(spec_fadd(spec_fneg(half_b), sqrtd), a);
            if t_min <= r2 <= t_max {
                Some(r2)
            } else {
                None
            }
        }
    }
}

/// Surface coordinates of the unit-sphere point `p`:
/// `u = (atan2(-z, x) + pi) / 2 pi`, `v = acos(-y) / pi`.
pub open spec fn spec_sphere_uv(p: Vec3) -> (int, int) {
    let theta = spec_acos(spec_fneg(p.y as int));
    let phi = spec_fadd(spec_atan2(spec_fneg(p.z as int), p.x as int), PI_FX as int);
    (spec_fdiv(phi, TWO_PI_FX as int), spec_fdiv(theta, PI_FX as int))
}

/// The full sphere intersection record.
pub open spec fn spec_sphere_hit(s: Sphere, r: Ray, t_min: int, t_max: int) -> Option<HitRecord> {
    match spec_sphere_root(s.center, s.radius as int, r, t_min, t_max) {
        None => None,
        Some(root) => {
            let p = spec_ray_at(r, root);
            let outward = spec_vdiv(spec_vsub(p, s.center), s.radius as int);
            let uv = spec_sphere_uv(outward);
            Some(
                HitRecord {
                    p,
                    normal: spec_face_normal_vec(r, outward),
                    t: root as i64,
                    front_face: spec_face_normal_flag(r, outward),
                    u: uv.0 as i64,
                    v: uv.1 as i64,
                    mat: s.mat,
                },
            )
        },
    }
}

/// The moving sphere's intersection record: the same quadratic against the
/// interpolated center, with no surface coordinates.
pub open spec fn spec_moving_sphere_hit(s: MovingSphere, r: Ray, t_min: int, t_max: int) -> Option<
    HitRecord,
> {
    let center = spec_moving_center(s, r.tm as int);
    match spec_sphere_root(center, s.radius as int, r, t_min, t_max) {
        None => None,
        Some(root) => {
            let p = spec_ray_at(r, root);
            let outward = spec_vdiv(spec_vsub(p, center), s.radius as int);
            Some(
                HitRecord {
                    p,
                    normal: spec_face_normal_vec(r, outward),
                    t: root as i64,
                    front_face: spec_face_normal_flag(r, outward),
                    u: 0i64,
                    v: 0i64,
                    mat: s.mat,
                },
            )
        },
    }
}

/// The center interpolated linearly between the keyframes by time.
pub open spec fn spec_moving_center(s: MovingSphere, time: int) -> Vec3 {
    spec_vadd(
        s.center0,
        spec_vscale(
            spec_vsub(s.center1, s.center0),
            spec_fdiv(spec_fsub(time, s.time0 as int), spec_fsub(s.time1 as int, s.time0 as int)),
        ),
    )
}

/// The probability density of sampling direction `v` from `o` toward the
/// sphere, as the inverse of the subtended solid angle; zero when the ray
/// misses.
pub open spec fn spec_sphere_pdf_value(s: Sphere, o: Vec3, v: Vec3) -> int {
    if spec_sphere_hit(s, Ray { orig: o, dir: v, tm: 0i64 }, EPS_FX as int, INF_FX as int) is Some {
        let d2 = spec_sqlen(spec_vsub(s.center, o));
        let ratio = spec_fdiv(spec_fmul(s.radius as int, s.radius as int), d2);
        let ctm = spec_fmin(spec_fsqrt(spec_fmax(spec_fsub(ONE as int, ratio), 0)), ONE as int);
        let solid_angle = spec_fmul(TWO_PI_FX as int, spec_fsub(ONE as int, ctm));
        spec_fdiv(ONE as int, solid_angle)
    } else {
        0
    }
}

fn root_in_range(root: i64, t_min: i64, t_max: i64) -> (b: bool)
    ensures
        b == (t_min <= root <= t_max),
{
    t_min <= root && root <= t_max
}

fn sphere_root(center: &Vec3, radius: i64, r: &Ray, t_min: i64, t_max: i64) -> (res: Option<i64>)
    ensures
        match res {
            Some(root) => spec_sphere_root(*center, radius as int, *r, t_min as int, t_max as int)
                == Some(root as int),
            None => spec_sphere_root(*center, radius as int, *r, t_min as int, t_max as int) is None,
        },
{
    let oc = r.orig.sub(*center);
    let a = r.dir.squared_length();
    let half_b = oc.dot(r.dir);
    let c = fsub(oc.squared_length(), fmul(radius, radius));
    let disc = fsub(fmul(half_b, half_b), fmul(a, c));
    if disc < 0 {
        None
    } else {
        let sqrtd = fsqrt(disc);
        let r1 = fdiv(fsub(fneg(half_b), sqrtd), a);
        if root_in_range(r1, t_min, t_max) {
            Some(r1)
        } else {
            let r2 = fdiv(fadd(fneg(half_b), sqrtd), a);
            if root_in_range(r2, t_min, t_max) {
                Some(r2)
            } else {
                None
            }
        }
    }
}

impl Sphere {
    pub fn new(cen: Vec3, r: i64, m: usize) -> (s: Sphere)
        ensures
            s == (Sphere { center: cen, radius: r, mat: m }),
    {
        Sphere { center: cen, radius: r, mat: m }
    }

    pub fn get_sphere_uv(p: &Vec3) -> (uv: (i64, i64))
        ensures
            (uv.0 as int, uv.1 as int) == spec_sphere_uv(*p),
    {
        let theta = acos_fx(fneg(p.y));
        let phi = fadd(atan2_fx(fneg(p.z), p.x), PI_FX);
        (fdiv(phi, TWO_PI_FX), fdiv(theta, PI_FX))
    }

    pub fn hit(&self, r: &Ray, t_min: i64, t_max: i64) -> (res: Option<HitRecord>)
        ensures
            match res {
                Some(rec) => spec_sphere_hit(*self, *r, t_min as int, t_max as int) == Some(rec)
                    && t_min <= rec.t <= t_max && rec.mat == self.mat,
                None => spec_sphere_hit(*self, *r, t_min as int, t_max as int) is None,
            },
    {
        match sphere_root(&self.center, self.radius, r, t_min, t_max) {
            None => None,
            Some(root) => {
                let p = r.at(root);
                let outward = p.sub(self.center).divs(self.radius);
                let mut rec = HitRecord::new();
                rec.t = root;
                rec.p = p;
                rec.set_face_normal(r, &outward);
                let uv = Self::get_sphere_uv(&outward);
                rec.u = uv.0;
                rec.v = uv.1;
                rec.mat = self.mat;
                Some(rec)
            },
        }
    }

    pub fn bounding_box(&self, _time0: i64, _time1: i64) -> (res: Option<AABB>)
        ensures
            res == Some(spec_sphere_box(*self)),
    {
        let rad = Vec3::new(self.radius, self.radius, self.radius);
        Some(AABB { minimum: self.center.sub(rad), maximum: self.center.add(rad) })
    }

    /// The density of drawing `v` from `o` toward this sphere.
    pub fn pdf_value(&self, o: &Vec3, v: &Vec3) -> (res: i64)
        ensures
            res as int == spec_sphere_pdf_value(*self, *o, *v),
            res >= 0,
    {
        let probe = Ray::new(*o, *v, 0);
        match self.hit(&probe, EPS_FX, INF_FX) {
            Some(_) => {
                let d2 = self.center.sub(*o).squared_length();
                let ratio = fdiv(fmul(self.radius, self.radius), d2);
                let ctm = fmin(fsqrt(fmax(fsub(ONE, ratio), 0)), ONE);
                let solid_angle = fmul(TWO_PI_FX, fsub(ONE, ctm));
                let res = fdiv(ONE, solid_angle);
                proof {
                    crate::fixed::lemma_fmul_nonneg(TWO_PI_FX as int, spec_fsub(ONE as int, ctm as int));
                    crate::fixed::lemma_fdiv_nonneg(
                        ONE as int,
                        spec_fmul(TWO_PI_FX as int, spec_fsub(ONE as int, ctm as int)),
                    );
                }
                res
            },
            None => 0,
        }
    }

    /// A direction from `o` toward the sphere, drawn from the subtended
    /// cone: the image, under the frame built toward the center, of some
    /// canonical cone sample.
    pub fn random(&self, o: &Vec3, rng: &mut Rng) -> (dir: Vec3)
        ensures
            exists|q: Vec3|
                #![auto]
                dir == crate::onb::spec_onb_local(
                    crate::onb::spec_build_from_w(spec_vsub(self.center, *o)),
                    q,
                ),
    {
        let direction = self.center.sub(*o);
        let distance_squared = direction.squared_length();
        let mut uvw = ONB::new();
        uvw.build_from_w(direction);
        let q = Vec3::random_to_sphere(rng, self.radius, distance_squared);
        let dir = uvw.local_with_vec(q);
        proof {
            assert(dir == crate::onb::spec_onb_local(
                crate::onb::spec_build_from_w(spec_vsub(self.center, *o)),
                q,
            ));
        }
        dir
    }
}

/// The box of a static sphere: the center padded by the radius on each side.
pub open spec fn spec_sphere_box(s: Sphere) -> AABB {
    let rad = Vec3 { x: s.radius, y: s.radius, z: s.radius };
    AABB { minimum: spec_vsub(s.center, rad), maximum: spec_vadd(s.center, rad) }
}

/// The box of a moving sphere between two times: the union of its boxes at
/// the two endpoints.
pub open spec fn spec_moving_sphere_box(s: MovingSphere, time0: int, time1: int) -> AABB {
    let rad = Vec3 { x: s.radius, y: s.radius, z: s.radius };
    let c0 = spec_moving_center(s, time0);
    let c1 = spec_moving_center(s, time1);
    crate::aabb::spec_surrounding_box(
        AABB { minimum: spec_vsub(c0, rad), maximum: spec_vadd(c0, rad) },
        AABB { minimum: spec_vsub(c1, rad), maximum: spec_vadd(c1, rad) },
    )
}

impl MovingSphere {
    pub fn new(cen0: Vec3, cen1: Vec3, time0: i64, time1: i64, r: i64, m: usize) -> (s:
        MovingSphere)
        ensures
            s == (MovingSphere {
                center0: cen0,
                center1: cen1,
                time0,
                time1,
                radius: r,
                mat: m,
            }),
    {
        MovingSphere { center0: cen0, center1: cen1, time0, time1, radius: r, mat: m }
    }

    /// The center at `time`, interpolated between the keyframes.
    pub fn center(&self, time: i64) -> (c: Vec3)
        ensures
            c == spec_moving_center(*self, time as int),
    {
        let frac = fdiv(fsub(time, self.time0), fsub(self.time1, self.time0));
        self.center0.add(self.center1.sub(self.center0).scale(frac))
    }

    pub fn hit(&self, r: &Ray, t_min: i64, t_max: i64) -> (res: Option<HitRecord>)
        ensures
            match res {
                Some(rec) => spec_moving_sphere_hit(*self, *r, t_min as int, t_max as int) == Some(
                    rec,
                ) && t_min <= rec.t <= t_max && rec.mat == self.mat,
                None => spec_moving_sphere_hit(*self, *r, t_min as int, t_max as int) is None,
            },
    {
        let cen = self.center(r.tm);
        match sphere_root(&cen, self.radius, r, t_min, t_max) {
            None => None,
            Some(root) => {
                let p = r.at(root);
                let outward = p.sub(cen).divs(self.radius);
                let mut rec = HitRecord::new();
                rec.t = root;
                rec.p = p;
                rec.set_face_normal(r, &outward);
                rec.mat = self.mat;
                Some(rec)
            },
        }
    }

    pub fn bounding_box(&self, time0: i64, time1: i64) -> (res: Option<AABB>)
        ensures
            res == Some(spec_moving_sphere_box(*self, time0 as int, time1 as int)),
    {
        let rad = Vec3::new(self.radius, self.radius, self.radius);
        let c0 = self.center(time0);
        let c1 = self.center(time1);
        let box0 = AABB { minimum: c0.sub(rad), maximum: c0.add(rad) };
        let box1 = AABB { minimum: c1.sub(rad), maximum: c1.add(rad) };
        Some(AABB::surrounding_box(&box0, &box1))
    }
}

} // verus!
