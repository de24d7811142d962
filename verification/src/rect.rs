//! Axis-aligned rectangles in the three coordinate planes.  The xz variant
//! doubles as an area light and supports density evaluation and sampling.

use crate::aabb::AABB;
use crate::fixed::{
    fabs, fadd, fdiv, fmul, fsub, spec_fabs, spec_fadd, spec_fdiv, spec_fmul, spec_fsub, ONE,
};
use crate::hittable::{spec_face_normal_flag, spec_face_normal_vec, HitRecord};
use crate::ray::{spec_ray_at, Ray};
use crate::rng::Rng;
use crate::vec3::{spec_dot, spec_len, spec_sqlen, Vec3};
use vstd::prelude::*;

verus! {

/// The thin padding that keeps a flat box from having zero extent.
pub const PAD_FX: i64 = 7;

#[allow(non_camel_case_types)]
pub struct xyRect {
    pub mp: usize,
    pub x0: i64,
    pub y0: i64,
    pub x1: i64,
    pub y1: i64,
    pub k: i64,
}

#[allow(non_camel_case_types)]
pub struct xzRect {
    pub mp: usize,
    pub x0: i64,
    pub z0: i64,
    pub x1: i64,
    pub z1: i64,
    pub k: i64,
}

#[allow(non_camel_case_types)]
pub struct yzRect {
    pub mp: usize,
    pub y0: i64,
    pub z0: i64,
    pub y1: i64,
    pub z1: i64,
    pub k: i64,
}

/// The intersection record of a rectangle in the z = k plane.
pub open spec fn spec_xy_hit(s: xyRect, r: Ray, t_min: int, t_max: int) -> Option<HitRecord> {
    let t = spec_fdiv(spec_fsub(s.k as int, r.orig.z as int), r.dir.z as int);
    if t < t_min || t > t_max {
        None
    } else {
        let x = spec_fadd(r.orig.x as int, spec_fmul(t, r.dir.x as int));
        let y = spec_fadd(r.orig.y as int, spec_fmul(t, r.dir.y as int));
        if x < s.x0 || x > s.x1 || y < s.y0 || y > s.y1 {
            None
        } else {
            let outward = Vec3 { x: 0i64, y: 0i64, z: ONE };
            Some(
                HitRecord {
                    p: spec_ray_at(r, t),
                    normal: spec_face_normal_vec(r, outward),
                    t: t as i64,
                    front_face: spec_face_normal_flag(r, outward),
                    u: spec_fdiv(spec_fsub(x, s.x0 as int), spec_fsub(s.x1 as int, s.x0 as int))
                        as i64,
                    v: spec_fdiv(spec_fsub(y, s.y0 as int), spec_fsub(s.y1 as int, s.y0 as int))
                        as i64,
                    mat: s.mp,
                },
            )
        }
    }
}

/// The intersection record of a rectangle in the y = k plane.
pub open spec fn spec_xz_hit(s: xzRect, r: Ray, t_min: int, t_max: int) -> Option<HitRecord> {
    let t = spec_fdiv(spec_fsub(s.k as int, r.orig.y as int), r.dir.y as int);
    if t < t_min || t > t_max {
        None
    } else {
        let x = spec_fadd(r.orig.x as int, spec_fmul(t, r.dir.x as int));
        let z = spec_fadd(r.orig.z as int, spec_fmul(t, r.dir.z as int));
        if x < s.x0 || x > s.x1 || z < s.z0 || z > s.z1 {
            None
        } else {
            let outward = Vec3 { x: 0i64, y: ONE, z: 0i64 };
            Some(
                HitRecord {
                    p: spec_ray_at(r, t),
                    normal: spec_face_normal_vec(r, outward),
                    t: t as i64,
                    front_face: spec_face_normal_flag(r, outward),
                    u: spec_fdiv(spec_fsub(x, s.x0 as int), spec_fsub(s.x1 as int, s.x0 as int))
                        as i64,
                    v: spec_fdiv(spec_fsub(z, s.z0 as int), spec_fsub(s.z1 as int, s.z0 as int))
                        as i64,
                    mat: s.mp,
                },
            )
        }
    }
}

/// The intersection record of a rectangle in the x = k plane.
pub open spec fn spec_yz_hit(s: yzRect, r: Ray, t_min: int, t_max: int) -> Option<HitRecord> {
    let t = spec_fdiv(spec_fsub(s.k as int, r.orig.x as int), r.dir.x as int);
    if t < t_min || t > t_max {
        None
    } else {
        let y = spec_fadd(r.orig.y as int, spec_fmul(t, r.dir.y as int));
        let z = spec_fadd(r.orig.z as int, spec_fmul(t, r.dir.z as int));
        if y < s.y0 || y > s.y1 || z < s.z0 || z > s.z1 {
            None
        } else {
            let outward = Vec3 { x: ONE, y: 0i64, z: 0i64 };
            Some(
                HitRecord {
                    p: spec_ray_at(r, t),
                    normal: spec_face_normal_vec(r, outward),
                    t: t as i64,
                    front_face: spec_face_normal_flag(r, outward),
                    u: spec_fdiv(spec_fsub(y, s.y0 as int), spec_fsub(s.y1 as int, s.y0 as int))
                        as i64,
                    v: spec_fdiv(spec_fsub(z, s.z0 as int), spec_fsub(s.z1 as int, s.z0 as int))
                        as i64,
                    mat: s.mp,
                },
            )
        }
    }
}

/// Where a sampled coordinate of the rectangle can lie: uniformly strictly
/// inside an ordered span, and pinned at the low bound of a degenerate one.
pub open spec fn spec_rect_coord(lo: int, hi: int, v: int) -> bool {
    if lo < hi {
        lo <= v < hi
    } else {
        v == lo
    }
}

/// The sampling density of the xz rectangle seen from `o` along `v`:
/// squared distance over cosine times area, zero on a miss.
pub open spec fn spec_xz_pdf_value(s: xzRect, o: Vec3, v: Vec3) -> int {
    match spec_xz_hit(
        s,
        Ray { orig: o, dir: v, tm: 0i64 },
        crate::sphere::EPS_FX as int,
        crate::sphere::INF_FX as int,
    ) {
        None => 0,
        Some(rec) => {
            let area = spec_fmul(
                spec_fsub(s.x1 as int, s.x0 as int),
                spec_fsub(s.z1 as int, s.z0 as int),
            );
            let d2 = spec_fmul(spec_fmul(rec.t as int, rec.t as int), spec_sqlen(v));
            let cosine = spec_fabs(spec_fdiv(spec_dot(v, rec.normal), spec_len(v)));
            spec_fdiv(d2, spec_fmul(cosine, area))
        },
    }
}

impl xyRect {
    pub fn new(x0: i64, x1: i64, y0: i64, y1: i64, k: i64, mat: usize) -> (r: xyRect)
        ensures
            r == (xyRect { mp: mat, x0, y0, x1, y1, k }),
    {
        xyRect { mp: mat, x0, y0, x1, y1, k }
    }

    pub fn hit(&self, r: &Ray, t_min: i64, t_max: i64) -> (res: Option<HitRecord>)
        ensures
            match res {
                Some(rec) => spec_xy_hit(*self, *r, t_min as int, t_max as int) == Some(rec)
                    && t_min <= rec.t <= t_max && rec.mat == self.mp,
                None => spec_xy_hit(*self, *r, t_min as int, t_max as int) is None,
            },
    {
        let t = fdiv(fsub(self.k, r.orig.z), r.dir.z);
        if t < t_min || t > t_max {
            return None;
        }
        let x = fadd(r.orig.x, fmul(t, r.dir.x));
        let y = fadd(r.orig.y, fmul(t, r.dir.y));
        if x < self.x0 || x > self.x1 || y < self.y0 || y > self.y1 {
            return None;
        }
        let mut rec = HitRecord::new();
        rec.p = r.at(t);
        rec.t = t;
        rec.u = fdiv(fsub(x, self.x0), fsub(self.x1, self.x0));
        rec.v = fdiv(fsub(y, self.y0), fsub(self.y1, self.y0));
        rec.mat = self.mp;
        let outward = Vec3::new(0, 0, ONE);
        rec.set_face_normal(r, &outward);
        Some(rec)
    }

    pub fn bounding_box(&self, _time0: i64, _time1: i64) -> (res: Option<AABB>)
        ensures
            res == Some(spec_xy_box(*self)),
    {
        Some(
            AABB {
                minimum: Vec3::new(self.x0, self.y0, fsub(self.k, PAD_FX)),
                maximum: Vec3::new(self.x1, self.y1, fadd(self.k, PAD_FX)),
            },
        )
    }
}

/// The box of an xy rectangle: its bounds, padded along z.
pub open spec fn spec_xy_box(s: xyRect) -> AABB {
    AABB {
        minimum: Vec3 { x: s.x0, y: s.y0, z: spec_fsub(s.k as int, PAD_FX as int) as i64 },
        maximum: Vec3 { x: s.x1, y: s.y1, z: spec_fadd(s.k as int, PAD_FX as int) as i64 },
    }
}

/// The box of an xz rectangle: its bounds, padded along y.
pub open spec fn spec_xz_box(s: xzRect) -> AABB {
    AABB {
        minimum: Vec3 { x: s.x0, y: spec_fsub(s.k as int, PAD_FX as int) as i64, z: s.z0 },
        maximum: Vec3 { x: s.x1, y: spec_fadd(s.k as int, PAD_FX as int) as i64, z: s.z1 },
    }
}

/// The box of a yz rectangle: its bounds, padded along x.
pub open spec fn spec_yz_box(s: yzRect) -> AABB {
    AABB {
        minimum: Vec3 { x: spec_fsub(s.k as int, PAD_FX as int) as i64, y: s.y0, z: s.z0 },
        maximum: Vec3 { x: spec_fadd(s.k as int, PAD_FX as int) as i64, y: s.y1, z: s.z1 },
    }
}

impl xzRect {
    pub fn new(x0: i64, x1: i64, z0: i64, z1: i64, k: i64, mat: usize) -> (r: xzRect)
        ensures
            r == (xzRect { mp: mat, x0, z0, x1, z1, k }),
    {
        xzRect { mp: mat, x0, z0, x1, z1, k }
    }

    pub fn hit(&self, r: &Ray, t_min: i64, t_max: i64) -> (res: Option<HitRecord>)
        ensures
            match res {
                Some(rec) => spec_xz_hit(*self, *r, t_min as int, t_max as int) == Some(rec)
                    && t_min <= rec.t <= t_max && rec.mat == self.mp,
                None => spec_xz_hit(*self, *r, t_min as int, t_max as int) is None,
            },
    {
        let t = fdiv(fsub(self.k, r.orig.y), r.dir.y);
        if t < t_min || t > t_max {
            return None;
        }
        let x = fadd(r.orig.x, fmul(t, r.dir.x));
        let z = fadd(r.orig.z, fmul(t, r.dir.z));
        if x < self.x0 || x > self.x1 || z < self.z0 || z > self.z1 {
            return None;
        }
        let mut rec = HitRecord::new();
        rec.p = r.at(t);
        rec.t = t;
        rec.u = fdiv(fsub(x, self.x0), fsub(self.x1, self.x0));
        rec.v = fdiv(fsub(z, self.z0), fsub(self.z1, self.z0));
        rec.mat = self.mp;
        let outward = Vec3::new(0, ONE, 0);
        rec.set_face_normal(r, &outward);
        Some(rec)
    }

    pub fn bounding_box(&self, _time0: i64, _time1: i64) -> (res: Option<AABB>)
        ensures
            res == Some(spec_xz_box(*self)),
    {
        Some(
            AABB {
                minimum: Vec3::new(self.x0, fsub(self.k, PAD_FX), self.z0),
                maximum: Vec3::new(self.x1, fadd(self.k, PAD_FX), self.z1),
            },
        )
    }

    /// The density of drawing `v` from `o` toward this rectangle; it is
    /// nonnegative whenever the rectangle's bounds are ordered.
    pub fn pdf_value(&self, o: &Vec3, v: &Vec3) -> (res: i64)
        ensures
            res as int == spec_xz_pdf_value(*self, *o, *v),
            self.x0 <= self.x1 && self.z0 <= self.z1 ==> res >= 0,
    {
        let probe = Ray::new(*o, *v, 0);
        match self.hit(&probe, crate::sphere::EPS_FX, crate::sphere::INF_FX) {
            None => 0,
            Some(rec) => {
                let area = fmul(fsub(self.x1, self.x0), fsub(self.z1, self.z0));
                let d2 = fmul(fmul(rec.t, rec.t), v.squared_length());
                let cosine = fabs(fdiv(v.dot(rec.normal), v.length()));
                let res = fdiv(d2, fmul(cosine, area));
                proof {
                    if self.x0 <= self.x1 && self.z0 <= self.z1 {
                        crate::vec3::lemma_fmul_self_nonneg(rec.t as int);
                        crate::vec3::lemma_sqlen_nonneg(*v);
                        crate::fixed::lemma_fmul_nonneg(
                            spec_fmul(rec.t as int, rec.t as int),
                            spec_sqlen(*v),
                        );
                        crate::fixed::lemma_fmul_nonneg(
                            spec_fsub(self.x1 as int, self.x0 as int),
                            spec_fsub(self.z1 as int, self.z0 as int),
                        );
                        crate::fixed::lemma_fmul_nonneg(cosine as int, area as int);
                        crate::fixed::lemma_fdiv_nonneg(d2 as int, spec_fmul(cosine as int, area as int));
                    }
                }
                res
            },
        }
    }

    /// A direction from `o` toward a uniform point of the rectangle.
    pub fn random(&self, o: &Vec3, rng: &mut Rng) -> (dir: Vec3)
        ensures
            exists|px: i64, pz: i64|
                #![auto]
                spec_rect_coord(self.x0 as int, self.x1 as int, px as int) && spec_rect_coord(
                    self.z0 as int,
                    self.z1 as int,
                    pz as int,
                ) && dir == crate::vec3::spec_vsub(Vec3 { x: px, y: self.k, z: pz }, *o),
    {
        let px = if self.x0 < self.x1 {
            rng.next_range(self.x0, self.x1)
        } else {
            self.x0
        };
        let pz = if self.z0 < self.z1 {
            rng.next_range(self.z0, self.z1)
        } else {
            self.z0
        };
        let random_point = Vec3::new(px, self.k, pz);
        let dir = random_point.sub(*o);
        proof {
            assert(spec_rect_coord(self.x0 as int, self.x1 as int, px as int) && spec_rect_coord(
                self.z0 as int,
                self.z1 as int,
                pz as int,
            ) && dir == crate::vec3::spec_vsub(Vec3 { x: px, y: self.k, z: pz }, *o));
        }
        dir
    }
}

impl yzRect {
    pub fn new(y0: i64, y1: i64, z0: i64, z1: i64, k: i64, mat: usize) -> (r: yzRect)
        ensures
            r == (yzRect { mp: mat, y0, z0, y1, z1, k }),
    {
        yzRect { mp: mat, y0, z0, y1, z1, k }
    }

    pub fn hit(&self, r: &Ray, t_min: i64, t_max: i64) -> (res: Option<HitRecord>)
        ensures
            match res {
                Some(rec) => spec_yz_hit(*self, *r, t_min as int, t_max as int) == Some(rec)
                    && t_min <= rec.t <= t_max && rec.mat == self.mp,
                None => spec_yz_hit(*self, *r, t_min as int, t_max as int) is None,
            },
    {
        let t = fdiv(fsub(self.k, r.orig.x), r.dir.x);
        if t < t_min || t > t_max {
            return None;
        }
        let y = fadd(r.orig.y, fmul(t, r.dir.y));
        let z = fadd(r.orig.z, fmul(t, r.dir.z));
        if y < self.y0 || y > self.y1 || z < self.z0 || z > self.z1 {
            return None;
        }
        let mut rec = HitRecord::new();
        rec.p = r.at(t);
        rec.t = t;
        rec.u = fdiv(fsub(y, self.y0), fsub(self.y1, self.y0));
        rec.v = fdiv(fsub(z, self.z0), fsub(self.z1, self.z0));
        rec.mat = self.mp;
        let outward = Vec3::new(ONE, 0, 0);
        rec.set_face_normal(r, &outward);
        Some(rec)
    }

    pub fn bounding_box(&self, _time0: i64, _time1: i64) -> (res: Option<AABB>)
        ensures
            res == Some(spec_yz_box(*self)),
    {
        Some(
            AABB {
                minimum: Vec3::new(fsub(self.k, PAD_FX), self.y0, self.z0),
                maximum: Vec3::new(fadd(self.k, PAD_FX), self.y1, self.z1),
            },
        )
    }
}

} // verus!
