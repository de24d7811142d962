//! The closed sum type of everything a ray can hit: spheres, rectangles,
//! boxes, flat lists, tree nodes, and the coordinate-frame and volume
//! decorators, all answering the same hit / bounding-box / density /
//! sampling contract.

use crate::aabb::{spec_aabb_hit, spec_surrounding_box, AABB};
use crate::bvh::bvhNode;
use crate::fixed::{
    fadd, fdiv, fmax, fmin, fmul, fneg, fsub, spec_fadd, spec_fdiv, spec_fmax, spec_fmin,
    spec_fmul, spec_fneg, spec_fsub, to_fx, ONE,
};
use crate::ray::{spec_ray_at, Ray};
use crate::rect::{spec_xy_box, spec_xy_hit, spec_xz_box, spec_xz_hit, spec_xz_pdf_value,
    spec_yz_box, spec_yz_hit, xyRect, xzRect, yzRect};
use crate::rng::{random_int, Rng};
use crate::sphere::{
    spec_moving_sphere_box, spec_moving_sphere_hit, spec_sphere_box, spec_sphere_hit,
    spec_sphere_pdf_value, MovingSphere, Sphere, INF_FX,
};
use crate::trig::{cos_fx, degrees_to_radians, ln_unit, sin_fx, spec_cos, spec_degrees_to_radians,
    spec_ln_unit, spec_sin};
use crate::vec3::{spec_dot, spec_len, spec_vadd, spec_vneg, spec_vsub, Vec3};
use vstd::prelude::*;

verus! {

/// What an intersection reports: the point, the normal oriented against the
/// ray, the ray parameter, the facing flag, surface coordinates and the
/// index of the material in the scene's material table.
#[derive(Clone, Copy, PartialEq, Eq, Structural, Debug)]
pub struct HitRecord {
    pub p: Vec3,
    pub normal: Vec3,
    pub t: i64,
    pub front_face: bool,
    pub u: i64,
    pub v: i64,
    pub mat: usize,
}

/// Whether the ray approaches from the side the outward normal points to.
pub open spec fn spec_face_normal_flag(r: Ray, outward: Vec3) -> bool {
    spec_dot(r.dir, outward) < 0
}

/// The stored normal: the outward normal, flipped to face the ray.
pub open spec fn spec_face_normal_vec(r: Ray, outward: Vec3) -> Vec3 {
    if spec_face_normal_flag(r, outward) {
        outward
    } else {
        spec_vneg(outward)
    }
}

impl HitRecord {
    pub fn new() -> (rec: HitRecord)
        ensures
            rec == (HitRecord {
                p: Vec3 { x: 0i64, y: 0i64, z: 0i64 },
                normal: Vec3 { x: 0i64, y: 0i64, z: 0i64 },
                t: 0i64,
                front_face: false,
                u: 0i64,
                v: 0i64,
                mat: 0usize,
            }),
    {
        HitRecord {
            p: Vec3::zero(),
            normal: Vec3::zero(),
            t: 0,
            front_face: false,
            u: 0,
            v: 0,
            mat: 0,
        }
    }

    /// Record the facing flag and orient the normal against the ray.
    pub fn set_face_normal(&mut self, r: &Ray, outward_normal: &Vec3)
        ensures
            *final(self) == (HitRecord {
                front_face: spec_face_normal_flag(*r, *outward_normal),
                normal: spec_face_normal_vec(*r, *outward_normal),
                ..*old(self)
            }),
    {
        self.front_face = r.dir.dot(*outward_normal) < 0;
        if self.front_face {
            self.normal = *outward_normal;
        } else {
            self.normal = outward_normal.neg();
        }
    }
}

/// An insertion-ordered flat collection of hittables.
pub struct HittableList {
    pub objects: Vec<Hittable>,
}

/// A translation decorator: the child shifted by `offset`.
pub struct Translate {
    pub ptr: Box<Hittable>,
    pub offset: Vec3,
}

/// A rotation decorator about the y axis, with the rotation's sine and
/// cosine and the rotated bounding box fixed at construction.
pub struct RotateY {
    pub ptr: Box<Hittable>,
    pub sin_theta: i64,
    pub cos_theta: i64,
    pub has_box: bool,
    pub bbox: AABB,
}

/// A homogeneous participating medium bounded by another hittable.
pub struct ConstantMedium {
    pub boundary: Box<Hittable>,
    pub phase_function: usize,
    pub neg_inv_density: i64,
}

/// A decorator that flips the reported facing flag.
pub struct FlipFace {
    pub ptr: Box<Hittable>,
}

/// A closed rectangular prism, kept as its six faces.
pub struct Cuboid {
    pub box_min: Vec3,
    pub box_max: Vec3,
    pub sides: HittableList,
}

pub enum Hittable {
    Sphere(Sphere),
    MovingSphere(MovingSphere),
    XyRect(xyRect),
    XzRect(xzRect),
    YzRect(yzRect),
    Cuboid(Cuboid),
    List(HittableList),
    Node(bvhNode),
    Translate(Translate),
    RotateY(RotateY),
    ConstantMedium(ConstantMedium),
    FlipFace(FlipFace),
}

/// Whether the intersection test is a pure function of the ray: no
/// participating medium, whose test consumes a random draw, occurs inside.
pub open spec fn hittable_deterministic(h: Hittable) -> bool
    decreases h, 0int,
{
    match h {
        Hittable::Sphere(_) => true,
        Hittable::MovingSphere(_) => true,
        Hittable::XyRect(_) => true,
        Hittable::XzRect(_) => true,
        Hittable::YzRect(_) => true,
        Hittable::Cuboid(c) => list_deterministic(c.sides.objects@, c.sides.objects@.len() as int),
        Hittable::List(l) => list_deterministic(l.objects@, l.objects@.len() as int),
        Hittable::Node(n) => hittable_deterministic(*n.left) && hittable_deterministic(*n.right),
        Hittable::Translate(t) => hittable_deterministic(*t.ptr),
        Hittable::RotateY(t) => hittable_deterministic(*t.ptr),
        Hittable::ConstantMedium(_) => false,
        Hittable::FlipFace(f) => hittable_deterministic(*f.ptr),
    }
}

pub open spec fn list_deterministic(objs: Seq<Hittable>, n: int) -> bool
    decreases objs, n,
{
    if n <= 0 || n > objs.len() {
        true
    } else {
        list_deterministic(objs, n - 1) && hittable_deterministic(objs[n - 1])
    }
}

/// The intersection record of a deterministic object, as a function of the
/// ray alone: the primitive records for the leaves, the closest-hit fold for
/// lists, box pruning with a narrowed right bound for tree nodes, and frame
/// conjugation for the decorators.  A participating medium, whose record
/// depends on a random draw, reports nothing here and is excluded by
/// `hittable_deterministic`.
pub open spec fn spec_hit(h: Hittable, r: Ray, t_min: int, t_max: int) -> Option<HitRecord>
    decreases h, 1int,
{
    match h {
        Hittable::Sphere(s) => spec_sphere_hit(s, r, t_min, t_max),
        Hittable::MovingSphere(s) => spec_moving_sphere_hit(s, r, t_min, t_max),
        Hittable::XyRect(s) => spec_xy_hit(s, r, t_min, t_max),
        Hittable::XzRect(s) => spec_xz_hit(s, r, t_min, t_max),
        Hittable::YzRect(s) => spec_yz_hit(s, r, t_min, t_max),
        Hittable::Cuboid(c) => spec_list_hit(
            c.sides.objects@,
            c.sides.objects@.len() as int,
            r,
            t_min,
            t_max,
        ),
        Hittable::List(l) => spec_list_hit(l.objects@, l.objects@.len() as int, r, t_min, t_max),
        Hittable::Node(n) => if !spec_aabb_hit(n.my_box, r, t_min, t_max) {
            None
        } else {
            match spec_hit(*n.left, r, t_min, t_max) {
                Some(hl) => match spec_hit(*n.right, r, t_min, hl.t as int) {
                    Some(hr) => Some(hr),
                    None => Some(hl),
                },
                None => spec_hit(*n.right, r, t_min, t_max),
            }
        },
        Hittable::Translate(t) => {
            let moved = Ray { orig: spec_vsub(r.orig, t.offset), dir: r.dir, tm: r.tm };
            match spec_hit(*t.ptr, moved, t_min, t_max) {
                Some(rec) => Some(
                    HitRecord {
                        p: spec_vadd(rec.p, t.offset),
                        normal: spec_face_normal_vec(moved, rec.normal),
                        front_face: spec_face_normal_flag(moved, rec.normal),
                        ..rec
                    },
                ),
                None => None,
            }
        },
        Hittable::RotateY(t) => {
            let rotated = Ray {
                orig: spec_rot_into(t.sin_theta as int, t.cos_theta as int, r.orig),
                dir: spec_rot_into(t.sin_theta as int, t.cos_theta as int, r.dir),
                tm: r.tm,
            };
            match spec_hit(*t.ptr, rotated, t_min, t_max) {
                Some(rec) => {
                    let back = spec_rot_out_of(t.sin_theta as int, t.cos_theta as int, rec.normal);
                    Some(
                        HitRecord {
                            p: spec_rot_out_of(t.sin_theta as int, t.cos_theta as int, rec.p),
                            normal: spec_face_normal_vec(rotated, back),
                            front_face: spec_face_normal_flag(rotated, back),
                            ..rec
                        },
                    )
                },
                None => None,
            }
        },
        Hittable::ConstantMedium(_) => None,
        Hittable::FlipFace(f) => match spec_hit(*f.ptr, r, t_min, t_max) {
            Some(rec) => Some(HitRecord { front_face: !rec.front_face, ..rec }),
            None => None,
        },
    }
}

/// The closest-hit fold over the first `n` list entries, in insertion
/// order: each entry is probed with the closest parameter so far as the
/// upper bound.
pub open spec fn spec_list_hit(objs: Seq<Hittable>, n: int, r: Ray, t_min: int, t_max: int) -> Option<
    HitRecord,
> decreases objs, n,
{
    if n <= 0 || n > objs.len() {
        None
    } else {
        let prev = spec_list_hit(objs, n - 1, r, t_min, t_max);
        let bound = match prev {
            Some(rec) => rec.t as int,
            None => t_max,
        };
        match spec_hit(objs[n - 1], r, t_min, bound) {
            Some(rec2) => Some(rec2),
            None => prev,
        }
    }
}

/// Unfolding of the list determinism: it covers every element.
pub proof fn lemma_list_deterministic_all(objs: Seq<Hittable>, k: int, i: int)
    requires
        0 <= i < k <= objs.len(),
        list_deterministic(objs, k),
    ensures
        hittable_deterministic(objs[i]),
    decreases k,
{
    if i < k - 1 {
        lemma_list_deterministic_all(objs, k - 1, i);
    }
}

/// The free-flight decision of a participating medium, as a function of the
/// two boundary crossings, the query range, and the uniform draw: the
/// crossing segment is clamped to the range, the draw becomes a flight
/// distance through the logarithm, and an overshooting distance means the
/// ray passes through untouched.
pub open spec fn spec_medium_sample(
    t1: int,
    t2: int,
    t_min: int,
    t_max: int,
    neg_inv_density: int,
    ray_length: int,
    draw: int,
) -> Option<int> {
    let lo = if t1 < t_min {
        t_min
    } else {
        t1
    };
    let hi = if t2 > t_max {
        t_max
    } else {
        t2
    };
    if lo >= hi {
        None
    } else {
        let lo2 = if lo < 0 {
            0
        } else {
            lo
        };
        let distance_inside = spec_fmul(spec_fsub(hi, lo2), ray_length);
        let hit_distance = spec_fmul(neg_inv_density, spec_ln_unit(draw));
        if hit_distance > distance_inside {
            None
        } else {
            let t = spec_fadd(lo2, spec_fdiv(hit_distance, ray_length));
            if t < t_min || t > t_max {
                None
            } else {
                Some(t)
            }
        }
    }
}

/// The executable free-flight decision; exactly the model above.
pub fn medium_sample(
    t1: i64,
    t2: i64,
    t_min: i64,
    t_max: i64,
    neg_inv_density: i64,
    ray_length: i64,
    draw: i64,
) -> (res: Option<i64>)
    requires
        0 <= draw < ONE,
    ensures
        res == match spec_medium_sample(
            t1 as int,
            t2 as int,
            t_min as int,
            t_max as int,
            neg_inv_density as int,
            ray_length as int,
            draw as int,
        ) {
            Some(t) => Some(t as i64),
            None => None::<i64>,
        },
        res is Some ==> t_min <= res->Some_0 <= t_max,
{
    let lo = if t1 < t_min {
        t_min
    } else {
        t1
    };
    let hi = if t2 > t_max {
        t_max
    } else {
        t2
    };
    if lo >= hi {
        return None;
    }
    let lo2 = if lo < 0 {
        0
    } else {
        lo
    };
    let distance_inside = fmul(fsub(hi, lo2), ray_length);
    let hit_distance = fmul(neg_inv_density, ln_unit(draw));
    if hit_distance > distance_inside {
        return None;
    }
    let t = fadd(lo2, fdiv(hit_distance, ray_length));
    if t < t_min || t > t_max {
        return None;
    }
    Some(t)
}

/// The medium's full intersection record for a given draw, when its
/// boundary answers as a pure function of the ray: the boundary is probed
/// twice (the second probe just past the first crossing), then the flight
/// decision picks the parameter; the record carries the fixed stand-in
/// normal and the medium's phase material.
pub open spec fn spec_medium_result(
    m: ConstantMedium,
    r: Ray,
    t_min: int,
    t_max: int,
    draw: int,
) -> Option<HitRecord> {
    match spec_hit(*m.boundary, r, -(INF_FX as int), INF_FX as int) {
        None => None,
        Some(rec1) => match spec_hit(
            *m.boundary,
            r,
            spec_fadd(rec1.t as int, crate::rect::PAD_FX as int),
            INF_FX as int,
        ) {
            None => None,
            Some(rec2) => match spec_medium_sample(
                rec1.t as int,
                rec2.t as int,
                t_min,
                t_max,
                m.neg_inv_density as int,
                spec_len(r.dir),
                draw,
            ) {
                None => None,
                Some(t) => Some(
                    HitRecord {
                        p: spec_ray_at(r, t),
                        normal: Vec3 { x: ONE, y: 0i64, z: 0i64 },
                        t: t as i64,
                        front_face: true,
                        u: 0i64,
                        v: 0i64,
                        mat: m.phase_function,
                    },
                ),
            },
        },
    }
}

/// The result equals the medium's record for the given draw.
pub open spec fn res_matches_medium(
    m: ConstantMedium,
    r: Ray,
    t_min: int,
    t_max: int,
    draw: int,
    res: Option<HitRecord>,
) -> bool {
    res == spec_medium_result(m, r, t_min, t_max, draw)
}

/// Geometric well-formedness: rectangle bounds are ordered, recursively.
pub open spec fn hittable_geom_wf(h: Hittable) -> bool
    decreases h, 0int,
{
    match h {
        Hittable::Sphere(_) => true,
        Hittable::MovingSphere(_) => true,
        Hittable::XyRect(s) => s.x0 <= s.x1 && s.y0 <= s.y1,
        Hittable::XzRect(s) => s.x0 <= s.x1 && s.z0 <= s.z1,
        Hittable::YzRect(s) => s.y0 <= s.y1 && s.z0 <= s.z1,
        Hittable::Cuboid(c) => list_geom_wf(c.sides.objects@, c.sides.objects@.len() as int),
        Hittable::List(l) => list_geom_wf(l.objects@, l.objects@.len() as int),
        Hittable::Node(n) => hittable_geom_wf(*n.left) && hittable_geom_wf(*n.right),
        Hittable::Translate(t) => hittable_geom_wf(*t.ptr),
        Hittable::RotateY(t) => hittable_geom_wf(*t.ptr),
        Hittable::ConstantMedium(m) => hittable_geom_wf(*m.boundary),
        Hittable::FlipFace(f) => hittable_geom_wf(*f.ptr),
    }
}

pub open spec fn list_geom_wf(objs: Seq<Hittable>, n: int) -> bool
    decreases objs, n,
{
    if n <= 0 || n > objs.len() {
        true
    } else {
        list_geom_wf(objs, n - 1) && hittable_geom_wf(objs[n - 1])
    }
}

/// Every material index mentioned in `h` is below `n`.
pub open spec fn hittable_mats_below(h: Hittable, n: int) -> bool
    decreases h, 0int,
{
    match h {
        Hittable::Sphere(s) => (s.mat as int) < n,
        Hittable::MovingSphere(s) => (s.mat as int) < n,
        Hittable::XyRect(s) => (s.mp as int) < n,
        Hittable::XzRect(s) => (s.mp as int) < n,
        Hittable::YzRect(s) => (s.mp as int) < n,
        Hittable::Cuboid(c) => list_mats_below(c.sides.objects@, c.sides.objects@.len() as int, n),
        Hittable::List(l) => list_mats_below(l.objects@, l.objects@.len() as int, n),
        Hittable::Node(node) => hittable_mats_below(*node.left, n) && hittable_mats_below(
            *node.right,
            n,
        ),
        Hittable::Translate(t) => hittable_mats_below(*t.ptr, n),
        Hittable::RotateY(t) => hittable_mats_below(*t.ptr, n),
        Hittable::ConstantMedium(m) => (m.phase_function as int) < n && hittable_mats_below(
            *m.boundary,
            n,
        ),
        Hittable::FlipFace(f) => hittable_mats_below(*f.ptr, n),
    }
}

pub open spec fn list_mats_below(objs: Seq<Hittable>, k: int, n: int) -> bool
    decreases objs, k,
{
    if k <= 0 || k > objs.len() {
        true
    } else {
        list_mats_below(objs, k - 1, n) && hittable_mats_below(objs[k - 1], n)
    }
}

/// Whether the object can report a bounding box; this does not depend on the
/// time interval asked about.
pub open spec fn has_box(h: Hittable) -> bool
    decreases h, 0int,
{
    match h {
        Hittable::Sphere(_) => true,
        Hittable::MovingSphere(_) => true,
        Hittable::XyRect(_) => true,
        Hittable::XzRect(_) => true,
        Hittable::YzRect(_) => true,
        Hittable::Cuboid(_) => true,
        Hittable::List(l) => list_has_box(l.objects@, l.objects@.len() as int),
        Hittable::Node(_) => true,
        Hittable::Translate(t) => has_box(*t.ptr),
        Hittable::RotateY(t) => t.has_box,
        Hittable::ConstantMedium(m) => has_box(*m.boundary),
        Hittable::FlipFace(f) => has_box(*f.ptr),
    }
}

pub open spec fn list_has_box(objs: Seq<Hittable>, n: int) -> bool
    decreases objs, n,
{
    if n <= 0 || n > objs.len() {
        false
    } else if n == 1 {
        has_box(objs[0])
    } else {
        list_has_box(objs, n - 1) && has_box(objs[n - 1])
    }
}

/// The bounding box reported for the time interval `[t0, t1]`.
pub open spec fn spec_bounding_box(h: Hittable, t0: int, t1: int) -> Option<AABB>
    decreases h, 0int,
{
    match h {
        Hittable::Sphere(s) => Some(spec_sphere_box(s)),
        Hittable::MovingSphere(s) => Some(spec_moving_sphere_box(s, t0, t1)),
        Hittable::XyRect(s) => Some(spec_xy_box(s)),
        Hittable::XzRect(s) => Some(spec_xz_box(s)),
        Hittable::YzRect(s) => Some(spec_yz_box(s)),
        Hittable::Cuboid(c) => Some(AABB { minimum: c.box_min, maximum: c.box_max }),
        Hittable::List(l) => spec_list_box(l.objects@, l.objects@.len() as int, t0, t1),
        Hittable::Node(n) => Some(n.my_box),
        Hittable::Translate(t) => match spec_bounding_box(*t.ptr, t0, t1) {
            Some(b) => Some(
                AABB {
                    minimum: spec_vadd(b.minimum, t.offset),
                    maximum: spec_vadd(b.maximum, t.offset),
                },
            ),
            None => None,
        },
        Hittable::RotateY(t) => if t.has_box {
            Some(t.bbox)
        } else {
            None
        },
        Hittable::ConstantMedium(m) => spec_bounding_box(*m.boundary, t0, t1),
        Hittable::FlipFace(f) => spec_bounding_box(*f.ptr, t0, t1),
    }
}

/// The fold of the children's boxes, in insertion order.
pub open spec fn spec_list_box(objs: Seq<Hittable>, n: int, t0: int, t1: int) -> Option<AABB>
    decreases objs, n,
{
    if n <= 0 || n > objs.len() {
        None
    } else if n == 1 {
        spec_bounding_box(objs[0], t0, t1)
    } else {
        match (spec_list_box(objs, n - 1, t0, t1), spec_bounding_box(objs[n - 1], t0, t1)) {
            (Some(b), Some(c)) => Some(spec_surrounding_box(b, c)),
            _ => None,
        }
    }
}

/// A box is reported exactly when `has_box` holds, whatever the times.
pub proof fn lemma_box_presence(h: Hittable, t0: int, t1: int)
    ensures
        (spec_bounding_box(h, t0, t1) is Some) == has_box(h),
    decreases h, 0int,
{
    match h {
        Hittable::List(l) => {
            lemma_list_box_presence(l.objects@, l.objects@.len() as int, t0, t1);
        },
        Hittable::Cuboid(_) => {},
        Hittable::Translate(t) => {
            lemma_box_presence(*t.ptr, t0, t1);
        },
        Hittable::ConstantMedium(m) => {
            lemma_box_presence(*m.boundary, t0, t1);
        },
        Hittable::FlipFace(f) => {
            lemma_box_presence(*f.ptr, t0, t1);
        },
        _ => {},
    }
}

pub proof fn lemma_list_box_presence(objs: Seq<Hittable>, n: int, t0: int, t1: int)
    ensures
        (spec_list_box(objs, n, t0, t1) is Some) == list_has_box(objs, n),
    decreases objs, n,
{
    if n <= 0 || n > objs.len() {
    } else if n == 1 {
        lemma_box_presence(objs[0], t0, t1);
    } else {
        lemma_list_box_presence(objs, n - 1, t0, t1);
        lemma_box_presence(objs[n - 1], t0, t1);
    }
}

/// The sampling density of direction `v` from `o`, for the variants that act
/// as lights; the others report zero.
pub open spec fn spec_pdf_value(h: Hittable, o: Vec3, v: Vec3) -> int
    decreases h, 0int,
{
    match h {
        Hittable::Sphere(s) => spec_sphere_pdf_value(s, o, v),
        Hittable::XzRect(s) => spec_xz_pdf_value(s, o, v),
        Hittable::List(l) => {
            let len = l.objects@.len() as int;
            if len == 0 {
                0
            } else {
                spec_list_pdf_sum(
                    l.objects@,
                    len,
                    o,
                    v,
                    spec_fdiv(ONE as int, crate::fixed::clip(len * (ONE as int))),
                )
            }
        },
        Hittable::Translate(t) => spec_pdf_value(*t.ptr, spec_vsub(o, t.offset), v),
        Hittable::RotateY(t) => spec_pdf_value(
            *t.ptr,
            spec_rot_into(t.sin_theta as int, t.cos_theta as int, o),
            spec_rot_into(t.sin_theta as int, t.cos_theta as int, v),
        ),
        _ => 0,
    }
}

/// The weighted sum of the first `n` children's densities, in order.
pub open spec fn spec_list_pdf_sum(objs: Seq<Hittable>, n: int, o: Vec3, v: Vec3, w: int) -> int
    decreases objs, n,
{
    if n <= 0 || n > objs.len() {
        0
    } else {
        spec_fadd(
            spec_list_pdf_sum(objs, n - 1, o, v, w),
            spec_fmul(w, spec_pdf_value(objs[n - 1], o, v)),
        )
    }
}

/// What a sampled direction from `o` toward the object can be: for the
/// light-shaped variants the image of some canonical sample in the proper
/// frame, recursively through lists and decorators; the fixed +x axis for
/// everything else.
pub open spec fn random_outcome(h: Hittable, o: Vec3, dir: Vec3) -> bool
    decreases h, 0int,
{
    match h {
        Hittable::Sphere(s) => exists|q: Vec3|
            #![auto]
            dir == crate::onb::spec_onb_local(
                crate::onb::spec_build_from_w(spec_vsub(s.center, o)),
                q,
            ),
        Hittable::XzRect(s) => exists|px: i64, pz: i64|
            #![auto]
            crate::rect::spec_rect_coord(s.x0 as int, s.x1 as int, px as int)
                && crate::rect::spec_rect_coord(s.z0 as int, s.z1 as int, pz as int) && dir
                == spec_vsub(Vec3 { x: px, y: s.k, z: pz }, o),
        Hittable::List(l) => if l.objects@.len() == 0 {
            dir == (Vec3 { x: ONE, y: 0i64, z: 0i64 })
        } else {
            exists|i: int|
                0 <= i < l.objects@.len() && random_outcome(#[trigger] l.objects@[i], o, dir)
        },
        Hittable::Translate(t) => random_outcome(*t.ptr, spec_vsub(o, t.offset), dir),
        Hittable::RotateY(t) => exists|d2: Vec3|
            #![auto]
            dir == spec_rot_out_of(t.sin_theta as int, t.cos_theta as int, d2) && random_outcome(
                *t.ptr,
                spec_rot_into(t.sin_theta as int, t.cos_theta as int, o),
                d2,
            ),
        _ => dir == (Vec3 { x: ONE, y: 0i64, z: 0i64 }),
    }
}

/// A world point carried into the rotated object's frame.
pub open spec fn spec_rot_into(sin_theta: int, cos_theta: int, p: Vec3) -> Vec3 {
    Vec3 {
        x: spec_fsub(spec_fmul(cos_theta, p.x as int), spec_fmul(sin_theta, p.z as int)) as i64,
        y: p.y,
        z: spec_fadd(spec_fmul(sin_theta, p.x as int), spec_fmul(cos_theta, p.z as int)) as i64,
    }
}

/// An object-frame point carried back into world coordinates.
pub open spec fn spec_rot_out_of(sin_theta: int, cos_theta: int, p: Vec3) -> Vec3 {
    Vec3 {
        x: spec_fadd(spec_fmul(cos_theta, p.x as int), spec_fmul(sin_theta, p.z as int)) as i64,
        y: p.y,
        z: spec_fsub(spec_fmul(cos_theta, p.z as int), spec_fmul(sin_theta, p.x as int)) as i64,
    }
}

fn rot_into(sin_theta: i64, cos_theta: i64, p: &Vec3) -> (r: Vec3)
    ensures
        r == spec_rot_into(sin_theta as int, cos_theta as int, *p),
{
    Vec3 {
        x: fsub(fmul(cos_theta, p.x), fmul(sin_theta, p.z)),
        y: p.y,
        z: fadd(fmul(sin_theta, p.x), fmul(cos_theta, p.z)),
    }
}

fn rot_out_of(sin_theta: i64, cos_theta: i64, p: &Vec3) -> (r: Vec3)
    ensures
        r == spec_rot_out_of(sin_theta as int, cos_theta as int, *p),
{
    Vec3 {
        x: fadd(fmul(cos_theta, p.x), fmul(sin_theta, p.z)),
        y: p.y,
        z: fsub(fmul(cos_theta, p.z), fmul(sin_theta, p.x)),
    }
}

impl HittableList {
    pub fn new() -> (l: HittableList)
        ensures
            l.objects@.len() == 0,
    {
        HittableList { objects: Vec::new() }
    }

    pub fn add(&mut self, object: Hittable)
        ensures
            final(self).objects@ == old(self).objects@.push(object),
    {
        self.objects.push(object);
    }

    pub fn clear(&mut self)
        ensures
            final(self).objects@.len() == 0,
    {
        self.objects.clear();
    }
}

impl Hittable {
    /// The closest intersection with ray parameter strictly within
    /// `[t_min, t_max]`, if any.  Any reported material index respects every
    /// bound the scene's table satisfies.
    pub fn hit(&self, r: &Ray, t_min: i64, t_max: i64, rng: &mut Rng) -> (res: Option<HitRecord>)
        ensures
            match res {
                Some(rec) => t_min <= rec.t <= t_max && (forall|n: int|
                    hittable_mats_below(*self, n) ==> (rec.mat as int) < n),
                None => true,
            },
            (*self is Node && !spec_aabb_hit(
                (*self)->Node_0.my_box,
                *r,
                t_min as int,
                t_max as int,
            )) ==> res is None,
            hittable_deterministic(*self) ==> res == spec_hit(
                *self,
                *r,
                t_min as int,
                t_max as int,
            ),
            match *self {
                Hittable::ConstantMedium(m) => {
                    &&& (match res {
                        Some(rec) => rec.p == spec_ray_at(*r, rec.t as int) && rec.normal == (Vec3 {
                            x: ONE,
                            y: 0i64,
                            z: 0i64,
                        }) && rec.front_face && rec.u == 0 && rec.v == 0 && rec.mat
                            == m.phase_function,
                        None => true,
                    })
                    &&& (hittable_deterministic(*m.boundary) && spec_hit(
                        *m.boundary,
                        *r,
                        -(INF_FX as int),
                        INF_FX as int,
                    ) is None ==> res is None)
                    &&& (hittable_deterministic(*m.boundary) ==> exists|d: int|
                        0 <= d < ONE && res_matches_medium(
                            m,
                            *r,
                            t_min as int,
                            t_max as int,
                            d,
                            res,
                        ))
                },
                _ => true,
            },
        decreases *self, 1int,
    {
        match self {
            Hittable::Sphere(s) => s.hit(r, t_min, t_max),
            Hittable::MovingSphere(s) => s.hit(r, t_min, t_max),
            Hittable::XyRect(s) => s.hit(r, t_min, t_max),
            Hittable::XzRect(s) => s.hit(r, t_min, t_max),
            Hittable::YzRect(s) => s.hit(r, t_min, t_max),
            Hittable::Cuboid(c) => {
                let res = Self::list_hit(&c.sides.objects, r, t_min, t_max, rng);
                proof {
                    if res is Some {
                        let rec = res->Some_0;
                        assert forall|n: int| hittable_mats_below(*self, n) implies (
                        rec.mat as int) < n by {
                            assert(list_mats_below(
                                c.sides.objects@,
                                c.sides.objects@.len() as int,
                                n,
                            ));
                        }
                    }
                }
                res
            },
            Hittable::List(l) => {
                let res = Self::list_hit(&l.objects, r, t_min, t_max, rng);
                proof {
                    if res is Some {
                        let rec = res->Some_0;
                        assert forall|n: int| hittable_mats_below(*self, n) implies (
                        rec.mat as int) < n by {
                            assert(list_mats_below(l.objects@, l.objects@.len() as int, n));
                        }
                    }
                }
                res
            },
            Hittable::Node(node) => {
                if !node.my_box.hit(r, t_min, t_max) {
                    return None;
                }
                let left = node.left.hit(r, t_min, t_max, rng);
                let res = match left {
                    Some(hit_left) => {
                        match node.right.hit(r, t_min, hit_left.t, rng) {
                            Some(hit_right) => Some(hit_right),
                            None => Some(hit_left),
                        }
                    },
                    None => node.right.hit(r, t_min, t_max, rng),
                };
                proof {
                    if res is Some {
                        assert(t_min <= res->Some_0.t <= t_max);
                        assert forall|n: int| hittable_mats_below(*self, n) implies (
                        res->Some_0.mat as int) < n by {
                            assert(hittable_mats_below(*node.left, n));
                            assert(hittable_mats_below(*node.right, n));
                        }
                    }
                }
                res
            },
            Hittable::Translate(t) => {
                let moved_r = Ray::new(r.orig.sub(t.offset), r.dir, r.tm);
                let res = match t.ptr.hit(&moved_r, t_min, t_max, rng) {
                    Some(temp_rec) => {
                        let mut rec = temp_rec;
                        rec.p = temp_rec.p.add(t.offset);
                        rec.set_face_normal(&moved_r, &temp_rec.normal);
                        Some(rec)
                    },
                    None => None,
                };
                proof {
                    if res is Some {
                        assert(t_min <= res->Some_0.t <= t_max);
                        assert forall|n: int| hittable_mats_below(*self, n) implies (
                        res->Some_0.mat as int) < n by {
                            assert(hittable_mats_below(*t.ptr, n));
                        }
                    }
                }
                res
            },
            Hittable::RotateY(t) => {
                let origin = rot_into(t.sin_theta, t.cos_theta, &r.orig);
                let direction = rot_into(t.sin_theta, t.cos_theta, &r.dir);
                let rotated_r = Ray::new(origin, direction, r.tm);
                let res = match t.ptr.hit(&rotated_r, t_min, t_max, rng) {
                    Some(temp_rec) => {
                        let mut rec = temp_rec;
                        rec.p = rot_out_of(t.sin_theta, t.cos_theta, &temp_rec.p);
                        let normal = rot_out_of(t.sin_theta, t.cos_theta, &temp_rec.normal);
                        rec.set_face_normal(&rotated_r, &normal);
                        Some(rec)
                    },
                    None => None,
                };
                proof {
                    if res is Some {
                        assert(t_min <= res->Some_0.t <= t_max);
                        assert forall|n: int| hittable_mats_below(*self, n) implies (
                        res->Some_0.mat as int) < n by {
                            assert(hittable_mats_below(*t.ptr, n));
                        }
                    }
                }
                res
            },
            Hittable::ConstantMedium(m) => Self::constant_medium_hit(m, r, t_min, t_max, rng),
            Hittable::FlipFace(f) => {
                let res = match f.ptr.hit(r, t_min, t_max, rng) {
                    Some(rec) => {
                        let mut flipped = rec;
                        flipped.front_face = !rec.front_face;
                        Some(flipped)
                    },
                    None => None,
                };
                proof {
                    if res is Some {
                        assert(t_min <= res->Some_0.t <= t_max);
                        assert forall|n: int| hittable_mats_below(*self, n) implies (
                        res->Some_0.mat as int) < n by {
                            assert(hittable_mats_below(*f.ptr, n));
                        }
                    }
                }
                res
            },
        }
    }

    /// The intersection of a homogeneous medium: the boundary is probed for
    /// an entry and an exit crossing, and the free-flight decision converts
    /// a uniform draw into a hit inside the clamped segment, or a pass.
    #[verifier::rlimit(100)]
    fn constant_medium_hit(
        m: &ConstantMedium,
        r: &Ray,
        t_min: i64,
        t_max: i64,
        rng: &mut Rng,
    ) -> (res: Option<HitRecord>)
        ensures
            match res {
                Some(rec) => t_min <= rec.t <= t_max && rec.p == spec_ray_at(*r, rec.t as int)
                    && rec.normal == (Vec3 { x: ONE, y: 0i64, z: 0i64 }) && rec.front_face && rec.u
                    == 0 && rec.v == 0 && rec.mat == m.phase_function,
                None => true,
            },
            hittable_deterministic(*m.boundary) && spec_hit(
                *m.boundary,
                *r,
                -(INF_FX as int),
                INF_FX as int,
            ) is None ==> res is None,
            hittable_deterministic(*m.boundary) ==> exists|d: int|
                0 <= d < ONE && res_matches_medium(*m, *r, t_min as int, t_max as int, d, res),
        decreases *m.boundary, 2int,
    {
        match m.boundary.hit(r, -INF_FX, INF_FX, rng) {
            None => {
                proof {
                    if hittable_deterministic(*m.boundary) {
                        assert(res_matches_medium(
                            *m,
                            *r,
                            t_min as int,
                            t_max as int,
                            0,
                            None::<HitRecord>,
                        ));
                    }
                }
                None
            },
            Some(rec1) => {
                match m.boundary.hit(r, fadd(rec1.t, crate::rect::PAD_FX), INF_FX, rng) {
                    None => {
                        proof {
                            if hittable_deterministic(*m.boundary) {
                                assert(res_matches_medium(
                                    *m,
                                    *r,
                                    t_min as int,
                                    t_max as int,
                                    0,
                                    None::<HitRecord>,
                                ));
                            }
                        }
                        None
                    },
                    Some(rec2) => {
                        let ray_length = r.dir.length();
                        let draw = rng.next_unit();
                        let res = match medium_sample(
                            rec1.t,
                            rec2.t,
                            t_min,
                            t_max,
                            m.neg_inv_density,
                            ray_length,
                            draw,
                        ) {
                            None => None,
                            Some(t) => Some(
                                HitRecord {
                                    p: r.at(t),
                                    normal: Vec3 { x: ONE, y: 0, z: 0 },
                                    t,
                                    front_face: true,
                                    u: 0,
                                    v: 0,
                                    mat: m.phase_function,
                                },
                            ),
                        };
                        proof {
                            if hittable_deterministic(*m.boundary) {
                                assert(res_matches_medium(
                                    *m,
                                    *r,
                                    t_min as int,
                                    t_max as int,
                                    draw as int,
                                    res,
                                ));
                            }
                        }
                        res
                    },
                }
            },
        }
    }

    /// The closest hit over a flat list, scanning in insertion order and
    /// narrowing the upper parameter bound to the closest hit so far.
    fn list_hit(objects: &Vec<Hittable>, r: &Ray, t_min: i64, t_max: i64, rng: &mut Rng) -> (res:
        Option<HitRecord>)
        ensures
            match res {
                Some(rec) => t_min <= rec.t <= t_max && (forall|n: int|
                    list_mats_below(objects@, objects@.len() as int, n) ==> (rec.mat as int) < n),
                None => true,
            },
            list_deterministic(objects@, objects@.len() as int) ==> res == spec_list_hit(
                objects@,
                objects@.len() as int,
                *r,
                t_min as int,
                t_max as int,
            ),
        decreases objects@, 0int,
    {
        let mut closest = t_max;
        let mut best: Option<HitRecord> = None;
        let mut idx: usize = 0;
        while idx < objects.len()
            invariant
                closest <= t_max,
                match best {
                    Some(rec) => t_min <= rec.t <= t_max && rec.t == closest && (forall|n: int|
                        list_mats_below(objects@, objects@.len() as int, n) ==> (rec.mat as int)
                            < n),
                    None => true,
                },
                best is None ==> closest == t_max,
                list_deterministic(objects@, objects@.len() as int) ==> best == spec_list_hit(
                    objects@,
                    idx as int,
                    *r,
                    t_min as int,
                    t_max as int,
                ),
                idx <= objects@.len(),
            decreases objects@.len() - idx,
        {
            let child = &objects[idx];
            let ghost pre_child: Hittable = *child;
            let ghost pre_best = best;
            let ghost pre_closest = closest;
            match child.hit(r, t_min, closest, rng) {
                Some(temp_rec) => {
                    proof {
                        assert(pre_child == objects@[idx as int]);
                        assert forall|n: int|
                            list_mats_below(objects@, objects@.len() as int, n) implies (
                        temp_rec.mat as int) < n by {
                            lemma_list_mats_below_all(objects@, objects@.len() as int, n);
                            assert(hittable_mats_below(objects@[idx as int], n));
                            assert(hittable_mats_below(pre_child, n));
                        }
                    }
                    closest = temp_rec.t;
                    best = Some(temp_rec);
                },
                None => {},
            }
            proof {
                if list_deterministic(objects@, objects@.len() as int) {
                    lemma_list_deterministic_all(objects@, objects@.len() as int, idx as int);
                    assert(hittable_deterministic(pre_child));
                    assert(best == spec_list_hit(
                        objects@,
                        idx + 1,
                        *r,
                        t_min as int,
                        t_max as int,
                    ));
                }
            }
            idx = idx + 1;
        }
        best
    }

    /// The bounding box for the time interval `[time0, time1]`.
    pub fn bounding_box(&self, time0: i64, time1: i64) -> (res: Option<AABB>)
        ensures
            res == spec_bounding_box(*self, time0 as int, time1 as int),
        decreases *self, 1int,
    {
        match self {
            Hittable::Sphere(s) => s.bounding_box(time0, time1),
            Hittable::MovingSphere(s) => s.bounding_box(time0, time1),
            Hittable::XyRect(s) => s.bounding_box(time0, time1),
            Hittable::XzRect(s) => s.bounding_box(time0, time1),
            Hittable::YzRect(s) => s.bounding_box(time0, time1),
            Hittable::Cuboid(c) => Some(AABB { minimum: c.box_min, maximum: c.box_max }),
            Hittable::List(l) => Self::list_bounding_box(&l.objects, time0, time1),
            Hittable::Node(n) => Some(n.my_box),
            Hittable::Translate(t) => {
                match t.ptr.bounding_box(time0, time1) {
                    Some(b) => Some(
                        AABB {
                            minimum: b.minimum.add(t.offset),
                            maximum: b.maximum.add(t.offset),
                        },
                    ),
                    None => None,
                }
            },
            Hittable::RotateY(t) => {
                if t.has_box {
                    Some(t.bbox)
                } else {
                    None
                }
            },
            Hittable::ConstantMedium(m) => m.boundary.bounding_box(time0, time1),
            Hittable::FlipFace(f) => f.ptr.bounding_box(time0, time1),
        }
    }

    fn list_bounding_box(objects: &Vec<Hittable>, time0: i64, time1: i64) -> (res: Option<AABB>)
        ensures
            res == spec_list_box(objects@, objects@.len() as int, time0 as int, time1 as int),
        decreases objects@, 0int,
    {
        let n = objects.len();
        if n == 0 {
            return None;
        }
        let mut output: Option<AABB> = objects[0].bounding_box(time0, time1);
        let mut idx: usize = 1;
        while idx < n
            invariant
                1 <= idx <= n,
                n == objects@.len(),
                output == spec_list_box(objects@, idx as int, time0 as int, time1 as int),
            decreases n - idx,
        {
            match (&output, objects[idx].bounding_box(time0, time1)) {
                (Some(b), Some(c)) => {
                    output = Some(AABB::surrounding_box(b, &c));
                },
                _ => {
                    output = None;
                },
            }
            idx = idx + 1;
        }
        output
    }

    /// The uniformly weighted sum of the children's densities.
    fn list_pdf_value(objects: &Vec<Hittable>, o: &Vec3, v: &Vec3) -> (res: i64)
        requires
            list_geom_wf(objects@, objects@.len() as int),
        ensures
            res as int == spec_pdf_value(Hittable::List(HittableList { objects: *objects }), *o, *v),
            res >= 0,
        decreases objects@, 0int,
    {
        let n = objects.len();
        if n == 0 {
            return 0;
        }
        let li: i64 = if n as u64 > 0x7fff_ffff_ffff_ffffu64 {
            i64::MAX
        } else {
            n as i64
        };
        let weight = fdiv(ONE, to_fx(li));
        proof {
            assert(crate::fixed::clip((li as int) * (ONE as int)) == crate::fixed::clip(
                (n as int) * (ONE as int),
            )) by (nonlinear_arith)
                requires
                    li == if n > 0x7fff_ffff_ffff_ffffu64 {
                        0x7fff_ffff_ffff_ffffi64 as int
                    } else {
                        n as int
                    },
                    n >= 1,
            ;
            crate::fixed::lemma_fdiv_nonneg(
                ONE as int,
                crate::fixed::clip((n as int) * (ONE as int)),
            );
        }
        let mut sum: i64 = 0;
        let mut idx: usize = 0;
        while idx < n
            invariant
                idx <= n,
                n == objects@.len(),
                weight >= 0,
                weight as int == spec_fdiv(
                    ONE as int,
                    crate::fixed::clip((n as int) * (ONE as int)),
                ),
                sum >= 0,
                sum as int == spec_list_pdf_sum(objects@, idx as int, *o, *v, weight as int),
                list_geom_wf(objects@, objects@.len() as int),
            decreases n - idx,
        {
            proof {
                lemma_list_geom_wf_all(objects@, objects@.len() as int, idx as int);
            }
            let child_pdf = objects[idx].pdf_value(o, v);
            proof {
                crate::fixed::lemma_fmul_nonneg(weight as int, child_pdf as int);
            }
            sum = fadd(sum, fmul(weight, child_pdf));
            idx = idx + 1;
        }
        sum
    }

    /// The sampling density of direction `v` from `o`; nonnegative for any
    /// geometrically well-formed object.
    pub fn pdf_value(&self, o: &Vec3, v: &Vec3) -> (res: i64)
        requires
            hittable_geom_wf(*self),
        ensures
            res as int == spec_pdf_value(*self, *o, *v),
            res >= 0,
        decreases *self, 1int,
    {
        match self {
            Hittable::Sphere(s) => s.pdf_value(o, v),
            Hittable::XzRect(s) => s.pdf_value(o, v),
            Hittable::List(l) => Self::list_pdf_value(&l.objects, o, v),
            Hittable::Translate(t) => {
                let shifted = o.sub(t.offset);
                t.ptr.pdf_value(&shifted, v)
            },
            Hittable::RotateY(t) => {
                let temp_o = rot_into(t.sin_theta, t.cos_theta, o);
                let temp_v = rot_into(t.sin_theta, t.cos_theta, v);
                t.ptr.pdf_value(&temp_o, &temp_v)
            },
            _ => 0,
        }
    }

    /// A direction from `o` sampled toward the object, for the variants that
    /// act as lights; the others return a fixed axis direction.
    pub fn random(&self, o: &Vec3, rng: &mut Rng) -> (dir: Vec3)
        ensures
            random_outcome(*self, *o, dir),
        decreases *self, 1int,
    {
        match self {
            Hittable::Sphere(s) => s.random(o, rng),
            Hittable::XzRect(s) => s.random(o, rng),
            Hittable::List(l) => {
                let n = l.objects.len();
                if n == 0 {
                    return Vec3::new(ONE, 0, 0);
                }
                let cap: usize = if n - 1 > 0x7fff_ffff {
                    0x7fff_ffff
                } else {
                    n - 1
                };
                let pick = random_int(rng, 0, cap as i32) as usize;
                proof {
                    assert(0 <= pick < l.objects@.len());
                }
                let ghost chosen: Hittable = l.objects@[pick as int];
                let dir = l.objects[pick].random(o, rng);
                proof {
                    assert(random_outcome(chosen, *o, dir));
                }
                dir
            },
            Hittable::Translate(t) => {
                let shifted = o.sub(t.offset);
                t.ptr.random(&shifted, rng)
            },
            Hittable::RotateY(t) => {
                let temp_o = rot_into(t.sin_theta, t.cos_theta, o);
                let temp_vec = t.ptr.random(&temp_o, rng);
                let dir = rot_out_of(t.sin_theta, t.cos_theta, &temp_vec);
                proof {
                    assert(dir == spec_rot_out_of(t.sin_theta as int, t.cos_theta as int, temp_vec)
                        && random_outcome(
                        *t.ptr,
                        spec_rot_into(t.sin_theta as int, t.cos_theta as int, *o),
                        temp_vec,
                    ));
                }
                dir
            },
            _ => Vec3::new(ONE, 0, 0),
        }
    }
}

/// Unfolding of the list material bound: it covers every element.
pub proof fn lemma_list_mats_below_all(objs: Seq<Hittable>, k: int, n: int)
    requires
        k <= objs.len(),
    ensures
        list_mats_below(objs, k, n) ==> (forall|i: int|
            0 <= i < k ==> hittable_mats_below(#[trigger] objs[i], n)),
    decreases k,
{
    if k > 0 {
        lemma_list_mats_below_all(objs, k - 1, n);
    }
}

/// Unfolding of the list geometric well-formedness: it covers every element.
pub proof fn lemma_list_geom_wf_all(objs: Seq<Hittable>, k: int, i: int)
    requires
        0 <= i < k <= objs.len(),
        list_geom_wf(objs, k),
    ensures
        hittable_geom_wf(objs[i]),
    decreases k,
{
    if i < k - 1 {
        lemma_list_geom_wf_all(objs, k - 1, i);
    }
}

impl Translate {
    pub fn new(p: Hittable, displacement: Vec3) -> (t: Translate)
        ensures
            *t.ptr == p,
            t.offset == displacement,
    {
        Translate { ptr: Box::new(p), offset: displacement }
    }
}

impl FlipFace {
    pub fn new(p: Hittable) -> (f: FlipFace)
        ensures
            *f.ptr == p,
    {
        FlipFace { ptr: Box::new(p) }
    }
}

impl ConstantMedium {
    /// A medium of the given density inside `b`, scattering with the phase
    /// material `p`.
    pub fn new(b: Hittable, d: i64, p: usize) -> (m: ConstantMedium)
        ensures
            *m.boundary == b,
            m.phase_function == p,
            m.neg_inv_density as int == spec_fneg(spec_fdiv(ONE as int, d as int)),
    {
        ConstantMedium { boundary: Box::new(b), phase_function: p, neg_inv_density: fneg(fdiv(ONE, d)) }
    }
}

impl Cuboid {
    /// The closed prism between corners `p0` and `p1`, as its six faces.
    pub fn new(p0: Vec3, p1: Vec3, mat: usize) -> (c: Cuboid)
        ensures
            c.box_min == p0,
            c.box_max == p1,
            c.sides.objects@.len() == 6,
            c.sides.objects@[0] == Hittable::XyRect(
                xyRect { mp: mat, x0: p0.x, y0: p0.y, x1: p1.x, y1: p1.y, k: p1.z },
            ),
            c.sides.objects@[1] == Hittable::XyRect(
                xyRect { mp: mat, x0: p0.x, y0: p0.y, x1: p1.x, y1: p1.y, k: p0.z },
            ),
            c.sides.objects@[2] == Hittable::XzRect(
                xzRect { mp: mat, x0: p0.x, z0: p0.z, x1: p1.x, z1: p1.z, k: p1.y },
            ),
            c.sides.objects@[3] == Hittable::XzRect(
                xzRect { mp: mat, x0: p0.x, z0: p0.z, x1: p1.x, z1: p1.z, k: p0.y },
            ),
            c.sides.objects@[4] == Hittable::YzRect(
                yzRect { mp: mat, y0: p0.y, z0: p0.z, y1: p1.y, z1: p1.z, k: p1.x },
            ),
            c.sides.objects@[5] == Hittable::YzRect(
                yzRect { mp: mat, y0: p0.y, z0: p0.z, y1: p1.y, z1: p1.z, k: p0.x },
            ),
    {
        let mut sides = HittableList::new();
        sides.add(Hittable::XyRect(xyRect::new(p0.x, p1.x, p0.y, p1.y, p1.z, mat)));
        sides.add(Hittable::XyRect(xyRect::new(p0.x, p1.x, p0.y, p1.y, p0.z, mat)));
        sides.add(Hittable::XzRect(xzRect::new(p0.x, p1.x, p0.z, p1.z, p1.y, mat)));
        sides.add(Hittable::XzRect(xzRect::new(p0.x, p1.x, p0.z, p1.z, p0.y, mat)));
        sides.add(Hittable::YzRect(yzRect::new(p0.y, p1.y, p0.z, p1.z, p1.x, mat)));
        sides.add(Hittable::YzRect(yzRect::new(p0.y, p1.y, p0.z, p1.z, p0.x, mat)));
        Cuboid { box_min: p0, box_max: p1, sides }
    }
}

/// The least and greatest fixed-point values among eight.
pub open spec fn spec_min8(
    a0: int,
    a1: int,
    a2: int,
    a3: int,
    a4: int,
    a5: int,
    a6: int,
    a7: int,
) -> int {
    spec_fmin(
        spec_fmin(
            spec_fmin(spec_fmin(spec_fmin(spec_fmin(spec_fmin(a0, a1), a2), a3), a4), a5),
            a6,
        ),
        a7,
    )
}

pub open spec fn spec_max8(
    a0: int,
    a1: int,
    a2: int,
    a3: int,
    a4: int,
    a5: int,
    a6: int,
    a7: int,
) -> int {
    spec_fmax(
        spec_fmax(
            spec_fmax(spec_fmax(spec_fmax(spec_fmax(spec_fmax(a0, a1), a2), a3), a4), a5),
            a6,
        ),
        a7,
    )
}

/// The box enclosing all eight rotated corners of `bb`.
pub open spec fn spec_rotated_box(bb: AABB, s: int, c: int) -> AABB {
    let c0 = spec_rot_corner(bb, s, c, 0, 0, 0);
    let c1 = spec_rot_corner(bb, s, c, 0, 0, 1);
    let c2 = spec_rot_corner(bb, s, c, 0, 1, 0);
    let c3 = spec_rot_corner(bb, s, c, 0, 1, 1);
    let c4 = spec_rot_corner(bb, s, c, 1, 0, 0);
    let c5 = spec_rot_corner(bb, s, c, 1, 0, 1);
    let c6 = spec_rot_corner(bb, s, c, 1, 1, 0);
    let c7 = spec_rot_corner(bb, s, c, 1, 1, 1);
    AABB {
        minimum: Vec3 {
            x: spec_min8(
                c0.x as int,
                c1.x as int,
                c2.x as int,
                c3.x as int,
                c4.x as int,
                c5.x as int,
                c6.x as int,
                c7.x as int,
            ) as i64,
            y: spec_min8(
                c0.y as int,
                c1.y as int,
                c2.y as int,
                c3.y as int,
                c4.y as int,
                c5.y as int,
                c6.y as int,
                c7.y as int,
            ) as i64,
            z: spec_min8(
                c0.z as int,
                c1.z as int,
                c2.z as int,
                c3.z as int,
                c4.z as int,
                c5.z as int,
                c6.z as int,
                c7.z as int,
            ) as i64,
        },
        maximum: Vec3 {
            x: spec_max8(
                c0.x as int,
                c1.x as int,
                c2.x as int,
                c3.x as int,
                c4.x as int,
                c5.x as int,
                c6.x as int,
                c7.x as int,
            ) as i64,
            y: spec_max8(
                c0.y as int,
                c1.y as int,
                c2.y as int,
                c3.y as int,
                c4.y as int,
                c5.y as int,
                c6.y as int,
                c7.y as int,
            ) as i64,
            z: spec_max8(
                c0.z as int,
                c1.z as int,
                c2.z as int,
                c3.z as int,
                c4.z as int,
                c5.z as int,
                c6.z as int,
                c7.z as int,
            ) as i64,
        },
    }
}

fn rot_corner(bb: &AABB, s: i64, c: i64, i: i64, j: i64, k: i64) -> (r: Vec3)
    requires
        0 <= i <= 1,
        0 <= j <= 1,
        0 <= k <= 1,
    ensures
        r == spec_rot_corner(*bb, s as int, c as int, i as int, j as int, k as int),
{
    let x = if i == 1 {
        bb.maximum.x
    } else {
        bb.minimum.x
    };
    let y = if j == 1 {
        bb.maximum.y
    } else {
        bb.minimum.y
    };
    let z = if k == 1 {
        bb.maximum.z
    } else {
        bb.minimum.z
    };
    Vec3 { x: fadd(fmul(c, x), fmul(s, z)), y, z: fsub(fmul(c, z), fmul(s, x)) }
}

fn min8(a0: i64, a1: i64, a2: i64, a3: i64, a4: i64, a5: i64, a6: i64, a7: i64) -> (r: i64)
    ensures
        r as int == spec_min8(
            a0 as int,
            a1 as int,
            a2 as int,
            a3 as int,
            a4 as int,
            a5 as int,
            a6 as int,
            a7 as int,
        ),
{
    fmin(fmin(fmin(fmin(fmin(fmin(fmin(a0, a1), a2), a3), a4), a5), a6), a7)
}

fn max8(a0: i64, a1: i64, a2: i64, a3: i64, a4: i64, a5: i64, a6: i64, a7: i64) -> (r: i64)
    ensures
        r as int == spec_max8(
            a0 as int,
            a1 as int,
            a2 as int,
            a3 as int,
            a4 as int,
            a5 as int,
            a6 as int,
            a7 as int,
        ),
{
    fmax(fmax(fmax(fmax(fmax(fmax(fmax(a0, a1), a2), a3), a4), a5), a6), a7)
}

impl RotateY {
    /// The child rotated about the y axis by `angle` degrees; the sine and
    /// cosine of the angle and the enclosing box of the rotated child box
    /// are fixed here.  A child without a box gets the rotation of the
    /// degenerate zero box.
    pub fn new(p: Hittable, angle: i64) -> (t: RotateY)
        ensures
            *t.ptr == p,
            t.sin_theta as int == spec_sin(spec_degrees_to_radians(angle as int)),
            t.cos_theta as int == spec_cos(spec_degrees_to_radians(angle as int)),
            t.has_box == (spec_bounding_box(p, 0, ONE as int) is Some),
            t.bbox == spec_rotated_box(
                match spec_bounding_box(p, 0, ONE as int) {
                    Some(b) => b,
                    None => AABB {
                        minimum: Vec3 { x: 0i64, y: 0i64, z: 0i64 },
                        maximum: Vec3 { x: 0i64, y: 0i64, z: 0i64 },
                    },
                },
                spec_sin(spec_degrees_to_radians(angle as int)),
                spec_cos(spec_degrees_to_radians(angle as int)),
            ),
    {
        let radians = degrees_to_radians(angle);
        let s = sin_fx(radians);
        let c = cos_fx(radians);
        let child_box = p.bounding_box(0, ONE);
        let hasbox = child_box.is_some();
        let base = match child_box {
            Some(b) => b,
            None => AABB::new(Vec3::zero(), Vec3::zero()),
        };
        let c0 = rot_corner(&base, s, c, 0, 0, 0);
        let c1 = rot_corner(&base, s, c, 0, 0, 1);
        let c2 = rot_corner(&base, s, c, 0, 1, 0);
        let c3 = rot_corner(&base, s, c, 0, 1, 1);
        let c4 = rot_corner(&base, s, c, 1, 0, 0);
        let c5 = rot_corner(&base, s, c, 1, 0, 1);
        let c6 = rot_corner(&base, s, c, 1, 1, 0);
        let c7 = rot_corner(&base, s, c, 1, 1, 1);
        let minimum = Vec3 {
            x: min8(c0.x, c1.x, c2.x, c3.x, c4.x, c5.x, c6.x, c7.x),
            y: min8(c0.y, c1.y, c2.y, c3.y, c4.y, c5.y, c6.y, c7.y),
            z: min8(c0.z, c1.z, c2.z, c3.z, c4.z, c5.z, c6.z, c7.z),
        };
        let maximum = Vec3 {
            x: max8(c0.x, c1.x, c2.x, c3.x, c4.x, c5.x, c6.x, c7.x),
            y: max8(c0.y, c1.y, c2.y, c3.y, c4.y, c5.y, c6.y, c7.y),
            z: max8(c0.z, c1.z, c2.z, c3.z, c4.z, c5.z, c6.z, c7.z),
        };
        RotateY {
            ptr: Box::new(p),
            sin_theta: s,
            cos_theta: c,
            has_box: hasbox,
            bbox: AABB { minimum, maximum },
        }
    }
}

/// Two objects that report the same bounding box for every time interval.
pub open spec fn box_preserved(a: Hittable, b: Hittable) -> bool {
    forall|t0: int, t1: int|
        #[trigger] spec_bounding_box(a, t0, t1) == spec_bounding_box(b, t0, t1)
}

/// A deep copy.  The copy reports the same bounding boxes as the original;
/// structural equality cannot be stated across the vectors inside, so the
/// contract speaks of what the tree construction observes.
pub fn clone_hittable(h: &Hittable) -> (r: Hittable)
    ensures
        box_preserved(r, *h),
        has_box(r) == has_box(*h),
        (r is Node) == (*h is Node),
    decreases *h, 2int,
{
    let r = clone_hittable_inner(h);
    proof {
        assert(spec_bounding_box(r, 0, 0) == spec_bounding_box(*h, 0, 0));
        lemma_box_presence(r, 0, 0);
        lemma_box_presence(*h, 0, 0);
    }
    r
}

fn clone_hittable_inner(h: &Hittable) -> (r: Hittable)
    ensures
        box_preserved(r, *h),
        (r is Node) == (*h is Node),
    decreases *h, 1int,
{
    match h {
        Hittable::Sphere(s) => Hittable::Sphere(Sphere { center: s.center, radius: s.radius, mat: s.mat }),
        Hittable::MovingSphere(s) => Hittable::MovingSphere(
            MovingSphere {
                center0: s.center0,
                center1: s.center1,
                time0: s.time0,
                time1: s.time1,
                radius: s.radius,
                mat: s.mat,
            },
        ),
        Hittable::XyRect(s) => Hittable::XyRect(
            xyRect { mp: s.mp, x0: s.x0, y0: s.y0, x1: s.x1, y1: s.y1, k: s.k },
        ),
        Hittable::XzRect(s) => Hittable::XzRect(
            xzRect { mp: s.mp, x0: s.x0, z0: s.z0, x1: s.x1, z1: s.z1, k: s.k },
        ),
        Hittable::YzRect(s) => Hittable::YzRect(
            yzRect { mp: s.mp, y0: s.y0, z0: s.z0, y1: s.y1, z1: s.z1, k: s.k },
        ),
        Hittable::Cuboid(c) => Hittable::Cuboid(
            Cuboid {
                box_min: c.box_min,
                box_max: c.box_max,
                sides: HittableList { objects: clone_hittable_vec(&c.sides.objects) },
            },
        ),
        Hittable::List(l) => {
            let cloned = clone_hittable_vec(&l.objects);
            let ghost cv = cloned@;
            let r = Hittable::List(HittableList { objects: cloned });
            proof {
                assert forall|t0: int, t1: int| #[trigger] spec_bounding_box(r, t0, t1)
                    == spec_bounding_box(*h, t0, t1) by {
                    lemma_list_box_congruence(cv, l.objects@, cv.len() as int, t0, t1);
                }
            }
            r
        },
        Hittable::Node(n) => {
            let cl = clone_hittable_inner(&n.left);
            let cr = clone_hittable_inner(&n.right);
            Hittable::Node(bvhNode { left: Box::new(cl), right: Box::new(cr), my_box: n.my_box })
        },
        Hittable::Translate(t) => {
            let c = clone_hittable_inner(&t.ptr);
            let ghost cv = c;
            let r = Hittable::Translate(Translate { ptr: Box::new(c), offset: t.offset });
            proof {
                assert forall|t0: int, t1: int| #[trigger] spec_bounding_box(r, t0, t1)
                    == spec_bounding_box(*h, t0, t1) by {
                    assert(spec_bounding_box(cv, t0, t1) == spec_bounding_box(*t.ptr, t0, t1));
                }
            }
            r
        },
        Hittable::RotateY(t) => {
            let c = clone_hittable_inner(&t.ptr);
            Hittable::RotateY(
                RotateY {
                    ptr: Box::new(c),
                    sin_theta: t.sin_theta,
                    cos_theta: t.cos_theta,
                    has_box: t.has_box,
                    bbox: t.bbox,
                },
            )
        },
        Hittable::ConstantMedium(m) => {
            let c = clone_hittable_inner(&m.boundary);
            let ghost cv = c;
            let r = Hittable::ConstantMedium(
                ConstantMedium {
                    boundary: Box::new(c),
                    phase_function: m.phase_function,
                    neg_inv_density: m.neg_inv_density,
                },
            );
            proof {
                assert forall|t0: int, t1: int| #[trigger] spec_bounding_box(r, t0, t1)
                    == spec_bounding_box(*h, t0, t1) by {
                    assert(spec_bounding_box(cv, t0, t1) == spec_bounding_box(*m.boundary, t0, t1));
                }
            }
            r
        },
        Hittable::FlipFace(f) => {
            let c = clone_hittable_inner(&f.ptr);
            let ghost cv = c;
            let r = Hittable::FlipFace(FlipFace { ptr: Box::new(c) });
            proof {
                assert forall|t0: int, t1: int| #[trigger] spec_bounding_box(r, t0, t1)
                    == spec_bounding_box(*h, t0, t1) by {
                    assert(spec_bounding_box(cv, t0, t1) == spec_bounding_box(*f.ptr, t0, t1));
                }
            }
            r
        },
    }
}

fn clone_hittable_vec(objects: &Vec<Hittable>) -> (r: Vec<Hittable>)
    ensures
        r@.len() == objects@.len(),
        forall|i: int| 0 <= i < r@.len() ==> box_preserved(#[trigger] r@[i], objects@[i]),
    decreases objects@, 0int,
{
    let mut out: Vec<Hittable> = Vec::new();
    let mut idx: usize = 0;
    while idx < objects.len()
        invariant
            idx <= objects@.len(),
            out@.len() == idx,
            forall|i: int| 0 <= i < idx ==> box_preserved(#[trigger] out@[i], objects@[i]),
        decreases objects@.len() - idx,
    {
        let c = clone_hittable_inner(&objects[idx]);
        out.push(c);
        idx = idx + 1;
    }
    out
}

/// Elementwise box preservation carries through the fold of a list's box.
pub proof fn lemma_list_box_congruence(s1: Seq<Hittable>, s2: Seq<Hittable>, n: int, t0: int, t1: int)
    requires
        s1.len() == s2.len(),
        forall|i: int| 0 <= i < s1.len() ==> box_preserved(#[trigger] s1[i], s2[i]),
    ensures
        spec_list_box(s1, n, t0, t1) == spec_list_box(s2, n, t0, t1),
    decreases n,
{
    if n <= 0 || n > s1.len() {
    } else if n == 1 {
        assert(spec_bounding_box(s1[0], t0, t1) == spec_bounding_box(s2[0], t0, t1));
    } else {
        lemma_list_box_congruence(s1, s2, n - 1, t0, t1);
        assert(spec_bounding_box(s1[n - 1], t0, t1) == spec_bounding_box(s2[n - 1], t0, t1));
    }
}

/// Whether every material index in `h` lies below `n`, decided at run time.
pub fn mats_below_exec(h: &Hittable, n: usize) -> (b: bool)
    ensures
        b == hittable_mats_below(*h, n as int),
    decreases *h, 1int,
{
    match h {
        Hittable::Sphere(s) => s.mat < n,
        Hittable::MovingSphere(s) => s.mat < n,
        Hittable::XyRect(s) => s.mp < n,
        Hittable::XzRect(s) => s.mp < n,
        Hittable::YzRect(s) => s.mp < n,
        Hittable::Cuboid(c) => list_mats_below_exec(&c.sides.objects, n),
        Hittable::List(l) => list_mats_below_exec(&l.objects, n),
        Hittable::Node(node) => mats_below_exec(&node.left, n) && mats_below_exec(&node.right, n),
        Hittable::Translate(t) => mats_below_exec(&t.ptr, n),
        Hittable::RotateY(t) => mats_below_exec(&t.ptr, n),
        Hittable::ConstantMedium(m) => m.phase_function < n && mats_below_exec(&m.boundary, n),
        Hittable::FlipFace(f) => mats_below_exec(&f.ptr, n),
    }
}

fn list_mats_below_exec(objects: &Vec<Hittable>, n: usize) -> (b: bool)
    ensures
        b == list_mats_below(objects@, objects@.len() as int, n as int),
    decreases objects@, 0int,
{
    let mut idx: usize = 0;
    let mut ok = true;
    while idx < objects.len()
        invariant
            idx <= objects@.len(),
            ok == list_mats_below(objects@, idx as int, n as int),
        decreases objects@.len() - idx,
    {
        let child_ok = mats_below_exec(&objects[idx], n);
        ok = ok && child_ok;
        idx = idx + 1;
    }
    ok
}

/// Whether the geometric well-formedness holds, decided at run time.
pub fn geom_wf_exec(h: &Hittable) -> (b: bool)
    ensures
        b == hittable_geom_wf(*h),
    decreases *h, 1int,
{
    match h {
        Hittable::Sphere(_) => true,
        Hittable::MovingSphere(_) => true,
        Hittable::XyRect(s) => s.x0 <= s.x1 && s.y0 <= s.y1,
        Hittable::XzRect(s) => s.x0 <= s.x1 && s.z0 <= s.z1,
        Hittable::YzRect(s) => s.y0 <= s.y1 && s.z0 <= s.z1,
        Hittable::Cuboid(c) => list_geom_wf_exec(&c.sides.objects),
        Hittable::List(l) => list_geom_wf_exec(&l.objects),
        Hittable::Node(node) => geom_wf_exec(&node.left) && geom_wf_exec(&node.right),
        Hittable::Translate(t) => geom_wf_exec(&t.ptr),
        Hittable::RotateY(t) => geom_wf_exec(&t.ptr),
        Hittable::ConstantMedium(m) => geom_wf_exec(&m.boundary),
        Hittable::FlipFace(f) => geom_wf_exec(&f.ptr),
    }
}

fn list_geom_wf_exec(objects: &Vec<Hittable>) -> (b: bool)
    ensures
        b == list_geom_wf(objects@, objects@.len() as int),
    decreases objects@, 0int,
{
    let mut idx: usize = 0;
    let mut ok = true;
    while idx < objects.len()
        invariant
            idx <= objects@.len(),
            ok == list_geom_wf(objects@, idx as int),
        decreases objects@.len() - idx,
    {
        let child_ok = geom_wf_exec(&objects[idx]);
        ok = ok && child_ok;
        idx = idx + 1;
    }
    ok
}

/// Whether the object reports a bounding box, decided at run time.
pub fn has_box_exec(h: &Hittable) -> (b: bool)
    ensures
        b == has_box(*h),
{
    let r = h.bounding_box(0, 0);
    proof {
        lemma_box_presence(*h, 0, 0);
    }
    r.is_some()
}

/// One corner of `bb`, rotated about the y axis.
pub open spec fn spec_rot_corner(bb: AABB, sin_theta: int, cos_theta: int, i: int, j: int, k: int) -> Vec3 {
    let x = if i == 1 {
        bb.maximum.x as int
    } else {
        bb.minimum.x as int
    };
    let y = if j == 1 {
        bb.maximum.y as int
    } else {
        bb.minimum.y as int
    };
    let z = if k == 1 {
        bb.maximum.z as int
    } else {
        bb.minimum.z as int
    };
    Vec3 {
        x: spec_fadd(spec_fmul(cos_theta, x), spec_fmul(sin_theta, z)) as i64,
        y: y as i64,
        z: spec_fsub(spec_fmul(cos_theta, z), spec_fmul(sin_theta, x)) as i64,
    }
}

} // verus!
