//! The camera: a viewport built from eye, target and field of view, with a
//! thin-lens aperture and a shutter interval for motion blur.

use crate::fixed::{fdiv, fmul, spec_fdiv, spec_fmul, TWO_FX};
use crate::ray::Ray;
use crate::rng::Rng;
use crate::trig::{spec_degrees_to_radians, spec_tan, tan_fx};
use crate::vec3::{
    spec_cross, spec_unit, spec_vadd, spec_vdiv, spec_vscale, spec_vsub, Vec3,
};
use vstd::prelude::*;

verus! {

#[derive(Clone, Copy, PartialEq, Eq, Structural, Debug)]
pub struct Camera {
    pub origin: Vec3,
    pub lower_left_corner: Vec3,
    pub horizontal: Vec3,
    pub vertical: Vec3,
    pub u: Vec3,
    pub v: Vec3,
    pub w: Vec3,
    pub lens_radius: i64,
    pub time0: i64,
    pub time1: i64,
}

/// The camera derived from its configuration: viewport height is twice the
/// tangent of half the vertical field of view, the frame `(u, v, w)` is
/// orthonormalized from the view direction and the up vector, and the
/// viewport corner is offset from the eye by half the viewport at the focus
/// distance.
pub open spec fn spec_camera_new(
    lookfrom: Vec3,
    lookat: Vec3,
    vup: Vec3,
    vfov: int,
    aspect_ratio: int,
    aperture: int,
    focus_dist: int,
    time0: i64,
    time1: i64,
) -> Camera {
    let theta = spec_degrees_to_radians(vfov);
    let h = spec_tan(spec_fdiv(theta, TWO_FX as int));
    let viewport_height = spec_fmul(TWO_FX as int, h);
    let viewport_width = spec_fmul(aspect_ratio, viewport_height);
    let w = spec_unit(spec_vsub(lookfrom, lookat));
    let u = spec_unit(spec_cross(vup, w));
    let v = spec_cross(w, u);
    let horizontal = spec_vscale(spec_vscale(u, viewport_width), focus_dist);
    let vertical = spec_vscale(spec_vscale(v, viewport_height), focus_dist);
    let lower_left_corner = spec_vsub(
        spec_vsub(
            spec_vsub(lookfrom, spec_vdiv(horizontal, TWO_FX as int)),
            spec_vdiv(vertical, TWO_FX as int),
        ),
        spec_vscale(w, focus_dist),
    );
    Camera {
        origin: lookfrom,
        lower_left_corner,
        horizontal,
        vertical,
        u,
        v,
        w,
        lens_radius: spec_fdiv(aperture, TWO_FX as int) as i64,
        time0,
        time1,
    }
}

/// The direction of the ray through viewport coordinates `(s, t)` for a
/// pinhole camera (no lens offset).
pub open spec fn spec_center_ray_dir(c: Camera, s: int, t: int) -> Vec3 {
    spec_vsub(
        spec_vadd(
            spec_vadd(c.lower_left_corner, spec_vscale(c.horizontal, s)),
            spec_vscale(c.vertical, t),
        ),
        c.origin,
    )
}

/// The eye displacement induced by the lens-disk point `d`: its disk
/// coordinates, scaled by the lens radius, carried along the camera frame.
pub open spec fn spec_lens_offset(c: Camera, d: Vec3) -> Vec3 {
    spec_vadd(
        spec_vscale(c.u, spec_fmul(d.x as int, c.lens_radius as int)),
        spec_vscale(c.v, spec_fmul(d.y as int, c.lens_radius as int)),
    )
}

impl Camera {
    pub fn new(
        lookfrom: Vec3,
        lookat: Vec3,
        vup: Vec3,
        vfov: i64,
        aspect_ratio: i64,
        aperture: i64,
        focus_dist: i64,
        time0: i64,
        time1: i64,
    ) -> (cam: Camera)
        ensures
            cam == spec_camera_new(
                lookfrom,
                lookat,
                vup,
                vfov as int,
                aspect_ratio as int,
                aperture as int,
                focus_dist as int,
                time0,
                time1,
            ),
    {
        let theta = crate::trig::degrees_to_radians(vfov);
        let h = tan_fx(fdiv(theta, TWO_FX));
        let viewport_height = fmul(TWO_FX, h);
        let viewport_width = fmul(aspect_ratio, viewport_height);
        let w = lookfrom.sub(lookat).unit();
        let u = Vec3::cross(vup, w).unit();
        let v = Vec3::cross(w, u);
        let horizontal = u.scale(viewport_width).scale(focus_dist);
        let vertical = v.scale(viewport_height).scale(focus_dist);
        let lower_left_corner = lookfrom.sub(horizontal.divs(TWO_FX)).sub(
            vertical.divs(TWO_FX),
        ).sub(w.scale(focus_dist));
        Camera {
            origin: lookfrom,
            lower_left_corner,
            horizontal,
            vertical,
            u,
            v,
            w,
            lens_radius: fdiv(aperture, TWO_FX),
            time0,
            time1,
        }
    }

    /// The primary ray through viewport coordinates `(s, t)`, jittered over
    /// the lens disk and over the shutter interval.  Without an aperture the
    /// ray leaves exactly from the eye in the viewport direction.
    pub fn get_ray(&self, s: i64, t: i64, rng: &mut Rng) -> (r: Ray)
        requires
            self.time0 < self.time1,
        ensures
            self.time0 <= r.tm < self.time1,
            exists|d: Vec3|
                #![auto]
                crate::vec3::spec_sqlen(d) < crate::fixed::ONE && d.z == 0 && r.orig == spec_vadd(
                    self.origin,
                    spec_lens_offset(*self, d),
                ) && r.dir == spec_vsub(
                    spec_center_ray_dir(*self, s as int, t as int),
                    spec_lens_offset(*self, d),
                ),
            self.lens_radius == 0 ==> r.orig == self.origin && r.dir == spec_center_ray_dir(
                *self,
                s as int,
                t as int,
            ),
    {
        let disk = Vec3::random_in_unit_disk(rng);
        let rd = disk.scale(self.lens_radius);
        let offset = self.u.scale(rd.x).add(self.v.scale(rd.y));
        let orig = self.origin.add(offset);
        let dir = self.lower_left_corner.add(self.horizontal.scale(s)).add(
            self.vertical.scale(t),
        ).sub(self.origin).sub(offset);
        let tm = rng.next_range(self.time0, self.time1);
        proof {
            assert(crate::vec3::spec_sqlen(disk) < crate::fixed::ONE && disk.z == 0 && orig
                == spec_vadd(self.origin, spec_lens_offset(*self, disk)) && dir == spec_vsub(
                spec_center_ray_dir(*self, s as int, t as int),
                spec_lens_offset(*self, disk),
            ));
            if self.lens_radius == 0 {
                crate::vec3::lemma_vscale_zero(self.u);
                crate::vec3::lemma_vscale_zero(self.v);
                assert(rd == (Vec3 { x: 0i64, y: 0i64, z: 0i64 }));
                assert(offset == (Vec3 { x: 0i64, y: 0i64, z: 0i64 }));
                assert(orig == self.origin);
                assert(dir == spec_center_ray_dir(*self, s as int, t as int));
            }
        }
        Ray { orig, dir, tm }
    }
}

} // verus!
