//! The path-tracing integrator, the tone-mapping pixel writer, and the
//! band renderer whose slices a scheduler can compute independently and
//! reassemble.

use crate::camera::Camera;
use crate::fixed::{
    clamp, fadd, fdiv, fmul, fsqrt, fsub, spec_clamp, spec_fdiv, spec_fmul, spec_fsqrt, to_fx, ONE,
};
use crate::hittable::{
    hittable_deterministic, hittable_geom_wf, hittable_mats_below, spec_hit, spec_pdf_value,
    Hittable,
};
use crate::material::{
    material_nonneg, material_wf, spec_emitted, spec_scattering_pdf, Material,
};
use crate::texture::spec_texture_value;
use crate::pdf::{spec_cosine_pdf_value, CosinePDF, HittablePDF, MixturePDF};
use crate::ray::Ray;
use crate::rng::Rng;
use crate::sphere::{EPS_FX, INF_FX};
use crate::vec3::{
    lemma_vadd_nonneg, lemma_vdiv_nonneg, lemma_velemul_nonneg, lemma_vscale_nonneg, spec_nonneg,
    spec_vadd, spec_vdiv, spec_velemul, spec_vscale, Vec3,
};
use vstd::prelude::*;

verus! {

/// Every material of the table has structurally valid textures.
pub open spec fn materials_wf(ms: Seq<Material>) -> bool {
    forall|i: int| 0 <= i < ms.len() ==> material_wf(#[trigger] ms[i])
}

/// Every material of the table produces only nonnegative colors.
pub open spec fn materials_nonneg(ms: Seq<Material>) -> bool {
    forall|i: int| 0 <= i < ms.len() ==> material_nonneg(#[trigger] ms[i])
}

/// Whether the light collection is an empty list, in which case importance
/// sampling falls back to the surface density alone.
pub open spec fn spec_lights_empty(lights: Hittable) -> bool {
    match lights {
        Hittable::List(l) => l.objects@.len() == 0,
        _ => false,
    }
}

/// The density with which the integrator draws the next direction at a
/// diffuse bounce: the even mixture of the light-sampling density and the
/// cosine density of the surface frame, or the cosine density alone when
/// the light collection is an empty list.
pub open spec fn spec_bounce_pdf(lights: Hittable, origin: Vec3, normal: Vec3, sd: Vec3) -> int {
    let cosine = spec_cosine_pdf_value(
        CosinePDF { uvw: crate::onb::spec_build_from_w(normal) },
        sd,
    );
    if spec_lights_empty(lights) {
        cosine
    } else {
        crate::pdf::spec_mixture_value(spec_pdf_value(lights, origin, sd), cosine)
    }
}

fn lights_empty(lights: &Hittable) -> (b: bool)
    ensures
        b == spec_lights_empty(*lights),
{
    match lights {
        Hittable::List(l) => l.objects.len() == 0,
        _ => false,
    }
}

/// The Monte Carlo radiance estimate along a ray: black once the bounce
/// budget is spent; the background on a miss; emitted light plus the
/// attenuated, importance-weighted estimate of the scattered radiance on a
/// hit.  With nonnegative scene colors the estimate is nonnegative.
pub fn ray_color(
    r: &Ray,
    background: &Vec3,
    world: &Hittable,
    lights: &Hittable,
    materials: &Vec<Material>,
    depth: i32,
    rng: &mut Rng,
) -> (c: Vec3)
    requires
        hittable_geom_wf(*world),
        hittable_geom_wf(*lights),
        hittable_mats_below(*world, materials@.len() as int),
        materials_wf(materials@),
    ensures
        depth <= 0 ==> c == (Vec3 { x: 0i64, y: 0i64, z: 0i64 }),
        materials_nonneg(materials@) && spec_nonneg(*background) ==> spec_nonneg(c),
        depth > 0 && hittable_deterministic(*world) ==> match spec_hit(
            *world,
            *r,
            EPS_FX as int,
            INF_FX as int,
        ) {
            None => c == *background,
            Some(rec) => (rec.mat as int) < materials@.len() ==> match materials@[rec.mat as int] {
                Material::DiffuseLight(_) => c == spec_emitted(
                    materials@[rec.mat as int],
                    rec,
                    rec.u as int,
                    rec.v as int,
                    rec.p,
                ),
                Material::Metal(mm) => exists|inner: Vec3| #![auto] c == spec_velemul(mm.albedo, inner),
                Material::Isotropic(iso) => exists|inner: Vec3|
                    #![auto]
                    c == spec_velemul(
                        spec_texture_value(iso.albedo, rec.u as int, rec.v as int, rec.p),
                        inner,
                    ),
                Material::Lambertian(l) => exists|sd: Vec3, inner: Vec3|
                    #![auto]
                    c == spec_vadd(
                        spec_emitted(
                            materials@[rec.mat as int],
                            rec,
                            rec.u as int,
                            rec.v as int,
                            rec.p,
                        ),
                        spec_velemul(
                            spec_vscale(
                                spec_texture_value(l.albedo, rec.u as int, rec.v as int, rec.p),
                                spec_scattering_pdf(
                                    materials@[rec.mat as int],
                                    rec,
                                    Ray { orig: rec.p, dir: sd, tm: r.tm },
                                ),
                            ),
                            spec_vdiv(inner, spec_bounce_pdf(*lights, rec.p, rec.normal, sd)),
                        ),
                    ),
                Material::Dielectric(_) => true,
            },
        },
    decreases depth,
{
    if depth <= 0 {
        return Vec3::zero();
    }
    match world.hit(r, EPS_FX, INF_FX, rng) {
        None => *background,
        Some(rec) => {
            proof {
                assert((rec.mat as int) < materials@.len());
            }
            let mat = &materials[rec.mat];
            let emitted = mat.emitted(r, &rec, rec.u, rec.v, &rec.p);
            match mat.scatter(r, &rec, rng) {
                None => emitted,
                Some(s_rec) => {
                    if s_rec.is_specular {
                        let inner = ray_color(
                            &s_rec.specular_ray,
                            background,
                            world,
                            lights,
                            materials,
                            depth - 1,
                            rng,
                        );
                        let c = Vec3::elemul(s_rec.attenuation, inner);
                        proof {
                            if materials_nonneg(materials@) && spec_nonneg(*background) {
                                lemma_velemul_nonneg(s_rec.attenuation, inner);
                            }
                            assert(c == spec_velemul(s_rec.attenuation, inner));
                        }
                        c
                    } else {
                        let scattered: Ray;
                        let pdf_val: i64;
                        if lights_empty(lights) {
                            let dir = s_rec.pdf_ptr.generate(rng);
                            scattered = Ray::new(rec.p, dir, r.tm);
                            pdf_val = s_rec.pdf_ptr.value(&scattered.dir);
                        } else {
                            let light_pdf = HittablePDF::new(lights, &rec.p);
                            let p = MixturePDF::new(light_pdf, s_rec.pdf_ptr);
                            let dir = p.generate(rng);
                            scattered = Ray::new(rec.p, dir, r.tm);
                            pdf_val = p.value(&scattered.dir);
                        }
                        let spdf = mat.scattering_pdf(r, &rec, &scattered);
                        let inner = ray_color(
                            &scattered,
                            background,
                            world,
                            lights,
                            materials,
                            depth - 1,
                            rng,
                        );
                        let weighted = Vec3::elemul(
                            s_rec.attenuation.scale(spdf),
                            inner.divs(pdf_val),
                        );
                        let c = emitted.add(weighted);
                        proof {
                            if materials_nonneg(materials@) && spec_nonneg(*background) {
                                lemma_vscale_nonneg(s_rec.attenuation, spdf as int);
                                lemma_vdiv_nonneg(inner, pdf_val as int);
                                lemma_velemul_nonneg(
                                    spec_vscale(s_rec.attenuation, spdf as int),
                                    spec_vdiv(inner, pdf_val as int),
                                );
                                lemma_vadd_nonneg(emitted, weighted);
                            }
                            assert(scattered == (Ray { orig: rec.p, dir: scattered.dir, tm: r.tm }));
                            assert(pdf_val as int == spec_bounce_pdf(
                                *lights,
                                rec.p,
                                rec.normal,
                                scattered.dir,
                            ));
                            assert(c == spec_vadd(
                                spec_emitted(
                                    materials@[rec.mat as int],
                                    rec,
                                    rec.u as int,
                                    rec.v as int,
                                    rec.p,
                                ),
                                spec_velemul(
                                    spec_vscale(s_rec.attenuation, spdf as int),
                                    spec_vdiv(inner, spec_bounce_pdf(
                                        *lights,
                                        rec.p,
                                        rec.normal,
                                        scattered.dir,
                                    )),
                                ),
                            ));
                        }
                        c
                    }
                },
            }
        },
    }
}

/// The fixed-point stand-in for the tone-mapping clamp bound 0.999.
pub const CLAMP_MAX_FX: i64 = 65470;

/// One channel of the pixel writer: the accumulated channel is averaged
/// over the sample count, gamma-corrected by a square root, clamped and
/// scaled to an 8-bit level.  A negative accumulator (the stand-in for the
/// non-finite values the estimator can produce) writes zero.
pub open spec fn spec_write_channel(c: int, spp: int) -> int {
    let scale = spec_fdiv(ONE as int, crate::fixed::clip(spp * (ONE as int)));
    let scaled = spec_fmul(scale, c);
    if scaled < 0 {
        0
    } else {
        spec_fmul(spec_clamp(spec_fsqrt(scaled), 0, CLAMP_MAX_FX as int), 256)
    }
}

fn write_channel(c: i64, scale: i64, spp: i32) -> (b: u8)
    requires
        scale as int == spec_fdiv(ONE as int, crate::fixed::clip((spp as int) * (ONE as int))),
    ensures
        b as int == spec_write_channel(c as int, spp as int),
{
    let scaled = fmul(scale, c);
    if scaled < 0 {
        0
    } else {
        let root = fsqrt(scaled);
        let clamped = clamp(root, 0, CLAMP_MAX_FX);
        let level = fmul(clamped, 256);
        proof {
            assert(0 <= spec_fmul(clamped as int, 256) <= 255) by {
                crate::fixed::lemma_fmul_nonneg(clamped as int, 256);
                assert(crate::fixed::tdiv(clamped as int * 256, ONE as int) <= 255)
                    by (nonlinear_arith)
                    requires
                        0 <= clamped <= CLAMP_MAX_FX,
                ;
            }
        }
        level as u8
    }
}

/// The tone-mapped 8-bit pixel of an accumulated color.
pub fn write_color(color: &Vec3, samples_per_pixel: i32) -> (rgb: (u8, u8, u8))
    requires
        samples_per_pixel >= 1,
    ensures
        rgb.0 as int == spec_write_channel(color.x as int, samples_per_pixel as int),
        rgb.1 as int == spec_write_channel(color.y as int, samples_per_pixel as int),
        rgb.2 as int == spec_write_channel(color.z as int, samples_per_pixel as int),
{
    let scale = fdiv(ONE, to_fx(samples_per_pixel as i64));
    (
        write_channel(color.x, scale, samples_per_pixel),
        write_channel(color.y, scale, samples_per_pixel),
        write_channel(color.z, scale, samples_per_pixel),
    )
}

/// The three bytes at pixel index `p` of a buffer are the tone-mapped write
/// of some accumulated color.
pub open spec fn spec_pixel_written(buf: Seq<u8>, p: int, spp: int) -> bool {
    exists|acc: Vec3|
        #![auto]
        buf[3 * p] as int == spec_write_channel(acc.x as int, spp) && buf[3 * p + 1] as int
            == spec_write_channel(acc.y as int, spp) && buf[3 * p + 2] as int == spec_write_channel(
            acc.z as int,
            spp,
        )
}

/// The pixels of the rows `[row_begin, row_end)`, row-major, three bytes a
/// pixel, each pixel averaging `samples_per_pixel` estimates.
pub fn render_band(
    world: &Hittable,
    lights: &Hittable,
    materials: &Vec<Material>,
    cam: &Camera,
    background: &Vec3,
    image_width: u32,
    image_height: u32,
    samples_per_pixel: i32,
    max_depth: i32,
    row_begin: u32,
    row_end: u32,
    rng: &mut Rng,
) -> (buf: Vec<u8>)
    requires
        hittable_geom_wf(*world),
        hittable_geom_wf(*lights),
        hittable_mats_below(*world, materials@.len() as int),
        materials_wf(materials@),
        cam.time0 < cam.time1,
        samples_per_pixel >= 1,
        row_begin <= row_end <= image_height,
        3 * (image_width as int) * (image_height as int) <= usize::MAX,
    ensures
        buf@.len() == 3 * (image_width as int) * ((row_end - row_begin) as int),
        forall|p: int|
            0 <= p < (image_width as int) * ((row_end - row_begin) as int)
                ==> #[trigger] spec_pixel_written(buf@, p, samples_per_pixel as int),
{
    let mut buf: Vec<u8> = Vec::new();
    let ghost mut done: int = 0;
    let mut y: u32 = row_begin;
    while y < row_end
        invariant
            row_begin <= y <= row_end <= image_height,
            3 * (image_width as int) * (image_height as int) <= usize::MAX,
            buf@.len() == 3 * (image_width as int) * ((y - row_begin) as int),
            buf@.len() == 3 * done,
            forall|p: int|
                0 <= p < done ==> #[trigger] spec_pixel_written(
                    buf@,
                    p,
                    samples_per_pixel as int,
                ),
            hittable_geom_wf(*world),
            hittable_geom_wf(*lights),
            hittable_mats_below(*world, materials@.len() as int),
            materials_wf(materials@),
            cam.time0 < cam.time1,
            samples_per_pixel >= 1,
        decreases row_end - y,
    {
        let mut x: u32 = 0;
        while x < image_width
            invariant
                x <= image_width,
                row_begin <= y < row_end <= image_height,
                3 * (image_width as int) * (image_height as int) <= usize::MAX,
                buf@.len() == 3 * (image_width as int) * ((y - row_begin) as int) + 3 * (x as int),
                buf@.len() == 3 * done,
                forall|p: int|
                    0 <= p < done ==> #[trigger] spec_pixel_written(
                        buf@,
                        p,
                        samples_per_pixel as int,
                    ),
                hittable_geom_wf(*world),
                hittable_geom_wf(*lights),
                hittable_mats_below(*world, materials@.len() as int),
                materials_wf(materials@),
                cam.time0 < cam.time1,
                samples_per_pixel >= 1,
            decreases image_width - x,
        {
            let mut color = Vec3::zero();
            let mut s: i32 = 0;
            while s < samples_per_pixel
                invariant
                    hittable_geom_wf(*world),
                    hittable_geom_wf(*lights),
                    hittable_mats_below(*world, materials@.len() as int),
                    materials_wf(materials@),
                    cam.time0 < cam.time1,
                    x < image_width,
                    y < image_height,
                decreases samples_per_pixel - s,
            {
                let u = fdiv(
                    fadd(to_fx(x as i64), rng.next_unit()),
                    to_fx((image_width - 1) as i64),
                );
                let v = fdiv(
                    fadd(fsub(to_fx(image_height as i64), to_fx(y as i64)), rng.next_unit()),
                    to_fx((image_height - 1) as i64),
                );
                let ray = cam.get_ray(u, v, rng);
                let sample = ray_color(&ray, background, world, lights, materials, max_depth, rng);
                color = color.add(sample);
                s = s + 1;
            }
            let (cr, cg, cb) = write_color(&color, samples_per_pixel);
            proof {
                assert(3 * (image_width as int) * ((y - row_begin) as int) + 3 * (x as int) + 3 <= 3
                    * (image_width as int) * (image_height as int)) by (nonlinear_arith)
                    requires
                        0 <= x < image_width,
                        row_begin <= y < row_end <= image_height,
                ;
            }
            let ghost before = buf@;
            buf.push(cr);
            buf.push(cg);
            buf.push(cb);
            proof {
                let spp = samples_per_pixel as int;
                assert(buf@ =~= before.push(cr).push(cg).push(cb));
                assert forall|p: int| 0 <= p < done implies #[trigger] spec_pixel_written(
                    buf@,
                    p,
                    spp,
                ) by {
                    assert(spec_pixel_written(before, p, spp));
                    let acc = choose|acc: Vec3|
                        #![auto]
                        before[3 * p] as int == spec_write_channel(acc.x as int, spp) && before[3
                            * p + 1] as int == spec_write_channel(acc.y as int, spp) && before[3 * p
                            + 2] as int == spec_write_channel(acc.z as int, spp);
                    assert(buf@[3 * p] == before[3 * p] && buf@[3 * p + 1] == before[3 * p + 1]
                        && buf@[3 * p + 2] == before[3 * p + 2]);
                    assert(buf@[3 * p] as int == spec_write_channel(acc.x as int, spp) && buf@[3 * p
                        + 1] as int == spec_write_channel(acc.y as int, spp) && buf@[3 * p
                        + 2] as int == spec_write_channel(acc.z as int, spp));
                }
                assert(buf@[3 * done] == cr && buf@[3 * done + 1] == cg && buf@[3 * done + 2] == cb);
                assert(buf@[3 * done] as int == spec_write_channel(color.x as int, spp) && buf@[3
                    * done + 1] as int == spec_write_channel(color.y as int, spp) && buf@[3 * done
                    + 2] as int == spec_write_channel(color.z as int, spp));
                assert(spec_pixel_written(buf@, done, spp));
                done = done + 1;
            }
            x = x + 1;
        }
        proof {
            assert(3 * (image_width as int) * ((y + 1 - row_begin) as int) == 3 * (
            image_width as int) * ((y - row_begin) as int) + 3 * (image_width as int))
                by (nonlinear_arith)
                requires
                    row_begin <= y,
            ;
        }
        y = y + 1;
    }
    proof {
        assert(3 * (image_width as int) * ((row_end - row_begin) as int) == 3 * ((
        image_width as int) * ((row_end - row_begin) as int))) by (nonlinear_arith);
        assert(done == (image_width as int) * ((row_end - row_begin) as int));
    }
    buf
}

/// Copy a band of rows into the full image buffer at its own offset: the
/// band's bytes land at `3 * image_width * row_begin`, and every byte
/// outside that window is untouched.
pub fn place_band(result: &mut Vec<u8>, band: &Vec<u8>, row_begin: u32, image_width: u32)
    requires
        3 * (image_width as int) * (row_begin as int) + band@.len() <= old(result)@.len(),
        3 * (image_width as int) <= usize::MAX,
    ensures
        final(result)@.len() == old(result)@.len(),
        forall|i: int|
            0 <= i < band@.len() ==> final(result)@[3 * (image_width as int) * (row_begin as int)
                + i] == band@[i],
        forall|i: int|
            0 <= i < old(result)@.len() && !(3 * (image_width as int) * (row_begin as int) <= i < 3
                * (image_width as int) * (row_begin as int) + band@.len()) ==> final(result)@[i]
                == old(result)@[i],
{
    let total = result.len();
    proof {
        assert(0 <= 3 * (image_width as int) * (row_begin as int) && (3 * (image_width as int)) * (
        row_begin as int) == 3 * (image_width as int) * (row_begin as int)) by (nonlinear_arith);
        assert(3 * (image_width as int) * (row_begin as int) <= total as int);
    }
    let off: usize = 3 * (image_width as usize) * (row_begin as usize);
    let mut i: usize = 0;
    while i < band.len()
        invariant
            i <= band@.len(),
            off == 3 * (image_width as int) * (row_begin as int),
            off + band@.len() <= result@.len(),
            off + band@.len() <= usize::MAX,
            result@.len() == old(result)@.len(),
            forall|k: int| 0 <= k < i ==> result@[off + k] == band@[k],
            forall|k: int|
                0 <= k < result@.len() && !(off <= k < off + band@.len()) ==> result@[k] == old(
                    result,
                )@[k],
        decreases band@.len() - i,
    {
        let b = band[i];
        result[off + i] = b;
        i = i + 1;
    }
}

/// The full frame, rendered in one band.
pub fn render(
    world: &Hittable,
    lights: &Hittable,
    materials: &Vec<Material>,
    cam: &Camera,
    background: &Vec3,
    image_width: u32,
    image_height: u32,
    samples_per_pixel: i32,
    max_depth: i32,
    rng: &mut Rng,
) -> (buf: Vec<u8>)
    requires
        hittable_geom_wf(*world),
        hittable_geom_wf(*lights),
        hittable_mats_below(*world, materials@.len() as int),
        materials_wf(materials@),
        cam.time0 < cam.time1,
        samples_per_pixel >= 1,
        3 * (image_width as int) * (image_height as int) <= usize::MAX,
    ensures
        buf@.len() == 3 * (image_width as int) * (image_height as int),
        forall|p: int|
            0 <= p < (image_width as int) * (image_height as int) ==> #[trigger] spec_pixel_written(
                buf@,
                p,
                samples_per_pixel as int,
            ),
{
    render_band(
        world,
        lights,
        materials,
        cam,
        background,
        image_width,
        image_height,
        samples_per_pixel,
        max_depth,
        0,
        image_height,
        rng,
    )
}

} // verus!
