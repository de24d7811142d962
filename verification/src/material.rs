//! Surface models: diffuse, metallic, dielectric, emissive and isotropic
//! volume scattering, all answering one scatter / density / emission
//! contract.

use crate::fixed::{
    clamp, fadd, fdiv, fmax, fmin, fmul, fneg, fsqrt, fsub, spec_clamp, spec_fadd, spec_fdiv,
    spec_fmax, spec_fmin, spec_fmul, spec_fneg, spec_fsqrt, spec_fsub, ONE, PI_FX,
};
use crate::hittable::HitRecord;
use crate::pdf::{spec_cosine_pdf_value, CosinePDF};
use crate::ray::Ray;
use crate::rng::Rng;
use crate::texture::{spec_texture_value, texture_nonneg, texture_wf, SolidColor, Texture};
use crate::vec3::{
    lemma_dot_symmetric, spec_dot, spec_nonneg, spec_reflect, spec_refract, spec_sqlen, spec_unit,
    Vec3,
};
use vstd::prelude::*;

verus! {

/// What a scatter event produces: the attenuation color, a concrete
/// specular ray (meaningful only when `is_specular`), and otherwise the
/// density used for importance sampling of the next direction.
pub struct ScatterRecord {
    pub attenuation: Vec3,
    pub specular_ray: Ray,
    pub pdf_ptr: CosinePDF,
    pub is_specular: bool,
}

impl ScatterRecord {
    pub fn new() -> (r: ScatterRecord)
        ensures
            r.attenuation == (Vec3 { x: 0i64, y: 0i64, z: 0i64 }),
            r.specular_ray == (Ray {
                orig: Vec3 { x: 0i64, y: 0i64, z: 0i64 },
                dir: Vec3 { x: 0i64, y: 0i64, z: 0i64 },
                tm: 0i64,
            }),
            r.pdf_ptr.uvw == crate::onb::spec_build_from_w(Vec3 { x: ONE, y: ONE, z: ONE }),
            !r.is_specular,
    {
        ScatterRecord {
            attenuation: Vec3::zero(),
            specular_ray: Ray::new(Vec3::zero(), Vec3::zero(), 0),
            pdf_ptr: CosinePDF::new(&Vec3::ones()),
            is_specular: false,
        }
    }
}

/// Diffuse reflection with a texture albedo.
pub struct Lambertian {
    pub albedo: Texture,
}

/// Specular reflection with a color albedo, perturbed by `fuzz`.
pub struct Metal {
    pub albedo: Vec3,
    pub fuzz: i64,
}

/// Refraction and reflection by Snell's law and Schlick's approximation.
pub struct Dielectric {
    pub ir: i64,
}

/// A one-sided emitter.
pub struct DiffuseLight {
    pub emit: Texture,
}

/// The isotropic phase function of a participating medium.
pub struct Isotropic {
    pub albedo: Texture,
}

pub enum Material {
    Lambertian(Lambertian),
    Metal(Metal),
    Dielectric(Dielectric),
    DiffuseLight(DiffuseLight),
    Isotropic(Isotropic),
}

/// The textures held by the material are structurally valid.
pub open spec fn material_wf(m: Material) -> bool {
    match m {
        Material::Lambertian(l) => texture_wf(l.albedo),
        Material::Metal(_) => true,
        Material::Dielectric(_) => true,
        Material::DiffuseLight(d) => texture_wf(d.emit),
        Material::Isotropic(i) => texture_wf(i.albedo),
    }
}

/// Every color the material can hand back is componentwise nonnegative.
pub open spec fn material_nonneg(m: Material) -> bool {
    match m {
        Material::Lambertian(l) => texture_nonneg(l.albedo),
        Material::Metal(mm) => spec_nonneg(mm.albedo),
        Material::Dielectric(_) => true,
        Material::DiffuseLight(d) => texture_nonneg(d.emit),
        Material::Isotropic(i) => texture_nonneg(i.albedo),
    }
}

/// The density with which a diffuse surface scatters into a direction: the
/// cosine against the surface normal over pi, zero below the horizon.
/// Non-diffuse materials report zero.
pub open spec fn spec_scattering_pdf(m: Material, rec: HitRecord, scattered: Ray) -> int {
    match m {
        Material::Lambertian(_) => {
            let cosine = spec_dot(rec.normal, spec_unit(scattered.dir));
            if cosine < 0 {
                0
            } else {
                spec_fdiv(cosine, PI_FX as int)
            }
        },
        _ => 0,
    }
}

/// Emitted radiance: the emitter's texture on the front face, black
/// everywhere else and for every other material.
pub open spec fn spec_emitted(m: Material, rec: HitRecord, u: int, v: int, p: Vec3) -> Vec3 {
    match m {
        Material::DiffuseLight(d) => if rec.front_face {
            spec_texture_value(d.emit, u, v, p)
        } else {
            Vec3 { x: 0i64, y: 0i64, z: 0i64 }
        },
        _ => Vec3 { x: 0i64, y: 0i64, z: 0i64 },
    }
}

/// Schlick's reflectance approximation:
/// `r0 + (1 - r0) (1 - cos)^5` with `r0 = ((1 - n)/(1 + n))^2`.
pub open spec fn spec_reflectance(cosine: int, ref_idx: int) -> int {
    let r0 = spec_fdiv(spec_fsub(ONE as int, ref_idx), spec_fadd(ONE as int, ref_idx));
    let r0sq = spec_fmul(r0, r0);
    let omc = spec_fsub(ONE as int, cosine);
    let p2 = spec_fmul(omc, omc);
    let p5 = spec_fmul(spec_fmul(p2, p2), omc);
    spec_fadd(r0sq, spec_fmul(spec_fsub(ONE as int, r0sq), p5))
}

/// The refraction ratio a dielectric applies at this hit.
pub open spec fn spec_refraction_ratio(d: Dielectric, rec: HitRecord) -> int {
    if rec.front_face {
        spec_fdiv(ONE as int, d.ir as int)
    } else {
        d.ir as int
    }
}

/// What a dielectric may send the ray along: always the mirror reflection
/// or the Snell refraction of the unit incoming direction, and necessarily
/// the reflection when total internal reflection forbids refraction.
pub open spec fn spec_dielectric_dir_ok(d: Dielectric, r: Ray, rec: HitRecord, dir: Vec3) -> bool {
    let ratio = spec_refraction_ratio(d, rec);
    let unit_dir = spec_unit(r.dir);
    let cos_theta = spec_fmin(spec_fneg(spec_dot(unit_dir, rec.normal)), ONE as int);
    let sin_theta = spec_fsqrt(
        spec_fmax(spec_fsub(ONE as int, spec_fmul(cos_theta, cos_theta)), 0),
    );
    &&& (dir == spec_reflect(unit_dir, rec.normal) || dir == spec_refract(
        unit_dir,
        rec.normal,
        ratio,
    ))
    &&& (spec_fmul(ratio, sin_theta) > ONE as int ==> dir == spec_reflect(unit_dir, rec.normal))
}

impl Lambertian {
    pub fn new(a: Texture) -> (m: Lambertian)
        ensures
            m.albedo == a,
    {
        Lambertian { albedo: a }
    }

    pub fn new_with_vec(c: Vec3) -> (m: Lambertian)
        ensures
            m.albedo == Texture::Solid(SolidColor { color_value: c }),
    {
        Lambertian { albedo: Texture::Solid(SolidColor::new_with_vec(c)) }
    }
}

impl Metal {
    /// The fuzz radius is clamped into `[0, 1]`.
    pub fn new(a: Vec3, f: i64) -> (m: Metal)
        ensures
            m.albedo == a,
            m.fuzz as int == spec_clamp(f as int, 0, ONE as int),
    {
        Metal { albedo: a, fuzz: clamp(f, 0, ONE) }
    }
}

impl Dielectric {
    pub fn new(index_of_refraction: i64) -> (m: Dielectric)
        ensures
            m.ir == index_of_refraction,
    {
        Dielectric { ir: index_of_refraction }
    }

    /// Schlick's reflectance approximation.
    pub fn reflectance(cosine: i64, ref_idx: i64) -> (r: i64)
        ensures
            r as int == spec_reflectance(cosine as int, ref_idx as int),
    {
        let r0 = fdiv(fsub(ONE, ref_idx), fadd(ONE, ref_idx));
        let r0sq = fmul(r0, r0);
        let omc = fsub(ONE, cosine);
        let p2 = fmul(omc, omc);
        let p5 = fmul(fmul(p2, p2), omc);
        fadd(r0sq, fmul(fsub(ONE, r0sq), p5))
    }
}

impl DiffuseLight {
    pub fn new(a: Texture) -> (m: DiffuseLight)
        ensures
            m.emit == a,
    {
        DiffuseLight { emit: a }
    }

    pub fn new_with_vec(c: Vec3) -> (m: DiffuseLight)
        ensures
            m.emit == Texture::Solid(SolidColor { color_value: c }),
    {
        DiffuseLight { emit: Texture::Solid(SolidColor::new_with_vec(c)) }
    }
}

impl Isotropic {
    pub fn new(a: Texture) -> (m: Isotropic)
        ensures
            m.albedo == a,
    {
        Isotropic { albedo: a }
    }

    pub fn new_with_col(c: Vec3) -> (m: Isotropic)
        ensures
            m.albedo == Texture::Solid(SolidColor { color_value: c }),
    {
        Isotropic { albedo: Texture::Solid(SolidColor::new_with_vec(c)) }
    }
}

impl Material {
    /// The scatter event at a hit, if the material scatters at all.  The
    /// diffuse result is pinned exactly; the stochastic results are pinned
    /// up to their random perturbation or branch, and a dielectric always
    /// attenuates by exactly one in every channel.
    pub fn scatter(&self, r: &Ray, rec: &HitRecord, rng: &mut Rng) -> (res: Option<ScatterRecord>)
        requires
            material_wf(*self),
        ensures
            match *self {
                Material::Lambertian(l) => match res {
                    Some(s) => !s.is_specular && s.attenuation == spec_texture_value(
                        l.albedo,
                        rec.u as int,
                        rec.v as int,
                        rec.p,
                    ) && s.pdf_ptr.uvw == crate::onb::spec_build_from_w(rec.normal) && (
                    texture_nonneg(l.albedo) ==> spec_nonneg(s.attenuation)),
                    None => false,
                },
                Material::Metal(mm) => match res {
                    Some(s) => s.is_specular && s.attenuation == mm.albedo && s.specular_ray.orig
                        == rec.p && s.specular_ray.tm == 0 && (exists|q: Vec3|
                        spec_sqlen(q) < ONE && s.specular_ray.dir == crate::vec3::spec_vadd(
                            spec_reflect(spec_unit(r.dir), rec.normal),
                            crate::vec3::spec_vscale(q, mm.fuzz as int),
                        )),
                    None => false,
                },
                Material::Dielectric(d) => match res {
                    Some(s) => s.is_specular && s.attenuation == (Vec3 {
                        x: ONE,
                        y: ONE,
                        z: ONE,
                    }) && s.specular_ray.orig == rec.p && s.specular_ray.tm == r.tm
                        && spec_dielectric_dir_ok(d, *r, *rec, s.specular_ray.dir),
                    None => false,
                },
                Material::DiffuseLight(_) => res is None,
                Material::Isotropic(i) => match res {
                    Some(s) => s.is_specular && s.attenuation == spec_texture_value(
                        i.albedo,
                        rec.u as int,
                        rec.v as int,
                        rec.p,
                    ) && s.specular_ray.orig == rec.p && s.specular_ray.tm == r.tm && spec_sqlen(
                        s.specular_ray.dir,
                    ) < ONE && (texture_nonneg(i.albedo) ==> spec_nonneg(s.attenuation)),
                    None => false,
                },
            },
    {
        match self {
            Material::Lambertian(l) => {
                Some(
                    ScatterRecord {
                        specular_ray: Ray::new(Vec3::zero(), Vec3::zero(), 0),
                        attenuation: l.albedo.value(rec.u, rec.v, &rec.p),
                        pdf_ptr: CosinePDF::new(&rec.normal),
                        is_specular: false,
                    },
                )
            },
            Material::Metal(mm) => {
                let reflected = Vec3::reflect(r.dir.unit(), rec.normal);
                let jitter = Vec3::random_in_unit_sphere(rng);
                let perturbed = reflected.add(jitter.scale(mm.fuzz));
                proof {
                    assert(spec_sqlen(jitter) < ONE && perturbed == crate::vec3::spec_vadd(
                        spec_reflect(spec_unit(r.dir), rec.normal),
                        crate::vec3::spec_vscale(jitter, mm.fuzz as int),
                    ));
                }
                Some(
                    ScatterRecord {
                        specular_ray: Ray::new(rec.p, perturbed, 0),
                        attenuation: mm.albedo,
                        is_specular: true,
                        pdf_ptr: CosinePDF::new(&Vec3::ones()),
                    },
                )
            },
            Material::Dielectric(d) => {
                let refraction_ratio = if rec.front_face {
                    fdiv(ONE, d.ir)
                } else {
                    d.ir
                };
                let unit_direction = r.dir.unit();
                let cos_theta = fmin(fneg(unit_direction.dot(rec.normal)), ONE);
                let sin_theta = fsqrt(fmax(fsub(ONE, fmul(cos_theta, cos_theta)), 0));
                let draw = rng.next_unit();
                let must_reflect = fmul(refraction_ratio, sin_theta) > ONE;
                let wants_reflect = Self::reflectance_probe(cos_theta, refraction_ratio, draw);
                let direction = if must_reflect || wants_reflect {
                    Vec3::reflect(unit_direction, rec.normal)
                } else {
                    Vec3::refract(unit_direction, rec.normal, refraction_ratio)
                };
                Some(
                    ScatterRecord {
                        attenuation: Vec3::ones(),
                        specular_ray: Ray::new(rec.p, direction, r.tm),
                        pdf_ptr: CosinePDF::new(&Vec3::ones()),
                        is_specular: true,
                    },
                )
            },
            Material::DiffuseLight(_) => None,
            Material::Isotropic(i) => {
                Some(
                    ScatterRecord {
                        attenuation: i.albedo.value(rec.u, rec.v, &rec.p),
                        specular_ray: Ray::new(rec.p, Vec3::random_in_unit_sphere(rng), r.tm),
                        pdf_ptr: CosinePDF::new(&Vec3::ones()),
                        is_specular: true,
                    },
                )
            },
        }
    }

    /// Whether a Schlick draw chooses reflection.
    fn reflectance_probe(cos_theta: i64, refraction_ratio: i64, draw: i64) -> (b: bool)
        ensures
            b == (spec_reflectance(cos_theta as int, refraction_ratio as int) > draw as int),
    {
        Dielectric::reflectance(cos_theta, refraction_ratio) > draw
    }

    /// The density with which a diffuse surface scatters into `scattered`;
    /// never negative.
    pub fn scattering_pdf(&self, r: &Ray, rec: &HitRecord, scattered: &Ray) -> (res: i64)
        ensures
            res as int == spec_scattering_pdf(*self, *rec, *scattered),
            res >= 0,
    {
        match self {
            Material::Lambertian(_) => {
                let cosine = rec.normal.dot(scattered.dir.unit());
                if cosine < 0 {
                    0
                } else {
                    proof {
                        crate::fixed::lemma_fdiv_nonneg(cosine as int, PI_FX as int);
                    }
                    fdiv(cosine, PI_FX)
                }
            },
            _ => 0,
        }
    }

    /// The emitted radiance of the material at a hit.
    pub fn emitted(&self, r: &Ray, rec: &HitRecord, u: i64, v: i64, p: &Vec3) -> (res: Vec3)
        requires
            material_wf(*self),
        ensures
            res == spec_emitted(*self, *rec, u as int, v as int, *p),
            material_nonneg(*self) ==> spec_nonneg(res),
    {
        match self {
            Material::DiffuseLight(d) => {
                if rec.front_face {
                    d.emit.value(u, v, p)
                } else {
                    Vec3::zero()
                }
            },
            _ => Vec3::zero(),
        }
    }
}

/// For a hit whose normal is exactly of unit length, the diffuse scattering
/// density of a direction equals the cosine density of the frame built from
/// that normal, evaluated at the same direction.
pub proof fn lemma_lambertian_pdf_consistency(l: Lambertian, rec: HitRecord, scattered: Ray)
    requires
        spec_unit(rec.normal) == rec.normal,
    ensures
        spec_scattering_pdf(Material::Lambertian(l), rec, scattered) == spec_cosine_pdf_value(
            CosinePDF { uvw: crate::onb::spec_build_from_w(rec.normal) },
            scattered.dir,
        ),
{
    lemma_dot_symmetric(rec.normal, spec_unit(scattered.dir));
    assert(crate::onb::spec_build_from_w(rec.normal).w == spec_unit(rec.normal));
}

} // verus!
