use raytracer::camera::Camera;
use raytracer::fixed::{fmax, fmin, ONE};
use raytracer::hittable::{geom_wf_exec, mats_below_exec, HitRecord, Hittable, HittableList};
use raytracer::material::{Dielectric, Lambertian, Material, Metal};
use raytracer::pdf::{CosinePDF, HittablePDF, MixturePDF};
use raytracer::perlin::Perlin;
use raytracer::ray::Ray;
use raytracer::render::{place_band, render, render_band, write_color};
use raytracer::rng::Rng;
use raytracer::sphere::Sphere;
use raytracer::texture::{CheckerTexture, SolidColor, Texture};
use raytracer::vec3::Vec3;

fn fx(v: f64) -> i64 {
    (v * 65536.0) as i64
}

fn gray(level: i64) -> Texture {
    Texture::Solid(SolidColor::new_with_vec(Vec3::new(level, level, level)))
}

/// The diffuse scattering density agrees with the density reported by the
/// cosine distribution built from the same (unit) surface normal.
#[test]
fn lambertian_pdf_matches_cosine_pdf() {
    let mat = Material::Lambertian(Lambertian::new(gray(fx(0.5))));
    let mut rec = HitRecord::new();
    rec.normal = Vec3::new(0, ONE, 0);
    let cos_pdf = CosinePDF::new(&rec.normal);
    let mut rng = Rng::new(5);
    let incoming = Ray::new(Vec3::new(0, 5 * ONE, 0), Vec3::new(0, -ONE, 0), 0);
    for _ in 0..100 {
        let dir = cos_pdf.generate(&mut rng);
        let scattered = Ray::new(Vec3::zero(), dir, 0);
        let a = mat.scattering_pdf(&incoming, &rec, &scattered);
        let b = cos_pdf.value(&scattered.dir);
        assert_eq!(a, b, "densities disagree for direction {:?}", dir);
    }
}

/// A dielectric attenuates by exactly one in every channel, whatever the
/// incidence angle.
#[test]
fn dielectric_attenuation_is_unit() {
    let mat = Material::Dielectric(Dielectric::new(fx(1.5)));
    let mut rng = Rng::new(9);
    for k in 0..50 {
        let mut rec = HitRecord::new();
        rec.normal = Vec3::new(0, ONE, 0);
        rec.front_face = k % 2 == 0;
        let dir = Vec3::new(rng.next_range(-ONE, ONE), -ONE, rng.next_range(-ONE, ONE));
        let r = Ray::new(Vec3::new(0, 2 * ONE, 0), dir, 0);
        let s = mat.scatter(&r, &rec, &mut rng).expect("dielectric always scatters");
        assert!(s.is_specular);
        assert_eq!((s.attenuation.x, s.attenuation.y, s.attenuation.z), (ONE, ONE, ONE));
    }
}

/// The mixture density always lies between its two components' densities.
#[test]
fn mixture_pdf_between_components() {
    let light = Hittable::Sphere(Sphere::new(Vec3::new(0, 10 * ONE, 0), 2 * ONE, 0));
    assert!(geom_wf_exec(&light));
    let origin = Vec3::zero();
    let cos_pdf = CosinePDF::new(&Vec3::new(0, ONE, 0));
    let mut rng = Rng::new(13);
    for _ in 0..200 {
        let dir = Vec3::random_in_unit_sphere(&mut rng);
        let hpdf = HittablePDF::new(&light, &origin);
        let v0 = hpdf.value(&dir);
        let v1 = cos_pdf.value(&dir);
        let hpdf2 = HittablePDF::new(&light, &origin);
        let mix = MixturePDF::new(hpdf2, cos_pdf);
        let m = mix.value(&dir);
        assert!(
            fmin(v0, v1) <= m && m <= fmax(v0, v1),
            "mixture {} outside [{}, {}]",
            m,
            fmin(v0, v1),
            fmax(v0, v1)
        );
    }
}

#[test]
fn metal_reflects_specularly() {
    let mat = Material::Metal(Metal::new(Vec3::new(fx(0.8), fx(0.8), fx(0.8)), 0));
    let mut rec = HitRecord::new();
    rec.normal = Vec3::new(0, ONE, 0);
    rec.p = Vec3::zero();
    let mut rng = Rng::new(2);
    let r = Ray::new(Vec3::new(-ONE, ONE, 0), Vec3::new(ONE, -ONE, 0), 0);
    let s = mat.scatter(&r, &rec, &mut rng).expect("metal scatters");
    assert!(s.is_specular);
    // with zero fuzz the reflected direction has a positive y component
    assert!(s.specular_ray.dir.y > 0, "reflected dir {:?}", s.specular_ray.dir);
    assert_eq!(s.attenuation.x, fx(0.8));
}

#[test]
fn diffuse_light_emits_on_front_face_only() {
    let mat = Material::DiffuseLight(raytracer::material::DiffuseLight::new_with_vec(Vec3::new(
        7 * ONE,
        7 * ONE,
        7 * ONE,
    )));
    let mut rng = Rng::new(2);
    let mut rec = HitRecord::new();
    let r = Ray::new(Vec3::zero(), Vec3::new(0, 0, ONE), 0);
    assert!(mat.scatter(&r, &rec, &mut rng).is_none());
    rec.front_face = true;
    let lit = mat.emitted(&r, &rec, 0, 0, &Vec3::zero());
    assert_eq!(lit.x, 7 * ONE);
    rec.front_face = false;
    let dark = mat.emitted(&r, &rec, 0, 0, &Vec3::zero());
    assert_eq!((dark.x, dark.y, dark.z), (0, 0, 0));
}

#[test]
fn write_color_exact_levels() {
    // a full-white single sample maps to level 255
    let white = Vec3::new(ONE, ONE, ONE);
    assert_eq!(write_color(&white, 1), (255, 255, 255));
    // a half-gray single sample maps to floor(sqrt(0.5) * 256) = 181
    let half = Vec3::new(fx(0.5), fx(0.5), fx(0.5));
    assert_eq!(write_color(&half, 1), (181, 181, 181));
    // negative channels (the stand-in for non-finite estimates) scrub to 0
    let bad = Vec3::new(-ONE, ONE, -5 * ONE);
    assert_eq!(write_color(&bad, 1), (0, 255, 0));
    // averaging: four samples of one sum to 4, scale 1/4 gives 1
    let four = Vec3::new(4 * ONE, 4 * ONE, 4 * ONE);
    assert_eq!(write_color(&four, 4), (255, 255, 255));
}

#[test]
fn checker_texture_alternates() {
    let even = gray(fx(1.0));
    let odd = gray(fx(0.1));
    let t = Texture::Checker(CheckerTexture::new(even, odd));
    // sin(10 * 0.05) > 0 on all axes picks the even tile
    let a = t.value(0, 0, &Vec3::new(fx(0.05), fx(0.05), fx(0.05)));
    // flipping one axis sign flips the sine product to the odd tile
    let b = t.value(0, 0, &Vec3::new(fx(-0.05), fx(0.05), fx(0.05)));
    assert_eq!(a.x, fx(1.0));
    assert_eq!(b.x, fx(0.1));
}

#[test]
fn image_texture_looks_up_pixels() {
    // a 2x1 image: red then blue
    let data = vec![255, 0, 0, 0, 0, 255];
    let img = raytracer::texture::ImageTexture::new(data, 2, 1);
    let t = Texture::Image(img);
    let left = t.value(0, 0, &Vec3::zero());
    let right = t.value(ONE, 0, &Vec3::zero());
    assert!(left.x > fx(0.99) && left.z == 0);
    assert!(right.z > fx(0.99) && right.x == 0);
}

#[test]
fn perlin_tables_are_permutations() {
    let mut rng = Rng::new(21);
    let p = Perlin::perlin_generate_perm(&mut rng);
    assert_eq!(p.len(), 256);
    let mut seen = [false; 256];
    for v in &p {
        assert!((0..256).contains(v));
        seen[*v as usize] = true;
    }
    assert!(seen.iter().all(|b| *b), "table is not a permutation");
}

#[test]
fn perlin_turbulence_is_nonnegative() {
    let mut rng = Rng::new(22);
    let noise = Perlin::new(&mut rng);
    for _ in 0..50 {
        let p = Vec3::new(
            rng.next_range(-8 * ONE, 8 * ONE),
            rng.next_range(-8 * ONE, 8 * ONE),
            rng.next_range(-8 * ONE, 8 * ONE),
        );
        assert!(noise.turb(&p, 7) >= 0);
    }
}

#[test]
fn camera_center_ray_points_at_target() {
    let cam = Camera::new(
        Vec3::new(0, 0, -3 * ONE),
        Vec3::zero(),
        Vec3::new(0, ONE, 0),
        60 * ONE,
        ONE,
        0,
        3 * ONE,
        0,
        ONE,
    );
    let mut rng = Rng::new(1);
    let r = cam.get_ray(fx(0.5), fx(0.5), &mut rng);
    assert_eq!(r.orig, Vec3::new(0, 0, -3 * ONE));
    // the viewport center direction is along +z
    assert!(r.dir.z > 0);
    assert!(r.dir.x.abs() < 300 && r.dir.y.abs() < 300, "dir {:?}", r.dir);
}

fn single_sphere_scene() -> (Hittable, Hittable, Vec<Material>) {
    let mut world = HittableList::new();
    world.add(Hittable::Sphere(Sphere::new(Vec3::zero(), ONE, 0)));
    let materials = vec![Material::Lambertian(Lambertian::new_with_vec(Vec3::new(
        fx(0.5),
        fx(0.5),
        fx(0.5),
    )))];
    (
        Hittable::List(world),
        Hittable::List(HittableList::new()),
        materials,
    )
}

/// Rendering a single diffuse sphere in front of a light sky: the pixel at
/// the image center sees the sphere, the corner sees only background, and
/// the two differ by well over ten 8-bit levels.
#[test]
fn render_sphere_against_sky() {
    let (world, lights, materials) = single_sphere_scene();
    assert!(geom_wf_exec(&world));
    assert!(geom_wf_exec(&lights));
    assert!(mats_below_exec(&world, materials.len()));
    let cam = Camera::new(
        Vec3::new(0, 0, -3 * ONE),
        Vec3::zero(),
        Vec3::new(0, ONE, 0),
        60 * ONE,
        ONE,
        0,
        3 * ONE,
        0,
        ONE,
    );
    let background = Vec3::new(fx(0.5), fx(0.7), fx(1.0));
    let mut rng = Rng::new(77);
    let w: u32 = 11;
    let h: u32 = 11;
    let buf = render(&world, &lights, &materials, &cam, &background, w, h, 1, 1, &mut rng);
    assert_eq!(buf.len(), (3 * w * h) as usize);
    // the center pixel: viewport v = 0.5 lands on row 6 for an 11-row image
    let center = ((6 * w + 5) * 3) as usize;
    let corner = 0usize;
    let diff = |a: u8, b: u8| (a as i32 - b as i32).abs();
    let max_diff = diff(buf[center], buf[corner]).max(
        diff(buf[center + 1], buf[corner + 1]).max(diff(buf[center + 2], buf[corner + 2])),
    );
    assert!(max_diff > 10, "center and corner pixels are too close: {}", max_diff);
}

#[test]
fn render_band_assembles_into_frame() {
    let (world, lights, materials) = single_sphere_scene();
    let cam = Camera::new(
        Vec3::new(0, 0, -3 * ONE),
        Vec3::zero(),
        Vec3::new(0, ONE, 0),
        60 * ONE,
        ONE,
        0,
        3 * ONE,
        0,
        ONE,
    );
    let background = Vec3::new(fx(0.5), fx(0.7), fx(1.0));
    let mut rng = Rng::new(3);
    let w: u32 = 6;
    let h: u32 = 4;
    let mut frame = vec![0u8; (3 * w * h) as usize];
    let top = render_band(&world, &lights, &materials, &cam, &background, w, h, 1, 1, 0, 2, &mut rng);
    let bottom = render_band(&world, &lights, &materials, &cam, &background, w, h, 1, 1, 2, 4, &mut rng);
    assert_eq!(top.len(), (3 * w * 2) as usize);
    assert_eq!(bottom.len(), (3 * w * 2) as usize);
    place_band(&mut frame, &bottom, 2, w);
    place_band(&mut frame, &top, 0, w);
    assert_eq!(&frame[..top.len()], &top[..]);
    assert_eq!(&frame[top.len()..], &bottom[..]);
}

/// An empty world shows the background everywhere, with the exact
/// gamma-mapped levels.
#[test]
fn render_empty_world_is_background() {
    let world = Hittable::List(HittableList::new());
    let lights = Hittable::List(HittableList::new());
    let materials: Vec<Material> = Vec::new();
    assert!(geom_wf_exec(&world));
    assert!(mats_below_exec(&world, materials.len()));
    let cam = Camera::new(
        Vec3::new(0, 0, -3 * ONE),
        Vec3::zero(),
        Vec3::new(0, ONE, 0),
        60 * ONE,
        ONE,
        0,
        3 * ONE,
        0,
        ONE,
    );
    let background = Vec3::new(fx(0.5), fx(0.7), fx(1.0));
    let mut rng = Rng::new(4);
    let buf = render(&world, &lights, &materials, &cam, &background, 2, 2, 1, 5, &mut rng);
    assert_eq!(buf.len(), 12);
    for px in buf.chunks(3) {
        // floor(sqrt(0.5) * 256), floor(sqrt(0.7) * 256), 255 (clamped)
        assert_eq!(px, &[181, 214, 255]);
    }
}

/// The fuzz radius is clamped into [0, 1] on both sides.
#[test]
fn metal_fuzz_is_clamped() {
    let m = Metal::new(Vec3::new(ONE, ONE, ONE), -3 * ONE);
    assert_eq!(m.fuzz, 0);
    let m = Metal::new(Vec3::new(ONE, ONE, ONE), 5 * ONE);
    assert_eq!(m.fuzz, ONE);
    let m = Metal::new(Vec3::new(ONE, ONE, ONE), ONE / 4);
    assert_eq!(m.fuzz, ONE / 4);
}
