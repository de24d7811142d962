use raytracer::aabb::AABB;
use raytracer::bvh::bvhNode;
use raytracer::fixed::ONE;
use raytracer::hittable::{
    medium_sample, ConstantMedium, Cuboid, FlipFace, Hittable, HittableList, Translate,
};
use raytracer::ray::Ray;
use raytracer::rng::Rng;
use raytracer::sphere::{MovingSphere, Sphere, EPS_FX, INF_FX};
use raytracer::vec3::Vec3;

fn fx(v: f64) -> i64 {
    (v * 65536.0) as i64
}

/// A ray with a zero direction component never hits a box whose slab on
/// that axis excludes the ray's origin.
#[test]
fn aabb_zero_direction_axis_is_opaque() {
    let b = AABB::new(
        Vec3::new(2 * ONE, -ONE, -ONE),
        Vec3::new(3 * ONE, ONE, ONE),
    );
    // origin x = 0 lies outside the box's [2, 3] x-slab
    let r = Ray::new(Vec3::zero(), Vec3::new(0, ONE, 0), 0);
    assert!(!b.hit(&r, 1, INF_FX));
    // the same ray moved inside the x- and z-slabs passes through
    let r2 = Ray::new(Vec3::new(2 * ONE + HALF_X, -2 * ONE, 0), Vec3::new(0, ONE, 0), 0);
    assert!(b.hit(&r2, 1, INF_FX));
}

const HALF_X: i64 = 32768;

#[test]
fn aabb_surrounding_box_idempotent() {
    let a = AABB::new(Vec3::new(-ONE, -2 * ONE, 3), Vec3::new(ONE, 5 * ONE, 7));
    let u = AABB::surrounding_box(&a, &a);
    assert_eq!(u.minimum, a.minimum);
    assert_eq!(u.maximum, a.maximum);
}

#[test]
fn aabb_surrounding_box_contains_both() {
    let a = AABB::new(Vec3::new(-ONE, 0, 0), Vec3::new(ONE, ONE, ONE));
    let b = AABB::new(Vec3::new(0, -3 * ONE, 0), Vec3::new(5 * ONE, 0, 2 * ONE));
    let u = AABB::surrounding_box(&a, &b);
    for bb in [&a, &b] {
        assert!(u.minimum.x <= bb.minimum.x && u.maximum.x >= bb.maximum.x);
        assert!(u.minimum.y <= bb.minimum.y && u.maximum.y >= bb.maximum.y);
        assert!(u.minimum.z <= bb.minimum.z && u.maximum.z >= bb.maximum.z);
    }
}

/// A ray fired at a sphere from outside reports a hit point at distance
/// close to the radius from the center.
#[test]
fn sphere_hit_round_trip() {
    let s = Sphere::new(Vec3::zero(), 2 * ONE, 0);
    let r = Ray::new(Vec3::new(10 * ONE, 0, 0), Vec3::new(-ONE, 0, 0), 0);
    let rec = s.hit(&r, EPS_FX, INF_FX).expect("must hit");
    let dist = rec.p.length();
    // |ray.at(t)| equals the radius within a few fixed-point steps
    assert!(
        (dist - 2 * ONE).abs() <= 4,
        "distance from center: {} vs radius {}",
        dist,
        2 * ONE
    );
    assert!(rec.front_face);
    assert_eq!(rec.mat, 0);
    // the nearer root wins: t is about 8
    assert!((rec.t - 8 * ONE).abs() <= 4, "t = {}", rec.t);
}

#[test]
fn sphere_miss_reports_none() {
    let s = Sphere::new(Vec3::zero(), ONE, 0);
    let r = Ray::new(Vec3::new(10 * ONE, 5 * ONE, 0), Vec3::new(-ONE, 0, 0), 0);
    assert!(s.hit(&r, EPS_FX, INF_FX).is_none());
}

#[test]
fn moving_sphere_center_interpolates() {
    let s = MovingSphere::new(
        Vec3::zero(),
        Vec3::new(2 * ONE, 0, 0),
        0,
        ONE,
        ONE,
        0,
    );
    let c = s.center(HALF_X);
    assert_eq!((c.x, c.y, c.z), (ONE, 0, 0));
}

#[test]
fn cuboid_has_six_sides_and_hits() {
    let c = Cuboid::new(Vec3::zero(), Vec3::new(ONE, ONE, ONE), 0);
    assert_eq!(c.sides.objects.len(), 6);
    let h = Hittable::Cuboid(c);
    let mut rng = Rng::new(1);
    let r = Ray::new(Vec3::new(fx(0.5), fx(0.5), -3 * ONE), Vec3::new(0, 0, ONE), 0);
    let rec = h.hit(&r, EPS_FX, INF_FX, &mut rng).expect("must hit the box");
    // entry at z = 0, so t is about 3
    assert!((rec.t - 3 * ONE).abs() <= 16, "t = {}", rec.t);
}

#[test]
fn translate_shifts_hits() {
    let s = Hittable::Sphere(Sphere::new(Vec3::zero(), ONE, 0));
    let t = Hittable::Translate(Translate::new(s, Vec3::new(10 * ONE, 0, 0)));
    let mut rng = Rng::new(1);
    let r = Ray::new(Vec3::new(10 * ONE, 0, -5 * ONE), Vec3::new(0, 0, ONE), 0);
    let rec = t.hit(&r, EPS_FX, INF_FX, &mut rng).expect("must hit moved sphere");
    assert!((rec.p.x - 10 * ONE).abs() <= 16);
    let bb = t.bounding_box(0, ONE).unwrap();
    assert_eq!(bb.minimum.x, 9 * ONE);
    assert_eq!(bb.maximum.x, 11 * ONE);
}

#[test]
fn flip_face_inverts_flag() {
    let s = Hittable::Sphere(Sphere::new(Vec3::zero(), ONE, 0));
    let f = Hittable::FlipFace(FlipFace::new(s));
    let mut rng = Rng::new(1);
    let r = Ray::new(Vec3::new(0, 0, -5 * ONE), Vec3::new(0, 0, ONE), 0);
    let rec = f.hit(&r, EPS_FX, INF_FX, &mut rng).expect("must hit");
    assert!(!rec.front_face);
}

fn random_scene_spheres(rng: &mut Rng, n: usize) -> Vec<Hittable> {
    // non-overlapping spheres on a grid with random radii
    let mut out = Vec::new();
    let mut i = 0i64;
    while out.len() < n {
        let gx = i % 8;
        let gy = i / 8;
        let r = ONE / 4 + (raytracer::rng::random_int(rng, 0, 100) as i64) * 100;
        out.push(Hittable::Sphere(Sphere::new(
            Vec3::new(gx * 4 * ONE, gy * 4 * ONE, 10 * ONE + (i % 5) * 3 * ONE),
            r,
            0,
        )));
        i += 1;
    }
    out
}

/// For a fixed seed and non-overlapping spheres, the closest hit found by
/// scanning the flat list matches the hit found through the tree, over many
/// random rays.
#[test]
fn bvh_matches_linear_scan() {
    let mut rng = Rng::new(42);
    let spheres = random_scene_spheres(&mut rng, 24);
    let flat = Hittable::List(HittableList { objects: clone_vec(&spheres) });
    let mut build_list = HittableList { objects: spheres };
    let node = bvhNode::new_with_list(&mut build_list, 0, ONE, &mut rng);
    let tree = Hittable::Node(node);
    let mut hits = 0;
    for k in 0..1000u32 {
        // aim at a grid cell with some jitter so that many rays connect
        let gx = ((k % 24) % 8) as i64;
        let gy = ((k % 24) / 8) as i64;
        let o = Vec3::new(
            gx * 4 * ONE + rng.next_range(-2 * ONE, 2 * ONE),
            gy * 4 * ONE + rng.next_range(-2 * ONE, 2 * ONE),
            -10 * ONE,
        );
        let d = Vec3::new(
            rng.next_range(-ONE / 16, ONE / 16),
            rng.next_range(-ONE / 16, ONE / 16),
            ONE,
        );
        let r = Ray::new(o, d, 0);
        let a = flat.hit(&r, EPS_FX, INF_FX, &mut rng);
        let b = tree.hit(&r, EPS_FX, INF_FX, &mut rng);
        match (a, b) {
            (None, None) => {}
            (Some(ra), Some(rb)) => {
                hits += 1;
                assert_eq!(ra.t, rb.t, "closest hits disagree");
                assert_eq!(ra.p, rb.p);
                assert_eq!(ra.mat, rb.mat);
            }
            (a, b) => panic!("list and tree disagree: {:?} vs {:?}", a.is_some(), b.is_some()),
        }
    }
    assert!(hits > 10, "too few hits to be meaningful: {}", hits);
}

fn clone_vec(v: &Vec<Hittable>) -> Vec<Hittable> {
    let mut out = Vec::new();
    for h in v {
        out.push(raytracer::hittable::clone_hittable(h));
    }
    out
}

#[test]
fn bvh_box_is_union_of_children() {
    let mut rng = Rng::new(3);
    let mut list = HittableList::new();
    list.add(Hittable::Sphere(Sphere::new(Vec3::zero(), ONE, 0)));
    list.add(Hittable::Sphere(Sphere::new(Vec3::new(6 * ONE, 0, 0), ONE, 0)));
    let node = bvhNode::new_with_list(&mut list, 0, ONE, &mut rng);
    assert_eq!(node.my_box.minimum.x, -ONE);
    assert_eq!(node.my_box.maximum.x, 7 * ONE);
}

#[test]
fn sphere_pdf_positive_toward_sphere() {
    let s = Sphere::new(Vec3::new(0, 0, 10 * ONE), 2 * ONE, 0);
    let toward = s.pdf_value(&Vec3::zero(), &Vec3::new(0, 0, ONE));
    assert!(toward > 0, "pdf toward sphere = {}", toward);
    let away = s.pdf_value(&Vec3::zero(), &Vec3::new(0, 0, -ONE));
    assert_eq!(away, 0);
}

/// Rotating a box a quarter turn about y carries its x extent onto the
/// z axis.
#[test]
fn rotate_y_quarter_turn_box() {
    let c = Hittable::Cuboid(Cuboid::new(Vec3::zero(), Vec3::new(2 * ONE, ONE, ONE), 0));
    let rot = raytracer::hittable::RotateY::new(c, 90 * ONE);
    assert!(rot.has_box);
    let bb = rot.bbox;
    // the rotated footprint spans about [0, 1] in x and [-2, 0] in z
    let tol: i64 = 300;
    assert!((bb.minimum.z + 2 * ONE).abs() < tol, "min z {}", bb.minimum.z);
    assert!(bb.maximum.z.abs() < tol, "max z {}", bb.maximum.z);
    assert!(bb.minimum.x.abs() < tol && (bb.maximum.x - ONE).abs() < tol);
    // the y extent is untouched by a rotation about y
    assert_eq!(bb.minimum.y, 0);
    assert_eq!(bb.maximum.y, ONE);
}

/// A medium inside a sphere reports hits only along the chord through the
/// boundary.
#[test]
fn constant_medium_hits_inside_boundary() {
    let boundary = Hittable::Sphere(Sphere::new(Vec3::zero(), 2 * ONE, 0));
    let medium = Hittable::ConstantMedium(ConstantMedium::new(boundary, 50 * ONE, 0));
    let mut rng = Rng::new(8);
    let r = Ray::new(Vec3::new(-10 * ONE, 0, 0), Vec3::new(ONE, 0, 0), 0);
    let mut inside = 0;
    for _ in 0..100 {
        if let Some(rec) = medium.hit(&r, EPS_FX, INF_FX, &mut rng) {
            inside += 1;
            // the chord runs from t = 8 to t = 12
            assert!(rec.t >= 8 * ONE - 32 && rec.t <= 12 * ONE + 32, "t = {}", rec.t);
        }
    }
    // a density of 50 makes the medium nearly opaque over a chord of 4
    assert!(inside > 90, "medium almost never hit: {}", inside);
}

/// Sphere surface coordinates stay within the unit square.
#[test]
fn sphere_uv_within_unit_square() {
    let mut rng = Rng::new(17);
    for _ in 0..100 {
        let p = Vec3::random_in_unit_sphere(&mut rng).unit();
        let (u, v) = Sphere::get_sphere_uv(&p);
        assert!((0..=ONE).contains(&u), "u = {}", u);
        assert!((0..=ONE).contains(&v), "v = {}", v);
    }
}

/// The medium's free-flight decision: an empty clamped segment or an
/// overshooting flight distance passes through; otherwise the hit parameter
/// stays within the query range.
#[test]
fn medium_sample_decision() {
    let neg_inv = -raytracer::fixed::fdiv(ONE, 50 * ONE);
    // the boundary segment [2, 4] lies inside the range; a dense medium
    // nearly always stops the ray inside it
    let r = medium_sample(2 * ONE, 4 * ONE, 0, 10 * ONE, neg_inv, ONE, HALF_X);
    let t = r.expect("a dense medium stops the ray");
    assert!((2 * ONE..=4 * ONE).contains(&t), "t = {}", t);
    // an empty clamped segment means no hit
    assert_eq!(medium_sample(4 * ONE, 2 * ONE, 0, 10 * ONE, neg_inv, ONE, HALF_X), None);
    // a draw at the very edge of one makes the flight distance zero-ish but
    // a thin medium lets the ray through
    let thin = -raytracer::fixed::fdiv(ONE, 1);
    assert_eq!(medium_sample(2 * ONE, 4 * ONE, 0, 10 * ONE, thin, ONE, 1), None);
}
