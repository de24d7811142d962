use raytracer::fixed::{
    clamp, fabs, fadd, fdiv, fmax, fmin, fmul, fneg, fsqrt, to_fx, HALF, HALF_PI_FX, ONE, PI_FX,
    TWO_PI_FX,
};
use raytracer::rng::{random_int, Rng};
use raytracer::trig::{acos_fx, atan2_fx, cos_fx, degrees_to_radians, ln_unit, sin_fx, tan_fx};
use raytracer::vec3::Vec3;

#[test]
fn fixed_add_and_saturation() {
    assert_eq!(fadd(ONE, ONE), 2 * ONE);
    assert_eq!(fadd(i64::MAX, 1), i64::MAX);
    assert_eq!(fadd(i64::MIN, -1), i64::MIN);
}

#[test]
fn fixed_mul_exact() {
    // 1.5 * 2 == 3
    assert_eq!(fmul(ONE + HALF, 2 * ONE), 3 * ONE);
    // rounding is toward zero
    assert_eq!(fmul(1, 1), 0);
    assert_eq!(fmul(-ONE - 1, HALF), -HALF);
}

#[test]
fn fixed_div_by_zero_saturates() {
    assert_eq!(fdiv(ONE, 0), i64::MAX);
    assert_eq!(fdiv(-ONE, 0), i64::MIN);
    assert_eq!(fdiv(0, 0), 0);
    assert_eq!(fdiv(6 * ONE, 3 * ONE), 2 * ONE);
}

#[test]
fn fixed_sqrt_exact_squares() {
    assert_eq!(fsqrt(ONE), ONE);
    assert_eq!(fsqrt(4 * ONE), 2 * ONE);
    assert_eq!(fsqrt(0), 0);
    // sqrt(2) in fixed point: floor(sqrt(2) * 65536) = 92681
    assert_eq!(fsqrt(2 * ONE), 92681);
}

#[test]
fn fixed_minmax_abs_neg() {
    assert_eq!(fmin(3, -4), -4);
    assert_eq!(fmax(3, -4), 3);
    assert_eq!(fabs(-7), 7);
    assert_eq!(fneg(7), -7);
    assert_eq!(fneg(i64::MIN), i64::MAX);
    assert_eq!(to_fx(3), 3 * ONE);
}

#[test]
fn clamp_behaviour() {
    assert_eq!(clamp(5, 0, 10), 5);
    assert_eq!(clamp(-5, 0, 10), 0);
    assert_eq!(clamp(15, 0, 10), 10);
}

#[test]
fn trig_sine_key_points() {
    assert_eq!(sin_fx(0), 0);
    let s = sin_fx(HALF_PI_FX);
    assert!(s > 65000 && s <= ONE, "sin(pi/2) = {}", s);
    let s = sin_fx(PI_FX);
    assert!(s.abs() < 200, "sin(pi) = {}", s);
    let s = sin_fx(-HALF_PI_FX);
    assert!(s < -65000 && s >= -ONE, "sin(-pi/2) = {}", s);
    // periodicity through range reduction
    assert_eq!(sin_fx(TWO_PI_FX + 1234), sin_fx(1234));
}

#[test]
fn trig_cosine_and_tangent() {
    let c = cos_fx(0);
    assert!(c > 65000 && c <= ONE, "cos(0) = {}", c);
    let c = cos_fx(PI_FX);
    assert!(c < -65000, "cos(pi) = {}", c);
    let t = tan_fx(degrees_to_radians(45 * ONE));
    assert!((t - ONE).abs() < 800, "tan(45 deg) = {}", t);
}

#[test]
fn trig_atan2_quadrants() {
    assert_eq!(atan2_fx(0, 0), 0);
    let a = atan2_fx(0, ONE);
    assert!(a.abs() < 100, "atan2(0,1) = {}", a);
    let a = atan2_fx(ONE, 0);
    assert!((a - HALF_PI_FX).abs() < 400, "atan2(1,0) = {}", a);
    let a = atan2_fx(0, -ONE);
    assert!((a - PI_FX).abs() < 100, "atan2(0,-1) = {}", a);
    let a = atan2_fx(-ONE, 0);
    assert!((a + HALF_PI_FX).abs() < 400, "atan2(-1,0) = {}", a);
}

#[test]
fn trig_acos_bounds() {
    let a = acos_fx(ONE);
    assert!(a.abs() < 200, "acos(1) = {}", a);
    let a = acos_fx(-ONE);
    assert!((a - PI_FX).abs() < 200, "acos(-1) = {}", a);
    let a = acos_fx(0);
    assert!((a - HALF_PI_FX).abs() < 400, "acos(0) = {}", a);
}

#[test]
fn log_of_unit_interval() {
    // ln(1/2) is about -0.6931, or -45426 in fixed point
    let l = ln_unit(HALF);
    assert!((l + 45426).abs() < 300, "ln(0.5) = {}", l);
    // ln(0) saturates at the most negative scalar
    assert_eq!(ln_unit(0), i64::MIN);
    let l = ln_unit(ONE - 1);
    assert!(l <= 0 && l > -300, "ln(1 - eps) = {}", l);
}

#[test]
fn degrees_conversion() {
    let r = degrees_to_radians(180 * ONE);
    assert!((r - PI_FX).abs() < 10, "180 deg = {}", r);
}

#[test]
fn random_int_stays_in_range() {
    let mut rng = Rng::new(7);
    for _ in 0..200 {
        let v = random_int(&mut rng, -3, 3);
        assert!((-3..=3).contains(&v));
    }
    assert_eq!(random_int(&mut rng, 5, 5), 5);
}

#[test]
fn vector_algebra() {
    let a = Vec3::new(ONE, 2 * ONE, 3 * ONE);
    let b = Vec3::new(4 * ONE, 5 * ONE, 6 * ONE);
    let s = a.add(b);
    assert_eq!((s.x, s.y, s.z), (5 * ONE, 7 * ONE, 9 * ONE));
    let d = a.dot(b);
    assert_eq!(d, 32 * ONE);
    let c = Vec3::cross(Vec3::new(ONE, 0, 0), Vec3::new(0, ONE, 0));
    assert_eq!((c.x, c.y, c.z), (0, 0, ONE));
    assert_eq!(a.squared_length(), 14 * ONE);
    let u = Vec3::new(3 * ONE, 4 * ONE, 0);
    assert_eq!(u.length(), 5 * ONE);
    let n = u.unit();
    // 3/5 and 4/5 in fixed point
    assert_eq!((n.x, n.y, n.z), (39321, 52428, 0));
}

#[test]
fn vector_reflect() {
    // reflecting a downward ray about the y axis normal flips the y part
    let v = Vec3::new(ONE, -ONE, 0);
    let n = Vec3::new(0, ONE, 0);
    let r = Vec3::reflect(v, n);
    assert_eq!((r.x, r.y, r.z), (ONE, ONE, 0));
}

#[test]
fn vector_sampling_bounds() {
    let mut rng = Rng::new(11);
    for _ in 0..50 {
        let p = Vec3::random_in_unit_sphere(&mut rng);
        assert!(p.squared_length() < ONE);
        let d = Vec3::random_in_unit_disk(&mut rng);
        assert!(d.squared_length() < ONE && d.z == 0);
        let c = Vec3::random_cosine_direction(&mut rng);
        assert!(c.z >= 0);
    }
}
