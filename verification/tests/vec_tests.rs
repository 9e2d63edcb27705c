use ray_tracer::fixed::SCALE;
use ray_tracer::fixed::fp_mul;
use ray_tracer::fixed::fp_div;
use ray_tracer::fixed::fp_sqrt;
use ray_tracer::vec3::Vec3;
use ray_tracer::vec3::CLAMP_MAX;

#[test]
fn scalar_ops_are_exact() {
    assert_eq!(fp_mul(SCALE, SCALE), SCALE);
    assert_eq!(fp_mul(SCALE / 2, SCALE / 2), SCALE / 4);
    assert_eq!(fp_mul(-SCALE, SCALE / 2), -SCALE / 2);
    assert_eq!(fp_div(SCALE, 2 * SCALE), SCALE / 2);
    assert_eq!(fp_div(-3 * SCALE, 2 * SCALE), -3 * SCALE / 2);
    assert_eq!(fp_sqrt(SCALE), SCALE);
    assert_eq!(fp_sqrt(4 * SCALE), 2 * SCALE);
    assert_eq!(fp_sqrt(0), 0);
}

#[test]
fn vector_algebra_componentwise() {
    let a = Vec3::from(SCALE, 2 * SCALE, -SCALE);
    let b = Vec3::from(SCALE / 2, -SCALE, 3 * SCALE);
    let s = a.add(b);
    assert_eq!((s.x, s.y, s.z), (3 * SCALE / 2, SCALE, 2 * SCALE));
    let d = a.sub(b);
    assert_eq!((d.x, d.y, d.z), (SCALE / 2, 3 * SCALE, -4 * SCALE));
    let m = a.mul(b);
    assert_eq!((m.x, m.y, m.z), (SCALE / 2, -2 * SCALE, -3 * SCALE));
    let n = a.neg();
    assert_eq!((n.x, n.y, n.z), (-SCALE, -2 * SCALE, SCALE));
    let sc = a.scale(2 * SCALE);
    assert_eq!((sc.x, sc.y, sc.z), (2 * SCALE, 4 * SCALE, -2 * SCALE));
    let dv = a.scale_div(2 * SCALE);
    assert_eq!((dv.x, dv.y, dv.z), (SCALE / 2, SCALE, -SCALE / 2));
}

#[test]
fn dot_cross_norms() {
    let a = Vec3::from(SCALE, 0, 0);
    let b = Vec3::from(0, SCALE, 0);
    assert_eq!(a.dot(b), 0);
    assert_eq!(a.dot(a), SCALE);
    let c = a.cross(b);
    assert_eq!((c.x, c.y, c.z), (0, 0, SCALE));
    let v = Vec3::from(3 * SCALE, 4 * SCALE, 0);
    assert_eq!(v.squared_norm(), 25 * SCALE);
    assert_eq!(v.norm(), 5 * SCALE);
    let o = Vec3::from(0, 0, 0);
    assert_eq!(v.squared_dist(o), 25 * SCALE);
    assert_eq!(v.dist(o), 5 * SCALE);
    let u = v.normalized();
    assert_eq!((u.x, u.y, u.z), (3 * SCALE / 5, 4 * SCALE / 5, 0));
}

#[test]
fn reflect_in_plane() {
    let v = Vec3::from(SCALE, -SCALE, 0);
    let n = Vec3::from(0, SCALE, 0);
    let r = v.reflect(n);
    assert_eq!((r.x, r.y, r.z), (SCALE, SCALE, 0));
}

#[test]
fn near_zero_uses_signed_components() {
    assert!(Vec3::from(0, 0, 0).near_zero());
    assert!(!Vec3::from(2, 0, 0).near_zero());
    // the test compares raw components, not magnitudes: a large
    // negative component still passes
    assert!(Vec3::from(-5 * SCALE, 0, 0).near_zero());
}

#[test]
fn accessors() {
    let v = Vec3::from(1, 2, 3);
    assert_eq!((v.x(), v.y(), v.z()), (1, 2, 3));
    assert_eq!((v.r(), v.g(), v.b()), (1, 2, 3));
}

#[test]
fn clamp_bounds() {
    assert_eq!(Vec3::clamp(-5, 0, CLAMP_MAX), 0);
    assert_eq!(Vec3::clamp(70000, 0, CLAMP_MAX), CLAMP_MAX);
    assert_eq!(Vec3::clamp(1234, 0, CLAMP_MAX), 1234);
}

#[test]
fn color_bytes_gamma_and_clamp() {
    // a full-intensity channel encodes as 255
    let white = Vec3::from(SCALE, SCALE, SCALE);
    assert_eq!(white.to_bytes(1), (255, 255, 255));
    // a quarter-intensity channel gamma-corrects to one half: byte 128
    let quarter = Vec3::from(SCALE / 4, SCALE / 4, SCALE / 4);
    assert_eq!(quarter.to_bytes(1), (128, 128, 128));
    // averaging over samples: four samples of one sum to four
    let sum = Vec3::from(4 * SCALE, SCALE, 0);
    assert_eq!(sum.to_bytes(4), (255, 128, 0));
    // a negative channel encodes as zero
    let neg = Vec3::from(-SCALE, 0, 0);
    assert_eq!(neg.to_bytes(1), (0, 0, 0));
}
