use ray_tracer::fixed::SCALE;
use ray_tracer::vec3::Vec3;
use ray_tracer::ray::Ray;
use ray_tracer::material::Material;
use ray_tracer::material::Lambertian;
use ray_tracer::hittable::Sphere;
use ray_tracer::hittable::Hittable;
use ray_tracer::hittable::HittableList;
use ray_tracer::hittable::T_LIMIT;

fn gray() -> Material {
    Material::Lambertian(Lambertian { albedo: Vec3::from(SCALE / 2, SCALE / 2, SCALE / 2) })
}

#[test]
fn axial_ray_hits_at_radius() {
    // sphere at the origin with radius r, ray from (0, 0, 2r) toward
    // -z: the hit is at parameter r, point (0, 0, r), outward unit
    // normal +z
    let r: i64 = SCALE / 2;
    let sphere = Sphere { center: Vec3::from(0, 0, 0), radius: r, material: gray() };
    let ray = Ray { origin: Vec3::from(0, 0, 2 * r), direction: Vec3::from(0, 0, -SCALE) };
    let hit = sphere.hit(&ray, 66, T_LIMIT).expect("the axial ray must hit");
    assert_eq!(hit.t, r);
    assert_eq!((hit.p.x, hit.p.y, hit.p.z), (0, 0, r));
    assert_eq!((hit.normal.x, hit.normal.y, hit.normal.z), (0, 0, SCALE));
    assert!(hit.front_face);
}

#[test]
fn nearest_hit_wins() {
    // two spheres along the ray's path: the nearer one is returned,
    // in either insertion order
    let near = Sphere { center: Vec3::from(0, 0, -SCALE), radius: SCALE / 2, material: gray() };
    let far = Sphere { center: Vec3::from(0, 0, -3 * SCALE), radius: SCALE / 2, material: gray() };
    let ray = Ray { origin: Vec3::from(0, 0, 0), direction: Vec3::from(0, 0, -SCALE) };

    let mut world = HittableList::new();
    world.add(near);
    world.add(far);
    let hit = world.hit(&ray, 66, T_LIMIT).expect("must hit");
    assert_eq!(hit.t, SCALE / 2);

    let mut world2 = HittableList::new();
    world2.add(far);
    world2.add(near);
    let hit2 = world2.hit(&ray, 66, T_LIMIT).expect("must hit");
    assert_eq!(hit2.t, SCALE / 2);
}

#[test]
fn normal_opposes_ray_from_inside() {
    // a ray starting inside the sphere: the oriented normal still
    // opposes the ray direction, and the face flag reports the back
    let sphere = Sphere { center: Vec3::from(0, 0, 0), radius: SCALE / 2, material: gray() };
    let ray = Ray { origin: Vec3::from(0, 0, 0), direction: Vec3::from(0, 0, -SCALE) };
    let hit = sphere.hit(&ray, 66, T_LIMIT).expect("must hit from inside");
    assert_eq!(hit.t, SCALE / 2);
    assert!(!hit.front_face);
    assert_eq!((hit.normal.x, hit.normal.y, hit.normal.z), (0, 0, SCALE));
    assert!(ray.direction.dot(hit.normal) < 0);
}

#[test]
fn no_hit_outside_range() {
    // the mathematical root is at t = 9.5, but the queried interval
    // ends at t = 1: no hit
    let sphere = Sphere {
        center: Vec3::from(0, 0, -10 * SCALE),
        radius: SCALE / 2,
        material: gray(),
    };
    let ray = Ray { origin: Vec3::from(0, 0, 0), direction: Vec3::from(0, 0, -SCALE) };
    assert!(sphere.hit(&ray, 66, SCALE).is_none());
    // and the root is found when the interval admits it
    let hit = sphere.hit(&ray, 66, T_LIMIT).expect("must hit in the wide interval");
    assert_eq!(hit.t, 19 * SCALE / 2);
}

#[test]
fn miss_yields_none() {
    let sphere = Sphere { center: Vec3::from(0, 5 * SCALE, 0), radius: SCALE / 2, material: gray() };
    let ray = Ray { origin: Vec3::from(0, 0, 0), direction: Vec3::from(0, 0, -SCALE) };
    assert!(sphere.hit(&ray, 66, T_LIMIT).is_none());
}

#[test]
fn empty_scene_yields_none() {
    let world = HittableList::new();
    let ray = Ray { origin: Vec3::from(0, 0, 0), direction: Vec3::from(0, 0, -SCALE) };
    assert!(world.hit(&ray, 66, T_LIMIT).is_none());
}

#[test]
fn ray_evaluates_parametrically() {
    let ray = Ray { origin: Vec3::from(SCALE, 0, 0), direction: Vec3::from(0, 0, -SCALE) };
    assert_eq!((ray.origin().x, ray.origin().y, ray.origin().z), (SCALE, 0, 0));
    assert_eq!((ray.direction().x, ray.direction().y, ray.direction().z), (0, 0, -SCALE));
    let p = ray.at(2 * SCALE);
    assert_eq!((p.x, p.y, p.z), (SCALE, 0, -2 * SCALE));
}
