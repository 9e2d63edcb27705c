use ray_tracer::fixed::SCALE;
use ray_tracer::vec3::Vec3;
use ray_tracer::ray::Ray;
use ray_tracer::sampler::Sampler;
use ray_tracer::material::Material;
use ray_tracer::material::Lambertian;
use ray_tracer::material::Metal;
use ray_tracer::material::metal_scatter;
use ray_tracer::material::lambertian_scatter;
use ray_tracer::hittable::Sphere;
use ray_tracer::hittable::HittableList;
use ray_tracer::hittable::HitRecord;
use ray_tracer::hittable::T_LIMIT;
use ray_tracer::camera::Camera;
use ray_tracer::render::background;
use ray_tracer::render::ray_color;
use ray_tracer::render::pixel_color;
use ray_tracer::render::SKY_R;
use ray_tracer::render::SKY_G;
use ray_tracer::render::SKY_B;

fn demo_scene() -> HittableList {
    let ground = Material::Lambertian(Lambertian {
        albedo: Vec3::from(8 * SCALE / 10, 8 * SCALE / 10, 0),
    });
    let center = Material::Lambertian(Lambertian {
        albedo: Vec3::from(7 * SCALE / 10, 3 * SCALE / 10, 3 * SCALE / 10),
    });
    let mut world = HittableList::new();
    world.add(Sphere {
        center: Vec3::from(0, -201 * SCALE / 2, -SCALE),
        radius: 100 * SCALE,
        material: ground,
    });
    world.add(Sphere { center: Vec3::from(0, 0, -SCALE), radius: SCALE / 2, material: center });
    world
}

#[test]
fn background_gradient_endpoints() {
    // straight down: exactly white; straight up: exactly the sky color
    let down = Ray { origin: Vec3::from(0, 0, 0), direction: Vec3::from(0, -SCALE, 0) };
    let w = background(&down);
    assert_eq!((w.x, w.y, w.z), (SCALE, SCALE, SCALE));
    let up = Ray { origin: Vec3::from(0, 0, 0), direction: Vec3::from(0, SCALE, 0) };
    let s = background(&up);
    assert_eq!((s.x, s.y, s.z), (SKY_R, SKY_G, SKY_B));
}

#[test]
fn background_gradient_midpoint() {
    // a horizontal direction blends the endpoints evenly
    let mid = Ray { origin: Vec3::from(0, 0, 0), direction: Vec3::from(0, 0, -SCALE) };
    let c = background(&mid);
    assert_eq!(c.x, SCALE / 2 + SKY_R / 2);
    assert_eq!(c.y, SCALE / 2 + (SKY_G * (SCALE / 2)) / SCALE);
    assert_eq!(c.z, SCALE);
}

#[test]
fn depth_zero_is_black() {
    let world = demo_scene();
    let ray = Ray { origin: Vec3::from(0, 0, 0), direction: Vec3::from(0, 0, -SCALE) };
    let mut s = Sampler::seeded(7);
    let c = ray_color(&world, &ray, 0, &mut s);
    assert_eq!((c.x, c.y, c.z), (0, 0, 0));
    let mut e = Sampler::entropy();
    let c2 = ray_color(&world, &ray, 0, &mut e);
    assert_eq!((c2.x, c2.y, c2.z), (0, 0, 0));
}

#[test]
fn miss_returns_background() {
    let world = demo_scene();
    let up = Ray { origin: Vec3::from(0, 2 * SCALE, 0), direction: Vec3::from(0, SCALE, 0) };
    let mut s = Sampler::seeded(7);
    let c = ray_color(&world, &up, 10, &mut s);
    assert_eq!((c.x, c.y, c.z), (SKY_R, SKY_G, SKY_B));
}

fn front_hit_record(material: Material) -> HitRecord {
    HitRecord {
        p: Vec3::from(0, 0, -SCALE / 2),
        normal: Vec3::from(0, 0, SCALE),
        t: SCALE / 2,
        front_face: true,
        material,
    }
}

#[test]
fn metal_absorbs_fuzzed_grazing_reflection() {
    // the fuzz perturbation drives the reflected direction into the
    // surface: the ray is absorbed
    let albedo = Vec3::from(SCALE / 2, SCALE / 2, SCALE / 2);
    let material = Material::Metal(Metal { albedo, fuzz: SCALE });
    let rec = front_hit_record(material);
    let ray = Ray { origin: Vec3::from(-SCALE, 0, 0), direction: Vec3::from(SCALE, 0, -SCALE) };
    let into_surface = Vec3::from(0, 0, -65000);
    assert!(metal_scatter(albedo, SCALE, &ray, &rec, into_surface).is_none());
}

#[test]
fn metal_with_zero_fuzz_reflects_outward() {
    // zero fuzz, a ray striking the front of a convex surface: the
    // reflection leaves the surface, whatever ball point is drawn
    let albedo = Vec3::from(SCALE / 2, SCALE / 2, SCALE / 2);
    let material = Material::Metal(Metal { albedo, fuzz: 0 });
    let rec = front_hit_record(material);
    let ray = Ray { origin: Vec3::from(-SCALE, 0, 0), direction: Vec3::from(SCALE, 0, -SCALE) };
    let ignored = Vec3::from(0, 0, -65000);
    let (scattered, attenuation) = metal_scatter(albedo, 0, &ray, &rec, ignored)
        .expect("zero-fuzz front reflection must scatter");
    assert!(scattered.direction.dot(rec.normal) > 0);
    assert_eq!((scattered.origin.x, scattered.origin.y, scattered.origin.z), (0, 0, -SCALE / 2));
    assert_eq!((attenuation.x, attenuation.y, attenuation.z), (albedo.x, albedo.y, albedo.z));
}

#[test]
fn lambertian_always_scatters() {
    let albedo = Vec3::from(SCALE / 2, SCALE / 4, SCALE / 8);
    let material = Material::Lambertian(Lambertian { albedo });
    let rec = front_hit_record(material);
    let rv = Vec3::from(0, SCALE, 0);
    let (scattered, attenuation) =
        lambertian_scatter(albedo, &rec, rv).expect("diffuse scattering is total");
    assert_eq!(
        (scattered.direction.x, scattered.direction.y, scattered.direction.z),
        (0, SCALE, SCALE),
    );
    assert_eq!((attenuation.x, attenuation.y, attenuation.z), (albedo.x, albedo.y, albedo.z));
}

#[test]
fn lambertian_degenerate_direction_falls_back_to_normal() {
    let albedo = Vec3::from(SCALE / 2, SCALE / 2, SCALE / 2);
    let material = Material::Lambertian(Lambertian { albedo });
    let rec = front_hit_record(material);
    // a draw exactly opposite the normal sums to the zero vector
    let rv = Vec3::from(0, 0, -SCALE);
    let (scattered, _) = lambertian_scatter(albedo, &rec, rv).expect("diffuse scattering is total");
    assert_eq!(
        (scattered.direction.x, scattered.direction.y, scattered.direction.z),
        (0, 0, SCALE),
    );
}

#[test]
fn camera_center_ray_points_down_the_axis() {
    let cam = Camera::new();
    let corner = cam.get_ray(0, 0);
    assert_eq!((corner.origin.x, corner.origin.y, corner.origin.z), (0, 0, 0));
    assert_eq!(
        (corner.direction.x, corner.direction.y, corner.direction.z),
        (-116508, -SCALE, -SCALE),
    );
    let center = cam.get_ray(SCALE / 2, SCALE / 2);
    assert_eq!((center.direction.x, center.direction.y, center.direction.z), (0, 0, -SCALE));
}

#[test]
fn seeded_sampler_is_reproducible() {
    let mut a = Sampler::seeded(42);
    let mut b = Sampler::seeded(42);
    for _ in 0..32 {
        assert_eq!(a.next_u64(), b.next_u64());
    }
    let u = a.unit_scalar();
    assert!((0..SCALE).contains(&u));
    let r = a.range_scalar(-SCALE, SCALE);
    assert!((-SCALE..SCALE).contains(&r));
}

#[test]
fn random_vectors_stay_in_their_regions() {
    let mut s = Sampler::seeded(1234);
    for _ in 0..50 {
        let p = Vec3::random_in_unit_sphere(&mut s);
        assert!(p.squared_norm() < SCALE);
        let u = Vec3::random_unit_vector(&mut s);
        assert!(u.x.abs() <= 2 * SCALE && u.y.abs() <= 2 * SCALE && u.z.abs() <= 2 * SCALE);
        // a unit vector's squared norm is near one (truncation can
        // overshoot for small accepted draws)
        let sn = u.squared_norm();
        assert!((SCALE - 16..=2 * SCALE).contains(&sn));
        let q = Vec3::random(&mut s);
        assert!(0 <= q.x && q.x < SCALE && 0 <= q.y && q.y < SCALE && 0 <= q.z && q.z < SCALE);
        let w = Vec3::random_in_range(&mut s, -2 * SCALE, 3 * SCALE);
        assert!(-2 * SCALE <= w.x && w.x < 3 * SCALE);
    }
}

#[test]
fn seeded_render_is_deterministic() {
    // the regression scenario: one large ground sphere and one small
    // diffuse sphere, rendered at low resolution from a fixed seed
    let width: u32 = 20;
    let height: u32 = 11;
    let samples: u32 = 4;
    let depth: u32 = 10;
    let render = |seed: u64| -> Vec<(u8, u8, u8)> {
        let world = demo_scene();
        let cam = Camera::new();
        let mut s = Sampler::seeded(seed);
        let mut grid: Vec<(u8, u8, u8)> = Vec::new();
        let mut j: u32 = height;
        while j > 0 {
            j -= 1;
            for i in 0..width {
                let c = pixel_color(&world, &cam, i, j, width, height, samples, depth, &mut s);
                grid.push(c.to_bytes(samples));
            }
        }
        grid
    };
    let first = render(99);
    let second = render(99);
    assert_eq!(first, second);
    assert_eq!(first.len(), (width * height) as usize);
    // the sky above the spheres must not be black
    assert!(first[0].0 > 0 && first[0].2 > 0);
}

#[test]
fn seeded_render_regression_baseline() {
    // fixed-seed pixel values, captured once as the regression
    // baseline for this scene, resolution and sampler
    let width: u32 = 20;
    let height: u32 = 11;
    let samples: u32 = 4;
    let depth: u32 = 10;
    let world = demo_scene();
    let cam = Camera::new();
    let mut s = Sampler::seeded(99);
    let mut grid: Vec<(u8, u8, u8)> = Vec::new();
    let mut j: u32 = height;
    while j > 0 {
        j -= 1;
        for i in 0..width {
            let c = pixel_color(&world, &cam, i, j, width, height, samples, depth, &mut s);
            grid.push(c.to_bytes(samples));
        }
    }
    assert_eq!(grid[0], (202, 225, 255));
    assert_eq!(grid[19], (203, 226, 255));
    assert_eq!(grid[100], (219, 234, 255));
    assert_eq!(grid[110], (176, 125, 140));
    assert_eq!(grid[150], (150, 111, 70));
    assert_eq!(grid[219], (177, 199, 0));
}
