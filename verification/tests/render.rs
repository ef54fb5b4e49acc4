use pathtracer::camera::Camera;
use pathtracer::fixed::Fx;
use pathtracer::hit::{HitRecord, Hitable, Sphere};
use pathtracer::material::{reflect, schlick, Dielectric, Lambertian, Material, Metal};
use pathtracer::ray::Ray;
use pathtracer::tracer::{color, Tracer};
use pathtracer::vec3::Vec3;

fn v(x: i64, y: i64, z: i64) -> Vec3 {
    Vec3::new(Fx::from_int(x), Fx::from_int(y), Fx::from_int(z))
}

fn vr(x: i64, y: i64, z: i64) -> Vec3 {
    Vec3::new(Fx::from_raw(x), Fx::from_raw(y), Fx::from_raw(z))
}

fn flat_hit(point: Vec3, normal: Vec3, m: Material) -> HitRecord {
    HitRecord { t: Fx::one(), point, normal, material: m }
}

#[test]
fn schlick_normal_incidence_glass() {
    // cosine 1, index 1.5: the classic four-percent reflectance
    let r = schlick(Fx::one(), Fx::from_raw(98304));
    assert_eq!(r.raw, 2621);
}

#[test]
fn schlick_stays_in_unit_range() {
    let mut c: i64 = 0;
    while c <= 65536 {
        let r = schlick(Fx::from_raw(c), Fx::from_raw(98304));
        assert!(0 <= r.raw && r.raw <= 65536);
        c += 4096;
    }
}

#[test]
fn metal_zero_fuzz_is_exact_mirror() {
    let m = Metal { albedo: vr(45875, 39321, 32768), fuzz: Fx::zero() };
    let ray = Ray { origin: v(-1, 1, 0), direction: v(1, -1, 0) };
    let hit = flat_hit(v(0, 0, 0), v(0, 1, 0), Material::Metal(m));
    let expected = reflect(ray.direction.unit(), v(0, 1, 0));
    for _ in 0..32 {
        let (scattered, attenuation) = m.scatter(&ray, &hit).unwrap();
        assert_eq!(scattered.direction, expected);
        assert_eq!(scattered.origin, v(0, 0, 0));
        assert_eq!(attenuation, vr(45875, 39321, 32768));
    }
}

#[test]
fn metal_absorbs_grazing_reflection() {
    // the reflection of a ray leaving through the surface is absorbed
    let m = Metal { albedo: vr(32768, 32768, 32768), fuzz: Fx::zero() };
    let ray = Ray { origin: v(0, 1, 0), direction: v(0, -1, 0) };
    let hit = flat_hit(v(0, 0, 0), v(0, -1, 0), Material::Metal(m));
    assert!(m.scatter(&ray, &hit).is_none());
}

#[test]
fn dielectric_always_scatters() {
    let d = Dielectric { refraction_idx: Fx::from_raw(98304) };
    let hit = flat_hit(v(0, 0, 0), v(0, 1, 0), Material::Dielectric(d));
    for k in 0..200i64 {
        let ray = Ray { origin: v(-1, 1, 0), direction: vr(65536, -65536 - k * 100, 0) };
        let (scattered, attenuation) = d.scatter(&ray, &hit).unwrap();
        assert_eq!(attenuation, v(1, 1, 1));
        assert_eq!(scattered.origin, v(0, 0, 0));
    }
}

#[test]
fn lambertian_scatters_from_hit_point() {
    let l = Lambertian { albedo: vr(20000, 30000, 40000) };
    let ray = Ray { origin: v(0, 1, 0), direction: v(0, -1, 0) };
    let hit = flat_hit(v(0, 0, 0), v(0, 1, 0), Material::Lambertian(l));
    for _ in 0..32 {
        let (scattered, attenuation) = l.scatter(&ray, &hit).unwrap();
        assert_eq!(scattered.origin, v(0, 0, 0));
        assert_eq!(attenuation, vr(20000, 30000, 40000));
    }
}

#[test]
fn sky_gradient_straight_up() {
    let world = Hitable::List(vec![]);
    let ray = Ray { origin: v(0, 0, 0), direction: v(0, 1, 0) };
    let c = color(ray, &world, 0);
    assert_eq!((c.x.raw, c.y.raw, c.z.raw), (32768, 45875, 65536));
}

#[test]
fn camera_without_aperture_shoots_from_origin() {
    let cam = Camera::new(
        v(3, 2, 1),
        v(0, 0, 0),
        v(0, 1, 0),
        Fx::from_int(20),
        Fx::from_int(2),
        Fx::from_int(10),
        Fx::zero(),
    );
    let r = cam.get_ray(Fx::from_raw(32768), Fx::from_raw(32768));
    assert_eq!(r.origin, v(3, 2, 1));
}

#[test]
fn new_tracer_has_black_frame_and_flush_copies() {
    let world = Hitable::List(vec![]);
    let cam = Camera::new(
        v(0, 0, 0),
        v(0, 0, -1),
        v(0, 1, 0),
        Fx::from_int(90),
        Fx::from_int(2),
        Fx::from_int(1),
        Fx::zero(),
    );
    let t = Tracer::new(8, 4, 4, world, cam);
    assert_eq!(t.buffer.len(), 8 * 4 * 4);
    assert!(t.buffer.iter().all(|&b| b == 0));
    let mut frame = vec![7u8; 8 * 4 * 4];
    t.flush(&mut frame);
    assert!(frame.iter().all(|&b| b == 0));
}

#[test]
fn render_covers_every_pixel() {
    // a fresh frame is all zero; one pass must write every pixel, which
    // shows as an opaque alpha byte on all of them
    let world = Hitable::List(vec![]);
    let cam = Camera::new(
        v(0, 0, 0),
        v(0, 0, -1),
        v(0, 1, 0),
        Fx::from_int(90),
        Fx::from_int(2),
        Fx::from_int(1),
        Fx::zero(),
    );
    let mut t = Tracer::new(12, 8, 4, world, cam);
    t.render(1);
    for p in 0..(12 * 8) {
        assert_eq!(t.buffer[p * 4 + 3], 0xff);
    }
}

#[test]
fn two_sphere_scene_sky_above_ground_below() {
    let albedo = vr(32768, 32768, 32768);
    let small = Sphere {
        center: v(0, 0, -1),
        radius: Fx::from_raw(32768),
        material: Material::Lambertian(Lambertian { albedo }),
    };
    let ground = Sphere {
        center: vr(0, -100 * 65536 - 32768, -65536),
        radius: Fx::from_int(100),
        material: Material::Lambertian(Lambertian { albedo }),
    };
    let world = Hitable::List(vec![Hitable::Sphere(small), Hitable::Sphere(ground)]);
    let cam = Camera::new(
        v(0, 0, 0),
        v(0, 0, -1),
        v(0, 1, 0),
        Fx::from_int(90),
        Fx::from_int(2),
        Fx::from_int(1),
        Fx::zero(),
    );
    let w = 16usize;
    let h = 8usize;
    let mut t = Tracer::new(w as u32, h as u32, 8, world, cam);
    t.render(16);
    let mut frame = vec![0u8; w * h * 4];
    t.flush(&mut frame);
    // the first buffer row is the top of the image
    let top = (w / 2) * 4;
    let bottom = ((h - 1) * w + w / 2) * 4;
    let top_sum = frame[top] as u32 + frame[top + 1] as u32 + frame[top + 2] as u32;
    let bottom_sum = frame[bottom] as u32 + frame[bottom + 1] as u32 + frame[bottom + 2] as u32;
    assert!(top_sum > bottom_sum, "top {} vs bottom {}", top_sum, bottom_sum);
    // the top row leans toward sky blue: blue at least red
    assert!(frame[top + 2] >= frame[top]);
    assert_eq!(frame[top + 3], 0xff);
}
