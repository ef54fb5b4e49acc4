use pathtracer::aabb::Aabb;
use pathtracer::bvh::BvhNode;
use pathtracer::fixed::{Fx, RAW_MAX};
use pathtracer::hit::{HitRecord, Hitable, Sphere};
use pathtracer::material::{Lambertian, Material};
use pathtracer::ray::Ray;
use pathtracer::vec3::Vec3;

fn v(x: i64, y: i64, z: i64) -> Vec3 {
    Vec3::new(Fx::from_int(x), Fx::from_int(y), Fx::from_int(z))
}

fn vr(x: i64, y: i64, z: i64) -> Vec3 {
    Vec3::new(Fx::from_raw(x), Fx::from_raw(y), Fx::from_raw(z))
}

fn gray(level: i64) -> Material {
    Material::Lambertian(Lambertian { albedo: vr(level, level, level) })
}

fn sphere(cx: i64, cy: i64, cz: i64, radius_raw: i64, m: Material) -> Sphere {
    Sphere { center: vr(cx, cy, cz), radius: Fx::from_raw(radius_raw), material: m }
}

#[test]
fn vector_dot_and_cross() {
    assert_eq!(Vec3::dot(v(1, 2, 3), v(4, 5, 6)).raw, 32 * 65536);
    let c = Vec3::cross(v(1, 0, 0), v(0, 1, 0));
    assert_eq!((c.x.raw, c.y.raw, c.z.raw), (0, 0, 65536));
    assert_eq!(v(3, 4, 0).length().raw, 5 * 65536);
    let u = v(0, 0, 7).unit();
    assert_eq!((u.x.raw, u.y.raw, u.z.raw), (0, 0, 65536));
}

#[test]
fn vector_axis_indexing() {
    let a = v(1, 2, 3);
    assert_eq!(a.axis(0).raw, 65536);
    assert_eq!(a.axis(1).raw, 2 * 65536);
    assert_eq!(a.axis(2).raw, 3 * 65536);
}

#[test]
fn merge_contains_both_and_commutes() {
    let a = Aabb { min: v(-1, -2, -3), max: v(1, 0, 0) };
    let b = Aabb { min: v(0, -1, -1), max: v(4, 5, 6) };
    let m = Aabb::merge(a, b);
    assert_eq!((m.min.x.raw, m.min.y.raw, m.min.z.raw), (-65536, -2 * 65536, -3 * 65536));
    assert_eq!((m.max.x.raw, m.max.y.raw, m.max.z.raw), (4 * 65536, 5 * 65536, 6 * 65536));
    // contains both arguments
    assert!(m.min.x.le(a.min.x) && m.max.x.ge(a.max.x));
    assert!(m.min.y.le(b.min.y) && m.max.y.ge(b.max.y));
    // commutative and associative on these values
    assert_eq!(m, Aabb::merge(b, a));
    let c = Aabb { min: v(-9, 0, 0), max: v(9, 1, 1) };
    assert_eq!(Aabb::merge(Aabb::merge(a, b), c), Aabb::merge(a, Aabb::merge(b, c)));
}

#[test]
fn slab_test_hits_and_misses() {
    let cube = Aabb { min: v(-1, -1, -1), max: v(1, 1, 1) };
    let eps = Fx::from_raw(66);
    let far = Fx::from_int(1000);
    // straight through the middle
    assert!(cube.hit(&Ray { origin: v(0, 0, -3), direction: v(0, 0, 1) }, eps, far));
    // pointing away
    assert!(!cube.hit(&Ray { origin: v(0, 0, -3), direction: v(0, 0, -1) }, eps, far));
    // parallel to two slabs, origin inside them
    assert!(cube.hit(&Ray { origin: v(-3, 0, 0), direction: v(1, 0, 0) }, eps, far));
    // parallel to a slab, origin outside it
    assert!(!cube.hit(&Ray { origin: v(-3, 5, 0), direction: v(1, 0, 0) }, eps, far));
}

#[test]
fn sphere_hit_exact_root() {
    let s = sphere(0, 0, -65536, 32768, gray(32768));
    let r = Ray { origin: v(0, 0, 0), direction: v(0, 0, -1) };
    let h = s.hit(&r, Fx::from_raw(66), Fx::from_int(1000)).unwrap();
    assert_eq!(h.t.raw, 32768);
    assert_eq!((h.point.x.raw, h.point.y.raw, h.point.z.raw), (0, 0, -32768));
    assert_eq!((h.normal.x.raw, h.normal.y.raw, h.normal.z.raw), (0, 0, 65536));
    assert_eq!(h.material, gray(32768));
}

#[test]
fn sphere_tangent_is_a_miss() {
    // the ray grazes the sphere exactly: discriminant zero, no hit
    let s = sphere(0, 0, -65536, 32768, gray(32768));
    let r = Ray { origin: vr(32768, 0, 0), direction: v(0, 0, -1) };
    assert!(s.hit(&r, Fx::from_raw(66), Fx::from_int(1000)).is_none());
}

#[test]
fn surface_outward_ray_never_hits() {
    // standing on the surface, pointing outward along the normal: the
    // acne epsilon keeps the surface itself out of range
    let s = sphere(0, 0, 0, 65536, gray(32768));
    let r = Ray { origin: v(1, 0, 0), direction: v(1, 0, 0) };
    assert!(s.hit(&r, Fx::from_raw(66), Fx::from_raw(RAW_MAX)).is_none());
}

#[test]
fn sphere_bounding_box() {
    let s = sphere(2 * 65536, 0, -65536, 32768, gray(32768));
    let b = s.bounding_box(Fx::zero(), Fx::zero()).unwrap();
    assert_eq!((b.min.x.raw, b.min.y.raw, b.min.z.raw), (98304, -32768, -98304));
    assert_eq!((b.max.x.raw, b.max.y.raw, b.max.z.raw), (163840, 32768, -32768));
}

#[test]
fn list_reports_nearest_hit() {
    let near = sphere(0, 0, -65536, 16384, gray(10000));
    let far_s = sphere(0, 0, -3 * 65536, 16384, gray(60000));
    let world = Hitable::List(vec![Hitable::Sphere(far_s), Hitable::Sphere(near)]);
    let r = Ray { origin: v(0, 0, 0), direction: v(0, 0, -1) };
    let h = world.hit(&r, Fx::from_raw(66), Fx::from_int(1000)).unwrap();
    assert_eq!(h.material, gray(10000));
}

#[test]
fn empty_list_has_no_box_and_no_hit() {
    let world = Hitable::List(vec![]);
    assert!(world.bounding_box(Fx::zero(), Fx::zero()).is_none());
    let r = Ray { origin: v(0, 0, 0), direction: v(0, 0, -1) };
    assert!(world.hit(&r, Fx::from_raw(66), Fx::from_int(1000)).is_none());
}

#[test]
fn list_bounding_box_merges_members() {
    let a = sphere(-2 * 65536, 0, 0, 65536, gray(32768));
    let b = sphere(3 * 65536, 65536, 0, 65536, gray(32768));
    let world = Hitable::List(vec![Hitable::Sphere(a), Hitable::Sphere(b)]);
    let bb = world.bounding_box(Fx::zero(), Fx::zero()).unwrap();
    assert_eq!(bb.min.x.raw, -3 * 65536);
    assert_eq!(bb.max.x.raw, 4 * 65536);
    assert_eq!(bb.max.y.raw, 2 * 65536);
}

fn same_hit(a: &Option<HitRecord>, b: &Option<HitRecord>) -> bool {
    match (a, b) {
        (None, None) => true,
        (Some(x), Some(y)) => {
            x.t == y.t && x.point == y.point && x.normal == y.normal && x.material == y.material
        },
        _ => false,
    }
}

#[test]
fn bvh_matches_linear_scan() {
    // a grid of sixty-four spheres with distinct albedos
    let mut objs: Vec<Hitable> = Vec::new();
    for gx in 0..8i64 {
        for gz in 0..8i64 {
            let m = gray(1000 + (gx * 8 + gz) * 100);
            objs.push(Hitable::Sphere(sphere(
                (gx - 4) * 65536,
                0,
                (gz - 8) * 65536,
                26214,
                m,
            )));
        }
    }
    let linear = Hitable::List(clone_spheres(&objs));
    let tree = Hitable::Node(Box::new(BvhNode::new(objs, Fx::zero(), Fx::zero())));
    let mut state: u64 = 0x2545F4914F6CDD1D;
    let mut next = move || {
        state ^= state << 13;
        state ^= state >> 7;
        state ^= state << 17;
        state
    };
    let eps = Fx::from_raw(66);
    let far = Fx::from_raw(RAW_MAX);
    for _ in 0..1000 {
        let r1 = (next() % 131073) as i64 - 65536;
        let r2 = (next() % 131073) as i64 - 65536;
        let r3 = (next() % 131073) as i64 - 65536;
        let o1 = (next() % (8 * 65536)) as i64 - 4 * 65536;
        let o2 = (next() % 131073) as i64 - 65536;
        let ray = Ray {
            origin: vr(o1, o2, 2 * 65536),
            direction: vr(r1, r2, -65536 - r3.abs()),
        };
        let ha = linear.hit(&ray, eps, far);
        let hb = tree.hit(&ray, eps, far);
        assert!(same_hit(&ha, &hb));
    }
}

fn clone_spheres(objs: &Vec<Hitable>) -> Vec<Hitable> {
    objs.iter()
        .map(|o| match o {
            Hitable::Sphere(s) => Hitable::Sphere(*s),
            _ => panic!("only spheres expected here"),
        })
        .collect()
}
