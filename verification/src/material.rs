//! Material scattering models: diffuse, specular with roughness, and
//! refractive glass.
//!
//! `scatter` takes the incoming ray and a hit record and produces an
//! optional scattered ray with an attenuation color; no value means the ray
//! is absorbed.  Scattered directions depend on random draws, so each
//! contract states what holds of every outcome, and pins the direction
//! exactly where no randomness enters (a mirror with zero roughness, total
//! internal reflection).

use crate::fixed::{
    fx_add, fx_div, fx_min, fx_mul, fx_sqrt, fx_sub, lemma_fx_div_unit, lemma_fx_mul_le, mag, Fx,
    RAW_MAX, SCALE,
};
use crate::hit::HitRecord;
use crate::ray::{Ray, RayV};
use crate::util::{in_unit_ball, rand_unit, random_in_unit_sphere};
use crate::vec3::{v3_add, v3_color, v3_dot, v3_neg, v3_scale, v3_sub, v3_unit, Vec3, V3};
use vstd::prelude::*;

verus! {

/// Mirror reflection of `v` about the normal `n`: `v - 2 (v . n) n`.
pub open spec fn reflect_spec(v: V3, n: V3) -> V3 {
    v3_sub(v, v3_scale(n, fx_mul(2 * SCALE as int, v3_dot(v, n))))
}

/// Snell refraction of `v` through a surface with outward normal `n` and
/// index ratio `ni_over_nt`; no value under total internal reflection.
pub open spec fn refract_spec(v: V3, n: V3, ni_over_nt: int) -> Option<V3> {
    let uv = v3_unit(v);
    let dt = v3_dot(uv, n);
    let disc = fx_sub(
        SCALE as int,
        fx_mul(fx_mul(ni_over_nt, ni_over_nt), fx_sub(SCALE as int, fx_mul(dt, dt))),
    );
    if disc > 0 {
        Some(v3_sub(v3_scale(v3_sub(uv, v3_scale(n, dt)), ni_over_nt), v3_scale(n, fx_sqrt(disc))))
    } else {
        None
    }
}

/// Fifth power, associated as the executable code computes it.
pub open spec fn fx_pow5(x: int) -> int {
    fx_mul(fx_mul(fx_mul(x, x), fx_mul(x, x)), x)
}

/// Schlick's approximation of the Fresnel reflectance.
pub open spec fn schlick_spec(cosine: int, ri: int) -> int {
    let r0 = fx_div(fx_sub(SCALE as int, ri), fx_add(SCALE as int, ri));
    let r0sq = fx_mul(r0, r0);
    fx_add(r0sq, fx_mul(fx_sub(SCALE as int, r0sq), fx_pow5(fx_sub(SCALE as int, cosine))))
}

pub fn reflect(v: Vec3, n: Vec3) -> (r: Vec3)
    requires
        v.inv(),
        n.inv(),
    ensures
        r.inv(),
        r@ == reflect_spec(v@, n@),
{
    v.sub(n.scale(Fx::from_int(2).mul(Vec3::dot(v, n))))
}

pub fn refract(v: Vec3, n: Vec3, ni_over_nt: Fx) -> (r: Option<Vec3>)
    requires
        v.inv(),
        n.inv(),
        ni_over_nt.inv(),
    ensures
        match r {
            Some(d) => d.inv() && refract_spec(v@, n@, ni_over_nt@) == Some(d@),
            None => refract_spec(v@, n@, ni_over_nt@) is None,
        },
{
    let uv = v.unit();
    let dt = Vec3::dot(uv, n);
    let discriminant = Fx::one().sub(ni_over_nt.mul(ni_over_nt).mul(Fx::one().sub(dt.mul(dt))));
    if discriminant.gt(Fx::zero()) {
        Some(uv.sub(n.scale(dt)).scale(ni_over_nt).sub(n.scale(discriminant.sqrt())))
    } else {
        None
    }
}

/// Schlick's reflectance; the result lies in `[0, 1]` whenever the cosine
/// does and the refraction index is positive.
pub fn schlick(cosine: Fx, refraction_idx: Fx) -> (r: Fx)
    requires
        cosine.inv(),
        refraction_idx.inv(),
    ensures
        r.inv(),
        r@ == schlick_spec(cosine@, refraction_idx@),
        0 <= cosine@ <= SCALE as int && refraction_idx@ > 0 ==> 0 <= r@ <= SCALE as int,
{
    let one = Fx::one();
    let r0 = one.sub(refraction_idx).div(one.add(refraction_idx));
    let r0sq = r0.mul(r0);
    let x = one.sub(cosine);
    let x2 = x.mul(x);
    let p5 = x2.mul(x2).mul(x);
    let res = r0sq.add(one.sub(r0sq).mul(p5));
    proof {
        if 0 <= cosine@ <= SCALE as int && refraction_idx@ > 0 {
            lemma_schlick_bounds(cosine@, refraction_idx@);
        }
    }
    res
}

/// The reflectance approximation stays inside `[0, 1]` for cosines in
/// `[0, 1]` and positive refraction indices.
pub proof fn lemma_schlick_bounds(cosine: int, ri: int)
    requires
        0 <= cosine <= SCALE as int,
        0 < ri <= RAW_MAX as int,
    ensures
        0 <= schlick_spec(cosine, ri) <= SCALE as int,
{
    let s = SCALE as int;
    let a = fx_sub(s, ri);
    let b = fx_add(s, ri);
    assert(mag(a) < b);
    lemma_fx_div_unit(a, b);
    let r0 = fx_div(a, b);
    lemma_fx_mul_le(mag(r0), mag(r0));
    assert(fx_mul(r0, r0) == fx_mul(mag(r0), mag(r0)));
    let r0sq = fx_mul(r0, r0);
    assert(0 <= r0sq <= s);
    let x = fx_sub(s, cosine);
    lemma_fx_mul_le(x, x);
    let x2 = fx_mul(x, x);
    lemma_fx_mul_le(x2, x2);
    let x4 = fx_mul(x2, x2);
    lemma_fx_mul_le(x4, x);
    let p5 = fx_mul(x4, x);
    let y = fx_sub(s, r0sq);
    lemma_fx_mul_le(y, p5);
    let m = fx_mul(y, p5);
    assert(0 <= r0sq + m <= s);
}

/// Diffuse: scatters about the normal, attenuated by the albedo.
#[derive(Clone, Copy, Debug, PartialEq, Eq, Structural)]
pub struct Lambertian {
    pub albedo: Vec3,
}

impl Lambertian {
    pub open spec fn inv(self) -> bool {
        self.albedo.inv() && v3_color(self.albedo@)
    }

    pub fn scatter(&self, _ray: &Ray, hit: &HitRecord) -> (r: Option<(Ray, Vec3)>)
        requires
            self.inv(),
            hit.point.inv(),
            hit.normal.inv(),
        ensures
            r is Some,
            r->Some_0.1 == self.albedo,
            r->Some_0.0.origin == hit.point,
            r->Some_0.0.inv(),
            exists|s: V3|
                in_unit_ball(s) && r->Some_0.0.direction@ == v3_sub(
                    v3_add(v3_add(hit.point@, hit.normal@), s),
                    hit.point@,
                ),
    {
        let s = random_in_unit_sphere();
        let target = hit.point.add(hit.normal).add(s);
        let direction = target.sub(hit.point);
        proof {
            assert(in_unit_ball(s@) && direction@ == v3_sub(
                v3_add(v3_add(hit.point@, hit.normal@), s@),
                hit.point@,
            ));
        }
        Some((Ray { origin: hit.point, direction }, self.albedo))
    }
}

/// Specular with roughness: mirror reflection perturbed by `fuzz`; absorbs
/// when the perturbed reflection would leave through the surface.
#[derive(Clone, Copy, Debug, PartialEq, Eq, Structural)]
pub struct Metal {
    pub albedo: Vec3,
    pub fuzz: Fx,
}

impl Metal {
    pub open spec fn inv(self) -> bool {
        self.albedo.inv() && v3_color(self.albedo@) && self.fuzz.inv() && self.fuzz@ >= 0
    }

    pub fn scatter(&self, ray: &Ray, hit: &HitRecord) -> (r: Option<(Ray, Vec3)>)
        requires
            self.inv(),
            ray.inv(),
            hit.point.inv(),
            hit.normal.inv(),
        ensures
            (r is Some) == (v3_dot(reflect_spec(v3_unit(ray.direction@), hit.normal@), hit.normal@)
                > 0),
            r is Some ==> r->Some_0.1 == self.albedo && r->Some_0.0.origin == hit.point
                && r->Some_0.0.inv(),
            r is Some ==> exists|s: V3|
                in_unit_ball(s) && r->Some_0.0.direction@ == v3_add(
                    reflect_spec(v3_unit(ray.direction@), hit.normal@),
                    v3_scale(s, fx_min(self.fuzz@, SCALE as int)),
                ),
            r is Some && self.fuzz@ == 0 ==> r->Some_0.0.direction@ == reflect_spec(
                v3_unit(ray.direction@),
                hit.normal@,
            ),
    {
        let fuzz = if self.fuzz.lt(Fx::one()) {
            self.fuzz
        } else {
            Fx::one()
        };
        let reflected = reflect(ray.direction.unit(), hit.normal);
        if Vec3::dot(reflected, hit.normal).gt(Fx::zero()) {
            let s = random_in_unit_sphere();
            let direction = reflected.add(s.scale(fuzz));
            proof {
                assert(in_unit_ball(s@) && direction@ == v3_add(
                    reflect_spec(v3_unit(ray.direction@), hit.normal@),
                    v3_scale(s@, fx_min(self.fuzz@, SCALE as int)),
                ));
                if self.fuzz@ == 0 {
                    crate::fixed::lemma_fx_mul_zero(s@.x);
                    crate::fixed::lemma_fx_mul_zero(s@.y);
                    crate::fixed::lemma_fx_mul_zero(s@.z);
                    assert(v3_scale(s@, 0) == (V3 { x: 0int, y: 0int, z: 0int }));
                    assert(direction@.x == reflected@.x);
                    assert(direction@.y == reflected@.y);
                    assert(direction@.z == reflected@.z);
                    assert(direction@ == reflected@);
                }
            }
            Some((Ray { origin: hit.point, direction }, self.albedo))
        } else {
            None
        }
    }
}

/// Which index ratio applies: the ray leaves the medium when its direction
/// points along the normal, enters it otherwise.
pub open spec fn dielectric_ratio(r: RayV, n: V3, ri: int) -> int {
    if v3_dot(r.direction, n) > 0 {
        ri
    } else {
        fx_div(SCALE as int, ri)
    }
}

/// The normal pointing against the ray.
pub open spec fn dielectric_outward(r: RayV, n: V3) -> V3 {
    if v3_dot(r.direction, n) > 0 {
        v3_neg(n)
    } else {
        n
    }
}

/// Refractive glass: always scatters, absorbing nothing.
#[derive(Clone, Copy, Debug, PartialEq, Eq, Structural)]
pub struct Dielectric {
    pub refraction_idx: Fx,
}

impl Dielectric {
    pub open spec fn inv(self) -> bool {
        self.refraction_idx.inv() && self.refraction_idx@ > 0
    }

    pub fn scatter(&self, ray: &Ray, hit: &HitRecord) -> (r: Option<(Ray, Vec3)>)
        requires
            self.inv(),
            ray.inv(),
            hit.point.inv(),
            hit.normal.inv(),
        ensures
            r is Some,
            r->Some_0.1 == Vec3::one_spec(),
            r->Some_0.0.origin == hit.point,
            r->Some_0.0.inv(),
            r->Some_0.0.direction@ == reflect_spec(ray.direction@, hit.normal@) || refract_spec(
                ray.direction@,
                dielectric_outward(ray@, hit.normal@),
                dielectric_ratio(ray@, hit.normal@, self.refraction_idx@),
            ) == Some(r->Some_0.0.direction@),
            refract_spec(
                ray.direction@,
                dielectric_outward(ray@, hit.normal@),
                dielectric_ratio(ray@, hit.normal@, self.refraction_idx@),
            ) is None ==> r->Some_0.0.direction@ == reflect_spec(ray.direction@, hit.normal@),
    {
        let reflected = reflect(ray.direction, hit.normal);
        let d = Vec3::dot(ray.direction, hit.normal);
        let (outward_normal, ni_over_nt, cosine) = if d.gt(Fx::zero()) {
            (
                hit.normal.neg(),
                self.refraction_idx,
                self.refraction_idx.mul(d).div(ray.direction.length()),
            )
        } else {
            (
                hit.normal,
                Fx::one().div(self.refraction_idx),
                d.neg().div(ray.direction.length()),
            )
        };
        let direction = match refract(ray.direction, outward_normal, ni_over_nt) {
            Some(refracted) => {
                if rand_unit().gt(schlick(cosine, self.refraction_idx)) {
                    refracted
                } else {
                    reflected
                }
            },
            None => reflected,
        };
        Some((Ray { origin: hit.point, direction }, Vec3::one()))
    }
}

/// The closed set of materials, dispatched by variant.
#[derive(Clone, Copy, Debug, PartialEq, Eq, Structural)]
pub enum Material {
    Lambertian(Lambertian),
    Metal(Metal),
    Dielectric(Dielectric),
}

impl Material {
    pub open spec fn inv(self) -> bool {
        match self {
            Material::Lambertian(m) => m.inv(),
            Material::Metal(m) => m.inv(),
            Material::Dielectric(m) => m.inv(),
        }
    }

    /// Scatter through the variant's model.  Whatever the random draws, a
    /// produced ray starts at the hit point, is well-formed, and carries a
    /// valid attenuation color; glass always produces one.
    pub fn scatter(&self, ray: &Ray, hit: &HitRecord) -> (r: Option<(Ray, Vec3)>)
        requires
            self.inv(),
            ray.inv(),
            hit.point.inv(),
            hit.normal.inv(),
        ensures
            self is Dielectric ==> r is Some,
            r is Some ==> r->Some_0.0.origin == hit.point && r->Some_0.0.inv()
                && r->Some_0.1.inv() && v3_color(r->Some_0.1@),
    {
        match self {
            Material::Lambertian(m) => m.scatter(ray, hit),
            Material::Metal(m) => m.scatter(ray, hit),
            Material::Dielectric(m) => m.scatter(ray, hit),
        }
    }
}

} // verus!
