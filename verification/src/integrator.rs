//! The light-transport estimator: follow a ray from bounce to bounce and gather
//! the light that comes back along it.

use vstd::prelude::*;
use crate::aabb::{Slabs, AABB};
use crate::bvh::{slabs_as, BVHNode};
use crate::hit::{answered, answers_as, HitRecord};
use crate::material::{Material, Scatter};
use crate::ray::Ray;
use crate::scalar::{Scalar, INF_KEY};
use crate::vec3::Vec3;

verus! {

/// Key of the least ray parameter at which a hit counts (0.001): nearer hits are
/// the surface the ray has just left.
pub const ACNE_KEY: i64 = 0x3F50_624D_D2F1_A9FC;

/// No light.
pub open spec fn black() -> Vec3 {
    Vec3 { x: Scalar { key: 0 }, y: Scalar { key: 0 }, z: Scalar { key: 0 } }
}

/// The three models say what the three oracles answer: whatever a call
/// returns is what the model gives for the call's arguments.
pub open spec fn answer_as<
    N: Fn(Ray) -> Option<HitRecord>,
    S: Fn(Ray, HitRecord) -> Option<Scatter>,
    C: Fn(Vec3, Vec3, Vec3) -> Vec3,
>(
    n: N,
    s: S,
    c: C,
    nearest: spec_fn(Ray) -> Option<HitRecord>,
    scatter: spec_fn(Ray, HitRecord) -> Option<Scatter>,
    blend: spec_fn(Vec3, Vec3, Vec3) -> Vec3,
) -> bool {
    &&& forall|r: Ray, h: Option<HitRecord>| #[trigger] call_ensures(n, (r,), h) ==> h == nearest(r)
    &&& forall|r: Ray, h: HitRecord, o: Option<Scatter>| #[trigger]
        call_ensures(s, (r, h), o) ==> o == scatter(r, h)
    &&& forall|e: Vec3, a: Vec3, i: Vec3, o: Vec3| #[trigger]
        call_ensures(c, (e, a, i), o) ==> o == blend(e, a, i)
}

/// Every hit that the scene query reports names a material of the table.
pub open spec fn names_materials<N: Fn(Ray) -> Option<HitRecord>>(n: N, count: nat) -> bool {
    forall|r: Ray, h: HitRecord| #[trigger] call_ensures(n, (r,), Some(h)) ==> h.material < count
}

/// The light that arrives along `r`, with `depth` bounces left.
///
/// With no bounce left it is black. A ray that hits nothing sees the
/// background. A ray that hits a surface sees what the surface gives off and,
/// where the surface scatters, the blend of that with the attenuated light
/// along the scattered ray.
pub open spec fn radiance(
    materials: Seq<Material>,
    nearest: spec_fn(Ray) -> Option<HitRecord>,
    scatter: spec_fn(Ray, HitRecord) -> Option<Scatter>,
    blend: spec_fn(Vec3, Vec3, Vec3) -> Vec3,
    r: Ray,
    background: Vec3,
    depth: int,
) -> Vec3
    decreases depth,
{
    if depth <= 0 {
        black()
    } else {
        match nearest(r) {
            None => background,
            Some(h) => {
                let emitted = materials[h.material as int].emission();
                match scatter(r, h) {
                    None => emitted,
                    Some(s) => blend(
                        emitted,
                        s.attenuation,
                        radiance(
                            materials,
                            nearest,
                            scatter,
                            blend,
                            s.scattered,
                            background,
                            depth - 1,
                        ),
                    ),
                }
            },
        }
    }
}

/// Estimates the light along `r`.
///
/// `nearest` queries the scene for the nearest hit of a ray beyond the least
/// parameter that counts, `scatter` samples the hit material's scattering, and
/// `blend` gives the emitted light plus the attenuation times the incoming
/// light, component by component.
pub fn ray_color<
    N: Fn(Ray) -> Option<HitRecord>,
    S: Fn(Ray, HitRecord) -> Option<Scatter>,
    C: Fn(Vec3, Vec3, Vec3) -> Vec3,
>(
    r: Ray,
    background: &Vec3,
    materials: &Vec<Material>,
    nearest: &N,
    scatter: &S,
    blend: &C,
    depth: i32,
) -> (c: Vec3)
    requires
        forall|x: Ray| call_requires(*nearest, (x,)),
        forall|x: Ray, h: HitRecord| call_requires(*scatter, (x, h)),
        forall|e: Vec3, a: Vec3, i: Vec3| call_requires(*blend, (e, a, i)),
        names_materials(*nearest, materials@.len()),
    ensures
        depth <= 0 ==> c == black(),
        forall|
            n: spec_fn(Ray) -> Option<HitRecord>,
            s: spec_fn(Ray, HitRecord) -> Option<Scatter>,
            b: spec_fn(Vec3, Vec3, Vec3) -> Vec3,
        | #[trigger]
            answer_as(*nearest, *scatter, *blend, n, s, b) ==> c == radiance(
                materials@,
                n,
                s,
                b,
                r,
                *background,
                depth as int,
            ),
    decreases depth,
{
    if depth <= 0 {
        return Vec3::zero();
    }
    match nearest(r) {
        None => *background,
        Some(h) => {
            let emitted = materials[h.material].emitted();
            match scatter(r, h) {
                None => emitted,
                Some(s) => {
                    let incoming = ray_color(
                        s.scattered,
                        background,
                        materials,
                        nearest,
                        scatter,
                        blend,
                        depth - 1,
                    );
                    blend(emitted, s.attenuation, incoming)
                },
            }
        },
    }
}

/// The bounds within which the estimator looks for hits: from the least
/// parameter that counts up to infinity.
pub fn hit_bounds() -> (r: (Scalar, Scalar))
    ensures
        r.0.key == ACNE_KEY,
        r.1.key == INF_KEY,
{
    (Scalar::from_key(ACNE_KEY), Scalar::infinity())
}

/// The scene query of the estimator: the nearest hit of the hierarchy `world`
/// within the estimator's bounds, for the ray that the two oracles stand for.
pub fn nearest_hit<S: Fn(AABB) -> Slabs, F: Fn(usize, Scalar, Scalar) -> Option<HitRecord>>(
    world: &BVHNode,
    slabs_of: &S,
    intersect: &F,
) -> (r: Option<HitRecord>)
    requires
        world.askable(*intersect, Scalar { key: ACNE_KEY }),
        forall|b: AABB| call_requires(*slabs_of, (b,)),
    ensures
        forall|slabs: spec_fn(AABB) -> Slabs, leaf: spec_fn(usize, Scalar, Scalar) -> Option<HitRecord>|
            #![trigger slabs_as(*slabs_of, slabs), answers_as(*intersect, leaf)]
            slabs_as(*slabs_of, slabs) && answers_as(*intersect, leaf) ==> r == world.spec_hit(
                slabs,
                leaf,
                Scalar { key: ACNE_KEY },
                Scalar { key: INF_KEY },
            ),
        r is Some ==> answered(*intersect, world.ids(), Scalar { key: ACNE_KEY }, r),
{
    let (t_min, t_max) = hit_bounds();
    world.hit(slabs_of, intersect, t_min, t_max)
}

} // verus!
