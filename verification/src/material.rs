//! Materials: whether a ray that hits a surface goes on, in which direction,
//! and how much of the light it carries is kept.

use vstd::prelude::*;
use crate::hit::HitRecord;
use crate::ray::Ray;
use crate::scalar::{Scalar, ONE_KEY};
use crate::texture::{SolidColor, Texture};
use crate::vec3::Vec3;

verus! {

/// The second argument where the first is numerically greater, else the first.
pub fn fmin(a: Scalar, b: Scalar) -> (r: Scalar)
    ensures
        r == if b.num_lt(a) {
            b
        } else {
            a
        },
{
    if a.gt(&b) {
        b
    } else {
        a
    }
}

/// A scattered ray and the colour by which the light it carries is multiplied.
#[derive(Clone, Copy, Debug, PartialEq, Eq, Structural)]
pub struct Scatter {
    pub attenuation: Vec3,
    pub scattered: Ray,
}

/// The ray that leaves the point of `rec` in `direction` at the time of `r_in`.
pub open spec fn onward(r_in: Ray, rec: HitRecord, direction: Vec3) -> Ray {
    Ray { orig: rec.p, dir: direction, time: r_in.time }
}

/// A diffuse surface.
pub struct Lambertian {
    pub albedo: Texture,
}

/// A mirror, blurred by `fuzzy`, which is at most one.
#[derive(Clone, Copy, Debug, PartialEq, Eq, Structural)]
pub struct Metal {
    pub albedo: Vec3,
    pub fuzzy: Scalar,
}

/// Clear glass with the given index of refraction.
#[derive(Clone, Copy, Debug, PartialEq, Eq, Structural)]
pub struct Dielectric {
    pub ref_idx: Scalar,
}

/// A surface that gives off light and scatters none.
#[derive(Clone, Copy, Debug, PartialEq, Eq, Structural)]
pub struct DiffuseLight {
    pub emit: Vec3,
}

/// The phase function of a participating medium: light goes on in any direction.
pub struct Isotropic {
    pub albedo: Texture,
}

pub enum Material {
    Lambertian(Lambertian),
    Metal(Metal),
    Dielectric(Dielectric),
    DiffuseLight(DiffuseLight),
    Isotropic(Isotropic),
}

impl Lambertian {
    pub fn new(a: Vec3) -> (r: Lambertian)
        ensures
            r.albedo == Texture::Solid(SolidColor { color_value: a }),
    {
        Lambertian { albedo: Texture::Solid(SolidColor::new(a)) }
    }

    pub fn new_texture(a: Texture) -> (r: Lambertian)
        ensures
            r.albedo == a,
    {
        Lambertian { albedo: a }
    }

    /// Always scatters. `candidate` is the normal plus a random unit vector; where
    /// it is too close to zero to be a direction, the normal stands in for it.
    /// `albedo` is the value of the surface's texture at the hit.
    pub fn scatter(&self, r_in: &Ray, rec: &HitRecord, candidate: Vec3, albedo: Vec3) -> (r: Option<
        Scatter,
    >)
        ensures
            r == Some(
                Scatter {
                    attenuation: albedo,
                    scattered: onward(
                        *r_in,
                        *rec,
                        if candidate.is_near_zero() {
                            rec.normal
                        } else {
                            candidate
                        },
                    ),
                },
            ),
    {
        let direction = if candidate.near_zero() {
            rec.normal
        } else {
            candidate
        };
        Some(Scatter { attenuation: albedo, scattered: Ray::new(rec.p, direction, r_in.time()) })
    }
}

impl Metal {
    /// A metal whose fuzziness is `fuzzy` where that is below one, and one
    /// otherwise.
    pub fn new(albedo: Vec3, fuzzy: Scalar) -> (r: Metal)
        ensures
            r.albedo == albedo,
            r.fuzzy == if fuzzy.num_lt(Scalar { key: ONE_KEY }) {
                fuzzy
            } else {
                Scalar { key: ONE_KEY }
            },
    {
        Metal {
            albedo,
            fuzzy: if fuzzy.lt(&Scalar::one()) {
                fuzzy
            } else {
                Scalar::one()
            },
        }
    }

    /// `direction` is the mirrored incoming direction plus the fuzz, `facing` its
    /// dot product with the normal. The ray goes on where `facing` is positive;
    /// one that would run into the surface is absorbed.
    pub fn scatter(&self, r_in: &Ray, rec: &HitRecord, direction: Vec3, facing: Scalar) -> (r:
        Option<Scatter>)
        ensures
            r == if (Scalar { key: 0 }).num_lt(facing) {
                Some(Scatter { attenuation: self.albedo, scattered: onward(*r_in, *rec, direction) })
            } else {
                None
            },
    {
        if facing.gt(&Scalar::zero()) {
            Some(
                Scatter {
                    attenuation: self.albedo,
                    scattered: Ray::new(rec.p, direction, r_in.time()),
                },
            )
        } else {
            None
        }
    }
}

impl Dielectric {
    pub fn new(ref_idx: Scalar) -> (r: Dielectric)
        ensures
            r.ref_idx == ref_idx,
    {
        Dielectric { ref_idx }
    }

    /// The ray must be mirrored: `bend`, the refraction ratio times the sine of
    /// the angle of incidence, is above one, so that no refracted ray exists; or
    /// the reflectance at this angle is above the random `sample`.
    pub open spec fn must_reflect(bend: Scalar, reflectance: Scalar, sample: Scalar) -> bool {
        (Scalar { key: ONE_KEY }).num_lt(bend) || sample.num_lt(reflectance)
    }

    /// The ratio of the indices of refraction that the ray crosses: `inverse`,
    /// the reciprocal of the material's index, on the way in, and the index
    /// itself on the way out.
    pub fn refraction_ratio(&self, front_face: bool, inverse: Scalar) -> (r: Scalar)
        ensures
            r == if front_face {
                inverse
            } else {
                self.ref_idx
            },
    {
        if front_face {
            inverse
        } else {
            self.ref_idx
        }
    }

    /// Whether the ray is mirrored. Above the critical angle it always is,
    /// whatever the reflectance and the sample.
    pub fn reflects(bend: Scalar, reflectance: Scalar, sample: Scalar) -> (r: bool)
        ensures
            r == Self::must_reflect(bend, reflectance, sample),
            (Scalar { key: ONE_KEY }).num_lt(bend) ==> r,
    {
        bend.gt(&Scalar::one()) || reflectance.gt(&sample)
    }

    /// Always scatters, and keeps all the light. The ray goes on in `reflected`
    /// where it must be mirrored and in `refracted` otherwise.
    pub fn scatter(
        &self,
        r_in: &Ray,
        rec: &HitRecord,
        reflected: Vec3,
        refracted: Vec3,
        bend: Scalar,
        reflectance: Scalar,
        sample: Scalar,
    ) -> (r: Option<Scatter>)
        ensures
            r is Some,
            r->Some_0.attenuation.x.key == ONE_KEY,
            r->Some_0.attenuation.y.key == ONE_KEY,
            r->Some_0.attenuation.z.key == ONE_KEY,
            r->Some_0.scattered == onward(
                *r_in,
                *rec,
                if Self::must_reflect(bend, reflectance, sample) {
                    reflected
                } else {
                    refracted
                },
            ),
            (Scalar { key: ONE_KEY }).num_lt(bend) ==> r->Some_0.scattered.dir == reflected,
    {
        let direction = if Self::reflects(bend, reflectance, sample) {
            reflected
        } else {
            refracted
        };
        Some(
            Scatter { attenuation: Vec3::ones(), scattered: Ray::new(rec.p, direction, r_in.time()) },
        )
    }
}

impl DiffuseLight {
    pub fn new(emit: Vec3) -> (r: DiffuseLight)
        ensures
            r.emit == emit,
    {
        DiffuseLight { emit }
    }

    /// A light scatters nothing.
    pub fn scatter(&self, r_in: &Ray, rec: &HitRecord) -> (r: Option<Scatter>)
        ensures
            r is None,
    {
        None
    }
}

impl Isotropic {
    pub fn new(c: Vec3) -> (r: Isotropic)
        ensures
            r.albedo == Texture::Solid(SolidColor { color_value: c }),
    {
        Isotropic { albedo: Texture::Solid(SolidColor::new(c)) }
    }

    pub fn new_texture(a: Texture) -> (r: Isotropic)
        ensures
            r.albedo == a,
    {
        Isotropic { albedo: a }
    }

    /// Always scatters, in `direction`, a random point of the unit sphere.
    pub fn scatter(&self, r_in: &Ray, rec: &HitRecord, direction: Vec3, albedo: Vec3) -> (r: Option<
        Scatter,
    >)
        ensures
            r == Some(Scatter { attenuation: albedo, scattered: onward(*r_in, *rec, direction) }),
    {
        Some(Scatter { attenuation: albedo, scattered: Ray::new(rec.p, direction, r_in.time()) })
    }
}

impl Material {
    /// The light that the material gives off: a light's own colour, and black for
    /// every other material.
    pub open spec fn emission(&self) -> Vec3 {
        match self {
            Material::DiffuseLight(l) => l.emit,
            _ => Vec3 { x: Scalar { key: 0 }, y: Scalar { key: 0 }, z: Scalar { key: 0 } },
        }
    }

    pub fn emitted(&self) -> (r: Vec3)
        ensures
            r == self.emission(),
    {
        match self {
            Material::DiffuseLight(l) => l.emit,
            _ => Vec3::zero(),
        }
    }
}

} // verus!
