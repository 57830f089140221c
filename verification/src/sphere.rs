//! Spheres, still and moving: which root of the intersection quadratic counts.

use vstd::prelude::*;
use crate::scalar::Scalar;
use crate::vec3::Vec3;

verus! {

#[derive(Clone, Copy, Debug, PartialEq, Eq, Structural)]
pub struct Sphere {
    pub center: Vec3,
    pub radius: Scalar,
    pub material: usize,
}

/// A sphere whose centre moves in a straight line from `center0` at `time0` to
/// `center1` at `time1`.
#[derive(Clone, Copy, Debug, PartialEq, Eq, Structural)]
pub struct MovingSphere {
    pub center0: Vec3,
    pub center1: Vec3,
    pub time0: Scalar,
    pub time1: Scalar,
    pub radius: Scalar,
    pub material: usize,
}

/// `t` is not below `t_min` and not above `t_max`.
pub open spec fn within(t: Scalar, t_min: Scalar, t_max: Scalar) -> bool {
    !t.num_lt(t_min) && !t_max.num_lt(t)
}

/// The ray parameter at which a ray hits a sphere: nothing where the
/// discriminant is negative; else the nearer root where it is within the
/// bounds; else the farther root where that is; else nothing.
pub open spec fn root_in_range(
    discriminant: Scalar,
    near: Scalar,
    far: Scalar,
    t_min: Scalar,
    t_max: Scalar,
) -> Option<Scalar> {
    if discriminant.num_lt(Scalar { key: 0 }) {
        None
    } else if within(near, t_min, t_max) {
        Some(near)
    } else if within(far, t_min, t_max) {
        Some(far)
    } else {
        None
    }
}

/// Picks the root of the intersection quadratic that is the hit.
pub fn nearest_root(
    discriminant: Scalar,
    near: Scalar,
    far: Scalar,
    t_min: Scalar,
    t_max: Scalar,
) -> (r: Option<Scalar>)
    ensures
        r == root_in_range(discriminant, near, far, t_min, t_max),
{
    if discriminant.lt(&Scalar::zero()) {
        return None;
    }
    let mut root = near;
    if root.lt(&t_min) || t_max.lt(&root) {
        root = far;
        if root.lt(&t_min) || t_max.lt(&root) {
            return None;
        }
    }
    Some(root)
}

/// With the nearer root at or before the farther one, and bounds that are
/// numbers above a positive `t_min`: the root that is picked is a number at or
/// below the upper bound, and drawing the upper bound in keeps the root exactly
/// when it is still at or below it.
pub proof fn root_narrows(
    discriminant: Scalar,
    near: Scalar,
    far: Scalar,
    t_min: Scalar,
    t_max: Scalar,
    tighter: Scalar,
)
    requires
        !near.is_nan() && !far.is_nan(),
        near.num_le(far),
        (Scalar { key: 0 }).num_lt(t_min),
        !t_max.is_nan() && !tighter.is_nan(),
        tighter.key <= t_max.key,
    ensures
        root_in_range(discriminant, near, far, t_min, t_max) matches Some(t) ==> !t.is_nan()
            && t.key <= t_max.key && t_min.key <= t.key,
        root_in_range(discriminant, near, far, t_min, tighter) == (match root_in_range(
            discriminant,
            near,
            far,
            t_min,
            t_max,
        ) {
            Some(t) => if t.key <= tighter.key {
                Some(t)
            } else {
                None
            },
            None => None,
        }),
{
}

impl Sphere {
    pub fn new(center: Vec3, radius: Scalar, material: usize) -> (r: Sphere)
        ensures
            r == (Sphere { center, radius, material }),
    {
        Sphere { center, radius, material }
    }

    /// The ray parameter of the hit, from the discriminant and the two roots of
    /// the quadratic for this sphere and a ray.
    pub fn hit(
        &self,
        discriminant: Scalar,
        near: Scalar,
        far: Scalar,
        t_min: Scalar,
        t_max: Scalar,
    ) -> (r: Option<Scalar>)
        ensures
            r == root_in_range(discriminant, near, far, t_min, t_max),
    {
        nearest_root(discriminant, near, far, t_min, t_max)
    }
}

impl MovingSphere {
    pub fn new(
        center0: Vec3,
        center1: Vec3,
        time0: Scalar,
        time1: Scalar,
        radius: Scalar,
        material: usize,
    ) -> (r: MovingSphere)
        ensures
            r == (MovingSphere { center0, center1, time0, time1, radius, material }),
    {
        MovingSphere { center0, center1, time0, time1, radius, material }
    }

    /// The ray parameter of the hit, from the discriminant and the two roots of
    /// the quadratic for the sphere where it is at the ray's time.
    pub fn hit(
        &self,
        discriminant: Scalar,
        near: Scalar,
        far: Scalar,
        t_min: Scalar,
        t_max: Scalar,
    ) -> (r: Option<Scalar>)
        ensures
            r == root_in_range(discriminant, near, far, t_min, t_max),
    {
        nearest_root(discriminant, near, far, t_min, t_max)
    }
}

} // verus!
