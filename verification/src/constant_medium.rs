//! A participating medium of constant density inside a convex boundary.

use vstd::prelude::*;
use crate::hit::HitRecord;
use crate::scalar::{Scalar, ONE_KEY};
use crate::vec3::Vec3;

verus! {

/// Key of the step past the first crossing from which the second is sought
/// (0.0001).
pub const STEP_KEY: i64 = 0x3F1A_36E2_EB1C_432D;

/// `boundary` is the handle of the primitive that bounds the medium,
/// `phase_function` the handle of its isotropic material, and `neg_inv_density`
/// the negated reciprocal of its density.
#[derive(Clone, Copy, Debug, PartialEq, Eq, Structural)]
pub struct ConstantMedium {
    pub boundary: usize,
    pub phase_function: usize,
    pub neg_inv_density: Scalar,
}

/// The stretch of the ray inside the boundary, cut to `[t_min, t_max]`, before
/// its start is lifted to zero.
pub open spec fn clipped(enter: Scalar, exit: Scalar, t_min: Scalar, t_max: Scalar) -> (
    Scalar,
    Scalar,
) {
    (
        if enter.num_lt(t_min) {
            t_min
        } else {
            enter
        },
        if t_max.num_lt(exit) {
            t_max
        } else {
            exit
        },
    )
}

/// The stretch of the ray on which the medium can scatter: the clipped stretch
/// with a start below zero lifted to zero, and nothing where the clipped stretch
/// ends at or before its start.
pub open spec fn stretch_inside(enter: Scalar, exit: Scalar, t_min: Scalar, t_max: Scalar) -> Option<
    (Scalar, Scalar),
> {
    let (from, to) = clipped(enter, exit, t_min, t_max);
    if to.num_le(from) {
        None
    } else if from.num_lt(Scalar { key: 0 }) {
        Some((Scalar { key: 0 }, to))
    } else {
        Some((from, to))
    }
}

impl ConstantMedium {
    pub fn new(boundary: usize, neg_inv_density: Scalar, phase_function: usize) -> (r:
        ConstantMedium)
        ensures
            r == (ConstantMedium { boundary, phase_function, neg_inv_density }),
    {
        ConstantMedium { boundary, phase_function, neg_inv_density }
    }

    /// From the parameters at which the ray crosses the boundary, the stretch on
    /// which it is inside the medium and within the bounds.
    pub fn segment(enter: Scalar, exit: Scalar, t_min: Scalar, t_max: Scalar) -> (r: Option<
        (Scalar, Scalar),
    >)
        ensures
            r == stretch_inside(enter, exit, t_min, t_max),
    {
        let mut from = enter;
        let mut to = exit;
        if from.lt(&t_min) {
            from = t_min;
        }
        if to.gt(&t_max) {
            to = t_max;
        }
        if from.ge(&to) {
            return None;
        }
        if from.lt(&Scalar::zero()) {
            from = Scalar::zero();
        }
        Some((from, to))
    }

    /// The scattering event, if there is one. `hit_distance` is the sampled free
    /// path and `distance_inside` the length of the ray inside the boundary: a
    /// free path that is longer lets the ray through. Otherwise the ray scatters
    /// at parameter `t`, point `p`, with the medium's phase function; the normal
    /// is `(1, 0, 0)` and the face is the front, both without meaning in a volume.
    pub fn hit(&self, hit_distance: Scalar, distance_inside: Scalar, t: Scalar, p: Vec3) -> (r:
        Option<HitRecord>)
        ensures
            r is None <==> distance_inside.num_lt(hit_distance),
            r is Some ==> {
                let h = r->Some_0;
                &&& h.t == t
                &&& h.p == p
                &&& h.material == self.phase_function
                &&& h.front_face
                &&& h.normal.x.key == ONE_KEY && h.normal.y.key == 0 && h.normal.z.key == 0
                &&& h.u.key == 0 && h.v.key == 0
            },
    {
        if hit_distance.gt(&distance_inside) {
            return None;
        }
        let mut rec = HitRecord::new(self.phase_function);
        rec.t = t;
        rec.p = p;
        rec.normal = Vec3::new(Scalar::one(), Scalar::zero(), Scalar::zero());
        rec.front_face = true;
        Some(rec)
    }
}

} // verus!
