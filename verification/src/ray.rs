//! A ray: where it starts, where it heads, and the moment it was cast.

use vstd::prelude::*;
use crate::scalar::Scalar;
use crate::vec3::Vec3;

verus! {

#[derive(Clone, Copy, Debug, PartialEq, Eq, Structural)]
pub struct Ray {
    pub orig: Vec3,
    pub dir: Vec3,
    pub time: Scalar,
}

impl Ray {
    pub fn origin(&self) -> (r: Vec3)
        ensures
            r == self.orig,
    {
        self.orig
    }

    pub fn direction(&self) -> (r: Vec3)
        ensures
            r == self.dir,
    {
        self.dir
    }

    pub fn time(&self) -> (r: Scalar)
        ensures
            r == self.time,
    {
        self.time
    }

    pub fn new(origin: Vec3, direction: Vec3, time: Scalar) -> (r: Ray)
        ensures
            r == (Ray { orig: origin, dir: direction, time }),
    {
        Ray { orig: origin, dir: direction, time }
    }

    /// The ray at the origin with no direction, cast at time zero.
    pub fn zero() -> (r: Ray)
        ensures
            r.orig.x.key == 0 && r.orig.y.key == 0 && r.orig.z.key == 0,
            r.dir.x.key == 0 && r.dir.y.key == 0 && r.dir.z.key == 0,
            r.time.key == 0,
    {
        Ray { orig: Vec3::zero(), dir: Vec3::zero(), time: Scalar::zero() }
    }
}

} // verus!
