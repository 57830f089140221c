//! Rectangles that lie in a plane of two of the axes.

use vstd::prelude::*;
use crate::scalar::Scalar;
use crate::sphere::within;

verus! {

/// A rectangle in the plane `z = k`.
#[derive(Clone, Copy, Debug, PartialEq, Eq, Structural)]
pub struct XYRectangle {
    pub x0: Scalar,
    pub x1: Scalar,
    pub y0: Scalar,
    pub y1: Scalar,
    pub k: Scalar,
    pub material: usize,
}

/// A rectangle in the plane `y = k`.
#[derive(Clone, Copy, Debug, PartialEq, Eq, Structural)]
pub struct XZRectangle {
    pub x0: Scalar,
    pub x1: Scalar,
    pub z0: Scalar,
    pub z1: Scalar,
    pub k: Scalar,
    pub material: usize,
}

/// A rectangle in the plane `x = k`.
#[derive(Clone, Copy, Debug, PartialEq, Eq, Structural)]
pub struct YZRectangle {
    pub y0: Scalar,
    pub y1: Scalar,
    pub z0: Scalar,
    pub z1: Scalar,
    pub k: Scalar,
    pub material: usize,
}

/// The ray meets the plane within the bounds, at a point within both ranges of
/// the rectangle.
pub open spec fn lands_on(
    t: Scalar,
    a: Scalar,
    b: Scalar,
    t_min: Scalar,
    t_max: Scalar,
    a0: Scalar,
    a1: Scalar,
    b0: Scalar,
    b1: Scalar,
) -> bool {
    within(t, t_min, t_max) && within(a, a0, a1) && within(b, b0, b1)
}

/// Whether a ray that meets the plane of a rectangle at parameter `t`, in the
/// point `(a, b)` of the plane, hits the rectangle.
pub fn rectangle_hit(
    t: Scalar,
    a: Scalar,
    b: Scalar,
    t_min: Scalar,
    t_max: Scalar,
    a0: Scalar,
    a1: Scalar,
    b0: Scalar,
    b1: Scalar,
) -> (r: bool)
    ensures
        r == lands_on(t, a, b, t_min, t_max, a0, a1, b0, b1),
{
    if t.lt(&t_min) || t.gt(&t_max) {
        return false;
    }
    if a.lt(&a0) || a.gt(&a1) || b.lt(&b0) || b.gt(&b1) {
        return false;
    }
    true
}

impl XYRectangle {
    pub fn new(x0: Scalar, x1: Scalar, y0: Scalar, y1: Scalar, k: Scalar, material: usize) -> (r:
        XYRectangle)
        ensures
            r == (XYRectangle { x0, x1, y0, y1, k, material }),
    {
        XYRectangle { x0, x1, y0, y1, k, material }
    }

    /// `t` is the parameter at which the ray meets the plane, `(x, y)` the point
    /// of the ray there.
    pub fn hit(&self, t: Scalar, x: Scalar, y: Scalar, t_min: Scalar, t_max: Scalar) -> (r: bool)
        ensures
            r == lands_on(t, x, y, t_min, t_max, self.x0, self.x1, self.y0, self.y1),
    {
        rectangle_hit(t, x, y, t_min, t_max, self.x0, self.x1, self.y0, self.y1)
    }
}

impl XZRectangle {
    pub fn new(x0: Scalar, x1: Scalar, z0: Scalar, z1: Scalar, k: Scalar, material: usize) -> (r:
        XZRectangle)
        ensures
            r == (XZRectangle { x0, x1, z0, z1, k, material }),
    {
        XZRectangle { x0, x1, z0, z1, k, material }
    }

    /// `t` is the parameter at which the ray meets the plane, `(x, z)` the point
    /// of the ray there.
    pub fn hit(&self, t: Scalar, x: Scalar, z: Scalar, t_min: Scalar, t_max: Scalar) -> (r: bool)
        ensures
            r == lands_on(t, x, z, t_min, t_max, self.x0, self.x1, self.z0, self.z1),
    {
        rectangle_hit(t, x, z, t_min, t_max, self.x0, self.x1, self.z0, self.z1)
    }
}

impl YZRectangle {
    pub fn new(y0: Scalar, y1: Scalar, z0: Scalar, z1: Scalar, k: Scalar, material: usize) -> (r:
        YZRectangle)
        ensures
            r == (YZRectangle { y0, y1, z0, z1, k, material }),
    {
        YZRectangle { y0, y1, z0, z1, k, material }
    }

    /// `t` is the parameter at which the ray meets the plane, `(y, z)` the point
    /// of the ray there.
    pub fn hit(&self, t: Scalar, y: Scalar, z: Scalar, t_min: Scalar, t_max: Scalar) -> (r: bool)
        ensures
            r == lands_on(t, y, z, t_min, t_max, self.y0, self.y1, self.z0, self.z1),
    {
        rectangle_hit(t, y, z, t_min, t_max, self.y0, self.y1, self.z0, self.z1)
    }
}

} // verus!
