//! Axis-aligned bounding boxes, their union, and the slab test.

use vstd::prelude::*;
use crate::scalar::{
    running_min_max_bounds, running_min_max_monotone, wider_interval_has_length, Scalar, INF_KEY,
    NEG_INF_KEY,
};
use crate::vec3::Vec3;

verus! {

#[derive(Clone, Copy, Debug, PartialEq, Eq, Structural)]
pub struct AABB {
    pub min: Vec3,
    pub max: Vec3,
}

/// What one axis contributes to the slab test: the reciprocal of the ray's
/// direction along the axis, and the ray parameters at which the ray meets the
/// box's lower and upper plane of that axis.
#[derive(Clone, Copy, Debug, PartialEq, Eq, Structural)]
pub struct Slab {
    pub inv_dir: Scalar,
    pub t_low: Scalar,
    pub t_high: Scalar,
}

/// The three slabs of one box for one ray.
#[derive(Clone, Copy, Debug, PartialEq, Eq, Structural)]
pub struct Slabs {
    pub x: Slab,
    pub y: Slab,
    pub z: Slab,
}

impl Slab {
    /// The ray runs against the axis.
    pub open spec fn reversed(self) -> bool {
        self.inv_dir.num_lt(Scalar { key: 0 })
    }

    /// The parameter at which the ray enters the slab.
    pub open spec fn entry(self) -> Scalar {
        if self.reversed() {
            self.t_high
        } else {
            self.t_low
        }
    }

    /// The parameter at which the ray leaves the slab.
    pub open spec fn exit(self) -> Scalar {
        if self.reversed() {
            self.t_low
        } else {
            self.t_high
        }
    }

    pub fn new(inv_dir: Scalar, t_low: Scalar, t_high: Scalar) -> (r: Slab)
        ensures
            r == (Slab { inv_dir, t_low, t_high }),
    {
        Slab { inv_dir, t_low, t_high }
    }

    /// Entry and exit parameter, in that order.
    pub fn span(&self) -> (r: (Scalar, Scalar))
        ensures
            r.0 == self.entry(),
            r.1 == self.exit(),
    {
        if self.inv_dir.lt(&Scalar::zero()) {
            (self.t_high, self.t_low)
        } else {
            (self.t_low, self.t_high)
        }
    }
}

impl Slabs {
    /// The latest of `t_min` and the three entries.
    pub open spec fn lower(self, t_min: Scalar) -> Scalar {
        self.z.entry().max_of(self.y.entry().max_of(self.x.entry().max_of(t_min)))
    }

    /// The earliest of `t_max` and the three exits.
    pub open spec fn upper(self, t_max: Scalar) -> Scalar {
        self.z.exit().min_of(self.y.exit().min_of(self.x.exit().min_of(t_max)))
    }

    /// The ray is inside all three slabs over a stretch of `(t_min, t_max)` that
    /// has length.
    pub open spec fn overlap(self, t_min: Scalar, t_max: Scalar) -> bool {
        !self.upper(t_max).num_le(self.lower(t_min))
    }

    pub fn new(x: Slab, y: Slab, z: Slab) -> (r: Slabs)
        ensures
            r == (Slabs { x, y, z }),
    {
        Slabs { x, y, z }
    }
}

impl AABB {
    /// No corner coordinate is NaN.
    pub open spec fn is_number(self) -> bool {
        self.min.is_number() && self.max.is_number()
    }

    /// Every point of `inner` lies in `self`, coordinate by coordinate.
    pub open spec fn encloses(self, inner: AABB) -> bool {
        &&& self.min.x.key <= inner.min.x.key
        &&& self.min.y.key <= inner.min.y.key
        &&& self.min.z.key <= inner.min.z.key
        &&& inner.max.x.key <= self.max.x.key
        &&& inner.max.y.key <= self.max.y.key
        &&& inner.max.z.key <= self.max.z.key
    }

    /// The smallest box around both: component by component the lesser of the
    /// lower corners and the greater of the upper corners.
    pub open spec fn union_of(self, other: AABB) -> AABB {
        AABB {
            min: Vec3 {
                x: self.min.x.min_of(other.min.x),
                y: self.min.y.min_of(other.min.y),
                z: self.min.z.min_of(other.min.z),
            },
            max: Vec3 {
                x: self.max.x.max_of(other.max.x),
                y: self.max.y.max_of(other.max.y),
                z: self.max.z.max_of(other.max.z),
            },
        }
    }

    pub fn new(min: Vec3, max: Vec3) -> (r: AABB)
        ensures
            r == (AABB { min, max }),
    {
        AABB { min, max }
    }

    pub fn min(&self) -> (r: Vec3)
        ensures
            r == self.min,
    {
        self.min
    }

    pub fn max(&self) -> (r: Vec3)
        ensures
            r == self.max,
    {
        self.max
    }

    /// The slab test. The three slabs narrow `(t_min, t_max)` in turn, and the box
    /// is hit when the stretch that is left has length.
    pub fn hit(slabs: &Slabs, t_min: Scalar, t_max: Scalar) -> (r: bool)
        ensures
            r == slabs.overlap(t_min, t_max),
    {
        let (x_in, x_out) = slabs.x.span();
        let lo_x = x_in.max(&t_min);
        let hi_x = x_out.min(&t_max);
        if hi_x.le(&lo_x) {
            return false;
        }
        let (y_in, y_out) = slabs.y.span();
        let lo_y = y_in.max(&lo_x);
        let hi_y = y_out.min(&hi_x);
        if hi_y.le(&lo_y) {
            return false;
        }
        let (z_in, z_out) = slabs.z.span();
        let lo_z = z_in.max(&lo_y);
        let hi_z = z_out.min(&hi_y);
        !hi_z.le(&lo_z)
    }
}

impl Default for AABB {
    /// The empty box at the origin.
    fn default() -> (r: AABB)
        ensures
            r.min.x.key == 0 && r.min.y.key == 0 && r.min.z.key == 0,
            r.max.x.key == 0 && r.max.y.key == 0 && r.max.z.key == 0,
    {
        AABB { min: Vec3::zero(), max: Vec3::zero() }
    }
}

pub fn surrounding_box(box0: AABB, box1: AABB) -> (r: AABB)
    ensures
        r == box0.union_of(box1),
{
    let min = Vec3::new(
        box0.min().x().min(&box1.min().x()),
        box0.min().y().min(&box1.min().y()),
        box0.min().z().min(&box1.min().z()),
    );
    let max = Vec3::new(
        box0.max().x().max(&box1.max().x()),
        box0.max().y().max(&box1.max().y()),
        box0.max().z().max(&box1.max().z()),
    );
    AABB { min, max }
}

/// The box with nothing in it: its lower corner at plus infinity, its upper
/// corner at minus infinity.
pub open spec fn empty_box() -> AABB {
    AABB {
        min: Vec3 { x: Scalar { key: INF_KEY }, y: Scalar { key: INF_KEY }, z: Scalar { key: INF_KEY } },
        max: Vec3 {
            x: Scalar { key: NEG_INF_KEY },
            y: Scalar { key: NEG_INF_KEY },
            z: Scalar { key: NEG_INF_KEY },
        },
    }
}

/// The point as a box.
pub open spec fn point_box(p: Vec3) -> AABB {
    AABB { min: p, max: p }
}

/// The smallest box around the points: the empty box united with each point in
/// turn.
pub open spec fn hull(points: Seq<Vec3>) -> AABB
    decreases points.len(),
{
    if points.len() == 0 {
        empty_box()
    } else {
        hull(points.drop_last()).union_of(point_box(points.last()))
    }
}

/// The smallest box around the given points.
pub fn enclosing_box(points: &Vec<Vec3>) -> (r: AABB)
    ensures
        r == hull(points@),
{
    let mut out = AABB {
        min: Vec3::new(Scalar::infinity(), Scalar::infinity(), Scalar::infinity()),
        max: Vec3::new(Scalar::neg_infinity(), Scalar::neg_infinity(), Scalar::neg_infinity()),
    };
    let mut i: usize = 0;
    while i < points.len()
        invariant
            i <= points@.len(),
            out == hull(points@.take(i as int)),
        decreases points@.len() - i,
    {
        proof {
            assert(points@.take(i + 1).drop_last() == points@.take(i as int));
            assert(points@.take(i + 1).last() == points@[i as int]);
        }
        let p = points[i];
        out = surrounding_box(out, AABB { min: p, max: p });
        i += 1;
    }
    proof {
        assert(points@.take(i as int) == points@);
    }
    out
}

/// The hull of points that are numbers holds every one of them, and each of its
/// faces passes through one of them.
pub proof fn hull_is_tight(points: Seq<Vec3>)
    requires
        forall|i: int| 0 <= i < points.len() ==> (#[trigger] points[i]).is_number(),
    ensures
        hull(points).is_number(),
        forall|i: int|
            0 <= i < points.len() ==> hull(points).encloses(point_box(#[trigger] points[i])),
        points.len() > 0 ==> {
            &&& exists|i: int| 0 <= i < points.len() && hull(points).min.x == (#[trigger] points[i]).x
            &&& exists|i: int| 0 <= i < points.len() && hull(points).min.y == (#[trigger] points[i]).y
            &&& exists|i: int| 0 <= i < points.len() && hull(points).min.z == (#[trigger] points[i]).z
            &&& exists|i: int| 0 <= i < points.len() && hull(points).max.x == (#[trigger] points[i]).x
            &&& exists|i: int| 0 <= i < points.len() && hull(points).max.y == (#[trigger] points[i]).y
            &&& exists|i: int| 0 <= i < points.len() && hull(points).max.z == (#[trigger] points[i]).z
        },
    decreases points.len(),
{
    if points.len() > 0 {
        let front = points.drop_last();
        let last = points.last();
        let n = points.len() - 1;
        assert(points[n] == last);
        assert forall|i: int| 0 <= i < front.len() implies (#[trigger] front[i]).is_number() by {
            assert(front[i] == points[i]);
        }
        hull_is_tight(front);
        let h = hull(points);
        assert forall|i: int| 0 <= i < points.len() implies h.encloses(
            point_box(#[trigger] points[i]),
        ) by {
            if i < n {
                assert(front[i] == points[i]);
                assert(hull(front).encloses(point_box(front[i])));
            }
        }
        if front.len() > 0 {
            let a = choose|i: int| 0 <= i < front.len() && hull(front).min.x == (#[trigger] front[i]).x;
            assert(points[a] == front[a]);
            assert(h.min.x == points[a].x || h.min.x == points[n].x);
            let a = choose|i: int| 0 <= i < front.len() && hull(front).min.y == (#[trigger] front[i]).y;
            assert(points[a] == front[a]);
            assert(h.min.y == points[a].y || h.min.y == points[n].y);
            let a = choose|i: int| 0 <= i < front.len() && hull(front).min.z == (#[trigger] front[i]).z;
            assert(points[a] == front[a]);
            assert(h.min.z == points[a].z || h.min.z == points[n].z);
            let a = choose|i: int| 0 <= i < front.len() && hull(front).max.x == (#[trigger] front[i]).x;
            assert(points[a] == front[a]);
            assert(h.max.x == points[a].x || h.max.x == points[n].x);
            let a = choose|i: int| 0 <= i < front.len() && hull(front).max.y == (#[trigger] front[i]).y;
            assert(points[a] == front[a]);
            assert(h.max.y == points[a].y || h.max.y == points[n].y);
            let a = choose|i: int| 0 <= i < front.len() && hull(front).max.z == (#[trigger] front[i]).z;
            assert(points[a] == front[a]);
            assert(h.max.z == points[a].z || h.max.z == points[n].z);
        } else {
            assert(h.min == points[n] && h.max == points[n]);
        }
    }
}

/// The union of two boxes does not depend on their order.
pub proof fn union_commutative(a: AABB, b: AABB)
    ensures
        a.union_of(b) == b.union_of(a),
{
}

/// The union of boxes whose corners are numbers encloses both, and every box
/// that encloses both encloses the union: it has no slack.
pub proof fn union_is_least_enclosure(a: AABB, b: AABB, c: AABB)
    requires
        a.is_number(),
        b.is_number(),
    ensures
        a.union_of(b).is_number(),
        a.union_of(b).encloses(a),
        a.union_of(b).encloses(b),
        c.encloses(a) && c.encloses(b) ==> c.encloses(a.union_of(b)),
{
}

/// Uniting three boxes whose corners are numbers gives the same box however
/// they are grouped.
pub proof fn union_associative(a: AABB, b: AABB, c: AABB)
    requires
        a.is_number(),
        b.is_number(),
        c.is_number(),
    ensures
        a.union_of(b).union_of(c) == a.union_of(b.union_of(c)),
{
}

/// A box that is enclosed adds nothing to a union.
pub proof fn union_absorbs_enclosed(outer: AABB, inner: AABB)
    requires
        outer.is_number(),
        inner.is_number(),
        outer.encloses(inner),
    ensures
        outer.union_of(inner) == outer,
{
}

impl Slabs {
    /// No entry, exit or reciprocal is NaN.
    pub open spec fn is_number(self) -> bool {
        &&& !self.x.inv_dir.is_nan() && !self.x.t_low.is_nan() && !self.x.t_high.is_nan()
        &&& !self.y.inv_dir.is_nan() && !self.y.t_low.is_nan() && !self.y.t_high.is_nan()
        &&& !self.z.inv_dir.is_nan() && !self.z.t_low.is_nan() && !self.z.t_high.is_nan()
    }

    /// The ray parameter `t` lies past `t_min` and past the entry of each slab,
    /// and not past `t_max` nor the exit of any slab.
    pub open spec fn inside_at(self, t: Scalar, t_min: Scalar, t_max: Scalar) -> bool {
        &&& t_min.num_lt(t) && t.num_le(t_max)
        &&& self.x.entry().num_lt(t) && t.num_le(self.x.exit())
        &&& self.y.entry().num_lt(t) && t.num_le(self.y.exit())
        &&& self.z.entry().num_lt(t) && t.num_le(self.z.exit())
    }
}

/// What the slab test decides, for numbers: the box is hit exactly when some ray
/// parameter within the bounds lies inside all three slabs.
pub proof fn overlap_means_a_point_inside(slabs: Slabs, t_min: Scalar, t_max: Scalar)
    requires
        slabs.is_number(),
        !t_min.is_nan(),
        !t_max.is_nan(),
    ensures
        slabs.overlap(t_min, t_max) <==> exists|t: Scalar|
            !t.is_nan() && #[trigger] slabs.inside_at(t, t_min, t_max),
{
    let ins = (slabs.x.entry(), slabs.y.entry(), slabs.z.entry());
    let outs = (slabs.x.exit(), slabs.y.exit(), slabs.z.exit());
    let lower = slabs.lower(t_min);
    let upper = slabs.upper(t_max);
    running_min_max_bounds(ins, t_min, t_min);
    running_min_max_bounds(outs, t_max, t_max);
    if slabs.overlap(t_min, t_max) {
        running_min_max_bounds(ins, t_min, upper);
        running_min_max_bounds(outs, t_max, upper);
        assert(lower.num_lt(upper));
        assert(upper.num_le(upper));
        assert(slabs.inside_at(upper, t_min, t_max));
    }
    assert forall|t: Scalar| !t.is_nan() && #[trigger] slabs.inside_at(t, t_min, t_max) implies slabs.overlap(
        t_min,
        t_max,
    ) by {
        running_min_max_bounds(ins, t_min, t);
        running_min_max_bounds(outs, t_max, t);
        assert(lower.num_lt(t) && t.num_le(upper));
    }
}

impl Slabs {
    /// The ray enters these slabs no later and leaves them no earlier, on every
    /// axis, than it does `narrow`.
    pub open spec fn wider_than(self, narrow: Slabs) -> bool {
        &&& self.x.entry().num_le(narrow.x.entry()) && narrow.x.exit().num_le(self.x.exit())
        &&& self.y.entry().num_le(narrow.y.entry()) && narrow.y.exit().num_le(self.y.exit())
        &&& self.z.entry().num_le(narrow.z.entry()) && narrow.z.exit().num_le(self.z.exit())
    }
}

/// A bound that is NaN bounds nothing: it stands for the infinity on its side.
pub proof fn nan_bounds_are_infinite(slabs: Slabs, t_min: Scalar, t_max: Scalar)
    requires
        slabs.is_number(),
    ensures
        t_min.is_nan() ==> slabs.lower(t_min) == slabs.lower(Scalar { key: NEG_INF_KEY }),
        t_max.is_nan() ==> slabs.upper(t_max) == slabs.upper(Scalar { key: INF_KEY }),
{
    let (a, b, c) = (slabs.x.entry(), slabs.y.entry(), slabs.z.entry());
    let low = Scalar { key: NEG_INF_KEY };
    if t_min.is_nan() {
        assert(a.max_of(t_min) == a.max_of(low));
    }
    let (d, e, f) = (slabs.x.exit(), slabs.y.exit(), slabs.z.exit());
    let high = Scalar { key: INF_KEY };
    if t_max.is_nan() {
        assert(d.min_of(t_max) == d.min_of(high));
    }
}

/// Slabs that are entered no later and left no earlier on every axis are hit
/// whenever the narrower ones are.
pub proof fn wider_slabs_overlap(wide: Slabs, narrow: Slabs, t_min: Scalar, t_max: Scalar)
    requires
        wide.is_number(),
        narrow.is_number(),
        wide.wider_than(narrow),
        narrow.overlap(t_min, t_max),
    ensures
        wide.overlap(t_min, t_max),
{
    let from = if t_min.is_nan() {
        Scalar { key: NEG_INF_KEY }
    } else {
        t_min
    };
    let to = if t_max.is_nan() {
        Scalar { key: INF_KEY }
    } else {
        t_max
    };
    nan_bounds_are_infinite(wide, t_min, t_max);
    nan_bounds_are_infinite(narrow, t_min, t_max);
    let wide_in = (wide.x.entry(), wide.y.entry(), wide.z.entry());
    let narrow_in = (narrow.x.entry(), narrow.y.entry(), narrow.z.entry());
    let wide_out = (wide.x.exit(), wide.y.exit(), wide.z.exit());
    let narrow_out = (narrow.x.exit(), narrow.y.exit(), narrow.z.exit());
    running_min_max_monotone(wide_in, narrow_in, from);
    running_min_max_monotone(narrow_out, wide_out, to);
    wider_interval_has_length(
        wide.lower(from),
        wide.upper(to),
        narrow.lower(from),
        narrow.upper(to),
    );
}

/// Tightening the upper bound of a slab test never turns a miss into a hit.
pub proof fn overlap_monotone(slabs: Slabs, t_min: Scalar, t_max: Scalar, tighter: Scalar)
    requires
        !t_max.is_nan(),
        !tighter.is_nan(),
        tighter.key <= t_max.key,
        slabs.overlap(t_min, tighter),
    ensures
        slabs.overlap(t_min, t_max),
{
}

} // verus!
