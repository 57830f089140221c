//! Scalars: binary64 values in sortable integer form.
//!
//! A binary64 bit pattern `b`, read as a signed 64-bit integer, becomes the key
//! `b` when its sign bit is clear and `b` with its low 63 bits flipped otherwise.
//! Keys then increase exactly as the IEEE 754 total order does:
//!
//! ```text
//!   -NaN < -inf < ... < -0 (key -1) < +0 (key 0) < ... < +inf < +NaN
//! ```
//!
//! Flipping the sign of a value is the bitwise complement of its key.

use vstd::prelude::*;

verus! {

/// Key of positive infinity; every larger key is a NaN.
pub const INF_KEY: i64 = 0x7FF0_0000_0000_0000;

/// Key of negative infinity; every smaller key is a NaN.
pub const NEG_INF_KEY: i64 = -0x7FF0_0000_0000_0001;

/// Key of the number one.
pub const ONE_KEY: i64 = 0x3FF0_0000_0000_0000;

/// Key of the tolerance under which a vector component counts as zero (1e-8).
pub const EPS_KEY: i64 = 0x3E45_798E_E230_8C3A;

#[derive(Clone, Copy, Debug, PartialEq, Eq, Structural)]
pub struct Scalar {
    pub key: i64,
}

impl Scalar {
    /// Neither a number nor an infinity.
    pub open spec fn is_nan(self) -> bool {
        self.key > INF_KEY || self.key < NEG_INF_KEY
    }

    /// One of the two zeros.
    pub open spec fn is_zero(self) -> bool {
        self.key == 0 || self.key == -1
    }

    /// Numeric equality: false when either side is NaN, and the two zeros are equal.
    pub open spec fn num_eq(self, other: Scalar) -> bool {
        !self.is_nan() && !other.is_nan() && (self.key == other.key || (self.is_zero()
            && other.is_zero()))
    }

    /// Numeric `<`: false when either side is NaN, and the two zeros are equal.
    pub open spec fn num_lt(self, other: Scalar) -> bool {
        !self.is_nan() && !other.is_nan() && self.key < other.key && !(self.is_zero()
            && other.is_zero())
    }

    /// Numeric `<=`.
    pub open spec fn num_le(self, other: Scalar) -> bool {
        self.num_lt(other) || self.num_eq(other)
    }

    /// The value with its sign flipped.
    pub open spec fn negated(self) -> Scalar {
        Scalar { key: (-self.key - 1) as i64 }
    }

    /// The value with its sign cleared.
    pub open spec fn magnitude(self) -> Scalar {
        if self.key < 0 {
            self.negated()
        } else {
            self
        }
    }

    /// The smaller of two values, a NaN giving way to a number. Of two zeros, or
    /// two NaNs, the one with the smaller key is taken.
    pub open spec fn min_of(self, other: Scalar) -> Scalar {
        if self.is_nan() && !other.is_nan() {
            other
        } else if other.is_nan() && !self.is_nan() {
            self
        } else if self.key <= other.key {
            self
        } else {
            other
        }
    }

    /// The larger of two values, a NaN giving way to a number. Of two zeros, or
    /// two NaNs, the one with the larger key is taken.
    pub open spec fn max_of(self, other: Scalar) -> Scalar {
        if self.is_nan() && !other.is_nan() {
            other
        } else if other.is_nan() && !self.is_nan() {
            self
        } else if self.key >= other.key {
            self
        } else {
            other
        }
    }

    pub fn from_key(key: i64) -> (r: Scalar)
        ensures
            r.key == key,
    {
        Scalar { key }
    }

    pub fn key(&self) -> (r: i64)
        ensures
            r == self.key,
    {
        self.key
    }

    pub fn zero() -> (r: Scalar)
        ensures
            r.key == 0,
    {
        Scalar { key: 0 }
    }

    pub fn one() -> (r: Scalar)
        ensures
            r.key == ONE_KEY,
    {
        Scalar { key: ONE_KEY }
    }

    pub fn infinity() -> (r: Scalar)
        ensures
            r.key == INF_KEY,
    {
        Scalar { key: INF_KEY }
    }

    pub fn neg_infinity() -> (r: Scalar)
        ensures
            r.key == NEG_INF_KEY,
    {
        Scalar { key: NEG_INF_KEY }
    }

    pub fn nan(&self) -> (r: bool)
        ensures
            r == self.is_nan(),
    {
        self.key > INF_KEY || self.key < NEG_INF_KEY
    }

    pub fn lt(&self, other: &Scalar) -> (r: bool)
        ensures
            r == self.num_lt(*other),
    {
        !self.nan() && !other.nan() && self.key < other.key && !(self.key == -1 && other.key == 0)
    }

    pub fn le(&self, other: &Scalar) -> (r: bool)
        ensures
            r == self.num_le(*other),
    {
        !self.nan() && !other.nan() && (self.key <= other.key || (self.key == 0 && other.key
            == -1))
    }

    pub fn gt(&self, other: &Scalar) -> (r: bool)
        ensures
            r == other.num_lt(*self),
    {
        other.lt(self)
    }

    pub fn ge(&self, other: &Scalar) -> (r: bool)
        ensures
            r == other.num_le(*self),
    {
        other.le(self)
    }

    pub fn neg(&self) -> (r: Scalar)
        ensures
            r == self.negated(),
    {
        Scalar { key: -1 - self.key }
    }

    pub fn abs(&self) -> (r: Scalar)
        ensures
            r == self.magnitude(),
    {
        if self.key < 0 {
            self.neg()
        } else {
            *self
        }
    }

    pub fn min(&self, other: &Scalar) -> (r: Scalar)
        ensures
            r == self.min_of(*other),
    {
        if self.nan() && !other.nan() {
            *other
        } else if other.nan() && !self.nan() {
            *self
        } else if self.key <= other.key {
            *self
        } else {
            *other
        }
    }

    pub fn max(&self, other: &Scalar) -> (r: Scalar)
        ensures
            r == self.max_of(*other),
    {
        if self.nan() && !other.nan() {
            *other
        } else if other.nan() && !self.nan() {
            *self
        } else if self.key >= other.key {
            *self
        } else {
            *other
        }
    }
}

/// Flipping a sign twice gives the value back, and a flip reverses the order.
pub proof fn negation_laws(a: Scalar, b: Scalar)
    ensures
        a.negated().negated() == a,
        a.negated().is_nan() == a.is_nan(),
        a.num_lt(b) == b.negated().num_lt(a.negated()),
{
}

/// Greater arguments give a `max_of` and a `min_of` that are no less, among
/// numbers.
pub proof fn min_max_monotone(a: Scalar, b: Scalar, c: Scalar, d: Scalar)
    requires
        !a.is_nan() && !b.is_nan() && !c.is_nan() && !d.is_nan(),
        a.num_le(c),
        b.num_le(d),
    ensures
        a.max_of(b).num_le(c.max_of(d)),
        a.min_of(b).num_le(c.min_of(d)),
        !a.max_of(b).is_nan() && !c.max_of(d).is_nan(),
        !a.min_of(b).is_nan() && !c.min_of(d).is_nan(),
{
}

/// Three greater arguments in turn give a running `max_of` and a running
/// `min_of` that are no less, among numbers.
pub proof fn running_min_max_monotone(
    a: (Scalar, Scalar, Scalar),
    b: (Scalar, Scalar, Scalar),
    start: Scalar,
)
    requires
        !a.0.is_nan() && !a.1.is_nan() && !a.2.is_nan(),
        !b.0.is_nan() && !b.1.is_nan() && !b.2.is_nan(),
        !start.is_nan(),
        a.0.num_le(b.0) && a.1.num_le(b.1) && a.2.num_le(b.2),
    ensures
        a.2.max_of(a.1.max_of(a.0.max_of(start))).num_le(b.2.max_of(b.1.max_of(b.0.max_of(start)))),
        a.2.min_of(a.1.min_of(a.0.min_of(start))).num_le(b.2.min_of(b.1.min_of(b.0.min_of(start)))),
{
    min_max_monotone(a.0, start, b.0, start);
    min_max_monotone(a.1, a.0.max_of(start), b.1, b.0.max_of(start));
    min_max_monotone(a.2, a.1.max_of(a.0.max_of(start)), b.2, b.1.max_of(b.0.max_of(start)));
    min_max_monotone(a.1, a.0.min_of(start), b.1, b.0.min_of(start));
    min_max_monotone(a.2, a.1.min_of(a.0.min_of(start)), b.2, b.1.min_of(b.0.min_of(start)));
}

/// Among numbers, `t` is above a running `max_of` exactly when it is above every
/// argument, and at or below a running `min_of` exactly when it is at or below
/// every argument.
pub proof fn running_min_max_bounds(a: (Scalar, Scalar, Scalar), start: Scalar, t: Scalar)
    requires
        !a.0.is_nan() && !a.1.is_nan() && !a.2.is_nan(),
        !start.is_nan(),
        !t.is_nan(),
    ensures
        !a.2.max_of(a.1.max_of(a.0.max_of(start))).is_nan(),
        !a.2.min_of(a.1.min_of(a.0.min_of(start))).is_nan(),
        a.2.max_of(a.1.max_of(a.0.max_of(start))).num_lt(t) <==> a.0.num_lt(t) && a.1.num_lt(t)
            && a.2.num_lt(t) && start.num_lt(t),
        t.num_le(a.2.min_of(a.1.min_of(a.0.min_of(start)))) <==> t.num_le(a.0) && t.num_le(a.1)
            && t.num_le(a.2) && t.num_le(start),
{
    let m1 = a.0.max_of(start);
    let m2 = a.1.max_of(m1);
    assert(m1.num_lt(t) <==> a.0.num_lt(t) && start.num_lt(t));
    assert(m2.num_lt(t) <==> a.1.num_lt(t) && m1.num_lt(t));
    let n1 = a.0.min_of(start);
    let n2 = a.1.min_of(n1);
    assert(t.num_le(n1) <==> t.num_le(a.0) && t.num_le(start));
    assert(t.num_le(n2) <==> t.num_le(a.1) && t.num_le(n1));
}

/// An interval that holds one with length has length itself.
pub proof fn wider_interval_has_length(lo: Scalar, hi: Scalar, inner_lo: Scalar, inner_hi: Scalar)
    requires
        lo.num_le(inner_lo),
        inner_hi.num_le(hi),
        !inner_hi.num_le(inner_lo),
    ensures
        !hi.num_le(lo),
{
}

/// `min_of` and `max_of` do not depend on the order of their arguments, return
/// one of them, and bound both whenever neither is NaN.
pub proof fn min_max_laws(a: Scalar, b: Scalar)
    ensures
        a.min_of(b) == b.min_of(a),
        a.max_of(b) == b.max_of(a),
        a.min_of(b) == a || a.min_of(b) == b,
        a.max_of(b) == a || a.max_of(b) == b,
        !a.is_nan() && !b.is_nan() ==> a.min_of(b).key <= a.key && a.min_of(b).key <= b.key,
        !a.is_nan() && !b.is_nan() ==> a.max_of(b).key >= a.key && a.max_of(b).key >= b.key,
{
}

} // verus!
