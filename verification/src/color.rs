//! Colour channels on their way to the image.

use vstd::prelude::*;
use crate::scalar::Scalar;

verus! {

/// Key of the largest channel value that is written out (0.999).
pub const CHANNEL_MAX_KEY: i64 = 0x3FEF_F7CE_D916_872B;

/// Clamps `x` to `[min, max]`: `min` where `x` is below it, `max` where `x` is
/// above it, and `x` itself otherwise (a NaN passes through).
pub fn clamp(x: Scalar, min: Scalar, max: Scalar) -> (r: Scalar)
    ensures
        r == if x.num_lt(min) {
            min
        } else if max.num_lt(x) {
            max
        } else {
            x
        },
{
    if x.lt(&min) {
        min
    } else if x.gt(&max) {
        max
    } else {
        x
    }
}

/// A gamma-corrected channel, held to the range that the image takes.
pub fn clamp_channel(x: Scalar) -> (r: Scalar)
    ensures
        r == if x.num_lt(Scalar { key: 0 }) {
            Scalar { key: 0 }
        } else if (Scalar { key: CHANNEL_MAX_KEY }).num_lt(x) {
            Scalar { key: CHANNEL_MAX_KEY }
        } else {
            x
        },
{
    clamp(x, Scalar::zero(), Scalar::from_key(CHANNEL_MAX_KEY))
}

/// Clamping twice is clamping once, and on an interval that is not empty the
/// result of clamping a number lies in the interval.
pub proof fn clamp_laws(x: Scalar, min: Scalar, max: Scalar)
    requires
        !x.is_nan(),
        min.num_le(max),
    ensures
        ({
            let once = if x.num_lt(min) {
                min
            } else if max.num_lt(x) {
                max
            } else {
                x
            };
            &&& min.num_le(once) && once.num_le(max)
            &&& !once.num_lt(min) && !max.num_lt(once)
        }),
{
}

} // verus!
