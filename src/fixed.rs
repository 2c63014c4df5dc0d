//! Fixed-point coordinates: a real value `v` is held as the integer `v * SCALE`.
use vstd::prelude::*;

verus! {

/// One unit of coordinate space, in fixed-point steps.
pub const SCALE: i64 = 16777216;

/// Largest magnitude a viewport bound or a Julia parameter may take (64.0).
pub const LIMIT: i64 = 1073741824;

/// A point of coordinate space, both components in fixed-point steps.
#[derive(Clone, Copy, Debug, PartialEq, Eq, Structural)]
pub struct Coordinate {
    pub x: i64,
    pub y: i64,
}

/// Both components lie within `[-LIMIT, LIMIT]`.
pub open spec fn within_limit(v: int) -> bool {
    -LIMIT <= v <= LIMIT
}

impl Coordinate {
    pub open spec fn in_limits(self) -> bool {
        within_limit(self.x as int) && within_limit(self.y as int)
    }
}

/// Floor division by `SCALE`: turns a product of two fixed-point values
/// back into a fixed-point value.
pub fn descale(v: i64) -> (r: i64)
    ensures
        r == v as int / SCALE as int,
{
    if v >= 0 {
        v / SCALE
    } else {
        let q = (-(v + 1)) / SCALE;
        proof {
            assert(v as int / SCALE as int == -(q as int) - 1) by (nonlinear_arith)
                requires
                    q == (-(v as int + 1)) / SCALE as int,
                    v < 0,
            ;
        }
        -q - 1
    }
}

/// The fixed-point value nearest below `num / den`.
pub fn from_ratio(num: i32, den: i32) -> (r: i64)
    requires
        den > 0,
    ensures
        r == (num as int * SCALE as int) / den as int,
{
    let p = num as i64 * SCALE;
    let d = den as i64;
    if p >= 0 {
        p / d
    } else {
        let q = (-(p + 1)) / d;
        proof {
            assert(p as int / d as int == -(q as int) - 1) by (nonlinear_arith)
                requires
                    q == (-(p as int + 1)) / d as int,
                    p < 0,
                    d > 0,
            ;
        }
        -q - 1
    }
}

} // verus!
