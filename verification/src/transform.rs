//! 2D points and 3x3 homogeneous transforms in fixed-point.

use vstd::prelude::*;

use crate::fixed::clamp_fx;
use crate::fixed::clamp_spec;
use crate::fixed::fx_mul;
use crate::fixed::fx_mul_spec;
use crate::fixed::fx_ok;
use crate::fixed::FX_SCALE;

verus! {

/// A 2D point, both fixed-point coordinates.
#[derive(Clone, Copy, Debug, PartialEq, Eq, Structural)]
pub struct Point {
    pub x: i64,
    pub y: i64,
}

/// Both coordinates are representable fixed-point scalars.
pub open spec fn point_ok(p: Point) -> bool {
    fx_ok(p.x as int) && fx_ok(p.y as int)
}

/// A 3x3 matrix over homogeneous 2D coordinates, row by row.
#[derive(Clone, Copy, Debug, PartialEq, Eq, Structural)]
pub struct Transform {
    pub m00: i64,
    pub m01: i64,
    pub m02: i64,
    pub m10: i64,
    pub m11: i64,
    pub m12: i64,
    pub m20: i64,
    pub m21: i64,
    pub m22: i64,
}

/// Every entry is a representable fixed-point scalar.
pub open spec fn transform_ok(t: Transform) -> bool {
    fx_ok(t.m00 as int) && fx_ok(t.m01 as int) && fx_ok(t.m02 as int) && fx_ok(t.m10 as int)
        && fx_ok(t.m11 as int) && fx_ok(t.m12 as int) && fx_ok(t.m20 as int) && fx_ok(
        t.m21 as int,
    ) && fx_ok(t.m22 as int)
}

/// The identity transform.
pub open spec fn identity_spec() -> Transform {
    Transform {
        m00: FX_SCALE,
        m01: 0,
        m02: 0,
        m10: 0,
        m11: FX_SCALE,
        m12: 0,
        m20: 0,
        m21: 0,
        m22: FX_SCALE,
    }
}

/// One entry of a matrix product: a clamped sum of three fixed-point products.
pub open spec fn dot3_spec(a0: int, b0: int, a1: int, b1: int, a2: int, b2: int) -> int {
    clamp_spec(fx_mul_spec(a0, b0) + fx_mul_spec(a1, b1) + fx_mul_spec(a2, b2))
}

/// Matrix product `a * b`, entry by entry.
pub open spec fn compose_spec(a: Transform, b: Transform) -> Transform {
    Transform {
        m00: dot3_spec(a.m00 as int, b.m00 as int, a.m01 as int, b.m10 as int, a.m02 as int, b.m20 as int) as i64,
        m01: dot3_spec(a.m00 as int, b.m01 as int, a.m01 as int, b.m11 as int, a.m02 as int, b.m21 as int) as i64,
        m02: dot3_spec(a.m00 as int, b.m02 as int, a.m01 as int, b.m12 as int, a.m02 as int, b.m22 as int) as i64,
        m10: dot3_spec(a.m10 as int, b.m00 as int, a.m11 as int, b.m10 as int, a.m12 as int, b.m20 as int) as i64,
        m11: dot3_spec(a.m10 as int, b.m01 as int, a.m11 as int, b.m11 as int, a.m12 as int, b.m21 as int) as i64,
        m12: dot3_spec(a.m10 as int, b.m02 as int, a.m11 as int, b.m12 as int, a.m12 as int, b.m22 as int) as i64,
        m20: dot3_spec(a.m20 as int, b.m00 as int, a.m21 as int, b.m10 as int, a.m22 as int, b.m20 as int) as i64,
        m21: dot3_spec(a.m20 as int, b.m01 as int, a.m21 as int, b.m11 as int, a.m22 as int, b.m21 as int) as i64,
        m22: dot3_spec(a.m20 as int, b.m02 as int, a.m21 as int, b.m12 as int, a.m22 as int, b.m22 as int) as i64,
    }
}

/// Apply `t` to `p`: the first two rows of `t * [x, y, 1]`.
pub open spec fn apply_spec(t: Transform, p: Point) -> Point {
    Point {
        x: clamp_spec(
            fx_mul_spec(t.m00 as int, p.x as int) + fx_mul_spec(t.m01 as int, p.y as int)
                + t.m02 as int,
        ) as i64,
        y: clamp_spec(
            fx_mul_spec(t.m10 as int, p.x as int) + fx_mul_spec(t.m11 as int, p.y as int)
                + t.m12 as int,
        ) as i64,
    }
}

impl Point {
    pub fn new(x: i64, y: i64) -> (p: Point)
        ensures
            p == (Point { x, y }),
    {
        Point { x, y }
    }
}

impl Transform {
    pub fn identity() -> (t: Transform)
        ensures
            t == identity_spec(),
    {
        Transform {
            m00: FX_SCALE,
            m01: 0,
            m02: 0,
            m10: 0,
            m11: FX_SCALE,
            m12: 0,
            m20: 0,
            m21: 0,
            m22: FX_SCALE,
        }
    }

    /// Matrix product `self * rhs`.
    pub fn compose(self, rhs: Transform) -> (r: Transform)
        ensures
            r == compose_spec(self, rhs),
            transform_ok(r),
    {
        Transform {
            m00: dot3(self.m00, rhs.m00, self.m01, rhs.m10, self.m02, rhs.m20),
            m01: dot3(self.m00, rhs.m01, self.m01, rhs.m11, self.m02, rhs.m21),
            m02: dot3(self.m00, rhs.m02, self.m01, rhs.m12, self.m02, rhs.m22),
            m10: dot3(self.m10, rhs.m00, self.m11, rhs.m10, self.m12, rhs.m20),
            m11: dot3(self.m10, rhs.m01, self.m11, rhs.m11, self.m12, rhs.m21),
            m12: dot3(self.m10, rhs.m02, self.m11, rhs.m12, self.m12, rhs.m22),
            m20: dot3(self.m20, rhs.m00, self.m21, rhs.m10, self.m22, rhs.m20),
            m21: dot3(self.m20, rhs.m01, self.m21, rhs.m11, self.m22, rhs.m21),
            m22: dot3(self.m20, rhs.m02, self.m21, rhs.m12, self.m22, rhs.m22),
        }
    }

    /// Apply `self` to a point; the result is always representable.
    pub fn apply(self, p: Point) -> (r: Point)
        requires
            transform_ok(self),
        ensures
            r == apply_spec(self, p),
            point_ok(r),
    {
        let xa: i64 = fx_mul(self.m00, p.x);
        let xb: i64 = fx_mul(self.m01, p.y);
        let ya: i64 = fx_mul(self.m10, p.x);
        let yb: i64 = fx_mul(self.m11, p.y);
        Point { x: clamp_fx(xa + xb + self.m02), y: clamp_fx(ya + yb + self.m12) }
    }
}

fn dot3(a0: i64, b0: i64, a1: i64, b1: i64, a2: i64, b2: i64) -> (r: i64)
    ensures
        r as int == dot3_spec(a0 as int, b0 as int, a1 as int, b1 as int, a2 as int, b2 as int),
        fx_ok(r as int),
{
    let p0: i64 = fx_mul(a0, b0);
    let p1: i64 = fx_mul(a1, b1);
    let p2: i64 = fx_mul(a2, b2);
    clamp_fx(p0 + p1 + p2)
}

/// Composing the identity with a well-formed transform changes nothing.
pub proof fn lemma_identity_compose(t: Transform)
    requires
        transform_ok(t),
    ensures
        compose_spec(identity_spec(), t) == t,
{
    lemma_scale_mul(t.m00 as int);
    lemma_scale_mul(t.m01 as int);
    lemma_scale_mul(t.m02 as int);
    lemma_scale_mul(t.m10 as int);
    lemma_scale_mul(t.m11 as int);
    lemma_scale_mul(t.m12 as int);
    lemma_scale_mul(t.m20 as int);
    lemma_scale_mul(t.m21 as int);
    lemma_scale_mul(t.m22 as int);
}

/// Multiplying by the fixed-point unit is exact.
pub proof fn lemma_scale_mul(v: int)
    requires
        fx_ok(v),
    ensures
        fx_mul_spec(FX_SCALE as int, v) == v,
        fx_mul_spec(0, v) == 0,
{
    if v >= 0 {
        vstd::arithmetic::div_mod::lemma_div_multiples_vanish(v, FX_SCALE as int);
    } else {
        vstd::arithmetic::div_mod::lemma_div_multiples_vanish(-v, FX_SCALE as int);
        assert((FX_SCALE as int) * v == -((FX_SCALE as int) * (-v))) by (nonlinear_arith);
    }
    assert(0 * v == 0) by (nonlinear_arith);
}

} // verus!
