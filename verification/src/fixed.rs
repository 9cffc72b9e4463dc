//! Fixed-point scalars with a 16-bit fraction.
//!
//! A scalar holds `v / FX_SCALE` units; every operation clamps its result
//! into `[-FX_MAX, FX_MAX]` so that sums of a few scalars never overflow
//! an `i64`.

use vstd::prelude::*;

verus! {

/// Sub-units per unit: one coordinate unit is `FX_SCALE` raw steps.
pub const FX_SCALE: i64 = 65536;

/// Largest magnitude a well-formed fixed-point scalar may take.
pub const FX_MAX: i64 = 0x100_0000_0000;

/// A scalar lies in the representable fixed-point range.
pub open spec fn fx_ok(v: int) -> bool {
    -(FX_MAX as int) <= v <= FX_MAX as int
}

/// Clamp into the representable range.
pub open spec fn clamp_spec(v: int) -> int {
    if v > FX_MAX as int {
        FX_MAX as int
    } else if v < -(FX_MAX as int) {
        -(FX_MAX as int)
    } else {
        v
    }
}

/// Division truncating toward zero, for a positive divisor.
pub open spec fn trunc_div(p: int, d: int) -> int
    recommends
        d > 0,
{
    if p >= 0 {
        p / d
    } else {
        -((-p) / d)
    }
}

/// Fixed-point product: truncate `a * b / FX_SCALE` toward zero, then clamp.
pub open spec fn fx_mul_spec(a: int, b: int) -> int {
    clamp_spec(trunc_div(a * b, FX_SCALE as int))
}

pub fn clamp_fx(v: i64) -> (r: i64)
    ensures
        r as int == clamp_spec(v as int),
{
    if v > FX_MAX {
        FX_MAX
    } else if v < -FX_MAX {
        -FX_MAX
    } else {
        v
    }
}

pub fn fx_mul(a: i64, b: i64) -> (r: i64)
    ensures
        r as int == fx_mul_spec(a as int, b as int),
        fx_ok(r as int),
{
    proof {
        assert((a as int) * (b as int) <= 0x8000_0000_0000_0000i128 * 0x8000_0000_0000_0000i128
            && (a as int) * (b as int) >= -(0x8000_0000_0000_0000i128 * 0x8000_0000_0000_0000i128))
            by (nonlinear_arith)
            requires
                -0x8000_0000_0000_0000i128 <= a as int <= 0x7FFF_FFFF_FFFF_FFFFi128,
                -0x8000_0000_0000_0000i128 <= b as int <= 0x7FFF_FFFF_FFFF_FFFFi128,
        ;
    }
    let p: i128 = (a as i128) * (b as i128);
    let neg: bool = p < 0;
    let m: u128 = if neg {
        (-p) as u128
    } else {
        p as u128
    };
    let q: u128 = m / (FX_SCALE as u128);
    let qc: u128 = if q > FX_MAX as u128 {
        FX_MAX as u128
    } else {
        q
    };
    let r: i64 = if neg {
        -(qc as i64)
    } else {
        qc as i64
    };
    r
}

/// `r` is the integer square root of `n`.
pub open spec fn is_sqrt(n: int, r: int) -> bool {
    0 <= r && r * r <= n && n < (r + 1) * (r + 1)
}

/// The integer square root, as a function of `n`.
pub open spec fn sqrt_spec(n: int) -> int {
    choose|r: int| is_sqrt(n, r)
}

pub proof fn lemma_sqrt_unique(n: int, r1: int, r2: int)
    requires
        is_sqrt(n, r1),
        is_sqrt(n, r2),
    ensures
        r1 == r2,
{
    assert(!(r1 < r2) && !(r2 < r1)) by (nonlinear_arith)
        requires
            0 <= r1 && r1 * r1 <= n && n < (r1 + 1) * (r1 + 1),
            0 <= r2 && r2 * r2 <= n && n < (r2 + 1) * (r2 + 1),
    ;
}

/// A square below `n` has its root bounded by the root of `n`.
pub proof fn lemma_abs_le_sqrt(d: int, n: int, r: int)
    requires
        is_sqrt(n, r),
        d * d <= n,
    ensures
        -r <= d <= r,
{
    assert(-r <= d <= r) by (nonlinear_arith)
        requires
            0 <= r && r * r <= n && n < (r + 1) * (r + 1),
            d * d <= n,
    ;
}

/// Integer square root by bisection.
pub fn isqrt(n: u128) -> (r: u128)
    requires
        n < 0x10_0000_0000_0000_0000_0000u128,
    ensures
        is_sqrt(n as int, r as int),
        r as int == sqrt_spec(n as int),
        r <= 0x400_0000_0000u128,
{
    let mut lo: u128 = 0;
    let mut hi: u128 = 0x400_0000_0000;
    assert((0x400_0000_0000 as int) * (0x400_0000_0000 as int)
        == 0x10_0000_0000_0000_0000_0000 as int);
    while hi - lo > 1
        invariant
            (lo as int) * (lo as int) <= n as int,
            (n as int) < (hi as int) * (hi as int),
            lo < hi <= 0x400_0000_0000u128,
        decreases hi - lo,
    {
        let mid: u128 = lo + (hi - lo) / 2;
        proof {
            assert((mid as int) * (mid as int) <= 0x10_0000_0000_0000_0000_0000 as int)
                by (nonlinear_arith)
                requires
                    0 <= mid as int <= 0x400_0000_0000 as int,
            ;
        }
        if mid * mid <= n {
            lo = mid;
        } else {
            hi = mid;
        }
    }
    proof {
        assert(hi == lo + 1);
        assert(is_sqrt(n as int, lo as int));
        assert(is_sqrt(n as int, sqrt_spec(n as int))) by {
            let w = lo as int;
            assert(is_sqrt(n as int, w));
        };
        lemma_sqrt_unique(n as int, lo as int, sqrt_spec(n as int));
    }
    lo
}

/// `d * half / len` truncated toward zero.
pub open spec fn scaled_spec(d: int, half: int, len: int) -> int
    recommends
        len > 0,
        half >= 0,
{
    if d >= 0 {
        (d * half) / len
    } else {
        -(((-d) * half) / len)
    }
}

/// Scale `d` by `half / len`; the result magnitude never exceeds `half`.
pub fn scaled_div(d: i64, half: i64, len: u128) -> (r: i64)
    requires
        1 <= len <= 0x400_0000_0000u128,
        0 <= half <= FX_MAX as int,
        -(len as int) <= d as int <= len as int,
    ensures
        r as int == scaled_spec(d as int, half as int, len as int),
        -half <= r <= half,
{
    let neg: bool = d < 0;
    let mag: u128 = if neg {
        (-d) as u128
    } else {
        d as u128
    };
    proof {
        assert(mag as int * (half as int) <= len as int * (half as int)) by (nonlinear_arith)
            requires
                0 <= mag as int <= len as int,
                0 <= half as int,
        ;
        assert(len as int * (half as int) < 0x1_0000_0000_0000_0000_0000_0000_0000_0000int)
            by (nonlinear_arith)
            requires
                0 <= len as int <= 0x400_0000_0000int,
                0 <= half as int <= FX_MAX as int,
        ;
    }
    let prod: u128 = mag * (half as u128);
    let q: u128 = prod / len;
    proof {
        vstd::arithmetic::div_mod::lemma_div_is_ordered(
            prod as int,
            (len as int) * (half as int),
            len as int,
        );
        vstd::arithmetic::div_mod::lemma_div_multiples_vanish(half as int, len as int);
    }
    let r: i64 = if neg {
        -(q as i64)
    } else {
        q as i64
    };
    r
}

} // verus!
