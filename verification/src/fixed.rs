//! Fixed-point scalar arithmetic for field samples.
//!
//! Every field sample is an `i32` counting units of `1/65536`; `FX_ONE`
//! is the encoding of one.  All pass arithmetic is built from a saturating
//! clamp to the sample range, a truncating division, and the fixed-point
//! product and quotient defined here, so every kernel has an exact
//! mathematical description in terms of `sdiv` and `clamp32`.

use vstd::prelude::*;

verus! {

/// The fixed-point encoding of one: samples are counts of `1/65536`.
pub const FX_ONE: i32 = 65536;

/// `FX_ONE` as a spec-level integer.
pub open spec fn fx_one() -> int {
    65536
}

/// Sign of an integer: one of -1, 0 and 1.
pub open spec fn sgn(n: int) -> int {
    if n > 0 {
        1
    } else if n < 0 {
        -1
    } else {
        0
    }
}

/// Magnitude of an integer.
pub open spec fn iabs(n: int) -> int {
    if n >= 0 {
        n
    } else {
        -n
    }
}

/// Division truncated toward zero, the rounding used by every kernel.
pub open spec fn sdiv(n: int, d: int) -> int
    recommends
        d != 0,
{
    let q = iabs(n) / iabs(d);
    if (n < 0) != (d < 0) {
        -q
    } else {
        q
    }
}

/// A value clamped into `[lo, hi]`.
pub open spec fn clamp_range(v: int, lo: int, hi: int) -> int
    recommends
        lo <= hi,
{
    if v < lo {
        lo
    } else if v > hi {
        hi
    } else {
        v
    }
}

/// `r` is the integer square root of `n`.
pub open spec fn is_isqrt(n: int, r: int) -> bool {
    &&& 0 <= r
    &&& r * r <= n
    &&& n < (r + 1) * (r + 1)
}

/// The integer square root of a nonnegative `n`.
pub open spec fn isqrt_s(n: int) -> int
    recommends
        n >= 0,
{
    choose|r: int| is_isqrt(n, r)
}

/// The integer square root is unique.
pub proof fn lemma_isqrt_unique(n: int, r1: int, r2: int)
    requires
        is_isqrt(n, r1),
        is_isqrt(n, r2),
    ensures
        r1 == r2,
{
    assert(r1 == r2) by (nonlinear_arith)
        requires
            0 <= r1 && r1 * r1 <= n && n < (r1 + 1) * (r1 + 1),
            0 <= r2 && r2 * r2 <= n && n < (r2 + 1) * (r2 + 1),
    ;
}

/// Compute the integer square root by binary search.
pub fn isqrt64(n: u64) -> (r: u64)
    ensures
        is_isqrt(n as int, r as int),
        r as int == isqrt_s(n as int),
{
    let mut lo: u64 = 0;
    let mut hi: u64 = 4294967296;
    proof {
        assert(4294967296int * 4294967296int > u64::MAX as int) by (nonlinear_arith);
    }
    while lo + 1 < hi
        invariant
            lo < hi <= 4294967296,
            lo as int * lo as int <= n as int,
            (n as int) < hi as int * hi as int,
        decreases hi - lo,
    {
        let mid = lo + (hi - lo) / 2;
        proof {
            assert(mid as int * mid as int <= 0xffff_fffe_0000_0001) by (nonlinear_arith)
                requires
                    mid <= 4294967295int,
            ;
        }
        if mid * mid <= n {
            lo = mid;
        } else {
            hi = mid;
        }
    }
    proof {
        assert(is_isqrt(n as int, lo as int));
        assert(is_isqrt(n as int, isqrt_s(n as int))) by {
            assert(exists|q: int| is_isqrt(n as int, q)) by {
                assert(is_isqrt(n as int, lo as int));
            }
        }
        lemma_isqrt_unique(n as int, lo as int, isqrt_s(n as int));
    }
    lo
}

/// Saturation of an intermediate result to the `i32` sample range.
pub open spec fn clamp32(v: int) -> int {
    if v < i32::MIN as int {
        i32::MIN as int
    } else if v > i32::MAX as int {
        i32::MAX as int
    } else {
        v
    }
}

/// The fixed-point product of two samples, saturated to the sample range.
pub open spec fn fx_mul_s(a: i32, b: i32) -> i32 {
    clamp32(sdiv(a as int * b as int, fx_one())) as i32
}

/// The fixed-point quotient of two samples, saturated to the sample range.
pub open spec fn fx_div_s(a: i32, b: i32) -> i32
    recommends
        b != 0,
{
    clamp32(sdiv(a as int * fx_one(), b as int)) as i32
}

/// Saturate a 64-bit intermediate to the 32-bit sample range.
pub fn clamp_to_i32(v: i64) -> (r: i32)
    ensures
        r as int == clamp32(v as int),
{
    if v < i32::MIN as i64 {
        i32::MIN
    } else if v > i32::MAX as i64 {
        i32::MAX
    } else {
        v as i32
    }
}

/// Truncating division of a 64-bit intermediate by a positive divisor.
pub fn tdiv64(n: i64, d: u64) -> (r: i64)
    requires
        0 < d <= i64::MAX as u64,
        n > i64::MIN,
    ensures
        r as int == sdiv(n as int, d as int),
{
    if n >= 0 {
        let q = (n as u64) / d;
        proof {
            vstd::arithmetic::div_mod::lemma_div_nonincreasing(n as int, d as int);
            vstd::arithmetic::div_mod::lemma_div_pos_is_pos(n as int, d as int);
        }
        q as i64
    } else {
        let m = (-n) as u64;
        let q = m / d;
        proof {
            vstd::arithmetic::div_mod::lemma_div_nonincreasing(m as int, d as int);
            vstd::arithmetic::div_mod::lemma_div_pos_is_pos(m as int, d as int);
        }
        -(q as i64)
    }
}

/// The fixed-point product of two samples.
pub fn fx_mul(a: i32, b: i32) -> (r: i32)
    ensures
        r == fx_mul_s(a, b),
{
    proof {
        assert((a as int) * (b as int) <= 0x4000_0000_0000_0000 && (a as int) * (b as int)
            >= -0x4000_0000_0000_0000) by (nonlinear_arith)
            requires
                i32::MIN <= a <= i32::MAX,
                i32::MIN <= b <= i32::MAX,
        ;
    }
    let wide = (a as i64) * (b as i64);
    let q = tdiv64(wide, 65536);
    clamp_to_i32(q)
}

/// The fixed-point quotient of two samples.
pub fn fx_div(a: i32, b: i32) -> (r: i32)
    requires
        b != 0,
    ensures
        r == fx_div_s(a, b),
{
    let wide = (a as i64) * 65536;
    let neg = (a < 0) != (b < 0);
    let ma = if wide >= 0 {
        wide as u64
    } else {
        (-wide) as u64
    };
    let mb = if b >= 0 {
        b as u64
    } else {
        -(b as i64) as u64
    };
    let q = ma / mb;
    proof {
        vstd::arithmetic::div_mod::lemma_div_nonincreasing(ma as int, mb as int);
        vstd::arithmetic::div_mod::lemma_div_pos_is_pos(ma as int, mb as int);
        assert(ma as int == iabs(a as int * fx_one()));
        assert(mb as int == iabs(b as int));
        assert(neg == ((a as int * fx_one() < 0) != ((b as int) < 0))) by {
            assert(a < 0 <==> a as int * fx_one() < 0) by (nonlinear_arith);
        }
    }
    let r = if neg {
        -(q as i64)
    } else {
        q as i64
    };
    clamp_to_i32(r)
}

/// A zero factor makes the fixed-point product zero.
pub proof fn lemma_fx_mul_zero(a: i32)
    ensures
        fx_mul_s(a, 0) == 0,
        fx_mul_s(0, a) == 0,
{
    assert(a as int * 0 == 0);
    assert(0 * a as int == 0);
    vstd::arithmetic::div_mod::lemma_div_of0(fx_one());
}

} // verus!
