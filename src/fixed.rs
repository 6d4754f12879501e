//! Fixed-point scalar arithmetic shared by every stage of the renderer.
//!
//! A scalar `s` is stored as the integer `s * FX_ONE`; colors, noise values,
//! interpolation parameters and times all use this one scale.
use vstd::prelude::*;
use vstd::arithmetic::div_mod::lemma_fundamental_div_mod_converse;

verus! {

/// The fixed-point representation of 1.0 (16 fractional bits).
pub const FX_ONE: i64 = 65536;

/// Largest magnitude accepted for a fixed-point scalar handed to `mix`.
pub const FX_LIMIT: i64 = 0x1_0000_0000_0000;

pub open spec fn clamp_spec(v: int, lo: int, hi: int) -> int {
    if v < lo {
        lo
    } else if v > hi {
        hi
    } else {
        v
    }
}

/// Clamps `v` into the closed range `[lo, hi]`.
pub fn clamp(v: i64, lo: i64, hi: i64) -> (r: i64)
    requires
        lo <= hi,
    ensures
        r == clamp_spec(v as int, lo as int, hi as int),
        lo <= r <= hi,
{
    if v < lo {
        lo
    } else if v > hi {
        hi
    } else {
        v
    }
}

/// `floor(n / d)` for a positive divisor; `n / d` on `int` is floor division.
pub fn floor_div(n: i128, d: i128) -> (q: i128)
    requires
        d > 0,
        n > i128::MIN,
    ensures
        q == n / d,
{
    if n >= 0 {
        n / d
    } else {
        let m: i128 = -n;
        let c: i128 = (m - 1) / d + 1;
        proof {
            let mi = m as int - 1;
            let di = d as int;
            let k = mi / di;
            let rem = mi % di;
            vstd::arithmetic::div_mod::lemma_fundamental_div_mod(mi, di);
            assert(n == (-c) * d + (d - 1 - rem)) by (nonlinear_arith)
                requires
                    mi == di * k + rem,
                    c == k + 1,
                    n == -(mi + 1),
                    d == di,
            ;
            lemma_fundamental_div_mod_converse(n as int, di, -c, di - 1 - rem);
        }
        -c
    }
}

pub open spec fn mix_spec(a: int, b: int, t: int) -> int {
    a + ((b - a) * t) / (FX_ONE as int)
}

/// Linear blend `a * (1 - t) + b * t` with `t` in fixed point, rounded down.
pub fn mix(a: i64, b: i64, t: i64) -> (r: i64)
    requires
        -FX_LIMIT <= a <= FX_LIMIT,
        -FX_LIMIT <= b <= FX_LIMIT,
        0 <= t <= FX_ONE,
    ensures
        r == mix_spec(a as int, b as int, t as int),
        a <= b ==> a <= r <= b,
        b <= a ==> b <= r <= a,
{
    proof {
        lemma_scaled_bound((b - a) as int, t as int, 2 * FX_LIMIT as int, FX_ONE as int);
    }
    let p: i128 = (b as i128 - a as i128) * (t as i128);
    let q = floor_div(p, FX_ONE as i128);
    proof {
        lemma_mix_between(a as int, b as int, t as int);
    }
    (a as i128 + q) as i64
}

/// `|x * y| <= bx * by` whenever `|x| <= bx` and `|y| <= by`.
pub proof fn lemma_scaled_bound(x: int, y: int, bx: int, by: int)
    requires
        -bx <= x <= bx,
        -by <= y <= by,
    ensures
        -(bx * by) <= x * y <= bx * by,
{
    assert(-(bx * by) <= x * y <= bx * by) by (nonlinear_arith)
        requires
            -bx <= x <= bx,
            -by <= y <= by,
    ;
}

proof fn lemma_mix_between(a: int, b: int, t: int)
    requires
        0 <= t <= FX_ONE,
    ensures
        a <= b ==> a <= mix_spec(a, b, t) <= b,
        b <= a ==> b <= mix_spec(a, b, t) <= a,
{
    let one = FX_ONE as int;
    let p = (b - a) * t;
    let q = p / one;
    vstd::arithmetic::div_mod::lemma_fundamental_div_mod(p, one);
    if a <= b {
        assert(0 <= p <= (b - a) * one) by (nonlinear_arith)
            requires
                p == (b - a) * t,
                a <= b,
                0 <= t <= one,
        ;
        assert(0 <= q <= b - a) by (nonlinear_arith)
            requires
                0 <= p <= (b - a) * one,
                p == one * q + p % one,
                0 <= p % one < one,
                one > 0,
        ;
    } else {
        assert((b - a) * one <= p <= 0) by (nonlinear_arith)
            requires
                p == (b - a) * t,
                b < a,
                0 <= t <= one,
        ;
        assert(b - a <= q <= 0) by (nonlinear_arith)
            requires
                (b - a) * one <= p <= 0,
                p == one * q + p % one,
                0 <= p % one < one,
                one > 0,
        ;
    }
}

pub open spec fn smoothstep_spec(edge0: int, edge1: int, x: int) -> int {
    let t = if edge0 < edge1 {
        clamp_spec(((x - edge0) * FX_ONE) / (edge1 - edge0), 0, FX_ONE as int)
    } else {
        clamp_spec(((edge0 - x) * FX_ONE) / (edge0 - edge1), 0, FX_ONE as int)
    };
    (t * t * (3 * FX_ONE - 2 * t)) / (FX_ONE * FX_ONE)
}

/// Hermite smooth step from 0 at `edge0` to `FX_ONE` at `edge1`; the edges may
/// be given in either order.
pub fn smoothstep(edge0: i64, edge1: i64, x: i64) -> (r: i64)
    requires
        edge0 != edge1,
        -FX_LIMIT <= edge0 <= FX_LIMIT,
        -FX_LIMIT <= edge1 <= FX_LIMIT,
        -FX_LIMIT <= x <= FX_LIMIT,
    ensures
        r == smoothstep_spec(edge0 as int, edge1 as int, x as int),
        0 <= r <= FX_ONE,
{
    proof {
        lemma_scaled_bound(x - edge0, FX_ONE as int, 2 * FX_LIMIT as int, FX_ONE as int);
        lemma_scaled_bound(edge0 - x, FX_ONE as int, 2 * FX_LIMIT as int, FX_ONE as int);
    }
    let (num, den): (i128, i128) = if edge0 < edge1 {
        ((x as i128 - edge0 as i128) * (FX_ONE as i128), edge1 as i128 - edge0 as i128)
    } else {
        ((edge0 as i128 - x as i128) * (FX_ONE as i128), edge0 as i128 - edge1 as i128)
    };
    let ratio = floor_div(num, den);
    proof {
        vstd::arithmetic::div_mod::lemma_fundamental_div_mod(num as int, den as int);
        assert(-4 * FX_LIMIT * FX_ONE <= ratio <= 4 * FX_LIMIT * FX_ONE) by (nonlinear_arith)
            requires
                -2 * FX_LIMIT * FX_ONE <= num <= 2 * FX_LIMIT * FX_ONE,
                num == den * ratio + num % den,
                0 <= num % den < den,
                den >= 1,
        ;
    }
    let t: i128 = if ratio < 0 {
        0
    } else if ratio > FX_ONE as i128 {
        FX_ONE as i128
    } else {
        ratio
    };
    proof {
        lemma_smooth_range(t as int);
        lemma_scaled_bound(t as int, t as int, FX_ONE as int, FX_ONE as int);
        lemma_scaled_bound(t * t, 3 * FX_ONE - 2 * t, FX_ONE * FX_ONE, 3 * FX_ONE);
    }
    let cube: i128 = t * t * (3 * FX_ONE as i128 - 2 * t);
    (cube / (FX_ONE as i128 * FX_ONE as i128)) as i64
}

proof fn lemma_smooth_range(t: int)
    requires
        0 <= t <= FX_ONE,
    ensures
        0 <= (t * t * (3 * FX_ONE - 2 * t)) / (FX_ONE * FX_ONE) <= FX_ONE,
        0 <= t * t * (3 * FX_ONE - 2 * t) <= FX_ONE * FX_ONE * FX_ONE,
{
    let one = FX_ONE as int;
    let c = t * t * (3 * one - 2 * t);
    assert(0 <= c <= one * one * one) by (nonlinear_arith)
        requires
            c == t * t * (3 * one - 2 * t),
            0 <= t <= one,
            one == 65536,
    ;
    vstd::arithmetic::div_mod::lemma_fundamental_div_mod(c, one * one);
    let q = c / (one * one);
    assert(0 <= q <= one) by (nonlinear_arith)
        requires
            0 <= c <= one * one * one,
            c == (one * one) * q + c % (one * one),
            0 <= c % (one * one) < one * one,
            one == 65536,
    ;
}

} // verus!
