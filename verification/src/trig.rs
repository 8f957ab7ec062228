//! Fixed-point trigonometry.
//!
//! Polynomial approximations over 16.16 fixed-point angles in radians. Each
//! executable function is pinned exactly to its spec-level mirror; the
//! mirrors are the reference semantics for every contract that mentions an
//! angle.

use vstd::prelude::*;
use crate::fixed::{
    absi, clamp_s, fx_add, fx_add_s, fx_div, fx_div_s, fx_mul, fx_mul_s, fx_sqrt, fx_sqrt_s,
    fx_sub, fx_sub_s, sat_s, FX_ONE, FX_MAX,
};

verus! {

/// Pi in 16.16 fixed point.
pub const PI_FX: i64 = 205887;

/// Pi/2 in 16.16 fixed point.
pub const HALF_PI_FX: i64 = 102943;

/// Pi/4 in 16.16 fixed point.
pub const QUARTER_PI_FX: i64 = 51471;

/// 2*Pi in 16.16 fixed point (2 * PI_FX).
pub const TWO_PI_FX: i64 = 411774;

/// Euclidean remainder in `[0, m)` for `m > 0`.
pub open spec fn emod_s(a: int, m: int) -> int
    recommends
        m > 0,
{
    if a >= 0 {
        a % m
    } else {
        let r = (-a) % m;
        if r == 0 {
            0
        } else {
            m - r
        }
    }
}

/// Euclidean remainder of a fixed-point value.
pub fn emod_fx(a: i64, m: i64) -> (r: i64)
    requires
        m > 0,
    ensures
        r as int == emod_s(a as int, m as int),
        0 <= r < m,
{
    let aa: i64 = if a == i64::MIN {
        a + m
    } else {
        a
    };
    proof {
        if a == i64::MIN {
            vstd::arithmetic::div_mod::lemma_mod_multiples_vanish(-1, -(a as int), m as int);
            assert(emod_s(aa as int, m as int) == emod_s(a as int, m as int));
        }
    }
    if aa >= 0 {
        ((aa as u64) % (m as u64)) as i64
    } else {
        let mm: u64 = ((-aa) as u64) % (m as u64);
        if mm == 0 {
            0
        } else {
            m - (mm as i64)
        }
    }
}

fn div_pos(a: i64, c: u64) -> (r: i64)
    requires
        a >= 0,
        c > 0,
    ensures
        r as int == (a as int) / (c as int),
        0 <= r <= a,
{
    let q: u64 = (a as u64) / c;
    proof {
        assert((a as int) / (c as int) <= a as int) by (nonlinear_arith)
            requires
                a >= 0,
                c >= 1,
        ;
    }
    q as i64
}

pub proof fn lemma_sq_nonneg(x: int)
    ensures
        x * x >= 0,
{
    assert(x * x >= 0) by (nonlinear_arith);
}

/// Cosine series 1 - x^2/2 + x^4/24 - x^6/720 on a first-quadrant angle.
pub open spec fn cos_poly_s(x: int) -> int {
    let x2 = fx_mul_s(x, x);
    let x4 = fx_mul_s(x2, x2);
    let x6 = fx_mul_s(x4, x2);
    fx_sub_s(fx_add_s(fx_sub_s(FX_ONE as int, x2 / 2), x4 / 24), x6 / 720)
}

fn cos_poly(x: i64) -> (r: i64)
    requires
        0 <= x <= HALF_PI_FX + 2,
    ensures
        r as int == cos_poly_s(x as int),
{
    let x2 = fx_mul(x, x);
    proof {
        lemma_sq_nonneg(x as int);
    }
    let x4 = fx_mul(x2, x2);
    proof {
        lemma_sq_nonneg(x2 as int);
    }
    let x6 = fx_mul(x4, x2);
    proof {
        assert(fx_mul_s(x4 as int, x2 as int) >= 0) by (nonlinear_arith)
            requires
                x4 >= 0,
                x2 >= 0,
                fx_mul_s(x4 as int, x2 as int) == sat_s(
                    crate::fixed::tdiv_s((x4 as int) * (x2 as int), FX_ONE as int),
                ),
        ;
    }
    fx_sub(fx_add(fx_sub(FX_ONE, div_pos(x2, 2)), div_pos(x4, 24)), div_pos(x6, 720))
}

/// Fixed-point cosine of an angle in radians.
pub open spec fn cos_s(a: int) -> int {
    let r = emod_s(a, TWO_PI_FX as int);
    if r < HALF_PI_FX as int {
        cos_poly_s(r)
    } else if r < PI_FX as int {
        -cos_poly_s(PI_FX as int - r)
    } else if r < (PI_FX + HALF_PI_FX) as int {
        -cos_poly_s(r - PI_FX as int)
    } else {
        cos_poly_s(TWO_PI_FX as int - r)
    }
}

/// Fixed-point sine: `sin(a) = cos(a - pi/2)` on the saturated difference.
pub open spec fn sin_s(a: int) -> int {
    cos_s(fx_sub_s(a, HALF_PI_FX as int))
}

/// Cosine of a fixed-point angle in radians.
pub fn fx_cos(a: i64) -> (r: i64)
    ensures
        r as int == cos_s(a as int),
{
    let m = emod_fx(a, TWO_PI_FX);
    if m < HALF_PI_FX {
        cos_poly(m)
    } else if m < PI_FX {
        -cos_poly(PI_FX - m)
    } else if m < PI_FX + HALF_PI_FX {
        -cos_poly(m - PI_FX)
    } else {
        cos_poly(TWO_PI_FX - m)
    }
}

/// Sine of a fixed-point angle in radians.
pub fn fx_sin(a: i64) -> (r: i64)
    ensures
        r as int == sin_s(a as int),
{
    fx_cos(fx_sub(a, HALF_PI_FX))
}

/// Arc-cosine polynomial sqrt(1-x)*(c0 - c1 x + c2 x^2 - c3 x^3) on [0, 1].
pub open spec fn acos_poly_s(x: int) -> int {
    let x2 = fx_mul_s(x, x);
    let x3 = fx_mul_s(x2, x);
    let p = fx_sub_s(fx_add_s(fx_sub_s(102941, fx_mul_s(13902, x)), fx_mul_s(4867, x2)), fx_mul_s(
        1227,
        x3,
    ));
    fx_mul_s(fx_sqrt_s(fx_sub_s(FX_ONE as int, x)), p)
}

fn acos_poly(x: i64) -> (r: i64)
    requires
        0 <= x <= FX_ONE,
    ensures
        r as int == acos_poly_s(x as int),
{
    let x2 = fx_mul(x, x);
    let x3 = fx_mul(x2, x);
    let p = fx_sub(fx_add(fx_sub(102941, fx_mul(13902, x)), fx_mul(4867, x2)), fx_mul(1227, x3));
    fx_mul(fx_sqrt(fx_sub(FX_ONE, x)), p)
}

/// Fixed-point arc-cosine; the argument is clamped into [-1, 1], the result
/// lies in [0, pi].
pub open spec fn acos_s(x: int) -> int {
    let c = clamp_s(x, -(FX_ONE as int), FX_ONE as int);
    if c >= 0 {
        acos_poly_s(c)
    } else {
        PI_FX as int - acos_poly_s(-c)
    }
}

/// Arc-cosine of a fixed-point value.
pub fn fx_acos(x: i64) -> (r: i64)
    ensures
        r as int == acos_s(x as int),
{
    let c = if x < -FX_ONE {
        -FX_ONE
    } else if x > FX_ONE {
        FX_ONE
    } else {
        x
    };
    if c >= 0 {
        acos_poly(c)
    } else {
        PI_FX - acos_poly(-c)
    }
}

/// Arc-tangent polynomial (pi/4)t + 0.273 t (1 - t) on [0, 1].
pub open spec fn atan_poly_s(t: int) -> int {
    fx_add_s(
        fx_mul_s(QUARTER_PI_FX as int, t),
        fx_mul_s(fx_mul_s(17891, t), fx_sub_s(FX_ONE as int, t)),
    )
}

fn atan_poly(t: i64) -> (r: i64)
    requires
        0 <= t <= FX_ONE,
    ensures
        r as int == atan_poly_s(t as int),
{
    fx_add(fx_mul(QUARTER_PI_FX, t), fx_mul(fx_mul(17891, t), fx_sub(FX_ONE, t)))
}

/// Fixed-point two-argument arc-tangent, in (-pi, pi]; both arguments zero
/// yields 0.
pub open spec fn atan2_s(y: int, x: int) -> int {
    let ax = sat_s(absi(x));
    let ay = sat_s(absi(y));
    let b = if ax >= ay {
        atan_poly_s(fx_div_s(ay, ax))
    } else {
        HALF_PI_FX as int - atan_poly_s(fx_div_s(ax, ay))
    };
    if x >= 0 {
        if y >= 0 {
            b
        } else {
            -b
        }
    } else {
        if y >= 0 {
            PI_FX as int - b
        } else {
            b - PI_FX as int
        }
    }
}

/// Two-argument arc-tangent of fixed-point coordinates.
pub fn fx_atan2(y: i64, x: i64) -> (r: i64)
    ensures
        r as int == atan2_s(y as int, x as int),
{
    let ax = crate::fixed::fx_abs(x);
    let ay = crate::fixed::fx_abs(y);
    let b: i64 = if ax >= ay {
        let t = fx_div(ay, ax);
        proof {
            assert(fx_div_s(ay as int, ax as int) <= FX_ONE as int && fx_div_s(
                ay as int,
                ax as int,
            ) >= 0) by (nonlinear_arith)
                requires
                    0 <= ay as int <= ax as int,
                    fx_div_s(ay as int, ax as int) == (if ax as int == 0 {
                        0
                    } else {
                        sat_s(crate::fixed::tdiv_s((ay as int) * (FX_ONE as int), ax as int))
                    }),
        ;
        }
        atan_poly(t)
    } else {
        let t = fx_div(ax, ay);
        proof {
            assert(fx_div_s(ax as int, ay as int) <= FX_ONE as int && fx_div_s(
                ax as int,
                ay as int,
            ) >= 0) by (nonlinear_arith)
                requires
                    0 <= ax as int,
                    (ax as int) < ay as int,
                    fx_div_s(ax as int, ay as int) == sat_s(
                        crate::fixed::tdiv_s((ax as int) * (FX_ONE as int), ay as int),
                    ),
        ;
        }
        HALF_PI_FX - atan_poly(t)
    };
    if x >= 0 {
        if y >= 0 {
            b
        } else {
            -b
        }
    } else {
        if y >= 0 {
            PI_FX - b
        } else {
            b - PI_FX
        }
    }
}

} // verus!
