//! Signed 16.16 fixed-point scalars.
//!
//! A coordinate is an `i64` holding `value * 65536`. Every operation
//! saturates symmetrically at `FX_MAX`, so the operations are total and
//! negation commutes with saturation. Each executable operation is pinned to
//! a spec-level mirror over `int`.

use vstd::prelude::*;

verus! {

/// One unit: the fixed-point scale factor.
pub const FX_ONE: i64 = 65536;

/// Saturation bound (about 2^24 units); all stored coordinates stay within
/// `[-FX_MAX, FX_MAX]`.
pub const FX_MAX: i64 = 0xff_ffff_ffff;

pub open spec fn absi(x: int) -> int {
    if x < 0 {
        -x
    } else {
        x
    }
}

/// Symmetric saturation to `[-FX_MAX, FX_MAX]`.
pub open spec fn sat_s(x: int) -> int {
    if x > FX_MAX as int {
        FX_MAX as int
    } else if x < -(FX_MAX as int) {
        -(FX_MAX as int)
    } else {
        x
    }
}

/// Division truncated toward zero, defined for `q != 0`.
pub open spec fn tdiv_s(p: int, q: int) -> int
    recommends
        q != 0,
{
    let m = absi(p) / absi(q);
    if (p >= 0) == (q >= 0) {
        m
    } else {
        -m
    }
}

pub open spec fn fx_add_s(a: int, b: int) -> int {
    sat_s(a + b)
}

pub open spec fn fx_sub_s(a: int, b: int) -> int {
    sat_s(a - b)
}

pub open spec fn fx_mul_s(a: int, b: int) -> int {
    sat_s(tdiv_s(a * b, FX_ONE as int))
}

pub open spec fn fx_div_s(a: int, b: int) -> int {
    if b == 0 {
        0
    } else {
        sat_s(tdiv_s(a * (FX_ONE as int), b))
    }
}

pub open spec fn fx_min_s(a: int, b: int) -> int {
    if a < b {
        a
    } else {
        b
    }
}

pub open spec fn fx_max_s(a: int, b: int) -> int {
    if a > b {
        a
    } else {
        b
    }
}

pub open spec fn clamp_s(x: int, lo: int, hi: int) -> int {
    if x < lo {
        lo
    } else if x > hi {
        hi
    } else {
        x
    }
}

/// The nonnegative integer square root (floor).
pub open spec fn sqrt_nat(n: nat) -> nat {
    choose|r: nat| #[trigger] (r * r) <= n && n < (r + 1) * (r + 1)
}

/// Fixed-point square root: `sqrt(a / 65536) * 65536`, 0 on nonpositive input.
pub open spec fn fx_sqrt_s(a: int) -> int {
    if a <= 0 {
        0
    } else {
        sqrt_nat((a * (FX_ONE as int)) as nat) as int
    }
}

/// Ceiling of a nonnegative fixed-point value, as an integer count.
pub open spec fn fx_ceil_s(v: int) -> int
    recommends
        v >= 0,
{
    (v + (FX_ONE as int) - 1) / (FX_ONE as int)
}

pub proof fn lemma_mul_le(a: int, b: int, ma: int, mb: int)
    requires
        absi(a) <= ma,
        absi(b) <= mb,
    ensures
        absi(a * b) <= ma * mb,
{
    assert(absi(a * b) <= ma * mb) by (nonlinear_arith)
        requires
            absi(a) <= ma,
            absi(b) <= mb,
    ;
}

fn sat128(x: i128) -> (r: i64)
    ensures
        r as int == sat_s(x as int),
{
    if x > FX_MAX as i128 {
        FX_MAX
    } else if x < -(FX_MAX as i128) {
        -FX_MAX
    } else {
        x as i64
    }
}

fn tdiv128(p: i128, q: i128) -> (r: i128)
    requires
        q > 0,
        p != i128::MIN,
    ensures
        r as int == tdiv_s(p as int, q as int),
        absi(r as int) <= absi(p as int),
{
    if p >= 0 {
        let m: u128 = (p as u128) / (q as u128);
        assert(m <= p as u128) by (nonlinear_arith)
            requires
                q >= 1,
                m == (p as u128) / (q as u128),
        ;
        m as i128
    } else {
        let pm: u128 = (-p) as u128;
        let m: u128 = pm / (q as u128);
        assert(m <= pm) by (nonlinear_arith)
            requires
                q >= 1,
                m == pm / (q as u128),
        ;
        -(m as i128)
    }
}

/// Saturating fixed-point addition.
pub fn fx_add(a: i64, b: i64) -> (r: i64)
    ensures
        r as int == fx_add_s(a as int, b as int),
{
    sat128(a as i128 + b as i128)
}

/// Saturating fixed-point subtraction.
pub fn fx_sub(a: i64, b: i64) -> (r: i64)
    ensures
        r as int == fx_sub_s(a as int, b as int),
{
    sat128(a as i128 - b as i128)
}

/// Saturating fixed-point multiplication (truncates toward zero).
pub fn fx_mul(a: i64, b: i64) -> (r: i64)
    ensures
        r as int == fx_mul_s(a as int, b as int),
{
    proof {
        lemma_mul_le(a as int, b as int, 0x8000_0000_0000_0000, 0x8000_0000_0000_0000);
    }
    let p: i128 = (a as i128) * (b as i128);
    sat128(tdiv128(p, FX_ONE as i128))
}

/// Saturating fixed-point division; division by zero yields 0.
pub fn fx_div(a: i64, b: i64) -> (r: i64)
    ensures
        r as int == fx_div_s(a as int, b as int),
{
    if b == 0 {
        0
    } else {
        proof {
            lemma_mul_le(a as int, FX_ONE as int, 0x8000_0000_0000_0000, 0x1_0000);
        }
        let p: i128 = (a as i128) * (FX_ONE as i128);
        if b > 0 {
            sat128(tdiv128(p, b as i128))
        } else {
            let q: i128 = -(b as i128);
            let r = sat128(tdiv128(-p, q));
            assert(tdiv_s(-(p as int), q as int) == tdiv_s(p as int, b as int));
            r
        }
    }
}

/// Saturating negation.
pub fn fx_neg(a: i64) -> (r: i64)
    ensures
        r as int == sat_s(-(a as int)),
{
    sat128(-(a as i128))
}

/// Truncating division by a positive divisor.
pub fn fx_tdiv(a: i64, q: i64) -> (r: i64)
    requires
        q > 0,
        a != i64::MIN,
    ensures
        r as int == tdiv_s(a as int, q as int),
{
    let r = tdiv128(a as i128, q as i128);
    r as i64
}

/// Minimum of two fixed-point values.
pub fn fx_min(a: i64, b: i64) -> (r: i64)
    ensures
        r as int == fx_min_s(a as int, b as int),
{
    if a < b {
        a
    } else {
        b
    }
}

/// Maximum of two fixed-point values.
pub fn fx_max(a: i64, b: i64) -> (r: i64)
    ensures
        r as int == fx_max_s(a as int, b as int),
{
    if a > b {
        a
    } else {
        b
    }
}

/// Absolute value, saturated so that it is total.
pub fn fx_abs(a: i64) -> (r: i64)
    ensures
        r as int == sat_s(absi(a as int)),
{
    if a >= 0 {
        if a > FX_MAX {
            FX_MAX
        } else {
            a
        }
    } else {
        sat128(-(a as i128))
    }
}

/// Clamp into `[lo, hi]`.
pub fn fx_clamp(x: i64, lo: i64, hi: i64) -> (r: i64)
    requires
        lo <= hi,
    ensures
        r as int == clamp_s(x as int, lo as int, hi as int),
{
    if x < lo {
        lo
    } else if x > hi {
        hi
    } else {
        x
    }
}

/// A small integer count as a fixed-point value.
pub fn fx_of_int(i: i64) -> (r: i64)
    ensures
        r as int == sat_s(i * (FX_ONE as int)),
{
    proof {
        lemma_mul_le(i as int, FX_ONE as int, 0x8000_0000_0000_0000, 0x1_0000);
    }
    let p: i128 = (i as i128) * (FX_ONE as i128);
    sat128(p)
}

/// Saturating `usize` addition, used to size vertex arenas.
pub fn usat_add(a: usize, b: usize) -> (r: usize)
    ensures
        r as int == fx_min_s(a as int + b as int, usize::MAX as int),
{
    if a > usize::MAX - b {
        usize::MAX
    } else {
        a + b
    }
}

/// Saturating `usize` multiplication, used to size vertex arenas.
pub fn usat_mul(a: usize, b: usize) -> (r: usize)
    ensures
        r as int == fx_min_s(a as int * b as int, usize::MAX as int),
{
    if b == 0 {
        proof {
            assert(a as int * 0 == 0) by (nonlinear_arith);
        }
        0
    } else if a > usize::MAX / b {
        proof {
            assert(a as int * b as int > usize::MAX as int) by (nonlinear_arith)
                requires
                    a as int > (usize::MAX as int) / (b as int),
                    b as int >= 1,
            ;
        }
        usize::MAX
    } else {
        proof {
            assert(a as int * b as int <= usize::MAX as int) by (nonlinear_arith)
                requires
                    a as int <= (usize::MAX as int) / (b as int),
                    b as int >= 1,
            ;
        }
        a * b
    }
}

fn isqrt_u128(n: u128) -> (r: u128)
    ensures
        (r * r) as nat <= n as nat,
        (n as nat) < ((r + 1) * (r + 1)) as nat,
{
    if n == 0 {
        return 0;
    }
    let mut lo: u128 = 0;
    let mut hi: u128 = 0x1_0000_0000_0000_0000;
    assert((hi * hi) as nat > n as nat) by (nonlinear_arith)
        requires
            hi == 0x1_0000_0000_0000_0000u128,
            n <= 0xffff_ffff_ffff_ffff_ffff_ffff_ffff_ffffu128,
    ;
    while lo + 1 < hi
        invariant
            lo < hi,
            hi <= 0x1_0000_0000_0000_0000,
            lo * lo <= n as nat,
            (n as nat) < (hi * hi) as nat,
        decreases hi - lo,
    {
        let mid: u128 = lo + (hi - lo) / 2;
        proof {
            assert(mid < hi);
            lemma_mul_le(mid as int, mid as int, 0xffff_ffff_ffff_ffff, 0xffff_ffff_ffff_ffff);
        }
        let sq: u128 = mid * mid;
        if sq <= n {
            lo = mid;
        } else {
            hi = mid;
        }
    }
    assert(lo + 1 == hi);
    lo
}

proof fn lemma_sqrt_nat_is(n: nat, r: nat)
    requires
        r * r <= n,
        n < (r + 1) * (r + 1),
    ensures
        sqrt_nat(n) == r,
{
    assert(exists|q: nat| #[trigger] (q * q) <= n && n < (q + 1) * (q + 1)) by {
        assert(r * r <= n && n < (r + 1) * (r + 1));
    }
    let q = sqrt_nat(n);
    assert(q * q <= n && n < (q + 1) * (q + 1));
    if q < r {
        assert((q + 1) * (q + 1) <= r * r) by (nonlinear_arith)
            requires
                q + 1 <= r,
        ;
    } else if r < q {
        assert((r + 1) * (r + 1) <= q * q) by (nonlinear_arith)
            requires
                r + 1 <= q,
        ;
    }
}

/// Fixed-point square root; nonpositive inputs yield 0.
pub fn fx_sqrt(a: i64) -> (r: i64)
    ensures
        r as int == fx_sqrt_s(a as int),
        0 <= r <= FX_MAX,
{
    if a <= 0 {
        return 0;
    }
    proof {
        lemma_mul_le(a as int, FX_ONE as int, 0x7fff_ffff_ffff_ffff, 0x1_0000);
    }
    let n: u128 = (a as u128) * (FX_ONE as u128);
    let r = isqrt_u128(n);
    proof {
        lemma_sqrt_nat_is(n as nat, r as nat);
        assert(n as nat <= 0x7fff_ffff_ffff_ffff * 0x1_0000) by (nonlinear_arith)
            requires
                n == (a as u128) * (FX_ONE as u128),
                0 < a as int <= 0x7fff_ffff_ffff_ffff,
        ;
        assert(r as nat <= 0xff_ffff_ffff) by (nonlinear_arith)
            requires
                (r * r) as nat <= n as nat,
                n as nat <= 0x7fff_ffff_ffff_ffff * 0x1_0000,
        ;
    }
    r as i64
}

/// Ceiling of a nonnegative fixed-point value, as a `usize` count.
pub fn fx_ceil_usize(v: i64) -> (r: usize)
    requires
        0 <= v <= FX_MAX,
    ensures
        r as int == fx_ceil_s(v as int),
        r <= 0x100_0000,
{
    let c: i64 = (v + FX_ONE - 1) / FX_ONE;
    c as usize
}

} // verus!
