//! RGBA colors with components in 16.16 fixed point; a channel value of
//! `FX_ONE` is full intensity.

use vstd::prelude::*;
use crate::fixed::{
    clamp_s, fx_add, fx_add_s, fx_clamp, fx_mul, fx_mul_s, fx_sub, fx_sub_s, FX_ONE,
};
use crate::trig::emod_s;

verus! {

/// Spec model of a color: four unbounded channel values.
pub struct SColor {
    pub r: int,
    pub g: int,
    pub b: int,
    pub a: int,
}

/// An RGBA color; channels normally lie in `[0, FX_ONE]`.
#[derive(Debug, Copy, Clone, PartialEq, Eq, Structural)]
pub struct Color {
    pub r: i64,
    pub g: i64,
    pub b: i64,
    pub a: i64,
}

impl View for Color {
    type V = SColor;

    open spec fn view(&self) -> SColor {
        SColor { r: self.r as int, g: self.g as int, b: self.b as int, a: self.a as int }
    }
}

/// A byte channel scaled into fixed point: `b * 65536 / 255`.
pub open spec fn byte_chan_s(b: int) -> int {
    b * (FX_ONE as int) / 255
}

/// Channel-wise linear interpolation with the blend factor clamped to
/// `[0, 1]`.
pub open spec fn lerp_s(c0: SColor, c1: SColor, u0: int) -> SColor {
    let u = clamp_s(u0, 0, FX_ONE as int);
    let om = fx_sub_s(FX_ONE as int, u);
    SColor {
        r: fx_add_s(fx_mul_s(c0.r, om), fx_mul_s(c1.r, u)),
        g: fx_add_s(fx_mul_s(c0.g, om), fx_mul_s(c1.g, u)),
        b: fx_add_s(fx_mul_s(c0.b, om), fx_mul_s(c1.b, u)),
        a: fx_add_s(fx_mul_s(c0.a, om), fx_mul_s(c1.a, u)),
    }
}

/// One channel of the HSL-to-RGB ramp.
pub open spec fn hue_s(h0: int, m1: int, m2: int) -> int {
    let h1 = if h0 < 0 {
        fx_add_s(h0, FX_ONE as int)
    } else {
        h0
    };
    let h = if h1 > FX_ONE as int {
        fx_sub_s(h1, FX_ONE as int)
    } else {
        h1
    };
    if h < 10922 {
        fx_add_s(m1, fx_mul_s(fx_mul_s(fx_sub_s(m2, m1), h), 393216))
    } else if h < 32768 {
        m2
    } else if h < 43690 {
        fx_add_s(m1, fx_mul_s(fx_mul_s(fx_sub_s(m2, m1), fx_sub_s(43690, h)), 393216))
    } else {
        m1
    }
}

/// HSLA conversion: hue wraps into `[0, 1)`, saturation and lightness are
/// clamped to `[0, 1]`, channels are clamped to `[0, 1]`.
pub open spec fn hsla_s(h0: int, s0: int, l0: int, a: int) -> SColor {
    let h = emod_s(h0, FX_ONE as int);
    let s = clamp_s(s0, 0, FX_ONE as int);
    let l = clamp_s(l0, 0, FX_ONE as int);
    let m2 = if l <= 32768 {
        fx_mul_s(l, fx_add_s(FX_ONE as int, s))
    } else {
        fx_sub_s(fx_add_s(l, s), fx_mul_s(l, s))
    };
    let m1 = fx_sub_s(fx_add_s(l, l), m2);
    SColor {
        r: clamp_s(hue_s(fx_add_s(h, 21845), m1, m2), 0, FX_ONE as int),
        g: clamp_s(hue_s(h, m1, m2), 0, FX_ONE as int),
        b: clamp_s(hue_s(fx_sub_s(h, 21845), m1, m2), 0, FX_ONE as int),
        a,
    }
}

fn hue(h0: i64, m1: i64, m2: i64) -> (r: i64)
    ensures
        r as int == hue_s(h0 as int, m1 as int, m2 as int),
{
    let mut h = h0;
    if h < 0 {
        h = fx_add(h, FX_ONE);
    }
    if h > FX_ONE {
        h = fx_sub(h, FX_ONE);
    }
    if h < 10922 {
        fx_add(m1, fx_mul(fx_mul(fx_sub(m2, m1), h), 393216))
    } else if h < 32768 {
        m2
    } else if h < 43690 {
        fx_add(m1, fx_mul(fx_mul(fx_sub(m2, m1), fx_sub(43690, h)), 393216))
    } else {
        m1
    }
}

impl Color {
    /// A color from its four channels.
    pub fn rgba(r: i64, g: i64, b: i64, a: i64) -> (c: Color)
        ensures
            c.r == r,
            c.g == g,
            c.b == b,
            c.a == a,
    {
        Color { r, g, b, a }
    }

    /// An opaque color from three channels.
    pub fn rgb(r: i64, g: i64, b: i64) -> (c: Color)
        ensures
            c.r == r,
            c.g == g,
            c.b == b,
            c.a == FX_ONE,
    {
        Color { r, g, b, a: FX_ONE }
    }

    /// A color from byte channels in `[0, 255]`.
    pub fn rgba_i(r: u8, g: u8, b: u8, a: u8) -> (c: Color)
        ensures
            c.r as int == byte_chan_s(r as int),
            c.g as int == byte_chan_s(g as int),
            c.b as int == byte_chan_s(b as int),
            c.a as int == byte_chan_s(a as int),
    {
        Color {
            r: ((r as u64) * 65536 / 255) as i64,
            g: ((g as u64) * 65536 / 255) as i64,
            b: ((b as u64) * 65536 / 255) as i64,
            a: ((a as u64) * 65536 / 255) as i64,
        }
    }

    /// An opaque color from byte channels.
    pub fn rgb_i(r: u8, g: u8, b: u8) -> (c: Color)
        ensures
            c.r as int == byte_chan_s(r as int),
            c.g as int == byte_chan_s(g as int),
            c.b as int == byte_chan_s(b as int),
            c.a as int == byte_chan_s(255),
    {
        Self::rgba_i(r, g, b, 255)
    }

    /// Interpolate channel-wise towards `c` by `u` (clamped to `[0, 1]`).
    pub fn lerp(self, c: Color, u: i64) -> (r: Color)
        ensures
            r@ == lerp_s(self@, c@, u as int),
    {
        let u = fx_clamp(u, 0, FX_ONE);
        let om = fx_sub(FX_ONE, u);
        Color {
            r: fx_add(fx_mul(self.r, om), fx_mul(c.r, u)),
            g: fx_add(fx_mul(self.g, om), fx_mul(c.g, u)),
            b: fx_add(fx_mul(self.b, om), fx_mul(c.b, u)),
            a: fx_add(fx_mul(self.a, om), fx_mul(c.a, u)),
        }
    }

    /// A color from hue, saturation, lightness and alpha.
    pub fn hsla(h: i64, s: i64, l: i64, a: i64) -> (c: Color)
        ensures
            c@ == hsla_s(h as int, s as int, l as int, a as int),
    {
        let hm = crate::trig::emod_fx(h, FX_ONE);
        let s = fx_clamp(s, 0, FX_ONE);
        let l = fx_clamp(l, 0, FX_ONE);
        let m2 = if l <= 32768 {
            fx_mul(l, fx_add(FX_ONE, s))
        } else {
            fx_sub(fx_add(l, s), fx_mul(l, s))
        };
        let m1 = fx_sub(fx_add(l, l), m2);
        Color {
            r: fx_clamp(hue(fx_add(hm, 21845), m1, m2), 0, FX_ONE),
            g: fx_clamp(hue(hm, m1, m2), 0, FX_ONE),
            b: fx_clamp(hue(fx_sub(hm, 21845), m1, m2), 0, FX_ONE),
            a,
        }
    }

    /// An opaque color from hue, saturation and lightness.
    pub fn hsl(h: i64, s: i64, l: i64) -> (c: Color)
        ensures
            c@ == hsla_s(h as int, s as int, l as int, FX_ONE as int),
    {
        Self::hsla(h, s, l, FX_ONE)
    }
}

impl Default for Color {
    fn default() -> (c: Color)
        ensures
            c.r == 0,
            c.g == 0,
            c.b == 0,
            c.a == 0,
    {
        Color { r: 0, g: 0, b: 0, a: 0 }
    }
}

} // verus!
