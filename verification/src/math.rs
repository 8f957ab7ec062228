//! Geometric value types: points, extents, rectangles, bounds and the
//! 6-entry affine transform, all in 16.16 fixed point.

use vstd::prelude::*;
use crate::fixed::{
    absi, fx_add, fx_add_s, fx_div, fx_div_s, fx_max, fx_max_s, fx_min_s, fx_mul, fx_mul_s,
    fx_sqrt, fx_sqrt_s, fx_sub, fx_sub_s, fx_ceil_s, sat_s, FX_ONE, FX_MAX,
};
use crate::trig::{cos_s, sin_s, fx_cos, fx_sin};

verus! {

/// Spec model of a point: a pair of unbounded integers in fixed-point units.
pub struct SPoint {
    pub x: int,
    pub y: int,
}

/// A 2D position in 16.16 fixed-point units.
#[derive(Debug, Copy, Clone, PartialEq, Eq, Structural)]
pub struct Point {
    pub x: i64,
    pub y: i64,
}

impl View for Point {
    type V = SPoint;

    open spec fn view(&self) -> SPoint {
        SPoint { x: self.x as int, y: self.y as int }
    }
}

/// Squared-distance test against a squared tolerance, all saturating.
pub open spec fn pt_equals_s(a: SPoint, b: SPoint, tol: int) -> bool {
    let dx = fx_sub_s(b.x, a.x);
    let dy = fx_sub_s(b.y, a.y);
    fx_add_s(fx_mul_s(dx, dx), fx_mul_s(dy, dy)) < fx_mul_s(tol, tol)
}

/// Squared distance from `pt` to the segment `p`-`q`.
pub open spec fn dist_pt_seg_s(pt: SPoint, p: SPoint, q: SPoint) -> int {
    let pqx = fx_sub_s(q.x, p.x);
    let pqy = fx_sub_s(q.y, p.y);
    let dx = fx_sub_s(pt.x, p.x);
    let dy = fx_sub_s(pt.y, p.y);
    let d = fx_add_s(fx_mul_s(pqx, pqx), fx_mul_s(pqy, pqy));
    let t0 = fx_add_s(fx_mul_s(pqx, dx), fx_mul_s(pqy, dy));
    let t1 = if d > 0 {
        fx_div_s(t0, d)
    } else {
        t0
    };
    let t = if t1 < 0 {
        0
    } else if t1 > FX_ONE as int {
        FX_ONE as int
    } else {
        t1
    };
    let ex = fx_sub_s(fx_add_s(p.x, fx_mul_s(t, pqx)), pt.x);
    let ey = fx_sub_s(fx_add_s(p.y, fx_mul_s(t, pqy)), pt.y);
    fx_add_s(fx_mul_s(ex, ex), fx_mul_s(ey, ey))
}

/// Length of a point seen as a vector.
pub open spec fn pt_len_s(p: SPoint) -> int {
    fx_sqrt_s(fx_add_s(fx_mul_s(p.x, p.x), fx_mul_s(p.y, p.y)))
}

/// The unit vector of `p`: unchanged when the length is zero.
pub open spec fn pt_normalized_s(p: SPoint) -> SPoint {
    let d = pt_len_s(p);
    if d > 0 {
        let id = fx_div_s(FX_ONE as int, d);
        SPoint { x: fx_mul_s(p.x, id), y: fx_mul_s(p.y, id) }
    } else {
        p
    }
}

/// Cross product with the operands ordered `b.x * a.y - a.x * b.y`.
pub open spec fn pt_cross_s(a: SPoint, b: SPoint) -> int {
    fx_sub_s(fx_mul_s(b.x, a.y), fx_mul_s(a.x, b.y))
}

impl Point {
    pub fn new(x: i64, y: i64) -> (r: Point)
        ensures
            r.x == x,
            r.y == y,
    {
        Point { x, y }
    }

    /// Whether `pt` lies within `tol` of `self` (squared comparison).
    pub fn equals(self, pt: Point, tol: i64) -> (r: bool)
        ensures
            r == pt_equals_s(self@, pt@, tol as int),
    {
        let dx = fx_sub(pt.x, self.x);
        let dy = fx_sub(pt.y, self.y);
        fx_add(fx_mul(dx, dx), fx_mul(dy, dy)) < fx_mul(tol, tol)
    }

    /// Squared distance from `self` to the segment from `p` to `q`.
    pub fn dist_pt_seg(self, p: Point, q: Point) -> (r: i64)
        ensures
            r as int == dist_pt_seg_s(self@, p@, q@),
    {
        let pqx = fx_sub(q.x, p.x);
        let pqy = fx_sub(q.y, p.y);
        let dx = fx_sub(self.x, p.x);
        let dy = fx_sub(self.y, p.y);
        let d = fx_add(fx_mul(pqx, pqx), fx_mul(pqy, pqy));
        let mut t = fx_add(fx_mul(pqx, dx), fx_mul(pqy, dy));
        if d > 0 {
            t = fx_div(t, d);
        }
        if t < 0 {
            t = 0;
        } else if t > FX_ONE {
            t = FX_ONE;
        }
        let ex = fx_sub(fx_add(p.x, fx_mul(t, pqx)), self.x);
        let ey = fx_sub(fx_add(p.y, fx_mul(t, pqy)), self.y);
        fx_add(fx_mul(ex, ex), fx_mul(ey, ey))
    }

    /// Scale `self` to unit length unless its length is zero; returns the
    /// length.
    pub fn normalize(&mut self) -> (d: i64)
        ensures
            d as int == pt_len_s(old(self)@),
            final(self)@ == pt_normalized_s(old(self)@),
    {
        let d = fx_sqrt(fx_add(fx_mul(self.x, self.x), fx_mul(self.y, self.y)));
        if d > 0 {
            let id = fx_div(FX_ONE, d);
            self.x = fx_mul(self.x, id);
            self.y = fx_mul(self.y, id);
        }
        d
    }

    /// Cross product of two direction vectors.
    pub fn cross(pt1: Point, pt2: Point) -> (r: i64)
        ensures
            r as int == pt_cross_s(pt1@, pt2@),
    {
        fx_sub(fx_mul(pt2.x, pt1.y), fx_mul(pt1.x, pt2.y))
    }

    /// `self` shifted by `(tx, ty)`.
    pub fn offset(&self, tx: i64, ty: i64) -> (r: Point)
        ensures
            r@.x == fx_add_s(self@.x, tx as int),
            r@.y == fx_add_s(self@.y, ty as int),
    {
        Point::new(fx_add(self.x, tx), fx_add(self.y, ty))
    }
}

impl Default for Point {
    fn default() -> (r: Point)
        ensures
            r.x == 0,
            r.y == 0,
    {
        Point { x: 0, y: 0 }
    }
}

/// A width/height pair in fixed-point units.
#[derive(Debug, Copy, Clone, PartialEq, Eq, Structural)]
pub struct Extent {
    pub width: i64,
    pub height: i64,
}

impl Extent {
    pub fn new(width: i64, height: i64) -> (r: Extent)
        ensures
            r.width == width,
            r.height == height,
    {
        Extent { width, height }
    }
}

impl Default for Extent {
    fn default() -> (r: Extent)
        ensures
            r.width == 0,
            r.height == 0,
    {
        Extent { width: 0, height: 0 }
    }
}

/// An origin plus an extent.
#[derive(Debug, Copy, Clone, PartialEq, Eq, Structural)]
pub struct Rect {
    pub xy: Point,
    pub size: Extent,
}

/// The axis-aligned intersection of two rectangles: the min corner is the
/// componentwise maximum of the two minima, the max corner the
/// componentwise minimum of the two maxima, and the sizes clamp to zero
/// when there is no overlap.
pub open spec fn rect_intersect_s(a: Rect, b: Rect) -> Rect {
    let minx = fx_max_s(a.xy.x as int, b.xy.x as int);
    let miny = fx_max_s(a.xy.y as int, b.xy.y as int);
    let maxx = fx_min_s(
        fx_add_s(a.xy.x as int, a.size.width as int),
        fx_add_s(b.xy.x as int, b.size.width as int),
    );
    let maxy = fx_min_s(
        fx_add_s(a.xy.y as int, a.size.height as int),
        fx_add_s(b.xy.y as int, b.size.height as int),
    );
    Rect {
        xy: Point { x: minx as i64, y: miny as i64 },
        size: Extent {
            width: fx_max_s(fx_sub_s(maxx, minx), 0) as i64,
            height: fx_max_s(fx_sub_s(maxy, miny), 0) as i64,
        },
    }
}

impl Rect {
    pub fn new(xy: Point, size: Extent) -> (r: Rect)
        ensures
            r.xy == xy,
            r.size == size,
    {
        Rect { xy, size }
    }

    /// The axis-aligned intersection of `self` and `rect`: the overlap
    /// box, with sizes clamped to zero where the rectangles do not meet.
    pub fn intersect(self, rect: Rect) -> (r: Rect)
        ensures
            r == rect_intersect_s(self, rect),
    {
        let ax = self.xy.x;
        let ay = self.xy.y;
        let aw = self.size.width;
        let ah = self.size.height;
        let bx = rect.xy.x;
        let by = rect.xy.y;
        let bw = rect.size.width;
        let bh = rect.size.height;
        let minx = fx_max(ax, bx);
        let miny = fx_max(ay, by);
        let maxx = crate::fixed::fx_min(fx_add(ax, aw), fx_add(bx, bw));
        let maxy = crate::fixed::fx_min(fx_add(ay, ah), fx_add(by, bh));
        Rect::new(
            Point::new(minx, miny),
            Extent::new(fx_max(fx_sub(maxx, minx), 0), fx_max(fx_sub(maxy, miny), 0)),
        )
    }

    /// The rectangle grown by `width` and `height`, centered.
    pub fn grow(&self, width: i64, height: i64) -> (r: Rect)
        requires
            width != i64::MIN,
            height != i64::MIN,
        ensures
            r.xy.x as int == fx_add_s(self.xy.x as int, -crate::fixed::tdiv_s(width as int, 2)),
            r.xy.y as int == fx_add_s(self.xy.y as int, -crate::fixed::tdiv_s(height as int, 2)),
            r.size.width as int == fx_add_s(self.size.width as int, width as int),
            r.size.height as int == fx_add_s(self.size.height as int, height as int),
    {
        let hw = crate::fixed::fx_tdiv(width, 2);
        let hh = crate::fixed::fx_tdiv(height, 2);
        Rect::new(
            self.xy.offset(-hw, -hh),
            Extent::new(fx_add(self.size.width, width), fx_add(self.size.height, height)),
        )
    }
}

impl Default for Rect {
    fn default() -> (r: Rect)
        ensures
            r.xy.x == 0,
            r.xy.y == 0,
            r.size.width == 0,
            r.size.height == 0,
    {
        Rect { xy: Point { x: 0, y: 0 }, size: Extent { width: 0, height: 0 } }
    }
}

/// A min/max corner pair accumulated while flattening.
#[derive(Debug, Copy, Clone, PartialEq, Eq, Structural)]
pub struct Bounds {
    pub min: Point,
    pub max: Point,
}

impl Bounds {
    pub fn width(&self) -> (r: i64)
        ensures
            r as int == fx_sub_s(self.max.x as int, self.min.x as int),
    {
        fx_sub(self.max.x, self.min.x)
    }

    pub fn height(&self) -> (r: i64)
        ensures
            r as int == fx_sub_s(self.max.y as int, self.min.y as int),
    {
        fx_sub(self.max.y, self.min.y)
    }

    pub fn left_top(&self) -> (r: Point)
        ensures
            r == self.min,
    {
        self.min
    }

    pub fn right_top(&self) -> (r: Point)
        ensures
            r.x == self.max.x,
            r.y == self.min.y,
    {
        Point::new(self.max.x, self.min.y)
    }

    pub fn left_bottom(&self) -> (r: Point)
        ensures
            r.x == self.min.x,
            r.y == self.max.y,
    {
        Point::new(self.min.x, self.max.y)
    }

    pub fn right_bottom(&self) -> (r: Point)
        ensures
            r == self.max,
    {
        self.max
    }
}

impl Default for Bounds {
    fn default() -> (r: Bounds)
        ensures
            r.min.x == 0,
            r.min.y == 0,
            r.max.x == 0,
            r.max.y == 0,
    {
        Bounds { min: Point { x: 0, y: 0 }, max: Point { x: 0, y: 0 } }
    }
}

/// Spec model of an affine transform's six entries.
pub struct STrans {
    pub m0: int,
    pub m1: int,
    pub m2: int,
    pub m3: int,
    pub m4: int,
    pub m5: int,
}

/// A 2x3 affine transform; the entries `m0..m5` are the `[a b c d e f]`
/// affine coefficients.
#[derive(Debug, Copy, Clone, PartialEq, Eq, Structural)]
pub struct Transform {
    pub m0: i64,
    pub m1: i64,
    pub m2: i64,
    pub m3: i64,
    pub m4: i64,
    pub m5: i64,
}

impl View for Transform {
    type V = STrans;

    open spec fn view(&self) -> STrans {
        STrans {
            m0: self.m0 as int,
            m1: self.m1 as int,
            m2: self.m2 as int,
            m3: self.m3 as int,
            m4: self.m4 as int,
            m5: self.m5 as int,
        }
    }
}

impl Transform {
    /// Build a transform from its six entries.
    pub fn with_entries(m0: i64, m1: i64, m2: i64, m3: i64, m4: i64, m5: i64) -> (r: Transform)
        ensures
            r@ == (STrans {
                m0: m0 as int,
                m1: m1 as int,
                m2: m2 as int,
                m3: m3 as int,
                m4: m4 as int,
                m5: m5 as int,
            }),
    {
        Transform { m0, m1, m2, m3, m4, m5 }
    }
}

/// `pt` mapped through `t`.
pub open spec fn xform_pt_s(t: STrans, p: SPoint) -> SPoint {
    SPoint {
        x: fx_add_s(fx_add_s(fx_mul_s(p.x, t.m0), fx_mul_s(p.y, t.m2)), t.m4),
        y: fx_add_s(fx_add_s(fx_mul_s(p.x, t.m1), fx_mul_s(p.y, t.m3)), t.m5),
    }
}

/// Transform composition, `t` then `s`.
pub open spec fn xform_mul_s(t: STrans, s: STrans) -> STrans {
    STrans {
        m0: fx_add_s(fx_mul_s(t.m0, s.m0), fx_mul_s(t.m1, s.m2)),
        m1: fx_add_s(fx_mul_s(t.m0, s.m1), fx_mul_s(t.m1, s.m3)),
        m2: fx_add_s(fx_mul_s(t.m2, s.m0), fx_mul_s(t.m3, s.m2)),
        m3: fx_add_s(fx_mul_s(t.m2, s.m1), fx_mul_s(t.m3, s.m3)),
        m4: fx_add_s(fx_add_s(fx_mul_s(t.m4, s.m0), fx_mul_s(t.m5, s.m2)), s.m4),
        m5: fx_add_s(fx_add_s(fx_mul_s(t.m4, s.m1), fx_mul_s(t.m5, s.m3)), s.m5),
    }
}

pub open spec fn identity_s() -> STrans {
    STrans { m0: FX_ONE as int, m1: 0, m2: 0, m3: FX_ONE as int, m4: 0, m5: 0 }
}

/// The inverse of an affine transform; a zero determinant yields the
/// identity.
pub open spec fn xform_inverse_s(t: STrans) -> STrans {
    let det = fx_sub_s(fx_mul_s(t.m0, t.m3), fx_mul_s(t.m2, t.m1));
    if det == 0 {
        identity_s()
    } else {
        let invdet = fx_div_s(FX_ONE as int, det);
        STrans {
            m0: fx_mul_s(t.m3, invdet),
            m1: fx_mul_s(sat_s(-t.m1), invdet),
            m2: fx_mul_s(sat_s(-t.m2), invdet),
            m3: fx_mul_s(t.m0, invdet),
            m4: fx_mul_s(fx_sub_s(fx_mul_s(t.m2, t.m5), fx_mul_s(t.m3, t.m4)), invdet),
            m5: fx_mul_s(fx_sub_s(fx_mul_s(t.m1, t.m4), fx_mul_s(t.m0, t.m5)), invdet),
        }
    }
}

/// Average of the column scales, used to scale stroke widths.
pub open spec fn avg_scale_s(t: STrans) -> int {
    let sx = fx_sqrt_s(fx_add_s(fx_mul_s(t.m0, t.m0), fx_mul_s(t.m2, t.m2)));
    let sy = fx_sqrt_s(fx_add_s(fx_mul_s(t.m1, t.m1), fx_mul_s(t.m3, t.m3)));
    fx_mul_s(fx_add_s(sx, sy), 32768)
}

/// The average scale snapped up to a hundredth, for font rasterization.
pub open spec fn font_scale_s(t: STrans) -> int {
    let a = avg_scale_s(t);
    sat_s(fx_ceil_s(fx_max_s(fx_div_s(a, 655), 0)) * 655)
}

impl Transform {
    pub fn identity() -> (r: Transform)
        ensures
            r@ == identity_s(),
    {
        Transform::with_entries(FX_ONE, 0, 0, FX_ONE, 0, 0)
    }

    pub fn translate(tx: i64, ty: i64) -> (r: Transform)
        ensures
            r@ == (STrans {
                m0: FX_ONE as int,
                m1: 0,
                m2: 0,
                m3: FX_ONE as int,
                m4: tx as int,
                m5: ty as int,
            }),
    {
        Transform::with_entries(FX_ONE, 0, 0, FX_ONE, tx, ty)
    }

    pub fn scale(sx: i64, sy: i64) -> (r: Transform)
        ensures
            r@ == (STrans { m0: sx as int, m1: 0, m2: 0, m3: sy as int, m4: 0, m5: 0 }),
    {
        Transform::with_entries(sx, 0, 0, sy, 0, 0)
    }

    pub fn rotate(a: i64) -> (r: Transform)
        ensures
            r@ == (STrans {
                m0: cos_s(a as int),
                m1: sin_s(a as int),
                m2: -sin_s(a as int),
                m3: cos_s(a as int),
                m4: 0,
                m5: 0,
            }),
    {
        let cs = fx_cos(a);
        let sn = fx_sin(a);
        Transform::with_entries(cs, sn, -sn, cs, 0, 0)
    }

    pub fn skew_x(a: i64) -> (r: Transform)
        ensures
            r@ == (STrans {
                m0: FX_ONE as int,
                m1: 0,
                m2: fx_div_s(sin_s(a as int), cos_s(a as int)),
                m3: FX_ONE as int,
                m4: 0,
                m5: 0,
            }),
    {
        let t = fx_div(fx_sin(a), fx_cos(a));
        Transform::with_entries(FX_ONE, 0, t, FX_ONE, 0, 0)
    }

    pub fn skew_y(a: i64) -> (r: Transform)
        ensures
            r@ == (STrans {
                m0: FX_ONE as int,
                m1: fx_div_s(sin_s(a as int), cos_s(a as int)),
                m2: 0,
                m3: FX_ONE as int,
                m4: 0,
                m5: 0,
            }),
    {
        let t = fx_div(fx_sin(a), fx_cos(a));
        Transform::with_entries(FX_ONE, t, 0, FX_ONE, 0, 0)
    }

    /// Composition `self` then `rhs`.
    pub fn multiply(self, rhs: Transform) -> (r: Transform)
        ensures
            r@ == xform_mul_s(self@, rhs@),
    {
        let t = &self;
        let s = &rhs;
        let t0 = fx_add(fx_mul(t.m0, s.m0), fx_mul(t.m1, s.m2));
        let t1 = fx_add(fx_mul(t.m0, s.m1), fx_mul(t.m1, s.m3));
        let t2 = fx_add(fx_mul(t.m2, s.m0), fx_mul(t.m3, s.m2));
        let t3 = fx_add(fx_mul(t.m2, s.m1), fx_mul(t.m3, s.m3));
        let t4 = fx_add(fx_add(fx_mul(t.m4, s.m0), fx_mul(t.m5, s.m2)), s.m4);
        let t5 = fx_add(fx_add(fx_mul(t.m4, s.m1), fx_mul(t.m5, s.m3)), s.m5);
        Transform::with_entries(t0, t1, t2, t3, t4, t5)
    }

    /// Composition `rhs` then `self`.
    pub fn pre_multiply(self, rhs: Transform) -> (r: Transform)
        ensures
            r@ == xform_mul_s(rhs@, self@),
    {
        rhs.multiply(self)
    }

    pub fn inverse(self) -> (r: Transform)
        ensures
            r@ == xform_inverse_s(self@),
    {
        let det = fx_sub(fx_mul(self.m0, self.m3), fx_mul(self.m2, self.m1));
        if det == 0 {
            return Transform::identity();
        }
        let invdet = fx_div(FX_ONE, det);
        let i0 = fx_mul(self.m3, invdet);
        let i1 = fx_mul(crate::fixed::fx_neg(self.m1), invdet);
        let i2 = fx_mul(crate::fixed::fx_neg(self.m2), invdet);
        let i3 = fx_mul(self.m0, invdet);
        let i4 = fx_mul(fx_sub(fx_mul(self.m2, self.m5), fx_mul(self.m3, self.m4)), invdet);
        let i5 = fx_mul(fx_sub(fx_mul(self.m1, self.m4), fx_mul(self.m0, self.m5)), invdet);
        Transform::with_entries(i0, i1, i2, i3, i4, i5)
    }

    pub fn transform_point(&self, pt: Point) -> (r: Point)
        ensures
            r@ == xform_pt_s(self@, pt@),
    {
        Point::new(
            fx_add(fx_add(fx_mul(pt.x, self.m0), fx_mul(pt.y, self.m2)), self.m4),
            fx_add(fx_add(fx_mul(pt.x, self.m1), fx_mul(pt.y, self.m3)), self.m5),
        )
    }

    /// Average of the horizontal and vertical scale factors.
    pub fn average_scale(&self) -> (r: i64)
        ensures
            r as int == avg_scale_s(self@),
    {
        let sx = fx_sqrt(fx_add(fx_mul(self.m0, self.m0), fx_mul(self.m2, self.m2)));
        let sy = fx_sqrt(fx_add(fx_mul(self.m1, self.m1), fx_mul(self.m3, self.m3)));
        fx_mul(fx_add(sx, sy), 32768)
    }

    /// The average scale rounded up to a hundredth of a unit.
    pub fn font_scale(&self) -> (r: i64)
        ensures
            r as int == font_scale_s(self@),
    {
        let a = self.average_scale();
        let q = fx_max(fx_div(a, 655), 0);
        let c = crate::fixed::fx_ceil_usize(q);
        (c as i64) * 655
    }
}

impl Default for Transform {
    fn default() -> (r: Transform)
        ensures
            r@ == (STrans { m0: 0, m1: 0, m2: 0, m3: 0, m4: 0, m5: 0 }),
    {
        Transform::with_entries(0, 0, 0, 0, 0, 0)
    }
}

} // verus!
