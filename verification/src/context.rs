//! Canvas-level data: paints, gradients, composite operations, drawing
//! state, path commands, tessellated vertices and per-subpath records.

use vstd::prelude::*;
use crate::color::Color;
use crate::errors::NonaError;
use crate::fixed::{
    fx_abs, fx_add, fx_add_s, fx_div, fx_div_s, fx_max, fx_max_s, fx_mul, fx_mul_s, fx_neg,
    fx_sqrt, fx_sqrt_s, fx_sub, fx_sub_s, sat_s, FX_ONE,
};
use crate::math::{Bounds, Extent, Point, Rect, SPoint, STrans, Transform, xform_mul_s};
use crate::renderer::Scissor;
use crate::trig::{cos_s, sin_s, fx_cos, fx_sin};

verus! {

/// Handle to a texture held by the renderer.
pub type ImageId = usize;

/// Handle to a registered font face.
pub type FontId = usize;

/// 0.5522847493 in 16.16 fixed point: the bezier circle constant.
pub const KAPPA90_FX: i64 = 36195;

/// Orientation intent of a subpath: filled region or subtractive cutout.
#[derive(Debug, Copy, Clone, Eq, PartialEq, Structural)]
pub enum Solidity {
    Solid,
    Hole,
}

/// How two stroke segments meet at a corner.
#[derive(Debug, Copy, Clone, Eq, PartialEq, Structural)]
pub enum LineJoin {
    Miter,
    Round,
    Bevel,
}

/// How an open stroke ends.
#[derive(Debug, Copy, Clone, Eq, PartialEq, Structural)]
pub enum LineCap {
    Butt,
    Round,
    Square,
}

/// A GPU blend factor.
#[derive(Debug, Copy, Clone, Eq, PartialEq, Structural)]
pub enum BlendFactor {
    Zero,
    One,
    SrcColor,
    OneMinusSrcColor,
    DstColor,
    OneMinusDstColor,
    SrcAlpha,
    OneMinusSrcAlpha,
    DstAlpha,
    OneMinusDstAlpha,
    SrcAlphaSaturate,
}

/// A named Porter-Duff style composite operation.
#[derive(Debug, Copy, Clone, Eq, PartialEq, Structural)]
pub enum BasicCompositeOperation {
    SrcOver,
    SrcIn,
    SrcOut,
    Atop,
    DstOver,
    DstIn,
    DstOut,
    DstAtop,
    Lighter,
    Copy,
    Xor,
}

/// A composite operation: named, a blend pair, or four separate factors.
#[derive(Debug, Copy, Clone, Eq, PartialEq, Structural)]
pub enum CompositeOperation {
    Basic(BasicCompositeOperation),
    BlendFunc { src: BlendFactor, dst: BlendFactor },
    BlendFuncSeparate {
        src_rgb: BlendFactor,
        dst_rgb: BlendFactor,
        src_alpha: BlendFactor,
        dst_alpha: BlendFactor,
    },
}

/// The four blend factors a composite operation resolves to.
#[derive(Debug, Copy, Clone, Eq, PartialEq, Structural)]
pub struct CompositeOperationState {
    pub src_rgb: BlendFactor,
    pub dst_rgb: BlendFactor,
    pub src_alpha: BlendFactor,
    pub dst_alpha: BlendFactor,
}

/// The blend-factor pair of a named composite operation.
pub open spec fn basic_blend_s(op: BasicCompositeOperation) -> (BlendFactor, BlendFactor) {
    match op {
        BasicCompositeOperation::SrcOver => (BlendFactor::One, BlendFactor::OneMinusSrcAlpha),
        BasicCompositeOperation::SrcIn => (BlendFactor::DstAlpha, BlendFactor::Zero),
        BasicCompositeOperation::SrcOut => (BlendFactor::OneMinusDstAlpha, BlendFactor::Zero),
        BasicCompositeOperation::Atop => (BlendFactor::DstAlpha, BlendFactor::OneMinusSrcAlpha),
        BasicCompositeOperation::DstOver => (BlendFactor::OneMinusDstAlpha, BlendFactor::One),
        BasicCompositeOperation::DstIn => (BlendFactor::Zero, BlendFactor::SrcAlpha),
        BasicCompositeOperation::DstOut => (BlendFactor::Zero, BlendFactor::OneMinusSrcAlpha),
        BasicCompositeOperation::DstAtop => (BlendFactor::OneMinusDstAlpha, BlendFactor::SrcAlpha),
        BasicCompositeOperation::Lighter => (BlendFactor::One, BlendFactor::One),
        BasicCompositeOperation::Copy => (BlendFactor::One, BlendFactor::Zero),
        BasicCompositeOperation::Xor => (
            BlendFactor::OneMinusDstAlpha,
            BlendFactor::OneMinusSrcAlpha,
        ),
    }
}

/// The blend state a composite operation resolves to.
pub open spec fn composite_state_s(op: CompositeOperation) -> CompositeOperationState {
    match op {
        CompositeOperation::Basic(b) => {
            let pair = basic_blend_s(b);
            CompositeOperationState {
                src_rgb: pair.0,
                dst_rgb: pair.1,
                src_alpha: pair.0,
                dst_alpha: pair.1,
            }
        },
        CompositeOperation::BlendFunc { src, dst } => CompositeOperationState {
            src_rgb: src,
            dst_rgb: dst,
            src_alpha: src,
            dst_alpha: dst,
        },
        CompositeOperation::BlendFuncSeparate { src_rgb, dst_rgb, src_alpha, dst_alpha } => {
            CompositeOperationState { src_rgb, dst_rgb, src_alpha, dst_alpha }
        },
    }
}

impl From<CompositeOperation> for CompositeOperationState {
    fn from(op: CompositeOperation) -> (r: CompositeOperationState)
        ensures
            r == composite_state_s(op),
    {
        match op {
            CompositeOperation::Basic(b) => {
                let pair: (BlendFactor, BlendFactor) = match b {
                    BasicCompositeOperation::SrcOver => (
                        BlendFactor::One,
                        BlendFactor::OneMinusSrcAlpha,
                    ),
                    BasicCompositeOperation::SrcIn => (BlendFactor::DstAlpha, BlendFactor::Zero),
                    BasicCompositeOperation::SrcOut => (
                        BlendFactor::OneMinusDstAlpha,
                        BlendFactor::Zero,
                    ),
                    BasicCompositeOperation::Atop => (
                        BlendFactor::DstAlpha,
                        BlendFactor::OneMinusSrcAlpha,
                    ),
                    BasicCompositeOperation::DstOver => (
                        BlendFactor::OneMinusDstAlpha,
                        BlendFactor::One,
                    ),
                    BasicCompositeOperation::DstIn => (BlendFactor::Zero, BlendFactor::SrcAlpha),
                    BasicCompositeOperation::DstOut => (
                        BlendFactor::Zero,
                        BlendFactor::OneMinusSrcAlpha,
                    ),
                    BasicCompositeOperation::DstAtop => (
                        BlendFactor::OneMinusDstAlpha,
                        BlendFactor::SrcAlpha,
                    ),
                    BasicCompositeOperation::Lighter => (BlendFactor::One, BlendFactor::One),
                    BasicCompositeOperation::Copy => (BlendFactor::One, BlendFactor::Zero),
                    BasicCompositeOperation::Xor => (
                        BlendFactor::OneMinusDstAlpha,
                        BlendFactor::OneMinusSrcAlpha,
                    ),
                };
                CompositeOperationState {
                    src_rgb: pair.0,
                    dst_rgb: pair.1,
                    src_alpha: pair.0,
                    dst_alpha: pair.1,
                }
            },
            CompositeOperation::BlendFunc { src, dst } => CompositeOperationState {
                src_rgb: src,
                dst_rgb: dst,
                src_alpha: src,
                dst_alpha: dst,
            },
            CompositeOperation::BlendFuncSeparate { src_rgb, dst_rgb, src_alpha, dst_alpha } => {
                CompositeOperationState { src_rgb, dst_rgb, src_alpha, dst_alpha }
            },
        }
    }
}

impl vstd::std_specs::convert::FromSpecImpl<CompositeOperation> for CompositeOperationState {
    open spec fn obeys_from_spec() -> bool {
        true
    }

    open spec fn from_spec(op: CompositeOperation) -> CompositeOperationState {
        composite_state_s(op)
    }
}

/// Text alignment flags.
#[derive(Debug, Copy, Clone, Eq, PartialEq, Structural)]
pub struct Align {
    pub left: bool,
    pub center: bool,
    pub right: bool,
    pub top: bool,
    pub middle: bool,
    pub bottom: bool,
    pub baseline: bool,
}

impl Align {
    /// No flag set.
    pub fn empty() -> (r: Align)
        ensures
            r == (Align {
                left: false,
                center: false,
                right: false,
                top: false,
                middle: false,
                bottom: false,
                baseline: false,
            }),
    {
        Align {
            left: false,
            center: false,
            right: false,
            top: false,
            middle: false,
            bottom: false,
            baseline: false,
        }
    }

    /// The default alignment: left of the anchor, on the baseline.
    pub fn left_baseline() -> (r: Align)
        ensures
            r == (Align {
                left: true,
                center: false,
                right: false,
                top: false,
                middle: false,
                bottom: false,
                baseline: true,
            }),
    {
        Align {
            left: true,
            center: false,
            right: false,
            top: false,
            middle: false,
            bottom: false,
            baseline: true,
        }
    }

    /// The union of two flag sets.
    pub fn union(self, o: Align) -> (r: Align)
        ensures
            r == (Align {
                left: self.left || o.left,
                center: self.center || o.center,
                right: self.right || o.right,
                top: self.top || o.top,
                middle: self.middle || o.middle,
                bottom: self.bottom || o.bottom,
                baseline: self.baseline || o.baseline,
            }),
    {
        Align {
            left: self.left || o.left,
            center: self.center || o.center,
            right: self.right || o.right,
            top: self.top || o.top,
            middle: self.middle || o.middle,
            bottom: self.bottom || o.bottom,
            baseline: self.baseline || o.baseline,
        }
    }
}

/// Texture behavior flags.
#[derive(Debug, Copy, Clone, Eq, PartialEq, Structural)]
pub struct ImageFlags {
    pub generate_mipmaps: bool,
    pub repeat_x: bool,
    pub repeat_y: bool,
    pub flip_y: bool,
    pub premultiplied: bool,
    pub nearest: bool,
}

impl ImageFlags {
    /// No flag set.
    pub fn empty() -> (r: ImageFlags)
        ensures
            r == (ImageFlags {
                generate_mipmaps: false,
                repeat_x: false,
                repeat_y: false,
                flip_y: false,
                premultiplied: false,
                nearest: false,
            }),
    {
        ImageFlags {
            generate_mipmaps: false,
            repeat_x: false,
            repeat_y: false,
            flip_y: false,
            premultiplied: false,
            nearest: false,
        }
    }
}

/// Spec model of an output vertex.
pub struct SVertex {
    pub x: int,
    pub y: int,
    pub u: int,
    pub v: int,
}

/// An output vertex: position plus texture coordinates, in fixed point.
/// `v == FX_ONE` marks the solid edge of an antialiasing fringe, `v == 0`
/// its transparent edge.
#[derive(Debug, Copy, Clone, PartialEq, Eq, Structural)]
pub struct Vertex {
    pub x: i64,
    pub y: i64,
    pub u: i64,
    pub v: i64,
}

impl View for Vertex {
    type V = SVertex;

    open spec fn view(&self) -> SVertex {
        SVertex { x: self.x as int, y: self.y as int, u: self.u as int, v: self.v as int }
    }
}

impl Vertex {
    pub fn new(x: i64, y: i64, u: i64, v: i64) -> (r: Vertex)
        ensures
            r.x == x,
            r.y == y,
            r.u == u,
            r.v == v,
    {
        Vertex { x, y, u, v }
    }
}

impl Default for Vertex {
    fn default() -> (r: Vertex)
        ensures
            r.x == 0,
            r.y == 0,
            r.u == 0,
            r.v == 0,
    {
        Vertex { x: 0, y: 0, u: 0, v: 0 }
    }
}

/// Spec model of a subpath record.
pub struct SPath {
    pub first: int,
    pub count: int,
    pub closed: bool,
    pub nbevel: int,
    pub solidity: Solidity,
    pub fill_first: int,
    pub nfill: int,
    pub stroke_first: int,
    pub nstroke: int,
    pub convex: bool,
}

/// A subpath record: a range into the point buffer plus ranges into the
/// shared vertex arena filled by the expand calls. The arena ranges stay
/// valid until the next expand call or `begin_path`.
#[derive(Debug, Copy, Clone, PartialEq, Eq, Structural)]
pub struct Path {
    pub first: usize,
    pub count: usize,
    pub closed: bool,
    pub num_bevel: usize,
    pub solidity: Solidity,
    pub fill_first: usize,
    pub num_fill: usize,
    pub stroke_first: usize,
    pub num_stroke: usize,
    pub convex: bool,
}

impl View for Path {
    type V = SPath;

    open spec fn view(&self) -> SPath {
        SPath {
            first: self.first as int,
            count: self.count as int,
            closed: self.closed,
            nbevel: self.num_bevel as int,
            solidity: self.solidity,
            fill_first: self.fill_first as int,
            nfill: self.num_fill as int,
            stroke_first: self.stroke_first as int,
            nstroke: self.num_stroke as int,
            convex: self.convex,
        }
    }
}

impl Path {
    /// The fill vertices of this subpath, as a slice of the shared arena.
    pub fn get_fill<'a>(&self, vertexes: &'a [Vertex]) -> (r: &'a [Vertex])
        requires
            self.fill_first + self.num_fill <= vertexes@.len(),
        ensures
            r@ == vertexes@.subrange(
                self.fill_first as int,
                self.fill_first as int + self.num_fill as int,
            ),
    {
        let n = vertexes.len();
        vstd::slice::slice_subrange(vertexes, self.fill_first, self.fill_first + self.num_fill)
    }

    /// The stroke vertices of this subpath, as a slice of the shared arena.
    pub fn get_stroke<'a>(&self, vertexes: &'a [Vertex]) -> (r: &'a [Vertex])
        requires
            self.stroke_first + self.num_stroke <= vertexes@.len(),
        ensures
            r@ == vertexes@.subrange(
                self.stroke_first as int,
                self.stroke_first as int + self.num_stroke as int,
            ),
    {
        let n = vertexes.len();
        vstd::slice::slice_subrange(
            vertexes,
            self.stroke_first,
            self.stroke_first + self.num_stroke,
        )
    }
}

/// Font metrics in fixed-point units.
#[derive(Debug, Copy, Clone, PartialEq, Eq, Structural)]
pub struct TextMetrics {
    pub ascender: i64,
    pub descender: i64,
    pub line_gap: i64,
}

impl TextMetrics {
    /// Height of a text line: ascender - descender + line gap.
    pub fn line_height(&self) -> (r: i64)
        ensures
            r as int == fx_add_s(
                fx_sub_s(self.ascender as int, self.descender as int),
                self.line_gap as int,
            ),
    {
        fx_add(fx_sub(self.ascender, self.descender), self.line_gap)
    }
}

/// One laid-out character: where its quad sits and which part of the glyph
/// atlas it samples. Produced by a font engine outside the library; the
/// canvas only turns these into triangles.
#[derive(Debug, Copy, Clone, PartialEq, Eq, Structural)]
pub struct LayoutChar {
    pub x: i64,
    pub next_x: i64,
    pub c: char,
    pub idx: usize,
    pub uv: Bounds,
    pub bounds: Bounds,
}

/// A gradient description, convertible into a [`Paint`].
#[derive(Debug, Copy, Clone, PartialEq)]
pub enum Gradient {
    Linear { start: Point, end: Point, start_color: Color, end_color: Color },
    Radial { center: Point, in_radius: i64, out_radius: i64, inner_color: Color, outer_color: Color },
    Box { rect: Rect, radius: i64, feather: i64, inner_color: Color, outer_color: Color },
}

/// An image-fill description, convertible into a [`Paint`].
#[derive(Debug, Copy, Clone, PartialEq)]
pub struct ImagePattern {
    pub center: Point,
    pub size: Extent,
    pub angle: i64,
    pub img: ImageId,
    pub alpha: i64,
}

/// A resolved fill/stroke description handed to the renderer.
#[derive(Debug, Copy, Clone, PartialEq)]
pub struct Paint {
    pub xform: Transform,
    pub extent: Extent,
    pub radius: i64,
    pub feather: i64,
    pub inner_color: Color,
    pub outer_color: Color,
    pub image: Option<ImageId>,
}

/// 1e5 units: stands in for an infinite linear-gradient extent.
pub const GRAD_LARGE_FX: i64 = 6553600000;

/// The paint of a gradient, exactly as the conversion rules state it.
pub open spec fn gradient_paint_s(grad: Gradient) -> Paint {
    match grad {
        Gradient::Linear { start, end, start_color, end_color } => {
            let dx0 = fx_sub_s(end@.x, start@.x);
            let dy0 = fx_sub_s(end@.y, start@.y);
            let d = fx_sqrt_s(fx_add_s(fx_mul_s(dx0, dx0), fx_mul_s(dy0, dy0)));
            let dx = if d > 6 {
                fx_div_s(dx0, d)
            } else {
                0
            };
            let dy = if d > 6 {
                fx_div_s(dy0, d)
            } else {
                FX_ONE as int
            };
            Paint {
                xform: Transform {
                    m0: dy as i64,
                    m1: sat_s(-dx) as i64,
                    m2: dx as i64,
                    m3: dy as i64,
                    m4: fx_sub_s(start@.x, fx_mul_s(dx, GRAD_LARGE_FX as int)) as i64,
                    m5: fx_sub_s(start@.y, fx_mul_s(dy, GRAD_LARGE_FX as int)) as i64,
                },
                extent: Extent {
                    width: GRAD_LARGE_FX,
                    height: fx_add_s(GRAD_LARGE_FX as int, fx_mul_s(d, 32768)) as i64,
                },
                radius: 0,
                feather: fx_max_s(d, FX_ONE as int) as i64,
                inner_color: start_color,
                outer_color: end_color,
                image: None,
            }
        },
        Gradient::Radial { center, in_radius, out_radius, inner_color, outer_color } => {
            let r = fx_mul_s(fx_add_s(in_radius as int, out_radius as int), 32768);
            let f = fx_sub_s(out_radius as int, in_radius as int);
            Paint {
                xform: Transform {
                    m0: FX_ONE,
                    m1: 0,
                    m2: 0,
                    m3: FX_ONE,
                    m4: center.x,
                    m5: center.y,
                },
                extent: Extent { width: r as i64, height: r as i64 },
                radius: r as i64,
                feather: fx_max_s(f, FX_ONE as int) as i64,
                inner_color,
                outer_color,
                image: None,
            }
        },
        Gradient::Box { rect, radius, feather, inner_color, outer_color } => {
            Paint {
                xform: Transform {
                    m0: FX_ONE,
                    m1: 0,
                    m2: 0,
                    m3: FX_ONE,
                    m4: fx_add_s(rect.xy.x as int, fx_mul_s(rect.size.width as int, 32768)) as i64,
                    m5: fx_add_s(rect.xy.y as int, fx_mul_s(rect.size.height as int, 32768)) as i64,
                },
                extent: Extent {
                    width: fx_mul_s(rect.size.width as int, 32768) as i64,
                    height: fx_mul_s(rect.size.height as int, 32768) as i64,
                },
                radius,
                feather: fx_max_s(feather as int, FX_ONE as int) as i64,
                inner_color,
                outer_color,
                image: None,
            }
        },
    }
}

impl From<Gradient> for Paint {
    fn from(grad: Gradient) -> (r: Paint)
        ensures
            r == gradient_paint_s(grad),
    {
        match grad {
            Gradient::Linear { start, end, start_color, end_color } => {
                let dx0 = fx_sub(end.x, start.x);
                let dy0 = fx_sub(end.y, start.y);
                let d = fx_sqrt(fx_add(fx_mul(dx0, dx0), fx_mul(dy0, dy0)));
                let dx: i64;
                let dy: i64;
                if d > 6 {
                    dx = fx_div(dx0, d);
                    dy = fx_div(dy0, d);
                } else {
                    dx = 0;
                    dy = FX_ONE;
                }
                Paint {
                    xform: Transform {
                        m0: dy,
                        m1: fx_neg(dx),
                        m2: dx,
                        m3: dy,
                        m4: fx_sub(start.x, fx_mul(dx, GRAD_LARGE_FX)),
                        m5: fx_sub(start.y, fx_mul(dy, GRAD_LARGE_FX)),
                    },
                    extent: Extent {
                        width: GRAD_LARGE_FX,
                        height: fx_add(GRAD_LARGE_FX, fx_mul(d, 32768)),
                    },
                    radius: 0,
                    feather: fx_max(d, FX_ONE),
                    inner_color: start_color,
                    outer_color: end_color,
                    image: None,
                }
            },
            Gradient::Radial { center, in_radius, out_radius, inner_color, outer_color } => {
                let r = fx_mul(fx_add(in_radius, out_radius), 32768);
                let f = fx_sub(out_radius, in_radius);
                Paint {
                    xform: Transform {
                        m0: FX_ONE,
                        m1: 0,
                        m2: 0,
                        m3: FX_ONE,
                        m4: center.x,
                        m5: center.y,
                    },
                    extent: Extent { width: r, height: r },
                    radius: r,
                    feather: fx_max(f, FX_ONE),
                    inner_color,
                    outer_color,
                    image: None,
                }
            },
            Gradient::Box { rect, radius, feather, inner_color, outer_color } => {
                Paint {
                    xform: Transform {
                        m0: FX_ONE,
                        m1: 0,
                        m2: 0,
                        m3: FX_ONE,
                        m4: fx_add(rect.xy.x, fx_mul(rect.size.width, 32768)),
                        m5: fx_add(rect.xy.y, fx_mul(rect.size.height, 32768)),
                    },
                    extent: Extent {
                        width: fx_mul(rect.size.width, 32768),
                        height: fx_mul(rect.size.height, 32768),
                    },
                    radius,
                    feather: fx_max(feather, FX_ONE),
                    inner_color,
                    outer_color,
                    image: None,
                }
            },
        }
    }
}

impl vstd::std_specs::convert::FromSpecImpl<Gradient> for Paint {
    open spec fn obeys_from_spec() -> bool {
        true
    }

    open spec fn from_spec(grad: Gradient) -> Paint {
        gradient_paint_s(grad)
    }
}

/// The paint of an image pattern: a rotation recentered on the pattern.
pub open spec fn pattern_paint_s(pat: ImagePattern) -> Paint {
    Paint {
        xform: Transform {
            m0: cos_s(pat.angle as int) as i64,
            m1: sin_s(pat.angle as int) as i64,
            m2: sat_s(-sin_s(pat.angle as int)) as i64,
            m3: cos_s(pat.angle as int) as i64,
            m4: pat.center.x,
            m5: pat.center.y,
        },
        extent: pat.size,
        radius: 0,
        feather: 0,
        inner_color: Color { r: FX_ONE, g: FX_ONE, b: FX_ONE, a: pat.alpha },
        outer_color: Color { r: FX_ONE, g: FX_ONE, b: FX_ONE, a: pat.alpha },
        image: Some(pat.img),
    }
}

impl From<ImagePattern> for Paint {
    fn from(pat: ImagePattern) -> (r: Paint)
        ensures
            r == pattern_paint_s(pat),
    {
        let cs = fx_cos(pat.angle);
        let sn = fx_sin(pat.angle);
        Paint {
            xform: Transform {
                m0: cs,
                m1: sn,
                m2: fx_neg(sn),
                m3: cs,
                m4: pat.center.x,
                m5: pat.center.y,
            },
            extent: pat.size,
            radius: 0,
            feather: 0,
            inner_color: Color::rgba(FX_ONE, FX_ONE, FX_ONE, pat.alpha),
            outer_color: Color::rgba(FX_ONE, FX_ONE, FX_ONE, pat.alpha),
            image: Some(pat.img),
        }
    }
}

impl vstd::std_specs::convert::FromSpecImpl<ImagePattern> for Paint {
    open spec fn obeys_from_spec() -> bool {
        true
    }

    open spec fn from_spec(pat: ImagePattern) -> Paint {
        pattern_paint_s(pat)
    }
}

/// The paint of a solid color: identity transform, unit feather.
pub open spec fn color_paint_s(color: Color) -> Paint {
    Paint {
        xform: Transform { m0: FX_ONE, m1: 0, m2: 0, m3: FX_ONE, m4: 0, m5: 0 },
        extent: Extent { width: 0, height: 0 },
        radius: 0,
        feather: FX_ONE,
        inner_color: color,
        outer_color: color,
        image: None,
    }
}

impl From<Color> for Paint {
    fn from(color: Color) -> (r: Paint)
        ensures
            r == color_paint_s(color),
    {
        Paint {
            xform: Transform::identity(),
            extent: Extent { width: 0, height: 0 },
            radius: 0,
            feather: FX_ONE,
            inner_color: color,
            outer_color: color,
            image: None,
        }
    }
}

impl vstd::std_specs::convert::FromSpecImpl<Color> for Paint {
    open spec fn obeys_from_spec() -> bool {
        true
    }

    open spec fn from_spec(color: Color) -> Paint {
        color_paint_s(color)
    }
}

/// A path-building command, already transformed into canvas space.
#[derive(Debug, Copy, Clone, PartialEq, Eq, Structural)]
pub enum Command {
    MoveTo(Point),
    LineTo(Point),
    BezierTo(Point, Point, Point),
    Close,
    Solidity(Solidity),
}

/// One entry of the drawing-state stack: everything `save` and `restore`
/// copy as a unit.
#[derive(Debug, Copy, Clone, PartialEq)]
pub struct State {
    pub composite_operation: CompositeOperationState,
    pub shape_antialias: bool,
    pub fill: Paint,
    pub stroke: Paint,
    pub stroke_width: i64,
    pub miter_limit: i64,
    pub line_join: LineJoin,
    pub line_cap: LineCap,
    pub alpha: i64,
    pub xform: Transform,
    pub scissor: Scissor,
    pub font_size: i64,
    pub letter_spacing: i64,
    pub line_height: i64,
    pub text_align: Align,
    pub font_id: FontId,
}

/// The default drawing state: source-over, antialiased, white fill, black
/// stroke, unit stroke width, no scissor.
pub open spec fn state_default_s() -> State {
    State {
        composite_operation: composite_state_s(
            CompositeOperation::Basic(BasicCompositeOperation::SrcOver),
        ),
        shape_antialias: true,
        fill: color_paint_s(Color { r: FX_ONE, g: FX_ONE, b: FX_ONE, a: FX_ONE }),
        stroke: color_paint_s(Color { r: 0, g: 0, b: 0, a: FX_ONE }),
        stroke_width: FX_ONE,
        miter_limit: 655360,
        line_join: LineJoin::Miter,
        line_cap: LineCap::Butt,
        alpha: FX_ONE,
        xform: Transform { m0: FX_ONE, m1: 0, m2: 0, m3: FX_ONE, m4: 0, m5: 0 },
        scissor: Scissor {
            xform: Transform { m0: 0, m1: 0, m2: 0, m3: 0, m4: 0, m5: 0 },
            extent: Extent { width: -65536i64, height: -65536i64 },
        },
        font_size: 1048576,
        letter_spacing: 0,
        line_height: FX_ONE,
        text_align: Align {
            left: true,
            center: false,
            right: false,
            top: false,
            middle: false,
            bottom: false,
            baseline: true,
        },
        font_id: 0,
    }
}

impl Default for State {
    fn default() -> (r: State)
        ensures
            r == state_default_s(),
    {
        State {
            composite_operation: CompositeOperationState::from(
                CompositeOperation::Basic(BasicCompositeOperation::SrcOver),
            ),
            shape_antialias: true,
            fill: Paint::from(Color::rgb(FX_ONE, FX_ONE, FX_ONE)),
            stroke: Paint::from(Color::rgb(0, 0, 0)),
            stroke_width: FX_ONE,
            miter_limit: 655360,
            line_join: LineJoin::Miter,
            line_cap: LineCap::Butt,
            alpha: FX_ONE,
            xform: Transform::identity(),
            scissor: Scissor {
                xform: Transform { m0: 0, m1: 0, m2: 0, m3: 0, m4: 0, m5: 0 },
                extent: Extent { width: -FX_ONE, height: -FX_ONE },
            },
            font_size: 1048576,
            letter_spacing: 0,
            line_height: FX_ONE,
            text_align: Align::left_baseline(),
            font_id: 0,
        }
    }
}


/// A spec-level point from integer coordinates in the saturation range.
pub open spec fn spt_to_pt(p: SPoint) -> Point {
    Point { x: p.x as i64, y: p.y as i64 }
}

/// A command mapped through the current transform, as `append_command`
/// stores it.
pub open spec fn xform_cmd_s(t: STrans, cmd: Command) -> Command {
    match cmd {
        Command::MoveTo(p) => Command::MoveTo(spt_to_pt(crate::math::xform_pt_s(t, p@))),
        Command::LineTo(p) => Command::LineTo(spt_to_pt(crate::math::xform_pt_s(t, p@))),
        Command::BezierTo(p1, p2, p3) => Command::BezierTo(
            spt_to_pt(crate::math::xform_pt_s(t, p1@)),
            spt_to_pt(crate::math::xform_pt_s(t, p2@)),
            spt_to_pt(crate::math::xform_pt_s(t, p3@)),
        ),
        Command::Close => Command::Close,
        Command::Solidity(sol) => Command::Solidity(sol),
    }
}

/// The position `append_command` remembers: the untransformed endpoint of a
/// positional command, the old position otherwise.
pub open spec fn cmd_last_pos_s(cmd: Command, prev: Point) -> Point {
    match cmd {
        Command::MoveTo(p) => p,
        Command::LineTo(p) => p,
        Command::BezierTo(p1, p2, p3) => p3,
        Command::Close => prev,
        Command::Solidity(sol) => prev,
    }
}

/// Saturating triangle-count accumulation over expanded subpaths: two draw
/// calls and the fan/ring triangle counts per subpath, as `fill` counts.
pub open spec fn fill_counts_s(paths: Seq<SPath>, i: int, tris: int, calls: int) -> (int, int)
    decreases paths.len() - i,
{
    if i < 0 || i >= paths.len() {
        (tris, calls)
    } else {
        let p = paths[i];
        let t1 = if p.nfill > 2 {
            crate::fixed::fx_min_s(tris + (p.nfill - 2), usize::MAX as int)
        } else {
            tris
        };
        let t2 = if p.nstroke > 2 {
            crate::fixed::fx_min_s(t1 + (p.nstroke - 2), usize::MAX as int)
        } else {
            t1
        };
        fill_counts_s(paths, i + 1, t2, crate::fixed::fx_min_s(calls + 2, usize::MAX as int))
    }
}

/// Saturating triangle-count accumulation as `stroke` counts: one draw call
/// per subpath and the strip triangles of each.
pub open spec fn stroke_counts_s(paths: Seq<SPath>, i: int, tris: int, calls: int) -> (int, int)
    decreases paths.len() - i,
{
    if i < 0 || i >= paths.len() {
        (tris, calls)
    } else {
        let p = paths[i];
        let t1 = if p.nstroke > 2 {
            crate::fixed::fx_min_s(tris + (p.nstroke - 2), usize::MAX as int)
        } else {
            tris
        };
        stroke_counts_s(paths, i + 1, t1, crate::fixed::fx_min_s(calls + 1, usize::MAX as int))
    }
}

/// The six vertices (two triangles) of one laid-out character's quad, both
/// corners scaled back into canvas units by `invscale`.
pub open spec fn char_quad_s(lc: LayoutChar, invscale: int) -> Seq<crate::context::SVertex> {
    let ltx = fx_mul_s(lc.bounds.min.x as int, invscale);
    let lty = fx_mul_s(lc.bounds.min.y as int, invscale);
    let rbx = fx_mul_s(lc.bounds.max.x as int, invscale);
    let rby = fx_mul_s(lc.bounds.max.y as int, invscale);
    seq![
        SVertex { x: ltx, y: lty, u: lc.uv.min.x as int, v: lc.uv.min.y as int },
        SVertex { x: rbx, y: rby, u: lc.uv.max.x as int, v: lc.uv.max.y as int },
        SVertex { x: rbx, y: lty, u: lc.uv.max.x as int, v: lc.uv.min.y as int },
        SVertex { x: ltx, y: lty, u: lc.uv.min.x as int, v: lc.uv.min.y as int },
        SVertex { x: ltx, y: rby, u: lc.uv.min.x as int, v: lc.uv.max.y as int },
        SVertex { x: rbx, y: rby, u: lc.uv.max.x as int, v: lc.uv.max.y as int },
    ]
}

/// The text quads of a whole layout from character `i` on.
pub open spec fn text_quads_s(chars: Seq<LayoutChar>, i: int, invscale: int) -> Seq<
    crate::context::SVertex,
>
    decreases chars.len() - i,
{
    if i < 0 || i >= chars.len() {
        Seq::empty()
    } else {
        char_quad_s(chars[i], invscale) + text_quads_s(chars, i + 1, invscale)
    }
}

/// Name for what `image::load_from_memory` plus `DynamicImage::to_rgba`
/// decode out of a byte buffer: `None` on undecodable bytes, else the RGBA8
/// width, height and pixel bytes; the result depends on the bytes alone.
pub uninterp spec fn decoded_rgba(data: Seq<u8>) -> Option<(nat, nat, Seq<u8>)>;

/// Relies on `image::load_from_memory` and `DynamicImage::to_rgba`: decodes
/// an encoded image into its RGBA8 pixels, four bytes per pixel.
#[verifier::external_body]
fn decode_rgba(data: &[u8]) -> (r: Result<(usize, usize, Vec<u8>), String>)
    ensures
        r is Ok <==> decoded_rgba(data@) is Some,
        (r matches Ok(t) ==> decoded_rgba(data@) == Some((t.0 as nat, t.1 as nat, t.2@))),
        (r matches Ok(t) ==> t.2@.len() == 4 * (t.0 as nat) * (t.1 as nat)),
{
    match image::load_from_memory(data) {
        Ok(img) => {
            let img = img.to_rgba();
            let dims = img.dimensions();
            Ok((dims.0 as usize, dims.1 as usize, img.into_raw()))
        },
        Err(err) => Err(err.to_string()),
    }
}

/// The canvas: a drawing-state stack, a command buffer in canvas space, the
/// path cache, device-pixel tolerances, and an optional attached renderer.
pub struct Context<R: crate::renderer::Renderer> {
    pub renderer: Option<R>,
    pub commands: Vec<Command>,
    pub last_position: Point,
    pub states: Vec<State>,
    pub cache: crate::cache::PathCache,
    pub tess_tol: i64,
    pub dist_tol: i64,
    pub fringe_width: i64,
    pub device_pixel_ratio: i64,
    pub draw_call_count: usize,
    pub fill_triangles_count: usize,
    pub stroke_triangles_count: usize,
    pub text_triangles_count: usize,
}

impl<R: crate::renderer::Renderer> Context<R> {
    /// Validity: the state stack never goes below depth 1, the cache is
    /// well-formed, and every buffered command point is in range.
    pub open spec fn wf(&self) -> bool {
        &&& self.states@.len() >= 1
        &&& crate::cache::cache_wf(self.cache@)
        &&& crate::cache::cmds_bounded(self.commands@)
    }

    /// The top of the state stack.
    pub open spec fn cur_state(&self) -> State {
        self.states@.last()
    }

    /// A fresh canvas: one default state, no commands, an empty cache, no
    /// renderer attached, zero tolerances until the first frame.
    pub fn create() -> (r: Context<R>)
        ensures
            r.wf(),
            r.renderer is None,
            r.commands@.len() == 0,
            r.last_position == (Point { x: 0, y: 0 }),
            r.states@ =~= seq![state_default_s()],
            r.cache@.points.len() == 0,
            r.cache@.paths.len() == 0,
            r.tess_tol == 0,
            r.dist_tol == 0,
            r.fringe_width == 0,
            r.device_pixel_ratio == 0,
            r.draw_call_count == 0,
            r.fill_triangles_count == 0,
            r.stroke_triangles_count == 0,
            r.text_triangles_count == 0,
    {
        let mut states: Vec<State> = Vec::new();
        states.push(State::default());
        Context {
            renderer: None,
            commands: Vec::new(),
            last_position: Point::new(0, 0),
            states,
            cache: crate::cache::PathCache::default(),
            tess_tol: 0,
            dist_tol: 0,
            fringe_width: 0,
            device_pixel_ratio: 0,
            draw_call_count: 0,
            fill_triangles_count: 0,
            stroke_triangles_count: 0,
            text_triangles_count: 0,
        }
    }

    fn set_device_pixel_ratio(&mut self, ratio: i64)
        ensures
            *final(self) == (Context {
                tess_tol: (fx_div_s(16384, ratio as int) as i64),
                dist_tol: (fx_div_s(655, ratio as int) as i64),
                fringe_width: (fx_div_s(FX_ONE as int, ratio as int) as i64),
                device_pixel_ratio: ratio,
                ..*old(self)
            }),
    {
        self.tess_tol = fx_div(16384, ratio);
        self.dist_tol = fx_div(655, ratio);
        self.fringe_width = fx_div(FX_ONE, ratio);
        self.device_pixel_ratio = ratio;
    }

    /// Attach or replace the renderer.
    pub fn attach_renderer(&mut self, renderer: Option<R>)
        ensures
            *final(self) == (Context { renderer, ..*old(self) }),
    {
        self.renderer = renderer;
    }

    /// Detach and return the renderer.
    pub fn detach_renderer(&mut self) -> (r: Option<R>)
        requires
            old(self).renderer is Some,
        ensures
            *final(self) == (Context { renderer: None::<R>, ..*old(self) }),
            r == old(self).renderer,
    {
        self.renderer.take()
    }

    /// Start a frame: pass the renderer's view size and pixel ratio to its
    /// viewport, optionally clear, recompute the tolerances from the pixel
    /// ratio, and reset the state stack and statistics. On a viewport error
    /// nothing else changes.
    pub fn begin_frame(&mut self, clear_color: Option<Color>) -> (r: Result<(), NonaError>)
        requires
            old(self).wf(),
            old(self).renderer is Some,
        ensures
            final(self).wf(),
            r is Err ==> final(self).states == old(self).states,
            r is Err ==> final(self).commands == old(self).commands,
            r is Err ==> final(self).cache == old(self).cache,
            r is Ok ==> final(self).states@ =~= seq![state_default_s()],
            r is Ok ==> final(self).commands == old(self).commands,
            r is Ok ==> final(self).cache == old(self).cache,
            r is Ok ==> final(self).draw_call_count == 0,
            r is Ok ==> final(self).fill_triangles_count == 0,
            r is Ok ==> final(self).stroke_triangles_count == 0,
            r is Ok ==> final(self).text_triangles_count == 0,
            r is Ok ==> final(self).tess_tol as int == fx_div_s(
                16384,
                final(self).device_pixel_ratio as int,
            ),
            r is Ok ==> final(self).dist_tol as int == fx_div_s(
                655,
                final(self).device_pixel_ratio as int,
            ),
            r is Ok ==> final(self).fringe_width as int == fx_div_s(
                FX_ONE as int,
                final(self).device_pixel_ratio as int,
            ),
    {
        let device_pixel_ratio: i64;
        match &mut self.renderer {
            Some(renderer) => {
                let vs = renderer.view_size();
                let dpr = renderer.device_pixel_ratio();
                let res = renderer.viewport(vs, dpr);
                if res.is_err() {
                    match res {
                        Err(e) => {
                            return Err(e);
                        },
                        Ok(_) => {
                            return Ok(());
                        },
                    }
                }
                match clear_color {
                    Some(color) => {
                        renderer.clear_screen(color);
                    },
                    None => {},
                }
                device_pixel_ratio = renderer.device_pixel_ratio();
            },
            None => {
                return Err(NonaError::Shader(String::new()));
            },
        }
        self.set_device_pixel_ratio(device_pixel_ratio);
        self.states.clear();
        self.states.push(State::default());
        self.draw_call_count = 0;
        self.fill_triangles_count = 0;
        self.stroke_triangles_count = 0;
        self.text_triangles_count = 0;
        Ok(())
    }

    /// Finish a frame: flush the renderer.
    pub fn end_frame(&mut self) -> (r: Result<(), NonaError>)
        requires
            old(self).wf(),
            old(self).renderer is Some,
        ensures
            final(self).wf(),
            final(self).states == old(self).states,
            final(self).commands == old(self).commands,
            final(self).cache == old(self).cache,
    {
        match &mut self.renderer {
            Some(renderer) => renderer.flush(),
            None => Err(NonaError::Shader(String::new())),
        }
    }

    /// Everything except the state stack is unchanged between `a` and `b`.
    pub open spec fn same_but_states(a: &Context<R>, b: &Context<R>) -> bool {
        &&& a.renderer == b.renderer
        &&& a.commands == b.commands
        &&& a.last_position == b.last_position
        &&& a.cache == b.cache
        &&& a.tess_tol == b.tess_tol
        &&& a.dist_tol == b.dist_tol
        &&& a.fringe_width == b.fringe_width
        &&& a.device_pixel_ratio == b.device_pixel_ratio
        &&& a.draw_call_count == b.draw_call_count
        &&& a.fill_triangles_count == b.fill_triangles_count
        &&& a.stroke_triangles_count == b.stroke_triangles_count
        &&& a.text_triangles_count == b.text_triangles_count
    }

    /// Push a copy of the current state.
    pub fn save(&mut self)
        requires
            old(self).wf(),
        ensures
            final(self).wf(),
            Self::same_but_states(old(self), final(self)),
            final(self).states@ =~= old(self).states@.push(old(self).cur_state()),
    {
        let n = self.states.len();
        let last = self.states[n - 1];
        self.states.push(last);
    }

    /// Pop the current state; a no-op at depth 1 (the stack never goes
    /// below one entry).
    pub fn restore(&mut self)
        requires
            old(self).wf(),
        ensures
            final(self).wf(),
            Self::same_but_states(old(self), final(self)),
            old(self).states@.len() <= 1 ==> final(self).states == old(self).states,
            old(self).states@.len() > 1 ==> final(self).states@ =~= old(self).states@.drop_last(),
    {
        if self.states.len() <= 1 {
            return ;
        }
        let _popped = self.states.pop();
    }

    /// Replace the current state with the defaults.
    pub fn reset(&mut self)
        requires
            old(self).wf(),
        ensures
            final(self).wf(),
            Self::same_but_states(old(self), final(self)),
            final(self).states@ =~= old(self).states@.update(
                old(self).states@.len() - 1,
                state_default_s(),
            ),
    {
        let n = self.states.len();
        self.states[n - 1] = State::default();
    }
}


/// An exec transform from its spec entries (which must be in range).
pub open spec fn strans_to_xf(t: STrans) -> Transform {
    Transform {
        m0: t.m0 as i64,
        m1: t.m1 as i64,
        m2: t.m2 as i64,
        m3: t.m3 as i64,
        m4: t.m4 as i64,
        m5: t.m5 as i64,
    }
}

/// The scissor produced by `Context::scissor`: a box transform centered on
/// the clamped rectangle, composed with the current transform.
pub open spec fn scissor_s(xform: STrans, rect: Rect) -> Scissor {
    let w = fx_max_s(rect.size.width as int, 0);
    let h = fx_max_s(rect.size.height as int, 0);
    let sx = STrans {
        m0: FX_ONE as int,
        m1: 0,
        m2: 0,
        m3: FX_ONE as int,
        m4: fx_add_s(rect.xy.x as int, fx_mul_s(w, 32768)),
        m5: fx_add_s(rect.xy.y as int, fx_mul_s(h, 32768)),
    };
    Scissor {
        xform: strans_to_xf(xform_mul_s(sx, xform)),
        extent: Extent { width: fx_mul_s(w, 32768) as i64, height: fx_mul_s(h, 32768) as i64 },
    }
}

impl<R: crate::renderer::Renderer> Context<R> {
    /// Everything except the renderer is unchanged between `a` and `b`.
    pub open spec fn same_but_renderer(a: &Context<R>, b: &Context<R>) -> bool {
        &&& a.commands == b.commands
        &&& a.last_position == b.last_position
        &&& a.states == b.states
        &&& a.cache == b.cache
        &&& a.tess_tol == b.tess_tol
        &&& a.dist_tol == b.dist_tol
        &&& a.fringe_width == b.fringe_width
        &&& a.device_pixel_ratio == b.device_pixel_ratio
        &&& a.draw_call_count == b.draw_call_count
        &&& a.fill_triangles_count == b.fill_triangles_count
        &&& a.stroke_triangles_count == b.stroke_triangles_count
        &&& a.text_triangles_count == b.text_triangles_count
    }

    /// The state stack with its top entry replaced.
    pub open spec fn states_with_top(&self, st: State) -> Seq<State> {
        self.states@.update(self.states@.len() - 1, st)
    }

    fn set_top(&mut self, st: State)
        requires
            old(self).wf(),
        ensures
            final(self).wf(),
            Self::same_but_states(old(self), final(self)),
            final(self).states@ =~= old(self).states_with_top(st),
    {
        let n = self.states.len();
        self.states[n - 1] = st;
    }

    /// Toggle shape antialiasing for subsequent fills and strokes.
    pub fn shape_antialias(&mut self, enabled: bool)
        requires
            old(self).wf(),
        ensures
            final(self).wf(),
            Self::same_but_states(old(self), final(self)),
            final(self).states@ =~= old(self).states_with_top(
                (State { shape_antialias: enabled, ..old(self).cur_state() }),
            ),
    {
        let n = self.states.len();
        let mut st = self.states[n - 1];
        st.shape_antialias = enabled;
        self.set_top(st);
    }

    /// Set the stroke width.
    pub fn stroke_width(&mut self, width: i64)
        requires
            old(self).wf(),
        ensures
            final(self).wf(),
            Self::same_but_states(old(self), final(self)),
            final(self).states@ =~= old(self).states_with_top(
                (State { stroke_width: width, ..old(self).cur_state() }),
            ),
    {
        let n = self.states.len();
        let mut st = self.states[n - 1];
        st.stroke_width = width;
        self.set_top(st);
    }

    /// Set the miter limit.
    pub fn miter_limit(&mut self, limit: i64)
        requires
            old(self).wf(),
        ensures
            final(self).wf(),
            Self::same_but_states(old(self), final(self)),
            final(self).states@ =~= old(self).states_with_top(
                (State { miter_limit: limit, ..old(self).cur_state() }),
            ),
    {
        let n = self.states.len();
        let mut st = self.states[n - 1];
        st.miter_limit = limit;
        self.set_top(st);
    }

    /// Set the line cap style.
    pub fn line_cap(&mut self, cap: LineCap)
        requires
            old(self).wf(),
        ensures
            final(self).wf(),
            Self::same_but_states(old(self), final(self)),
            final(self).states@ =~= old(self).states_with_top(
                (State { line_cap: cap, ..old(self).cur_state() }),
            ),
    {
        let n = self.states.len();
        let mut st = self.states[n - 1];
        st.line_cap = cap;
        self.set_top(st);
    }

    /// Set the line join style.
    pub fn line_join(&mut self, join: LineJoin)
        requires
            old(self).wf(),
        ensures
            final(self).wf(),
            Self::same_but_states(old(self), final(self)),
            final(self).states@ =~= old(self).states_with_top(
                (State { line_join: join, ..old(self).cur_state() }),
            ),
    {
        let n = self.states.len();
        let mut st = self.states[n - 1];
        st.line_join = join;
        self.set_top(st);
    }

    /// Set the global alpha multiplier.
    pub fn global_alpha(&mut self, alpha: i64)
        requires
            old(self).wf(),
        ensures
            final(self).wf(),
            Self::same_but_states(old(self), final(self)),
            final(self).states@ =~= old(self).states_with_top(
                (State { alpha, ..old(self).cur_state() }),
            ),
    {
        let n = self.states.len();
        let mut st = self.states[n - 1];
        st.alpha = alpha;
        self.set_top(st);
    }

    /// Compose a transform onto the current one.
    pub fn transform(&mut self, xform: Transform)
        requires
            old(self).wf(),
        ensures
            final(self).wf(),
            Self::same_but_states(old(self), final(self)),
            final(self).states@ =~= old(self).states_with_top(
                (State {
                    xform: strans_to_xf(xform_mul_s(xform@, old(self).cur_state().xform@)),
                    ..old(self).cur_state()
                }),
            ),
    {
        let n = self.states.len();
        let mut st = self.states[n - 1];
        st.xform = xform.multiply(st.xform);
        self.set_top(st);
    }

    /// Reset the current transform to the identity.
    pub fn reset_transform(&mut self)
        requires
            old(self).wf(),
        ensures
            final(self).wf(),
            Self::same_but_states(old(self), final(self)),
            final(self).states@ =~= old(self).states_with_top(
                (State {
                    xform: strans_to_xf(crate::math::identity_s()),
                    ..old(self).cur_state()
                }),
            ),
    {
        let n = self.states.len();
        let mut st = self.states[n - 1];
        st.xform = Transform::identity();
        self.set_top(st);
    }

    /// Translate the canvas.
    pub fn translate(&mut self, tx: i64, ty: i64)
        requires
            old(self).wf(),
        ensures
            final(self).wf(),
            Self::same_but_states(old(self), final(self)),
            final(self).states@ =~= old(self).states_with_top(
                (State {
                    xform: strans_to_xf(
                        xform_mul_s(
                            STrans {
                                m0: FX_ONE as int,
                                m1: 0,
                                m2: 0,
                                m3: FX_ONE as int,
                                m4: tx as int,
                                m5: ty as int,
                            },
                            old(self).cur_state().xform@,
                        ),
                    ),
                    ..old(self).cur_state()
                }),
            ),
    {
        self.transform(Transform::translate(tx, ty));
    }

    /// Rotate the canvas by an angle in radians.
    pub fn rotate(&mut self, angle: i64)
        requires
            old(self).wf(),
        ensures
            final(self).wf(),
            Self::same_but_states(old(self), final(self)),
            final(self).states@ =~= old(self).states_with_top(
                (State {
                    xform: strans_to_xf(
                        xform_mul_s(
                            STrans {
                                m0: crate::trig::cos_s(angle as int),
                                m1: crate::trig::sin_s(angle as int),
                                m2: -crate::trig::sin_s(angle as int),
                                m3: crate::trig::cos_s(angle as int),
                                m4: 0,
                                m5: 0,
                            },
                            old(self).cur_state().xform@,
                        ),
                    ),
                    ..old(self).cur_state()
                }),
            ),
    {
        self.transform(Transform::rotate(angle));
    }

    /// Skew the canvas along x.
    pub fn skew_x(&mut self, angle: i64)
        requires
            old(self).wf(),
        ensures
            final(self).wf(),
            Self::same_but_states(old(self), final(self)),
            final(self).states@ =~= old(self).states_with_top(
                (State {
                    xform: strans_to_xf(
                        xform_mul_s(
                            STrans {
                                m0: FX_ONE as int,
                                m1: 0,
                                m2: fx_div_s(
                                    crate::trig::sin_s(angle as int),
                                    crate::trig::cos_s(angle as int),
                                ),
                                m3: FX_ONE as int,
                                m4: 0,
                                m5: 0,
                            },
                            old(self).cur_state().xform@,
                        ),
                    ),
                    ..old(self).cur_state()
                }),
            ),
    {
        self.transform(Transform::skew_x(angle));
    }

    /// Skew the canvas along y.
    pub fn skew_y(&mut self, angle: i64)
        requires
            old(self).wf(),
        ensures
            final(self).wf(),
            Self::same_but_states(old(self), final(self)),
            final(self).states@ =~= old(self).states_with_top(
                (State {
                    xform: strans_to_xf(
                        xform_mul_s(
                            STrans {
                                m0: FX_ONE as int,
                                m1: fx_div_s(
                                    crate::trig::sin_s(angle as int),
                                    crate::trig::cos_s(angle as int),
                                ),
                                m2: 0,
                                m3: FX_ONE as int,
                                m4: 0,
                                m5: 0,
                            },
                            old(self).cur_state().xform@,
                        ),
                    ),
                    ..old(self).cur_state()
                }),
            ),
    {
        self.transform(Transform::skew_y(angle));
    }

    /// Scale the canvas.
    pub fn scale(&mut self, sx: i64, sy: i64)
        requires
            old(self).wf(),
        ensures
            final(self).wf(),
            Self::same_but_states(old(self), final(self)),
            final(self).states@ =~= old(self).states_with_top(
                (State {
                    xform: strans_to_xf(
                        xform_mul_s(
                            STrans { m0: sx as int, m1: 0, m2: 0, m3: sy as int, m4: 0, m5: 0 },
                            old(self).cur_state().xform@,
                        ),
                    ),
                    ..old(self).cur_state()
                }),
            ),
    {
        self.transform(Transform::scale(sx, sy));
    }

    /// The current transform.
    pub fn current_transform(&self) -> (r: Transform)
        requires
            self.wf(),
        ensures
            r == self.cur_state().xform,
    {
        let n = self.states.len();
        let st = self.states[n - 1];
        st.xform
    }

    /// Set the stroke paint; its transform is composed with the current
    /// canvas transform.
    pub fn stroke_paint(&mut self, paint: Paint)
        requires
            old(self).wf(),
        ensures
            final(self).wf(),
            Self::same_but_states(old(self), final(self)),
            final(self).states@ =~= old(self).states_with_top(
                (State {
                    stroke: (Paint {
                        xform: strans_to_xf(
                            xform_mul_s(paint.xform@, old(self).cur_state().xform@),
                        ),
                        ..paint
                    }),
                    ..old(self).cur_state()
                }),
            ),
    {
        let n = self.states.len();
        let mut st = self.states[n - 1];
        let mut p = paint;
        p.xform = p.xform.multiply(st.xform);
        st.stroke = p;
        self.set_top(st);
    }

    /// Set the fill paint; its transform is composed with the current
    /// canvas transform.
    pub fn fill_paint(&mut self, paint: Paint)
        requires
            old(self).wf(),
        ensures
            final(self).wf(),
            Self::same_but_states(old(self), final(self)),
            final(self).states@ =~= old(self).states_with_top(
                (State {
                    fill: (Paint {
                        xform: strans_to_xf(
                            xform_mul_s(paint.xform@, old(self).cur_state().xform@),
                        ),
                        ..paint
                    }),
                    ..old(self).cur_state()
                }),
            ),
    {
        let n = self.states.len();
        let mut st = self.states[n - 1];
        let mut p = paint;
        p.xform = p.xform.multiply(st.xform);
        st.fill = p;
        self.set_top(st);
    }

    /// Set the scissor region to a rectangle in canvas space.
    pub fn scissor(&mut self, rect: Rect)
        requires
            old(self).wf(),
        ensures
            final(self).wf(),
            Self::same_but_states(old(self), final(self)),
            final(self).states@ =~= old(self).states_with_top(
                (State {
                    scissor: scissor_s(old(self).cur_state().xform@, rect),
                    ..old(self).cur_state()
                }),
            ),
    {
        let n = self.states.len();
        let mut st = self.states[n - 1];
        let w = fx_max(rect.size.width, 0);
        let h = fx_max(rect.size.height, 0);
        let mut sx = Transform::identity();
        sx.m4 = fx_add(rect.xy.x, fx_mul(w, 32768));
        sx.m5 = fx_add(rect.xy.y, fx_mul(h, 32768));
        st.scissor = Scissor {
            xform: sx.multiply(st.xform),
            extent: Extent { width: fx_mul(w, 32768), height: fx_mul(h, 32768) },
        };
        self.set_top(st);
    }

    /// The box the previous scissor region covers, mapped back into the
    /// current canvas space: its half extents grow by the absolute entries
    /// of the relative transform.
    pub open spec fn prev_scissor_rect_s(st: State) -> Rect {
        let inv = crate::math::xform_inverse_s(st.xform@);
        let px = xform_mul_s(st.scissor.xform@, inv);
        let ex = st.scissor.extent.width as int;
        let ey = st.scissor.extent.height as int;
        let tex = fx_add_s(
            fx_mul_s(ex, sat_s(crate::fixed::absi(px.m0))),
            fx_mul_s(ey, sat_s(crate::fixed::absi(px.m2))),
        );
        let tey = fx_add_s(
            fx_mul_s(ex, sat_s(crate::fixed::absi(px.m1))),
            fx_mul_s(ey, sat_s(crate::fixed::absi(px.m3))),
        );
        Rect {
            xy: Point { x: fx_sub_s(px.m4, tex) as i64, y: fx_sub_s(px.m5, tey) as i64 },
            size: Extent {
                width: fx_mul_s(tex, 131072) as i64,
                height: fx_mul_s(tey, 131072) as i64,
            },
        }
    }

    /// Intersect the scissor region with a rectangle: a fresh region is set
    /// outright; otherwise the previous region's box is clipped against the
    /// rectangle and the scissor set to the overlap.
    pub fn intersect_scissor(&mut self, rect: Rect)
        requires
            old(self).wf(),
        ensures
            final(self).wf(),
            Self::same_but_states(old(self), final(self)),
            old(self).cur_state().scissor.extent.width < 0 ==> final(self).states@ =~= old(
                self,
            ).states_with_top(
                (State {
                    scissor: scissor_s(old(self).cur_state().xform@, rect),
                    ..old(self).cur_state()
                }),
            ),
            old(self).cur_state().scissor.extent.width >= 0 ==> final(self).states@ =~= old(
                self,
            ).states_with_top(
                (State {
                    scissor: scissor_s(
                        old(self).cur_state().xform@,
                        crate::math::rect_intersect_s(
                            Self::prev_scissor_rect_s(old(self).cur_state()),
                            rect,
                        ),
                    ),
                    ..old(self).cur_state()
                }),
            ),
    {
        let n = self.states.len();
        let st = self.states[n - 1];
        if st.scissor.extent.width < 0 {
            self.scissor(rect);
            return ;
        }
        let ex = st.scissor.extent.width;
        let ey = st.scissor.extent.height;
        let invxorm = st.xform.inverse();
        let pxform = st.scissor.xform.multiply(invxorm);
        let tex = fx_add(fx_mul(ex, fx_abs(pxform.m0)), fx_mul(ey, fx_abs(pxform.m2)));
        let tey = fx_add(fx_mul(ex, fx_abs(pxform.m1)), fx_mul(ey, fx_abs(pxform.m3)));
        let base = Rect::new(
            Point::new(fx_sub(pxform.m4, tex), fx_sub(pxform.m5, tey)),
            Extent::new(fx_mul(tex, 131072), fx_mul(tey, 131072)),
        );
        proof {
            assert(base == Self::prev_scissor_rect_s(old(self).cur_state()));
        }
        self.scissor(base.intersect(rect));
    }

    /// Clear the scissor region.
    pub fn reset_scissor(&mut self)
        requires
            old(self).wf(),
        ensures
            final(self).wf(),
            Self::same_but_states(old(self), final(self)),
            final(self).states@ =~= old(self).states_with_top(
                (State {
                    scissor: (Scissor {
                        xform: (Transform { m0: 0, m1: 0, m2: 0, m3: 0, m4: 0, m5: 0 }),
                        extent: (Extent { width: -65536i64, height: -65536i64 }),
                    }),
                    ..old(self).cur_state()
                }),
            ),
    {
        let n = self.states.len();
        let mut st = self.states[n - 1];
        st.scissor = Scissor {
            xform: Transform { m0: 0, m1: 0, m2: 0, m3: 0, m4: 0, m5: 0 },
            extent: Extent { width: -FX_ONE, height: -FX_ONE },
        };
        self.set_top(st);
    }

    /// Set the composite operation for subsequent draws.
    pub fn global_composite_operation(&mut self, op: CompositeOperation)
        requires
            old(self).wf(),
        ensures
            final(self).wf(),
            Self::same_but_states(old(self), final(self)),
            final(self).states@ =~= old(self).states_with_top(
                (State { composite_operation: composite_state_s(op), ..old(self).cur_state() }),
            ),
    {
        let n = self.states.len();
        let mut st = self.states[n - 1];
        st.composite_operation = CompositeOperationState::from(op);
        self.set_top(st);
    }

    /// Set the font size for subsequent text.
    pub fn font_size(&mut self, size: i64)
        requires
            old(self).wf(),
        ensures
            final(self).wf(),
            Self::same_but_states(old(self), final(self)),
            final(self).states@ =~= old(self).states_with_top(
                (State { font_size: size, ..old(self).cur_state() }),
            ),
    {
        let n = self.states.len();
        let mut st = self.states[n - 1];
        st.font_size = size;
        self.set_top(st);
    }

    /// Set the letter spacing for subsequent text.
    pub fn text_letter_spacing(&mut self, spacing: i64)
        requires
            old(self).wf(),
        ensures
            final(self).wf(),
            Self::same_but_states(old(self), final(self)),
            final(self).states@ =~= old(self).states_with_top(
                (State { letter_spacing: spacing, ..old(self).cur_state() }),
            ),
    {
        let n = self.states.len();
        let mut st = self.states[n - 1];
        st.letter_spacing = spacing;
        self.set_top(st);
    }

    /// Set the line height for subsequent text.
    pub fn text_line_height(&mut self, line_height: i64)
        requires
            old(self).wf(),
        ensures
            final(self).wf(),
            Self::same_but_states(old(self), final(self)),
            final(self).states@ =~= old(self).states_with_top(
                (State { line_height, ..old(self).cur_state() }),
            ),
    {
        let n = self.states.len();
        let mut st = self.states[n - 1];
        st.line_height = line_height;
        self.set_top(st);
    }

    /// Set the text alignment flags.
    pub fn text_align(&mut self, align: Align)
        requires
            old(self).wf(),
        ensures
            final(self).wf(),
            Self::same_but_states(old(self), final(self)),
            final(self).states@ =~= old(self).states_with_top(
                (State { text_align: align, ..old(self).cur_state() }),
            ),
    {
        let n = self.states.len();
        let mut st = self.states[n - 1];
        st.text_align = align;
        self.set_top(st);
    }

    /// Select a font by its handle.
    pub fn fontid(&mut self, id: FontId)
        requires
            old(self).wf(),
        ensures
            final(self).wf(),
            Self::same_but_states(old(self), final(self)),
            final(self).states@ =~= old(self).states_with_top(
                (State { font_id: id, ..old(self).cur_state() }),
            ),
    {
        let n = self.states.len();
        let mut st = self.states[n - 1];
        st.font_id = id;
        self.set_top(st);
    }
}


/// The raw command list of `rect` (before the canvas transform).
pub open spec fn rect_cmds_s(rect: Rect) -> Seq<Command> {
    let x = rect.xy.x as int;
    let y = rect.xy.y as int;
    let w = rect.size.width as int;
    let h = rect.size.height as int;
    seq![
        Command::MoveTo(spt_to_pt(SPoint { x, y })),
        Command::LineTo(spt_to_pt(SPoint { x, y: fx_add_s(y, h) })),
        Command::LineTo(spt_to_pt(SPoint { x: fx_add_s(x, w), y: fx_add_s(y, h) })),
        Command::LineTo(spt_to_pt(SPoint { x: fx_add_s(x, w), y })),
        Command::Close,
    ]
}

/// The raw command list of `ellipse`: four bezier arcs.
pub open spec fn ellipse_cmds_s(center: Point, rx: int, ry: int) -> Seq<Command> {
    let cx = center.x as int;
    let cy = center.y as int;
    let krx = fx_mul_s(rx, KAPPA90_FX as int);
    let kry = fx_mul_s(ry, KAPPA90_FX as int);
    seq![
        Command::MoveTo(spt_to_pt(SPoint { x: fx_sub_s(cx, rx), y: cy })),
        Command::BezierTo(
            spt_to_pt(SPoint { x: fx_sub_s(cx, rx), y: fx_add_s(cy, kry) }),
            spt_to_pt(SPoint { x: fx_sub_s(cx, krx), y: fx_add_s(cy, ry) }),
            spt_to_pt(SPoint { x: cx, y: fx_add_s(cy, ry) }),
        ),
        Command::BezierTo(
            spt_to_pt(SPoint { x: fx_add_s(cx, krx), y: fx_add_s(cy, ry) }),
            spt_to_pt(SPoint { x: fx_add_s(cx, rx), y: fx_add_s(cy, kry) }),
            spt_to_pt(SPoint { x: fx_add_s(cx, rx), y: cy }),
        ),
        Command::BezierTo(
            spt_to_pt(SPoint { x: fx_add_s(cx, rx), y: fx_sub_s(cy, kry) }),
            spt_to_pt(SPoint { x: fx_add_s(cx, krx), y: fx_sub_s(cy, ry) }),
            spt_to_pt(SPoint { x: cx, y: fx_sub_s(cy, ry) }),
        ),
        Command::BezierTo(
            spt_to_pt(SPoint { x: fx_sub_s(cx, krx), y: fx_sub_s(cy, ry) }),
            spt_to_pt(SPoint { x: fx_sub_s(cx, rx), y: fx_sub_s(cy, kry) }),
            spt_to_pt(SPoint { x: fx_sub_s(cx, rx), y: cy }),
        ),
        Command::Close,
    ]
}

/// A raw command list mapped through the canvas transform, as appending
/// each in turn stores it.
pub open spec fn xform_cmds_s(t: STrans, cmds: Seq<Command>) -> Seq<Command> {
    cmds.map_values(|c: Command| xform_cmd_s(t, c))
}

impl<R: crate::renderer::Renderer> Context<R> {
    /// Everything except the command buffer and remembered position is
    /// unchanged between `a` and `b`.
    pub open spec fn same_but_commands(a: &Context<R>, b: &Context<R>) -> bool {
        &&& a.renderer == b.renderer
        &&& a.states == b.states
        &&& a.tess_tol == b.tess_tol
        &&& a.dist_tol == b.dist_tol
        &&& a.fringe_width == b.fringe_width
        &&& a.device_pixel_ratio == b.device_pixel_ratio
        &&& a.draw_call_count == b.draw_call_count
        &&& a.fill_triangles_count == b.fill_triangles_count
        &&& a.stroke_triangles_count == b.stroke_triangles_count
        &&& a.text_triangles_count == b.text_triangles_count
    }

    /// Clear the command buffer and the path cache: nothing drawn before
    /// this call can leak into the next fill or stroke.
    pub fn begin_path(&mut self)
        requires
            old(self).wf(),
        ensures
            final(self).wf(),
            Self::same_but_commands(old(self), final(self)),
            final(self).last_position == old(self).last_position,
            final(self).commands@ =~= Seq::<Command>::empty(),
            final(self).cache@.points.len() == 0,
            final(self).cache@.paths.len() == 0,
            final(self).cache@.verts == old(self).cache@.verts,
            final(self).cache@.bmin == old(self).cache@.bmin,
            final(self).cache@.bmax == old(self).cache@.bmax,
    {
        self.commands.clear();
        self.cache.clear();
    }

    fn append_command(&mut self, cmd: Command)
        requires
            old(self).wf(),
        ensures
            final(self).wf(),
            Self::same_but_commands(old(self), final(self)),
            final(self).cache == old(self).cache,
            final(self).commands@ =~= old(self).commands@.push(
                xform_cmd_s(old(self).cur_state().xform@, cmd),
            ),
            final(self).last_position == cmd_last_pos_s(cmd, old(self).last_position),
    {
        let n = self.states.len();
        let st = self.states[n - 1];
        match cmd {
            Command::MoveTo(pt) => {
                let q = st.xform.transform_point(pt);
                self.commands.push(Command::MoveTo(q));
                self.last_position = pt;
            },
            Command::LineTo(pt) => {
                let q = st.xform.transform_point(pt);
                self.commands.push(Command::LineTo(q));
                self.last_position = pt;
            },
            Command::BezierTo(p1, p2, p3) => {
                self.last_position = p3;
                let q1 = st.xform.transform_point(p1);
                let q2 = st.xform.transform_point(p2);
                let q3 = st.xform.transform_point(p3);
                self.commands.push(Command::BezierTo(q1, q2, q3));
            },
            Command::Close => {
                self.commands.push(cmd);
            },
            Command::Solidity(_) => {
                self.commands.push(cmd);
            },
        }
        proof {
            assert forall|i: int| 0 <= i < self.commands@.len() implies crate::cache::cmd_bounded(
                #[trigger] self.commands@[i],
            ) by {
                if i < old(self).commands@.len() {
                    assert(self.commands@[i] == old(self).commands@[i]);
                }
            };
        }
    }

    fn append_commands(&mut self, cmds: &Vec<Command>)
        requires
            old(self).wf(),
        ensures
            final(self).wf(),
            Self::same_but_commands(old(self), final(self)),
            final(self).cache == old(self).cache,
            final(self).commands@ =~= old(self).commands@ + xform_cmds_s(
                old(self).cur_state().xform@,
                cmds@,
            ),
    {
        let m = cmds.len();
        let mut k: usize = 0;
        while k < m
            invariant
                k <= m,
                m == cmds@.len(),
                self.wf(),
                Self::same_but_commands(old(self), self),
                self.cache == old(self).cache,
                self.commands@ =~= old(self).commands@ + xform_cmds_s(
                    old(self).cur_state().xform@,
                    cmds@.subrange(0, k as int),
                ),
            decreases m - k,
        {
            let ghost pre = self.commands@;
            self.append_command(cmds[k]);
            proof {
                assert(cmds@.subrange(0, k as int + 1) =~= cmds@.subrange(0, k as int).push(
                    cmds@[k as int],
                ));
                assert(xform_cmds_s(
                    old(self).cur_state().xform@,
                    cmds@.subrange(0, k as int + 1),
                ) =~= xform_cmds_s(old(self).cur_state().xform@, cmds@.subrange(0, k as int)).push(
                    xform_cmd_s(old(self).cur_state().xform@, cmds@[k as int]),
                ));
                assert(self.commands@ =~= old(self).commands@ + xform_cmds_s(
                    old(self).cur_state().xform@,
                    cmds@.subrange(0, k as int + 1),
                ));
            }
            k = k + 1;
        }
        proof {
            assert(cmds@.subrange(0, m as int) =~= cmds@);
            assert(self.commands@ =~= old(self).commands@ + xform_cmds_s(
                old(self).cur_state().xform@,
                cmds@,
            ));
        }
    }

    /// Start a new subpath at `pt`.
    pub fn move_to(&mut self, pt: Point)
        requires
            old(self).wf(),
        ensures
            final(self).wf(),
            Self::same_but_commands(old(self), final(self)),
            final(self).cache == old(self).cache,
            final(self).commands@ =~= old(self).commands@.push(
                xform_cmd_s(old(self).cur_state().xform@, Command::MoveTo(pt)),
            ),
            final(self).last_position == pt,
    {
        self.append_command(Command::MoveTo(pt));
    }

    /// Add a line segment to `pt`.
    pub fn line_to(&mut self, pt: Point)
        requires
            old(self).wf(),
        ensures
            final(self).wf(),
            Self::same_but_commands(old(self), final(self)),
            final(self).cache == old(self).cache,
            final(self).commands@ =~= old(self).commands@.push(
                xform_cmd_s(old(self).cur_state().xform@, Command::LineTo(pt)),
            ),
            final(self).last_position == pt,
    {
        self.append_command(Command::LineTo(pt));
    }

    /// Add a cubic bezier segment.
    pub fn bezier_to(&mut self, cp1: Point, cp2: Point, pt: Point)
        requires
            old(self).wf(),
        ensures
            final(self).wf(),
            Self::same_but_commands(old(self), final(self)),
            final(self).cache == old(self).cache,
            final(self).commands@ =~= old(self).commands@.push(
                xform_cmd_s(old(self).cur_state().xform@, Command::BezierTo(cp1, cp2, pt)),
            ),
            final(self).last_position == pt,
    {
        self.append_command(Command::BezierTo(cp1, cp2, pt));
    }

    /// Add a quadratic bezier segment, raised to a cubic one.
    pub fn quad_to(&mut self, cp: Point, pt: Point)
        requires
            old(self).wf(),
        ensures
            final(self).wf(),
            Self::same_but_commands(old(self), final(self)),
            final(self).cache == old(self).cache,
            final(self).commands@ =~= old(self).commands@.push(
                xform_cmd_s(
                    old(self).cur_state().xform@,
                    Command::BezierTo(
                        spt_to_pt(
                            SPoint {
                                x: fx_add_s(
                                    old(self).last_position.x as int,
                                    fx_mul_s(
                                        fx_sub_s(cp.x as int, old(self).last_position.x as int),
                                        43690,
                                    ),
                                ),
                                y: fx_add_s(
                                    old(self).last_position.y as int,
                                    fx_mul_s(
                                        fx_sub_s(cp.y as int, old(self).last_position.y as int),
                                        43690,
                                    ),
                                ),
                            },
                        ),
                        spt_to_pt(
                            SPoint {
                                x: fx_add_s(
                                    pt.x as int,
                                    fx_mul_s(fx_sub_s(cp.x as int, pt.x as int), 43690),
                                ),
                                y: fx_add_s(
                                    pt.y as int,
                                    fx_mul_s(fx_sub_s(cp.y as int, pt.y as int), 43690),
                                ),
                            },
                        ),
                        pt,
                    ),
                ),
            ),
            final(self).last_position == pt,
    {
        let x0 = self.last_position.x;
        let y0 = self.last_position.y;
        let c1 = Point::new(
            fx_add(x0, fx_mul(fx_sub(cp.x, x0), 43690)),
            fx_add(y0, fx_mul(fx_sub(cp.y, y0), 43690)),
        );
        let c2 = Point::new(
            fx_add(pt.x, fx_mul(fx_sub(cp.x, pt.x), 43690)),
            fx_add(pt.y, fx_mul(fx_sub(cp.y, pt.y), 43690)),
        );
        self.append_command(Command::BezierTo(c1, c2, pt));
    }

    /// Mark the current subpath closed.
    pub fn close_path(&mut self)
        requires
            old(self).wf(),
        ensures
            final(self).wf(),
            Self::same_but_commands(old(self), final(self)),
            final(self).cache == old(self).cache,
            final(self).commands@ =~= old(self).commands@.push(Command::Close),
            final(self).last_position == old(self).last_position,
    {
        self.commands.push(Command::Close);
        proof {
            assert forall|i: int| 0 <= i < self.commands@.len() implies crate::cache::cmd_bounded(
                #[trigger] self.commands@[i],
            ) by {
                if i < old(self).commands@.len() {
                    assert(self.commands@[i] == old(self).commands@[i]);
                }
            };
        }
    }

    /// Tag the current subpath solid or hole.
    pub fn path_solidity(&mut self, dir: Solidity)
        requires
            old(self).wf(),
        ensures
            final(self).wf(),
            Self::same_but_commands(old(self), final(self)),
            final(self).cache == old(self).cache,
            final(self).commands@ =~= old(self).commands@.push(Command::Solidity(dir)),
            final(self).last_position == old(self).last_position,
    {
        self.commands.push(Command::Solidity(dir));
        proof {
            assert forall|i: int| 0 <= i < self.commands@.len() implies crate::cache::cmd_bounded(
                #[trigger] self.commands@[i],
            ) by {
                if i < old(self).commands@.len() {
                    assert(self.commands@[i] == old(self).commands@[i]);
                }
            };
        }
    }

    /// Add a closed axis-aligned rectangle subpath.
    pub fn rect(&mut self, rect: Rect)
        requires
            old(self).wf(),
        ensures
            final(self).wf(),
            Self::same_but_commands(old(self), final(self)),
            final(self).cache == old(self).cache,
            final(self).commands@ =~= old(self).commands@ + xform_cmds_s(
                old(self).cur_state().xform@,
                rect_cmds_s(rect),
            ),
            final(self).last_position == spt_to_pt(
                SPoint {
                    x: fx_add_s(rect.xy.x as int, rect.size.width as int),
                    y: rect.xy.y as int,
                },
            ),
    {
        let x = rect.xy.x;
        let y = rect.xy.y;
        let w = rect.size.width;
        let h = rect.size.height;
        self.append_command(Command::MoveTo(Point::new(x, y)));
        self.append_command(Command::LineTo(Point::new(x, fx_add(y, h))));
        self.append_command(Command::LineTo(Point::new(fx_add(x, w), fx_add(y, h))));
        self.append_command(Command::LineTo(Point::new(fx_add(x, w), y)));
        self.append_command(Command::Close);
        proof {
            assert(final(self).commands@ =~= old(self).commands@ + xform_cmds_s(
                old(self).cur_state().xform@,
                rect_cmds_s(rect),
            ));
        }
    }

    /// Add a closed ellipse subpath approximated by four bezier arcs.
    pub fn ellipse(&mut self, center: Point, radius_x: i64, radius_y: i64)
        requires
            old(self).wf(),
        ensures
            final(self).wf(),
            Self::same_but_commands(old(self), final(self)),
            final(self).cache == old(self).cache,
            final(self).commands@ =~= old(self).commands@ + xform_cmds_s(
                old(self).cur_state().xform@,
                ellipse_cmds_s(center, radius_x as int, radius_y as int),
            ),
            final(self).last_position == spt_to_pt(
                SPoint { x: fx_sub_s(center.x as int, radius_x as int), y: center.y as int },
            ),
    {
        let cx = center.x;
        let cy = center.y;
        let rx = radius_x;
        let ry = radius_y;
        let krx = fx_mul(rx, KAPPA90_FX);
        let kry = fx_mul(ry, KAPPA90_FX);
        self.append_command(Command::MoveTo(Point::new(fx_sub(cx, rx), cy)));
        self.append_command(
            Command::BezierTo(
                Point::new(fx_sub(cx, rx), fx_add(cy, kry)),
                Point::new(fx_sub(cx, krx), fx_add(cy, ry)),
                Point::new(cx, fx_add(cy, ry)),
            ),
        );
        self.append_command(
            Command::BezierTo(
                Point::new(fx_add(cx, krx), fx_add(cy, ry)),
                Point::new(fx_add(cx, rx), fx_add(cy, kry)),
                Point::new(fx_add(cx, rx), cy),
            ),
        );
        self.append_command(
            Command::BezierTo(
                Point::new(fx_add(cx, rx), fx_sub(cy, kry)),
                Point::new(fx_add(cx, krx), fx_sub(cy, ry)),
                Point::new(cx, fx_sub(cy, ry)),
            ),
        );
        self.append_command(
            Command::BezierTo(
                Point::new(fx_sub(cx, krx), fx_sub(cy, ry)),
                Point::new(fx_sub(cx, rx), fx_sub(cy, kry)),
                Point::new(fx_sub(cx, rx), cy),
            ),
        );
        self.append_command(Command::Close);
        proof {
            assert(final(self).commands@ =~= old(self).commands@ + xform_cmds_s(
                old(self).cur_state().xform@,
                ellipse_cmds_s(center, radius_x as int, radius_y as int),
            ));
        }
    }

    /// Add a closed circle subpath.
    pub fn circle(&mut self, center: Point, radius: i64)
        requires
            old(self).wf(),
        ensures
            final(self).wf(),
            Self::same_but_commands(old(self), final(self)),
            final(self).cache == old(self).cache,
            final(self).commands@ =~= old(self).commands@ + xform_cmds_s(
                old(self).cur_state().xform@,
                ellipse_cmds_s(center, radius as int, radius as int),
            ),
            final(self).last_position == spt_to_pt(
                SPoint { x: fx_sub_s(center.x as int, radius as int), y: center.y as int },
            ),
    {
        self.ellipse(center, radius, radius);
    }
}


/// The sign factor the rounded-rect corner radii use: -1 for a negative
/// dimension, else +1 (in fixed-point units).
pub open spec fn sgn_s(x: int) -> int {
    if x < 0 {
        -(FX_ONE as int)
    } else {
        FX_ONE as int
    }
}

/// The raw command list of the rounded branch, from the resolved corner
/// radii.
pub open spec fn rrv_cmds_radii_s(
    x: int,
    y: int,
    w: int,
    h: int,
    rxlt: int,
    rylt: int,
    rxrt: int,
    ryrt: int,
    rxrb: int,
    ryrb: int,
    rxlb: int,
    rylb: int,
    ik: int,
) -> Seq<Command> {
    seq![
        Command::MoveTo(spt_to_pt(SPoint { x, y: fx_add_s(y, rylt) })),
        Command::LineTo(spt_to_pt(SPoint { x, y: fx_sub_s(fx_add_s(y, h), rylb) })),
        Command::BezierTo(
            spt_to_pt(SPoint { x, y: fx_sub_s(fx_add_s(y, h), fx_mul_s(rylb, ik)) }),
            spt_to_pt(SPoint { x: fx_add_s(x, fx_mul_s(rxlb, ik)), y: fx_add_s(y, h) }),
            spt_to_pt(SPoint { x: fx_add_s(x, rxlb), y: fx_add_s(y, h) }),
        ),
        Command::LineTo(spt_to_pt(SPoint { x: fx_sub_s(fx_add_s(x, w), rxrb), y: fx_add_s(y, h) })),
        Command::BezierTo(
            spt_to_pt(SPoint { x: fx_sub_s(fx_add_s(x, w), fx_mul_s(rxrb, ik)), y: fx_add_s(y, h) }),
            spt_to_pt(SPoint { x: fx_add_s(x, w), y: fx_sub_s(fx_add_s(y, h), fx_mul_s(ryrb, ik)) }),
            spt_to_pt(SPoint { x: fx_add_s(x, w), y: fx_sub_s(fx_add_s(y, h), ryrb) }),
        ),
        Command::LineTo(spt_to_pt(SPoint { x: fx_add_s(x, w), y: fx_add_s(y, ryrt) })),
        Command::BezierTo(
            spt_to_pt(SPoint { x: fx_add_s(x, w), y: fx_add_s(y, fx_mul_s(ryrt, ik)) }),
            spt_to_pt(SPoint { x: fx_sub_s(fx_add_s(x, w), fx_mul_s(rxrt, ik)), y }),
            spt_to_pt(SPoint { x: fx_sub_s(fx_add_s(x, w), rxrt), y }),
        ),
        Command::LineTo(spt_to_pt(SPoint { x: fx_add_s(x, rxlt), y })),
        Command::BezierTo(
            spt_to_pt(SPoint { x: fx_add_s(x, fx_mul_s(rxlt, ik)), y }),
            spt_to_pt(SPoint { x, y: fx_add_s(y, fx_mul_s(rylt, ik)) }),
            spt_to_pt(SPoint { x, y: fx_add_s(y, rylt) }),
        ),
        Command::Close,
    ]
}

/// The raw command list of `rounded_rect_varying`'s rounded branch.
pub open spec fn rrv_cmds_s(rect: Rect, lt: int, rt: int, rb: int, lb: int) -> Seq<Command> {
    let x = rect.xy.x as int;
    let y = rect.xy.y as int;
    let w = rect.size.width as int;
    let h = rect.size.height as int;
    let halfw = fx_mul_s(sat_s(crate::fixed::absi(w)), 32768);
    let halfh = fx_mul_s(sat_s(crate::fixed::absi(h)), 32768);
    let rxlb = fx_mul_s(crate::fixed::fx_min_s(lb, halfw), sgn_s(w));
    let rylb = fx_mul_s(crate::fixed::fx_min_s(lb, halfh), sgn_s(h));
    let rxrb = fx_mul_s(crate::fixed::fx_min_s(rb, halfw), sgn_s(w));
    let ryrb = fx_mul_s(crate::fixed::fx_min_s(rb, halfh), sgn_s(h));
    let rxrt = fx_mul_s(crate::fixed::fx_min_s(rt, halfw), sgn_s(w));
    let ryrt = fx_mul_s(crate::fixed::fx_min_s(rt, halfh), sgn_s(h));
    let rxlt = fx_mul_s(crate::fixed::fx_min_s(lt, halfw), sgn_s(w));
    let rylt = fx_mul_s(crate::fixed::fx_min_s(lt, halfh), sgn_s(h));
    let ik = fx_sub_s(FX_ONE as int, KAPPA90_FX as int);
    rrv_cmds_radii_s(x, y, w, h, rxlt, rylt, rxrt, ryrt, rxrb, ryrb, rxlb, rylb, ik)
}

impl<R: crate::renderer::Renderer> Context<R> {
    /// Add a rounded rectangle subpath with per-corner radii; radii all
    /// below a tenth of a unit fall back to a plain rectangle.
    #[verifier::rlimit(100)]
    #[verifier::spinoff_prover]
    pub fn rounded_rect_varying(&mut self, rect: Rect, lt: i64, rt: i64, rb: i64, lb: i64)
        requires
            old(self).wf(),
        ensures
            final(self).wf(),
            Self::same_but_commands(old(self), final(self)),
            final(self).cache == old(self).cache,
            lt < 6554 && rt < 6554 && lb < 6554 && rb < 6554 ==> final(self).commands@ =~= old(
                self,
            ).commands@ + xform_cmds_s(old(self).cur_state().xform@, rect_cmds_s(rect)),
            !(lt < 6554 && rt < 6554 && lb < 6554 && rb < 6554) ==> final(self).commands@ =~= old(
                self,
            ).commands@ + xform_cmds_s(
                old(self).cur_state().xform@,
                rrv_cmds_s(rect, lt as int, rt as int, rb as int, lb as int),
            ),
    {
        if lt < 6554 && rt < 6554 && lb < 6554 && rb < 6554 {
            self.rect(rect);
            return ;
        }
        let x = rect.xy.x;
        let y = rect.xy.y;
        let w = rect.size.width;
        let h = rect.size.height;
        let sw: i64 = if w < 0 {
            -FX_ONE
        } else {
            FX_ONE
        };
        let sh: i64 = if h < 0 {
            -FX_ONE
        } else {
            FX_ONE
        };
        let halfw = fx_mul(fx_abs(w), 32768);
        let halfh = fx_mul(fx_abs(h), 32768);
        let rxlb = fx_mul(crate::fixed::fx_min(lb, halfw), sw);
        let rylb = fx_mul(crate::fixed::fx_min(lb, halfh), sh);
        let rxrb = fx_mul(crate::fixed::fx_min(rb, halfw), sw);
        let ryrb = fx_mul(crate::fixed::fx_min(rb, halfh), sh);
        let rxrt = fx_mul(crate::fixed::fx_min(rt, halfw), sw);
        let ryrt = fx_mul(crate::fixed::fx_min(rt, halfh), sh);
        let rxlt = fx_mul(crate::fixed::fx_min(lt, halfw), sw);
        let rylt = fx_mul(crate::fixed::fx_min(lt, halfh), sh);
        let ik = fx_sub(FX_ONE, KAPPA90_FX);
        let mut cmds: Vec<Command> = Vec::new();
        cmds.push(Command::MoveTo(Point::new(x, fx_add(y, rylt))));
        cmds.push(Command::LineTo(Point::new(x, fx_sub(fx_add(y, h), rylb))));
        cmds.push(
            Command::BezierTo(
                Point::new(x, fx_sub(fx_add(y, h), fx_mul(rylb, ik))),
                Point::new(fx_add(x, fx_mul(rxlb, ik)), fx_add(y, h)),
                Point::new(fx_add(x, rxlb), fx_add(y, h)),
            ),
        );
        cmds.push(Command::LineTo(Point::new(fx_sub(fx_add(x, w), rxrb), fx_add(y, h))));
        cmds.push(
            Command::BezierTo(
                Point::new(fx_sub(fx_add(x, w), fx_mul(rxrb, ik)), fx_add(y, h)),
                Point::new(fx_add(x, w), fx_sub(fx_add(y, h), fx_mul(ryrb, ik))),
                Point::new(fx_add(x, w), fx_sub(fx_add(y, h), ryrb)),
            ),
        );
        cmds.push(Command::LineTo(Point::new(fx_add(x, w), fx_add(y, ryrt))));
        cmds.push(
            Command::BezierTo(
                Point::new(fx_add(x, w), fx_add(y, fx_mul(ryrt, ik))),
                Point::new(fx_sub(fx_add(x, w), fx_mul(rxrt, ik)), y),
                Point::new(fx_sub(fx_add(x, w), rxrt), y),
            ),
        );
        cmds.push(Command::LineTo(Point::new(fx_add(x, rxlt), y)));
        cmds.push(
            Command::BezierTo(
                Point::new(fx_add(x, fx_mul(rxlt, ik)), y),
                Point::new(x, fx_add(y, fx_mul(rylt, ik))),
                Point::new(x, fx_add(y, rylt)),
            ),
        );
        cmds.push(Command::Close);
        proof {
            assert(cmds@ =~= rrv_cmds_radii_s(
                x as int,
                y as int,
                w as int,
                h as int,
                rxlt as int,
                rylt as int,
                rxrt as int,
                ryrt as int,
                rxrb as int,
                ryrb as int,
                rxlb as int,
                rylb as int,
                ik as int,
            ));
            assert(rrv_cmds_s(rect, lt as int, rt as int, rb as int, lb as int)
                == rrv_cmds_radii_s(
                x as int,
                y as int,
                w as int,
                h as int,
                rxlt as int,
                rylt as int,
                rxrt as int,
                ryrt as int,
                rxrb as int,
                ryrb as int,
                rxlb as int,
                rylb as int,
                ik as int,
            ));
        }
        self.append_commands(&cmds);
    }

    /// Add a rounded rectangle subpath with one radius for all corners.
    pub fn rounded_rect(&mut self, rect: Rect, radius: i64)
        requires
            old(self).wf(),
        ensures
            final(self).wf(),
            Self::same_but_commands(old(self), final(self)),
            final(self).cache == old(self).cache,
            radius < 6554 ==> final(self).commands@ =~= old(self).commands@ + xform_cmds_s(
                old(self).cur_state().xform@,
                rect_cmds_s(rect),
            ),
            radius >= 6554 ==> final(self).commands@ =~= old(self).commands@ + xform_cmds_s(
                old(self).cur_state().xform@,
                rrv_cmds_s(rect, radius as int, radius as int, radius as int, radius as int),
            ),
    {
        self.rounded_rect_varying(rect, radius, radius, radius, radius);
    }

    /// Decode an encoded image and upload it as a texture through the
    /// renderer; decode failures surface as texture errors.
    pub fn create_image(&mut self, flags: ImageFlags, data: &[u8]) -> (r: Result<
        ImageId,
        NonaError,
    >)
        requires
            old(self).wf(),
            old(self).renderer is Some,
        ensures
            final(self).wf(),
            Self::same_but_renderer(old(self), final(self)),
            decoded_rgba(data@) is None ==> r is Err,
            (decoded_rgba(data@) is None ==> (r matches Err(e) ==> e is Texture)),
    {
        let decoded = decode_rgba(data);
        match decoded {
            Ok(img) => {
                match &mut self.renderer {
                    Some(renderer) => {
                        renderer.create_texture(
                            crate::renderer::TextureType::RGBA,
                            img.0,
                            img.1,
                            flags,
                            Some(&img.2),
                        )
                    },
                    None => Err(NonaError::Texture(String::new())),
                }
            },
            Err(msg) => Err(NonaError::Texture(msg)),
        }
    }

    /// Re-upload the full contents of a texture.
    pub fn update_image(&mut self, img: ImageId, data: &[u8]) -> (r: Result<(), NonaError>)
        requires
            old(self).wf(),
            old(self).renderer is Some,
        ensures
            final(self).wf(),
            Self::same_but_renderer(old(self), final(self)),
    {
        match &mut self.renderer {
            Some(renderer) => {
                let size = renderer.texture_size(img);
                match size {
                    Ok(wh) => renderer.update_texture(img, 0, 0, wh.0, wh.1, data),
                    Err(e) => Err(e),
                }
            },
            None => Err(NonaError::Texture(String::new())),
        }
    }

    /// The dimensions of a texture.
    pub fn image_size(&self, img: ImageId) -> (r: Result<(usize, usize), NonaError>)
        requires
            self.wf(),
            self.renderer is Some,
    {
        match &self.renderer {
            Some(renderer) => renderer.texture_size(img),
            None => Err(NonaError::Texture(String::new())),
        }
    }

    /// Delete a texture.
    pub fn delete_image(&mut self, img: ImageId) -> (r: Result<(), NonaError>)
        requires
            old(self).wf(),
            old(self).renderer is Some,
        ensures
            final(self).wf(),
            Self::same_but_renderer(old(self), final(self)),
    {
        match &mut self.renderer {
            Some(renderer) => renderer.delete_texture(img),
            None => Err(NonaError::Texture(String::new())),
        }
    }
}


impl<R: crate::renderer::Renderer> Context<R> {
    /// Fill the current path: flatten the command buffer, expand fill
    /// geometry (with the fringe width when both the renderer and the state
    /// enable antialiasing, else without), multiply the paint's alpha by
    /// the global alpha, hand everything to the renderer, and accumulate
    /// the triangle statistics on success.
    pub fn fill(&mut self) -> (r: Result<(), NonaError>)
        requires
            old(self).wf(),
            old(self).renderer is Some,
        ensures
            final(self).wf(),
            final(self).commands == old(self).commands,
            final(self).states == old(self).states,
            ({
                let flat = crate::cache::flatten_spec_s(
                    old(self).cache@,
                    old(self).commands@,
                    old(self).dist_tol as int,
                    old(self).tess_tol as int,
                );
                final(self).cache@ == crate::cache::expand_fill_s(
                    flat,
                    old(self).fringe_width as int,
                    LineJoin::Miter,
                    157286,
                    old(self).fringe_width as int,
                ) || final(self).cache@ == crate::cache::expand_fill_s(
                    flat,
                    0,
                    LineJoin::Miter,
                    157286,
                    old(self).fringe_width as int,
                )
            }),
            r is Ok ==> (
            final(self).fill_triangles_count as int,
            final(self).draw_call_count as int,
            ) == fill_counts_s(
                final(self).cache@.paths,
                0,
                old(self).fill_triangles_count as int,
                old(self).draw_call_count as int,
            ),
    {
        let n = self.states.len();
        let state = self.states[n - 1];
        let mut fill_paint = state.fill;
        let aa_on: bool;
        match &self.renderer {
            Some(renderer) => {
                aa_on = renderer.edge_antialias() && state.shape_antialias;
            },
            None => {
                aa_on = false;
            },
        }
        self.cache.flatten_paths(self.commands.as_slice(), self.dist_tol, self.tess_tol);
        if aa_on {
            self.cache.expand_fill(self.fringe_width, LineJoin::Miter, 157286, self.fringe_width);
        } else {
            self.cache.expand_fill(0, LineJoin::Miter, 157286, self.fringe_width);
        }
        fill_paint.inner_color.a = fx_mul(fill_paint.inner_color.a, state.alpha);
        fill_paint.outer_color.a = fx_mul(fill_paint.outer_color.a, state.alpha);
        let res: Result<(), NonaError>;
        match &mut self.renderer {
            Some(renderer) => {
                res = renderer.fill(
                    &fill_paint,
                    state.composite_operation,
                    &state.scissor,
                    self.fringe_width,
                    self.cache.bounds,
                    &self.cache.paths,
                    &self.cache.vertexes,
                );
            },
            None => {
                res = Err(NonaError::Texture(String::new()));
            },
        }
        if res.is_err() {
            return res;
        }
        let ghost mid = *self;
        let npaths = self.cache.paths.len();
        let mut i: usize = 0;
        while i < npaths
            invariant
                i <= npaths,
                npaths == self.cache.paths@.len(),
                self.wf(),
                self.renderer == mid.renderer,
                self.commands == mid.commands,
                self.states == mid.states,
                self.cache == mid.cache,
                self.last_position == mid.last_position,
                self.tess_tol == mid.tess_tol,
                self.dist_tol == mid.dist_tol,
                self.fringe_width == mid.fringe_width,
                self.device_pixel_ratio == mid.device_pixel_ratio,
                self.stroke_triangles_count == mid.stroke_triangles_count,
                self.text_triangles_count == mid.text_triangles_count,
                fill_counts_s(
                    self.cache@.paths,
                    i as int,
                    self.fill_triangles_count as int,
                    self.draw_call_count as int,
                ) == fill_counts_s(
                    self.cache@.paths,
                    0,
                    old(self).fill_triangles_count as int,
                    old(self).draw_call_count as int,
                ),
            decreases npaths - i,
        {
            let path = self.cache.paths[i];
            if path.num_fill > 2 {
                self.fill_triangles_count = crate::fixed::usat_add(
                    self.fill_triangles_count,
                    path.num_fill - 2,
                );
            }
            if path.num_stroke > 2 {
                self.fill_triangles_count = crate::fixed::usat_add(
                    self.fill_triangles_count,
                    path.num_stroke - 2,
                );
            }
            self.draw_call_count = crate::fixed::usat_add(self.draw_call_count, 2);
            proof {
                assert(self.cache@.paths[i as int] == path@);
            }
            i = i + 1;
        }
        Ok(())
    }

    /// Stroke the current path: scale and clamp the stroke width, fade thin
    /// strokes into alpha, flatten, expand stroke geometry (with or without
    /// the fringe), hand everything to the renderer, and accumulate the
    /// statistics on success.
    pub fn stroke(&mut self) -> (r: Result<(), NonaError>)
        requires
            old(self).wf(),
            old(self).renderer is Some,
        ensures
            final(self).wf(),
            final(self).commands == old(self).commands,
            final(self).states == old(self).states,
            ({
                let st = old(self).cur_state();
                let sw0 = crate::fixed::clamp_s(
                    fx_mul_s(st.stroke_width as int, crate::math::avg_scale_s(st.xform@)),
                    0,
                    13107200,
                );
                let sw = if sw0 < old(self).fringe_width as int {
                    old(self).fringe_width as int
                } else {
                    sw0
                };
                let flat = crate::cache::flatten_spec_s(
                    old(self).cache@,
                    old(self).commands@,
                    old(self).dist_tol as int,
                    old(self).tess_tol as int,
                );
                final(self).cache@ == crate::cache::expand_stroke_s(
                    flat,
                    fx_mul_s(sw, 32768),
                    old(self).fringe_width as int,
                    st.line_cap,
                    st.line_join,
                    st.miter_limit as int,
                    old(self).tess_tol as int,
                ) || final(self).cache@ == crate::cache::expand_stroke_s(
                    flat,
                    fx_mul_s(sw, 32768),
                    0,
                    st.line_cap,
                    st.line_join,
                    st.miter_limit as int,
                    old(self).tess_tol as int,
                )
            }),
            r is Ok ==> (
            final(self).fill_triangles_count as int,
            final(self).draw_call_count as int,
            ) == stroke_counts_s(
                final(self).cache@.paths,
                0,
                old(self).fill_triangles_count as int,
                old(self).draw_call_count as int,
            ),
    {
        let n = self.states.len();
        let state = self.states[n - 1];
        let scale = state.xform.average_scale();
        let mut stroke_width = crate::fixed::fx_clamp(
            fx_mul(state.stroke_width, scale),
            0,
            13107200,
        );
        let mut stroke_paint = state.stroke;
        if stroke_width < self.fringe_width {
            let alpha = crate::fixed::fx_clamp(fx_div(stroke_width, self.fringe_width), 0, FX_ONE);
            let a2 = fx_mul(alpha, alpha);
            stroke_paint.inner_color.a = fx_mul(stroke_paint.inner_color.a, a2);
            stroke_paint.outer_color.a = fx_mul(stroke_paint.outer_color.a, a2);
            stroke_width = self.fringe_width;
        }
        stroke_paint.inner_color.a = fx_mul(stroke_paint.inner_color.a, state.alpha);
        stroke_paint.outer_color.a = fx_mul(stroke_paint.outer_color.a, state.alpha);
        let aa_on: bool;
        match &self.renderer {
            Some(renderer) => {
                aa_on = renderer.edge_antialias() && state.shape_antialias;
            },
            None => {
                aa_on = false;
            },
        }
        self.cache.flatten_paths(self.commands.as_slice(), self.dist_tol, self.tess_tol);
        if aa_on {
            self.cache.expand_stroke(
                fx_mul(stroke_width, 32768),
                self.fringe_width,
                state.line_cap,
                state.line_join,
                state.miter_limit,
                self.tess_tol,
            );
        } else {
            self.cache.expand_stroke(
                fx_mul(stroke_width, 32768),
                0,
                state.line_cap,
                state.line_join,
                state.miter_limit,
                self.tess_tol,
            );
        }
        let res: Result<(), NonaError>;
        match &mut self.renderer {
            Some(renderer) => {
                res = renderer.stroke(
                    &stroke_paint,
                    state.composite_operation,
                    &state.scissor,
                    self.fringe_width,
                    stroke_width,
                    &self.cache.paths,
                    &self.cache.vertexes,
                );
            },
            None => {
                res = Err(NonaError::Texture(String::new()));
            },
        }
        if res.is_err() {
            return res;
        }
        let ghost mid = *self;
        let npaths = self.cache.paths.len();
        let mut i: usize = 0;
        while i < npaths
            invariant
                i <= npaths,
                npaths == self.cache.paths@.len(),
                self.wf(),
                self.renderer == mid.renderer,
                self.commands == mid.commands,
                self.states == mid.states,
                self.cache == mid.cache,
                self.last_position == mid.last_position,
                self.tess_tol == mid.tess_tol,
                self.dist_tol == mid.dist_tol,
                self.fringe_width == mid.fringe_width,
                self.device_pixel_ratio == mid.device_pixel_ratio,
                self.stroke_triangles_count == mid.stroke_triangles_count,
                self.text_triangles_count == mid.text_triangles_count,
                stroke_counts_s(
                    self.cache@.paths,
                    i as int,
                    self.fill_triangles_count as int,
                    self.draw_call_count as int,
                ) == stroke_counts_s(
                    self.cache@.paths,
                    0,
                    old(self).fill_triangles_count as int,
                    old(self).draw_call_count as int,
                ),
            decreases npaths - i,
        {
            let path = self.cache.paths[i];
            if path.num_stroke > 2 {
                self.fill_triangles_count = crate::fixed::usat_add(
                    self.fill_triangles_count,
                    path.num_stroke - 2,
                );
            }
            self.draw_call_count = crate::fixed::usat_add(self.draw_call_count, 1);
            proof {
                assert(self.cache@.paths[i as int] == path@);
            }
            i = i + 1;
        }
        Ok(())
    }

    /// Turn laid-out characters into two textured triangles each, writing
    /// the quads into the shared vertex arena, and hand them to the
    /// renderer with the fill paint sampling the glyph-atlas texture.
    pub fn text(&mut self, img: ImageId, layout: &Vec<LayoutChar>) -> (r: Result<(), NonaError>)
        requires
            old(self).wf(),
            old(self).renderer is Some,
        ensures
            final(self).wf(),
            final(self).commands == old(self).commands,
            final(self).states == old(self).states,
            final(self).cache@.points == old(self).cache@.points,
            final(self).cache@.paths == old(self).cache@.paths,
            final(self).cache@.verts =~= text_quads_s(
                layout@,
                0,
                fx_div_s(
                    FX_ONE as int,
                    fx_mul_s(
                        crate::math::font_scale_s(old(self).cur_state().xform@),
                        old(self).device_pixel_ratio as int,
                    ),
                ),
            ),
    {
        let n = self.states.len();
        let state = self.states[n - 1];
        let scale = fx_mul(state.xform.font_scale(), self.device_pixel_ratio);
        let invscale = fx_div(FX_ONE, scale);
        self.cache.vertexes.clear();
        let m = layout.len();
        let mut i: usize = 0;
        while i < m
            invariant
                i <= m,
                m == layout@.len(),
                self.wf(),
                self.states == old(self).states,
                self.commands == old(self).commands,
                self.cache@.points == old(self).cache@.points,
                self.cache@.paths == old(self).cache@.paths,
                invscale as int == fx_div_s(
                    FX_ONE as int,
                    fx_mul_s(
                        crate::math::font_scale_s(old(self).cur_state().xform@),
                        old(self).device_pixel_ratio as int,
                    ),
                ),
                self.cache@.verts + text_quads_s(layout@, i as int, invscale as int)
                    =~= text_quads_s(layout@, 0, invscale as int),
            decreases m - i,
        {
            let ghost pre = self.cache@.verts;
            let lc = layout[i];
            let ltx = fx_mul(lc.bounds.min.x, invscale);
            let lty = fx_mul(lc.bounds.min.y, invscale);
            let rbx = fx_mul(lc.bounds.max.x, invscale);
            let rby = fx_mul(lc.bounds.max.y, invscale);
            self.cache.vertexes.push(Vertex::new(ltx, lty, lc.uv.min.x, lc.uv.min.y));
            self.cache.vertexes.push(Vertex::new(rbx, rby, lc.uv.max.x, lc.uv.max.y));
            self.cache.vertexes.push(Vertex::new(rbx, lty, lc.uv.max.x, lc.uv.min.y));
            self.cache.vertexes.push(Vertex::new(ltx, lty, lc.uv.min.x, lc.uv.min.y));
            self.cache.vertexes.push(Vertex::new(ltx, rby, lc.uv.min.x, lc.uv.max.y));
            self.cache.vertexes.push(Vertex::new(rbx, rby, lc.uv.max.x, lc.uv.max.y));
            proof {
                assert(lc == layout@[i as int]);
                assert(self.cache@.verts =~= pre + char_quad_s(layout@[i as int], invscale as int));
                assert(text_quads_s(layout@, i as int, invscale as int) =~= char_quad_s(
                    layout@[i as int],
                    invscale as int,
                ) + text_quads_s(layout@, i as int + 1, invscale as int));
                assert(self.cache@.verts + text_quads_s(layout@, i as int + 1, invscale as int)
                    =~= pre + text_quads_s(layout@, i as int, invscale as int));
            }
            i = i + 1;
        }
        proof {
            assert(self.cache@.verts + text_quads_s(layout@, m as int, invscale as int)
                =~= self.cache@.verts);
        }
        let mut paint = state.fill;
        paint.image = Some(img);
        paint.inner_color.a = fx_mul(paint.inner_color.a, state.alpha);
        paint.outer_color.a = fx_mul(paint.outer_color.a, state.alpha);
        match &mut self.renderer {
            Some(renderer) => {
                renderer.triangles(
                    &paint,
                    state.composite_operation,
                    &state.scissor,
                    &self.cache.vertexes,
                )
            },
            None => Err(NonaError::Texture(String::new())),
        }
    }
}


/// Wrap a sweep upward until it is nonnegative (hole direction).
pub open spec fn norm_da_pos_s(da: int) -> int
    decreases (if da < 0 {
        -da
    } else {
        0
    }),
{
    if da < 0 {
        norm_da_pos_s(da + crate::trig::TWO_PI_FX as int)
    } else {
        da
    }
}

/// Wrap a sweep downward until it is nonpositive (solid direction).
pub open spec fn norm_da_neg_s(da: int) -> int
    decreases (if da > 0 {
        da
    } else {
        0
    }),
{
    if da > 0 {
        norm_da_neg_s(da - crate::trig::TWO_PI_FX as int)
    } else {
        da
    }
}

/// The normalized arc sweep: a full turn caps it, otherwise it wraps into
/// the direction's sign.
pub open spec fn arc_da_s(da0: int, dir: Solidity) -> int {
    if dir == Solidity::Hole {
        if crate::fixed::absi(da0) >= crate::trig::TWO_PI_FX as int {
            crate::trig::TWO_PI_FX as int
        } else {
            norm_da_pos_s(da0)
        }
    } else {
        if crate::fixed::absi(da0) >= crate::trig::TWO_PI_FX as int {
            -(crate::trig::TWO_PI_FX as int)
        } else {
            norm_da_neg_s(da0)
        }
    }
}

/// The raw command list of `arc`'s subdivision loop from step `i`, plus the
/// final (untransformed) endpoint.
pub open spec fn arc_steps_s(
    cx: int,
    cy: int,
    radius: int,
    a0: int,
    da: int,
    ndivs: int,
    kappa: int,
    move_first: bool,
    i: int,
    px: int,
    py: int,
    ptanx: int,
    ptany: int,
) -> (Seq<Command>, SPoint)
    decreases ndivs + 1 - i,
{
    if i > ndivs {
        (Seq::empty(), SPoint { x: px, y: py })
    } else {
        let u = fx_div_s(sat_s(i * 65536), sat_s(ndivs * 65536));
        let a = fx_add_s(a0, fx_mul_s(da, u));
        let dxv = crate::trig::cos_s(a);
        let dyv = crate::trig::sin_s(a);
        let x = fx_add_s(cx, fx_mul_s(dxv, radius));
        let y = fx_add_s(cy, fx_mul_s(dyv, radius));
        let tanx = fx_mul_s(fx_mul_s(sat_s(-dyv), radius), kappa);
        let tany = fx_mul_s(fx_mul_s(dxv, radius), kappa);
        let cmd = if i == 0 {
            if move_first {
                Command::MoveTo(spt_to_pt(SPoint { x, y }))
            } else {
                Command::LineTo(spt_to_pt(SPoint { x, y }))
            }
        } else {
            Command::BezierTo(
                spt_to_pt(SPoint { x: fx_add_s(px, ptanx), y: fx_add_s(py, ptany) }),
                spt_to_pt(SPoint { x: fx_sub_s(x, tanx), y: fx_sub_s(y, tany) }),
                spt_to_pt(SPoint { x, y }),
            )
        };
        let rest = arc_steps_s(cx, cy, radius, a0, da, ndivs, kappa, move_first, i + 1, x, y, tanx, tany);
        (seq![cmd] + rest.0, rest.1)
    }
}

/// The raw command list and final position of `arc`.
pub open spec fn arc_s(
    cp: Point,
    radius: int,
    a0: int,
    a1: int,
    dir: Solidity,
    move_first: bool,
) -> (Seq<Command>, SPoint) {
    let da = arc_da_s(fx_sub_s(a1, a0), dir);
    let v = fx_add_s(fx_div_s(sat_s(crate::fixed::absi(da)), crate::trig::HALF_PI_FX as int), 32768);
    let nd0 = v / 65536;
    let nd1 = if nd0 > 5 {
        5
    } else {
        nd0
    };
    let ndivs = if nd1 < 1 {
        1
    } else {
        nd1
    };
    let hda = fx_div_s(fx_div_s(da, sat_s(ndivs * 65536)), 131072);
    let kappa0 = sat_s(
        crate::fixed::absi(
            fx_div_s(
                fx_mul_s(87381, fx_sub_s(FX_ONE as int, crate::trig::cos_s(hda))),
                crate::trig::sin_s(hda),
            ),
        ),
    );
    let kappa = if dir == Solidity::Solid {
        sat_s(-kappa0)
    } else {
        kappa0
    };
    arc_steps_s(cp.x as int, cp.y as int, radius, a0, da, ndivs, kappa, move_first, 0, 0, 0, 0, 0)
}

/// The raw commands appended by `arc_to` (once the command buffer is known
/// nonempty), plus the final remembered position.
pub open spec fn arc_to_s(pt0: Point, pt1: Point, pt2: Point, radius: int, dist_tol: int) -> (
    Seq<Command>,
    Point,
) {
    if crate::math::pt_equals_s(pt0@, pt1@, dist_tol) || crate::math::pt_equals_s(pt1@, pt2@, dist_tol) || crate::math::dist_pt_seg_s(
        pt1@,
        pt0@,
        pt2@,
    ) < fx_mul_s(dist_tol, dist_tol) || radius < dist_tol {
        (seq![Command::LineTo(pt1)], pt1)
    } else {
        let d0x = fx_sub_s(pt0@.x, pt1@.x);
        let d0y = fx_sub_s(pt0@.y, pt1@.y);
        let d1x = fx_sub_s(pt2@.x, pt1@.x);
        let d1y = fx_sub_s(pt2@.y, pt1@.y);
        let a = crate::trig::cos_s(fx_add_s(fx_mul_s(d0x, d1x), fx_mul_s(d0y, d1y)));
        let half = fx_mul_s(a, 32768);
        let tn = fx_div_s(crate::trig::sin_s(half), crate::trig::cos_s(half));
        let d = fx_div_s(radius, tn);
        if d > 655360000 {
            (seq![Command::LineTo(pt1)], pt1)
        } else {
            let cross = fx_sub_s(fx_mul_s(d1x, d0y), fx_mul_s(d0x, d1y));
            if cross > 0 {
                let cx = fx_add_s(fx_add_s(pt1@.x, fx_mul_s(d0x, d)), fx_mul_s(d0y, radius));
                let cy = fx_add_s(
                    fx_add_s(pt1@.y, fx_mul_s(d0y, d)),
                    fx_mul_s(sat_s(-d0x), radius),
                );
                let aa0 = crate::trig::atan2_s(d0x, sat_s(-d0y));
                let aa1 = sat_s(-crate::trig::atan2_s(d1x, d1y));
                let r = arc_s(
                    spt_to_pt(SPoint { x: cx, y: cy }),
                    radius,
                    aa0,
                    aa1,
                    Solidity::Hole,
                    false,
                );
                (r.0, spt_to_pt(r.1))
            } else {
                let cx = fx_add_s(
                    fx_add_s(pt1@.x, fx_mul_s(d0x, d)),
                    fx_mul_s(sat_s(-d0y), radius),
                );
                let cy = fx_add_s(fx_add_s(pt1@.y, fx_mul_s(d0y, d)), fx_mul_s(d0x, radius));
                let aa0 = sat_s(-crate::trig::atan2_s(d0x, d0y));
                let aa1 = crate::trig::atan2_s(d1x, sat_s(-d1y));
                let r = arc_s(
                    spt_to_pt(SPoint { x: cx, y: cy }),
                    radius,
                    aa0,
                    aa1,
                    Solidity::Solid,
                    false,
                );
                (r.0, spt_to_pt(r.1))
            }
        }
    }
}

impl<R: crate::renderer::Renderer> Context<R> {
    /// Add an arc around `cp` from angle `a0` to `a1` in the given
    /// direction, as bezier segments; starts a subpath when the command
    /// buffer is empty.
    #[verifier::rlimit(100)]
    pub fn arc(&mut self, cp: Point, radius: i64, a0: i64, a1: i64, dir: Solidity)
        requires
            old(self).wf(),
        ensures
            final(self).wf(),
            Self::same_but_commands(old(self), final(self)),
            final(self).cache == old(self).cache,
            final(self).commands@ =~= old(self).commands@ + xform_cmds_s(
                old(self).cur_state().xform@,
                arc_s(
                    cp,
                    radius as int,
                    a0 as int,
                    a1 as int,
                    dir,
                    old(self).commands@.len() == 0,
                ).0,
            ),
            final(self).last_position == spt_to_pt(
                arc_s(
                    cp,
                    radius as int,
                    a0 as int,
                    a1 as int,
                    dir,
                    old(self).commands@.len() == 0,
                ).1,
            ),
    {
        let move_ = self.commands.len() == 0;
        let da0 = fx_sub(a1, a0);
        let mut da = da0;
        if matches!(dir, Solidity::Hole) {
            if fx_abs(da) >= crate::trig::TWO_PI_FX {
                da = crate::trig::TWO_PI_FX;
            } else {
                while da < 0
                    invariant
                        -0x100_0000_0000 <= da <= 0x100_0000_0000,
                        norm_da_pos_s(da as int) == norm_da_pos_s(da0 as int),
                    decreases (if da < 0 {
                        -(da as int)
                    } else {
                        0
                    }),
                {
                    da = da + crate::trig::TWO_PI_FX;
                }
            }
        } else {
            if fx_abs(da) >= crate::trig::TWO_PI_FX {
                da = -crate::trig::TWO_PI_FX;
            } else {
                while da > 0
                    invariant
                        -0x100_0000_0000 <= da <= 0x100_0000_0000,
                        norm_da_neg_s(da as int) == norm_da_neg_s(da0 as int),
                    decreases (if da > 0 {
                        da as int
                    } else {
                        0
                    }),
                {
                    da = da - crate::trig::TWO_PI_FX;
                }
            }
        }
        proof {
            assert(da as int == arc_da_s(da0 as int, dir));
        }
        let v = fx_add(fx_div(fx_abs(da), crate::trig::HALF_PI_FX), 32768);
        let nd0: i64 = ((v as u64) / 65536) as i64;
        let nd1: i64 = if nd0 > 5 {
            5
        } else {
            nd0
        };
        let ndivs: i64 = if nd1 < 1 {
            1
        } else {
            nd1
        };
        let hda = fx_div(fx_div(da, crate::fixed::fx_of_int(ndivs)), 131072);
        let kappa0 = fx_abs(
            fx_div(
                fx_mul(87381, fx_sub(FX_ONE, crate::trig::fx_cos(hda))),
                crate::trig::fx_sin(hda),
            ),
        );
        let kappa: i64 = if matches!(dir, Solidity::Solid) {
            fx_neg(kappa0)
        } else {
            kappa0
        };
        let ghost full = arc_s(
            cp,
            radius as int,
            a0 as int,
            a1 as int,
            dir,
            old(self).commands@.len() == 0,
        );
        proof {
            assert(full == arc_steps_s(
                cp.x as int,
                cp.y as int,
                radius as int,
                a0 as int,
                da as int,
                ndivs as int,
                kappa as int,
                move_,
                0,
                0,
                0,
                0,
                0,
            ));
        }
        let mut px: i64 = 0;
        let mut py: i64 = 0;
        let mut ptanx: i64 = 0;
        let mut ptany: i64 = 0;
        let mut i: i64 = 0;
        while i <= ndivs
            invariant
                0 <= i <= ndivs + 1,
                1 <= ndivs <= 5,
                self.wf(),
                Self::same_but_commands(old(self), self),
                self.cache == old(self).cache,
                move_ == (old(self).commands@.len() == 0),
                self.commands@ + xform_cmds_s(
                    old(self).cur_state().xform@,
                    arc_steps_s(
                        cp.x as int,
                        cp.y as int,
                        radius as int,
                        a0 as int,
                        da as int,
                        ndivs as int,
                        kappa as int,
                        move_,
                        i as int,
                        px as int,
                        py as int,
                        ptanx as int,
                        ptany as int,
                    ).0,
                ) =~= old(self).commands@ + xform_cmds_s(old(self).cur_state().xform@, full.0),
                arc_steps_s(
                    cp.x as int,
                    cp.y as int,
                    radius as int,
                    a0 as int,
                    da as int,
                    ndivs as int,
                    kappa as int,
                    move_,
                    i as int,
                    px as int,
                    py as int,
                    ptanx as int,
                    ptany as int,
                ).1 == full.1,
                i > 0 ==> self.last_position == spt_to_pt(SPoint { x: px as int, y: py as int }),
                i == 0 ==> self.last_position == old(self).last_position && self.commands
                    == old(self).commands,
            decreases ndivs + 1 - i,
        {
            let ghost pre_cmds = self.commands@;
            let ghost rem = arc_steps_s(
                cp.x as int,
                cp.y as int,
                radius as int,
                a0 as int,
                da as int,
                ndivs as int,
                kappa as int,
                move_,
                i as int,
                px as int,
                py as int,
                ptanx as int,
                ptany as int,
            );
            let u = fx_div(crate::fixed::fx_of_int(i), crate::fixed::fx_of_int(ndivs));
            let a = fx_add(a0, fx_mul(da, u));
            let dxv = crate::trig::fx_cos(a);
            let dyv = crate::trig::fx_sin(a);
            let x = fx_add(cp.x, fx_mul(dxv, radius));
            let y = fx_add(cp.y, fx_mul(dyv, radius));
            let tanx = fx_mul(fx_mul(fx_neg(dyv), radius), kappa);
            let tany = fx_mul(fx_mul(dxv, radius), kappa);
            if i == 0 {
                if move_ {
                    self.append_command(Command::MoveTo(Point::new(x, y)));
                } else {
                    self.append_command(Command::LineTo(Point::new(x, y)));
                }
            } else {
                self.append_command(
                    Command::BezierTo(
                        Point::new(fx_add(px, ptanx), fx_add(py, ptany)),
                        Point::new(fx_sub(x, tanx), fx_sub(y, tany)),
                        Point::new(x, y),
                    ),
                );
            }
            proof {
                let rem1 = arc_steps_s(
                    cp.x as int,
                    cp.y as int,
                    radius as int,
                    a0 as int,
                    da as int,
                    ndivs as int,
                    kappa as int,
                    move_,
                    i as int + 1,
                    x as int,
                    y as int,
                    tanx as int,
                    tany as int,
                );
                assert(rem.0 =~= seq![rem.0[0]] + rem1.0);
                assert(self.commands@ =~= pre_cmds.push(
                    xform_cmd_s(old(self).cur_state().xform@, rem.0[0]),
                ));
                assert(self.commands@ + xform_cmds_s(old(self).cur_state().xform@, rem1.0)
                    =~= pre_cmds + xform_cmds_s(old(self).cur_state().xform@, rem.0));
            }
            px = x;
            py = y;
            ptanx = tanx;
            ptany = tany;
            i = i + 1;
        }
        proof {
            assert(arc_steps_s(
                cp.x as int,
                cp.y as int,
                radius as int,
                a0 as int,
                da as int,
                ndivs as int,
                kappa as int,
                move_,
                i as int,
                px as int,
                py as int,
                ptanx as int,
                ptany as int,
            ).0 =~= Seq::<Command>::empty());
        }
    }

    /// Add an arc from the current position towards `pt1` and on to `pt2`
    /// with the given corner radius; degenerate corners fall back to a line
    /// segment, and nothing happens with an empty command buffer.
    pub fn arc_to(&mut self, pt1: Point, pt2: Point, radius: i64)
        requires
            old(self).wf(),
        ensures
            final(self).wf(),
            Self::same_but_commands(old(self), final(self)),
            final(self).cache == old(self).cache,
            old(self).commands@.len() == 0 ==> final(self).commands == old(self).commands,
            old(self).commands@.len() == 0 ==> final(self).last_position == old(
                self,
            ).last_position,
            old(self).commands@.len() > 0 ==> (final(self).commands@ =~= old(self).commands@
                + xform_cmds_s(
                old(self).cur_state().xform@,
                arc_to_s(
                    old(self).last_position,
                    pt1,
                    pt2,
                    radius as int,
                    old(self).dist_tol as int,
                ).0,
            )),
            old(self).commands@.len() > 0 ==> final(self).last_position == arc_to_s(
                old(self).last_position,
                pt1,
                pt2,
                radius as int,
                old(self).dist_tol as int,
            ).1,
    {
        let pt0 = self.last_position;
        if self.commands.len() == 0 {
            return ;
        }
        if pt0.equals(pt1, self.dist_tol) || pt1.equals(pt2, self.dist_tol) || pt1.dist_pt_seg(
            pt0,
            pt2,
        ) < fx_mul(self.dist_tol, self.dist_tol) || radius < self.dist_tol {
            self.line_to(pt1);
            proof {
                assert(final(self).commands@ =~= old(self).commands@ + xform_cmds_s(
                    old(self).cur_state().xform@,
                    seq![Command::LineTo(pt1)],
                ));
            }
            return ;
        }
        let d0x = fx_sub(pt0.x, pt1.x);
        let d0y = fx_sub(pt0.y, pt1.y);
        let d1x = fx_sub(pt2.x, pt1.x);
        let d1y = fx_sub(pt2.y, pt1.y);
        let a = crate::trig::fx_cos(fx_add(fx_mul(d0x, d1x), fx_mul(d0y, d1y)));
        let half = fx_mul(a, 32768);
        let tn = fx_div(crate::trig::fx_sin(half), crate::trig::fx_cos(half));
        let d = fx_div(radius, tn);
        if d > 655360000 {
            self.line_to(pt1);
            proof {
                assert(final(self).commands@ =~= old(self).commands@ + xform_cmds_s(
                    old(self).cur_state().xform@,
                    seq![Command::LineTo(pt1)],
                ));
            }
            return ;
        }
        let cross = fx_sub(fx_mul(d1x, d0y), fx_mul(d0x, d1y));
        if cross > 0 {
            let cx = fx_add(fx_add(pt1.x, fx_mul(d0x, d)), fx_mul(d0y, radius));
            let cy = fx_add(fx_add(pt1.y, fx_mul(d0y, d)), fx_mul(fx_neg(d0x), radius));
            let aa0 = crate::trig::fx_atan2(d0x, fx_neg(d0y));
            let aa1 = fx_neg(crate::trig::fx_atan2(d1x, d1y));
            self.arc(Point::new(cx, cy), radius, aa0, aa1, Solidity::Hole);
        } else {
            let cx = fx_add(fx_add(pt1.x, fx_mul(d0x, d)), fx_mul(fx_neg(d0y), radius));
            let cy = fx_add(fx_add(pt1.y, fx_mul(d0y, d)), fx_mul(d0x, radius));
            let aa0 = fx_neg(crate::trig::fx_atan2(d0x, d0y));
            let aa1 = crate::trig::fx_atan2(d1x, fx_neg(d1y));
            self.arc(Point::new(cx, cy), radius, aa0, aa1, Solidity::Solid);
        }
    }
}

} // verus!
