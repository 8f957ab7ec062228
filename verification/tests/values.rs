//! Exact-value tests for the fixed-point scalar, trigonometry, color and
//! transform layers.

use nona::color::Color;
use nona::fixed::{fx_add, fx_ceil_usize, fx_div, fx_mul, fx_sqrt, fx_sub, FX_ONE};
use nona::FX_MAX;
use nona::math::{Point, Rect, Transform};
use nona::trig::{fx_acos, fx_atan2, fx_cos, fx_sin, PI_FX};

#[test]
fn fixed_point_arithmetic_is_exact() {
    assert_eq!(fx_add(FX_ONE, FX_ONE), 2 * FX_ONE);
    assert_eq!(fx_sub(FX_ONE, 3 * FX_ONE), -2 * FX_ONE);
    assert_eq!(fx_mul(3 * FX_ONE, 2 * FX_ONE), 6 * FX_ONE);
    assert_eq!(fx_mul(FX_ONE / 2, FX_ONE / 2), FX_ONE / 4);
    assert_eq!(fx_div(6 * FX_ONE, 2 * FX_ONE), 3 * FX_ONE);
    assert_eq!(fx_div(FX_ONE, 0), 0);
    assert_eq!(fx_sqrt(4 * FX_ONE), 2 * FX_ONE);
    assert_eq!(fx_sqrt(-FX_ONE), 0);
    assert_eq!(fx_ceil_usize(FX_ONE + 1), 2);
    assert_eq!(fx_ceil_usize(FX_ONE), 1);
}

#[test]
fn fixed_point_saturates_symmetrically() {
    assert_eq!(fx_add(FX_MAX, FX_MAX), FX_MAX);
    assert_eq!(fx_sub(-FX_MAX, FX_MAX), -FX_MAX);
    assert_eq!(fx_mul(FX_MAX, FX_MAX), FX_MAX);
    assert_eq!(fx_mul(-FX_MAX, FX_MAX), -FX_MAX);
}

#[test]
fn trig_fixed_points() {
    assert_eq!(fx_cos(0), FX_ONE);
    assert!(fx_sin(0).abs() <= 64);
    assert_eq!(fx_cos(PI_FX), -FX_ONE);
    assert_eq!(fx_acos(FX_ONE), 0);
    assert_eq!(fx_atan2(0, FX_ONE), 0);
    // acos of 0 is close to pi/2
    let q = fx_acos(0);
    assert!((q - PI_FX / 2).abs() < 16);
}

#[test]
fn color_from_bytes() {
    let c = Color::rgb_i(255, 0, 0);
    assert_eq!(c.r, FX_ONE);
    assert_eq!(c.g, 0);
    assert_eq!(c.b, 0);
    assert_eq!(c.a, FX_ONE);
    let d = Color::rgba_i(128, 0, 0, 255);
    assert_eq!(d.r, 128 * 65536 / 255);
}

#[test]
fn color_hsl_red() {
    let c = Color::hsl(0, FX_ONE, FX_ONE / 2);
    assert_eq!(c.r, FX_ONE);
    assert_eq!(c.g, 0);
    assert_eq!(c.b, 0);
    assert_eq!(c.a, FX_ONE);
}

#[test]
fn color_lerp_midpoint() {
    let a = Color::rgb(0, 0, 0);
    let b = Color::rgb(FX_ONE, FX_ONE, FX_ONE);
    let m = a.lerp(b, FX_ONE / 2);
    assert_eq!(m.r, FX_ONE / 2);
    assert_eq!(m.g, FX_ONE / 2);
    // blend factor clamps into [0, 1]
    let over = a.lerp(b, 3 * FX_ONE);
    assert_eq!(over.r, FX_ONE);
}

#[test]
fn transform_translate_and_invert() {
    let t = Transform::translate(10 * FX_ONE, -4 * FX_ONE);
    let p = t.transform_point(Point::new(FX_ONE, FX_ONE));
    assert_eq!(p, Point::new(11 * FX_ONE, -3 * FX_ONE));
    let inv = t.inverse();
    assert_eq!(inv.m4, -10 * FX_ONE);
    assert_eq!(inv.m5, 4 * FX_ONE);
    let back = inv.transform_point(p);
    assert_eq!(back, Point::new(FX_ONE, FX_ONE));
}

#[test]
fn transform_rotate_zero_is_identity_scale() {
    let t = Transform::rotate(0);
    assert_eq!(t.m0, FX_ONE);
    assert_eq!(t.m3, FX_ONE);
    assert!(t.m1.abs() <= 64);
    assert!(t.m2.abs() <= 64);
}

#[test]
fn transform_multiply_composes_translations() {
    let a = Transform::translate(FX_ONE, 0);
    let b = Transform::translate(0, FX_ONE);
    let c = a.multiply(b);
    assert_eq!(c.m4, FX_ONE);
    assert_eq!(c.m5, FX_ONE);
}

#[test]
fn point_normalize_unit_length() {
    let mut p = Point::new(3 * FX_ONE, 4 * FX_ONE);
    let len = p.normalize();
    assert_eq!(len, 5 * FX_ONE);
    assert_eq!(p.x, fx_mul(3 * FX_ONE, fx_div(FX_ONE, 5 * FX_ONE)));
    // a zero vector keeps its value and reports zero length
    let mut z = Point::new(0, 0);
    assert_eq!(z.normalize(), 0);
    assert_eq!(z, Point::new(0, 0));
}

#[test]
fn rect_intersect_overlapping() {
    let a = Rect::new(Point::new(0, 0), nona::math::Extent::new(10 * FX_ONE, 10 * FX_ONE));
    let b = Rect::new(
        Point::new(4 * FX_ONE, -2 * FX_ONE),
        nona::math::Extent::new(10 * FX_ONE, 6 * FX_ONE),
    );
    let n = a.intersect(b);
    assert_eq!(n.xy, Point::new(4 * FX_ONE, 0));
    assert_eq!(n.size.width, 6 * FX_ONE);
    assert_eq!(n.size.height, 4 * FX_ONE);
}

#[test]
fn rect_intersect_disjoint_is_empty() {
    let a = Rect::new(Point::new(0, 0), nona::math::Extent::new(FX_ONE, FX_ONE));
    let b = Rect::new(
        Point::new(5 * FX_ONE, 5 * FX_ONE),
        nona::math::Extent::new(FX_ONE, FX_ONE),
    );
    let n = a.intersect(b);
    assert_eq!(n.size.width, 0);
    assert_eq!(n.size.height, 0);
}

#[test]
fn ptrdistance_counts_arena_elements() {
    assert_eq!(nona::cache::ptrdistance(3, 10), 7);
    assert_eq!(nona::cache::ptrdistance(5, 5), 0);
}

#[test]
fn error_message_carries_detail() {
    let e = nona::errors::NonaError::Texture(String::from("bad bytes"));
    assert_eq!(e.message(), "bad bytes");
    let f = nona::errors::NonaError::Font(String::from("no tables"));
    assert_eq!(f.message(), "no tables");
    let g = nona::errors::NonaError::Shader(String::from("link"));
    assert_eq!(g.message(), "link");
}
