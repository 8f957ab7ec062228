//! Tessellation-engine tests: flattening, winding, fill and stroke
//! expansion, driven through the path cache directly.

use nona::cache::PathCache;
use nona::context::{Command, LineCap, LineJoin, Solidity};
use nona::fixed::FX_ONE;
use nona::math::Point;

const DIST_TOL: i64 = 655;
const TESS_TOL: i64 = 16384;

fn pt(x: i64, y: i64) -> Point {
    Point::new(x * FX_ONE, y * FX_ONE)
}

fn square_cmds() -> Vec<Command> {
    vec![
        Command::MoveTo(pt(0, 0)),
        Command::LineTo(pt(0, 10)),
        Command::LineTo(pt(10, 10)),
        Command::LineTo(pt(10, 0)),
        Command::Close,
    ]
}

fn area2(cache: &PathCache, first: usize, count: usize) -> i128 {
    let mut area: i128 = 0;
    for i in 2..count {
        let a = cache.points[first].xy;
        let b = cache.points[first + i - 1].xy;
        let c = cache.points[first + i].xy;
        let abx = (b.x as i128) - (a.x as i128);
        let aby = (b.y as i128) - (a.y as i128);
        let acx = (c.x as i128) - (a.x as i128);
        let acy = (c.y as i128) - (a.y as i128);
        area += acx * aby - abx * acy;
    }
    area
}

#[test]
fn flatten_square_keeps_points_and_closes() {
    let mut cache = PathCache::default();
    cache.flatten_paths(&square_cmds(), DIST_TOL, TESS_TOL);
    assert_eq!(cache.paths.len(), 1);
    let p = cache.paths[0];
    assert_eq!(p.count, 4);
    assert!(p.closed);
    assert_eq!(cache.points[0].xy, pt(0, 0));
    assert_eq!(cache.points[1].xy, pt(0, 10));
    assert_eq!(cache.points[2].xy, pt(10, 10));
    assert_eq!(cache.points[3].xy, pt(10, 0));
    // bounds cover the square
    assert_eq!(cache.bounds.min, pt(0, 0));
    assert_eq!(cache.bounds.max, pt(10, 10));
}

#[test]
fn flatten_merges_near_duplicate_points() {
    let mut cache = PathCache::default();
    let cmds = vec![
        Command::MoveTo(pt(0, 0)),
        Command::LineTo(Point::new(1, 0)),
        Command::LineTo(pt(10, 0)),
    ];
    cache.flatten_paths(&cmds, DIST_TOL, TESS_TOL);
    // the second point sits well inside the distance tolerance of the first
    assert_eq!(cache.paths[0].count, 2);
}

#[test]
fn flatten_is_idempotent_on_polylines() {
    let mut cache = PathCache::default();
    let cmds = vec![
        Command::MoveTo(pt(0, 0)),
        Command::LineTo(pt(7, 3)),
        Command::LineTo(pt(10, 10)),
        Command::LineTo(pt(0, 10)),
        Command::Close,
    ];
    cache.flatten_paths(&cmds, DIST_TOL, TESS_TOL);
    let count = cache.paths[0].count;
    let first = cache.paths[0].first;
    let pts: Vec<Point> = (0..count).map(|i| cache.points[first + i].xy).collect();

    // rebuild the same subpath from its flattened points and flatten again
    let mut cmds2: Vec<Command> = Vec::new();
    cmds2.push(Command::MoveTo(pts[0]));
    for q in pts.iter().skip(1) {
        cmds2.push(Command::LineTo(*q));
    }
    cmds2.push(Command::Close);
    let mut cache2 = PathCache::default();
    cache2.flatten_paths(&cmds2, DIST_TOL, TESS_TOL);
    assert_eq!(cache2.paths[0].count, count);
    let pts2: Vec<Point> = (0..count).map(|i| cache2.points[cache2.paths[0].first + i].xy).collect();
    assert_eq!(pts, pts2);
}

#[test]
fn bezier_flatten_twice_same_points() {
    let mut cache = PathCache::default();
    let cmds = vec![
        Command::MoveTo(pt(0, 0)),
        Command::BezierTo(pt(3, 0), pt(7, 10), pt(10, 10)),
        Command::LineTo(pt(0, 10)),
        Command::Close,
    ];
    cache.flatten_paths(&cmds, DIST_TOL, TESS_TOL);
    let count = cache.paths[0].count;
    assert!(count > 4, "bezier should subdivide, got {count} points");
    let first = cache.paths[0].first;
    let pts: Vec<Point> = (0..count).map(|i| cache.points[first + i].xy).collect();
    let mut cmds2: Vec<Command> = Vec::new();
    cmds2.push(Command::MoveTo(pts[0]));
    for q in pts.iter().skip(1) {
        cmds2.push(Command::LineTo(*q));
    }
    cmds2.push(Command::Close);
    let mut cache2 = PathCache::default();
    cache2.flatten_paths(&cmds2, DIST_TOL, TESS_TOL);
    assert_eq!(cache2.paths[0].count, count);
    let pts2: Vec<Point> =
        (0..count).map(|i| cache2.points[cache2.paths[0].first + i].xy).collect();
    assert_eq!(pts, pts2);
}

#[test]
fn hole_with_positive_area_is_reversed() {
    let mut cache = PathCache::default();
    // counter-clockwise triangle: positive signed area
    let cmds = vec![
        Command::MoveTo(pt(0, 0)),
        Command::LineTo(pt(0, 10)),
        Command::LineTo(pt(10, 10)),
        Command::Solidity(Solidity::Hole),
        Command::Close,
    ];
    cache.flatten_paths(&cmds, DIST_TOL, TESS_TOL);
    let p = cache.paths[0];
    assert_eq!(p.count, 3);
    // stored order is the reverse of insertion
    assert_eq!(cache.points[0].xy, pt(10, 10));
    assert_eq!(cache.points[1].xy, pt(0, 10));
    assert_eq!(cache.points[2].xy, pt(0, 0));
    assert!(area2(&cache, p.first, p.count) < 0);
}

#[test]
fn solid_with_negative_area_is_reversed() {
    let mut cache = PathCache::default();
    // clockwise triangle: negative signed area, solid wants positive
    let cmds = vec![
        Command::MoveTo(pt(0, 0)),
        Command::LineTo(pt(10, 0)),
        Command::LineTo(pt(10, 10)),
        Command::Close,
    ];
    cache.flatten_paths(&cmds, DIST_TOL, TESS_TOL);
    let p = cache.paths[0];
    assert!(area2(&cache, p.first, p.count) > 0);
}

#[test]
fn fill_no_fringe_copies_polygon() {
    let mut cache = PathCache::default();
    cache.flatten_paths(&square_cmds(), DIST_TOL, TESS_TOL);
    cache.expand_fill(0, LineJoin::Miter, 157286, FX_ONE);
    let p = cache.paths[0];
    assert_eq!(p.num_fill, 4);
    assert_eq!(p.num_stroke, 0);
    let fill = p.get_fill(&cache.vertexes);
    let expected = [pt(0, 0), pt(0, 10), pt(10, 10), pt(10, 0)];
    for (v, e) in fill.iter().zip(expected.iter()) {
        assert_eq!(v.x, e.x);
        assert_eq!(v.y, e.y);
        assert_eq!(v.u, FX_ONE / 2);
        assert_eq!(v.v, FX_ONE);
    }
}

#[test]
fn fill_with_fringe_adds_ring() {
    let mut cache = PathCache::default();
    cache.flatten_paths(&square_cmds(), DIST_TOL, TESS_TOL);
    cache.expand_fill(FX_ONE, LineJoin::Miter, 157286, FX_ONE);
    let p = cache.paths[0];
    assert!(p.num_fill >= 4);
    assert!(p.num_stroke >= 2, "a fringe ring must be emitted");
}

#[test]
fn stroke_closed_miter_vertex_count() {
    let mut cache = PathCache::default();
    cache.flatten_paths(&square_cmds(), DIST_TOL, TESS_TOL);
    // half width 0.5 units, no fringe: square corners stay miter joins
    cache.expand_stroke(FX_ONE / 2, 0, LineCap::Butt, LineJoin::Miter, 10 * FX_ONE, TESS_TOL);
    let p = cache.paths[0];
    assert_eq!(p.num_bevel, 0);
    assert_eq!(p.num_stroke, 2 * (p.count + 1));
    assert_eq!(p.num_fill, 0);
}

#[test]
fn stroke_open_round_cap_vertex_count() {
    let mut cache = PathCache::default();
    let cmds = vec![Command::MoveTo(pt(0, 0)), Command::LineTo(pt(10, 0))];
    cache.flatten_paths(&cmds, DIST_TOL, TESS_TOL);
    let w = FX_ONE / 2;
    cache.expand_stroke(w, 0, LineCap::Round, LineJoin::Miter, 10 * FX_ONE, TESS_TOL);
    // ncap = max(2, ceil(pi / (2 * acos(w / (w + tol)))))
    let x = nona::fixed::fx_div(w, nona::fixed::fx_add(w, TESS_TOL));
    let a = nona::trig::fx_acos(x);
    let da = nona::fixed::fx_add(a, a);
    let nd = nona::fixed::fx_ceil_usize(nona::fixed::fx_max(
        nona::fixed::fx_div(nona::trig::PI_FX, da),
        0,
    ));
    let ncap = if nd < 2 { 2 } else { nd };
    let p = cache.paths[0];
    // a round cap is a 2*ncap+2 vertex fan at each end of the open
    // subpath; a two-point subpath has no join vertices between them
    assert_eq!(p.num_stroke, 2 * (2 * ncap + 2));
}

#[test]
fn stroke_open_square_cap_vertex_count() {
    let mut cache = PathCache::default();
    let cmds = vec![Command::MoveTo(pt(0, 0)), Command::LineTo(pt(10, 0))];
    cache.flatten_paths(&cmds, DIST_TOL, TESS_TOL);
    cache.expand_stroke(FX_ONE / 2, 0, LineCap::Square, LineJoin::Miter, 10 * FX_ONE, TESS_TOL);
    // a flat cap is four vertices at each end
    assert_eq!(cache.paths[0].num_stroke, 4 + 4);
}

#[test]
fn stroke_round_join_right_turn_uses_cosine_for_both_coordinates() {
    // The right-turn round-join fan uses the cosine for both coordinates
    // (a documented quirk of the reference tessellation algorithm). The
    // reflex corner at (5,5) below is a right turn in a subpath whose
    // signed area is already positive (so the winding pass keeps the
    // order), and every fan vertex it emits satisfies dx == dy relative to
    // the corner.
    let mut cache = PathCache::default();
    let cmds = vec![
        Command::MoveTo(pt(0, 0)),
        Command::LineTo(pt(0, 10)),
        Command::LineTo(pt(5, 5)),
        Command::LineTo(pt(10, 10)),
    ];
    cache.flatten_paths(&cmds, DIST_TOL, TESS_TOL);
    cache.expand_stroke(2 * FX_ONE, 0, LineCap::Butt, LineJoin::Round, 10 * FX_ONE, TESS_TOL);
    let p = cache.paths[0];
    let stroke = p.get_stroke(&cache.vertexes);
    let corner = pt(5, 5);
    let mut fan_pairs = 0;
    for v in stroke.iter() {
        let dx = v.x - corner.x;
        let dy = v.y - corner.y;
        if dx == dy && dx != 0 && dx.abs() <= 3 * FX_ONE {
            fan_pairs += 1;
        }
    }
    assert!(fan_pairs > 0, "expected reproduced cosine-for-y fan vertices");
}

#[test]
fn begin_like_clear_drops_points_and_paths() {
    let mut cache = PathCache::default();
    cache.flatten_paths(&square_cmds(), DIST_TOL, TESS_TOL);
    assert!(cache.paths.len() == 1);
    cache.clear();
    assert_eq!(cache.paths.len(), 0);
    assert_eq!(cache.points.len(), 0);
}
