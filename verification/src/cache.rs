//! The path cache and tessellation engine: flattens command lists into
//! polylines, computes join geometry, and expands subpaths into stroke and
//! fill vertex buffers.
//!
//! Every mutation is pinned to a spec-level mirror over [`SCache`]; the
//! mirrors are the reference semantics that the laws are proved against.

use vstd::prelude::*;
use crate::context::{Command, LineCap, LineJoin, Path, SPath, Solidity, SVertex, Vertex};
use crate::fixed::{
    absi, fx_abs, fx_add, fx_add_s, fx_ceil_s, fx_div, fx_div_s, fx_max, fx_max_s, fx_min,
    fx_min_s, fx_mul, fx_mul_s, fx_neg, fx_sub, fx_sub_s, sat_s, FX_MAX, FX_ONE,
};
use crate::trig::{acos_s, atan2_s, cos_s, sin_s};
use crate::math::{Bounds, Point, SPoint, pt_equals_s, pt_len_s, pt_normalized_s};

verus! {

/// Hard cap on stored flattened points; inserts beyond it are dropped.
pub const MAX_POINTS: usize = 0x800_0000;

/// Number of arena elements from offset `start` to offset `end`.
pub fn ptrdistance(start: usize, end: usize) -> (r: usize)
    requires
        start <= end,
    ensures
        r == end - start,
{
    end - start
}

/// Per-point tessellation flags.
#[derive(Debug, Copy, Clone, PartialEq, Eq, Structural)]
pub struct PointFlags {
    pub corner: bool,
    pub left: bool,
    pub bevel: bool,
    pub innerbevel: bool,
}

impl PointFlags {
    /// Only the corner flag, as path building sets it.
    pub fn corner_only(corner: bool) -> (r: PointFlags)
        ensures
            r == (PointFlags { corner, left: false, bevel: false, innerbevel: false }),
    {
        PointFlags { corner, left: false, bevel: false, innerbevel: false }
    }
}

/// Spec model of a tessellation point: position, direction to the next
/// point, segment length, averaged miter direction, and flags.
pub struct SVPoint {
    pub x: int,
    pub y: int,
    pub dx: int,
    pub dy: int,
    pub len: int,
    pub dmx: int,
    pub dmy: int,
    pub corner: bool,
    pub left: bool,
    pub bevel: bool,
    pub innerbevel: bool,
}

/// A tessellation point.
#[derive(Debug, Copy, Clone, PartialEq, Eq, Structural)]
pub struct VPoint {
    pub xy: Point,
    pub d: Point,
    pub len: i64,
    pub dm: Point,
    pub flags: PointFlags,
}

impl View for VPoint {
    type V = SVPoint;

    open spec fn view(&self) -> SVPoint {
        SVPoint {
            x: self.xy.x as int,
            y: self.xy.y as int,
            dx: self.d.x as int,
            dy: self.d.y as int,
            len: self.len as int,
            dmx: self.dm.x as int,
            dmy: self.dm.y as int,
            corner: self.flags.corner,
            left: self.flags.left,
            bevel: self.flags.bevel,
            innerbevel: self.flags.innerbevel,
        }
    }
}

/// Spec model of the whole cache.
#[verifier::ext_equal]
pub struct SCache {
    pub points: Seq<SVPoint>,
    pub paths: Seq<SPath>,
    pub verts: Seq<SVertex>,
    pub bmin: SPoint,
    pub bmax: SPoint,
}

/// The path cache: the flattened point buffer, the subpath records, the
/// shared vertex arena both expand calls fill, and the running bounds.
#[derive(Debug, Clone)]
pub struct PathCache {
    pub points: Vec<VPoint>,
    pub paths: Vec<Path>,
    pub vertexes: Vec<Vertex>,
    pub bounds: Bounds,
}

impl View for PathCache {
    type V = SCache;

    open spec fn view(&self) -> SCache {
        SCache {
            points: self.points@.map_values(|p: VPoint| p@),
            paths: self.paths@.map_values(|p: Path| p@),
            verts: self.vertexes@.map_values(|v: Vertex| v@),
            bmin: self.bounds.min@,
            bmax: self.bounds.max@,
        }
    }
}

/// A coordinate pair within the saturation range.
pub open spec fn coord_in_range(x: int, y: int) -> bool {
    absi(x) <= FX_MAX as int && absi(y) <= FX_MAX as int
}

/// Well-formedness of the cache: point count capped, every stored position
/// in range, every subpath range inside the point buffer.
pub open spec fn cache_wf(c: SCache) -> bool {
    &&& c.points.len() <= MAX_POINTS as int
    &&& (forall|i: int| 0 <= i < c.points.len() ==> coord_in_range(
        (#[trigger] c.points[i]).x,
        c.points[i].y,
    ))
    &&& (forall|j: int|
        0 <= j < c.paths.len() ==> {
            let p = #[trigger] c.paths[j];
            0 <= p.first && 0 <= p.count && p.first + p.count <= c.points.len()
        })
}

/// Every point of one command within the saturation range.
pub open spec fn cmd_bounded(cmd: Command) -> bool {
    match cmd {
        Command::MoveTo(p) => coord_in_range(p@.x, p@.y),
        Command::LineTo(p) => coord_in_range(p@.x, p@.y),
        Command::BezierTo(p1, p2, p3) => coord_in_range(p1@.x, p1@.y) && coord_in_range(
            p2@.x,
            p2@.y,
        ) && coord_in_range(p3@.x, p3@.y),
        Command::Close => true,
        Command::Solidity(_) => true,
    }
}

/// Every point of a command list within the saturation range.
pub open spec fn cmds_bounded(cmds: Seq<Command>) -> bool {
    forall|i: int| 0 <= i < cmds.len() ==> cmd_bounded(#[trigger] cmds[i])
}

/// A fresh subpath record starting at point index `first`.
pub open spec fn new_spath_s(first: int) -> SPath {
    SPath {
        first,
        count: 0,
        closed: false,
        nbevel: 0,
        solidity: Solidity::Solid,
        fill_first: 0,
        nfill: 0,
        stroke_first: 0,
        nstroke: 0,
        convex: false,
    }
}

/// Mirror of `add_path`: push a fresh subpath record.
pub open spec fn add_path_s(c: SCache) -> SCache {
    SCache { paths: c.paths.push(new_spath_s(c.points.len() as int)), ..c }
}

/// A fresh point with only a corner flag.
pub open spec fn new_svpoint_s(x: int, y: int, corner: bool) -> SVPoint {
    SVPoint {
        x,
        y,
        dx: 0,
        dy: 0,
        len: 0,
        dmx: 0,
        dmy: 0,
        corner,
        left: false,
        bevel: false,
        innerbevel: false,
    }
}

/// Mirror of `add_point`: merge into the last point when within tolerance,
/// else append (unless the point cap is reached); a merge only ORs flags.
pub open spec fn add_point_s(c: SCache, x: int, y: int, corner: bool, dist_tol: int) -> SCache {
    if c.paths.len() == 0 {
        c
    } else {
        let pi = c.paths.len() - 1;
        let path = c.paths[pi as int];
        if path.count > 0 && c.points.len() > 0 && pt_equals_s(
            SPoint { x: c.points.last().x, y: c.points.last().y },
            SPoint { x, y },
            dist_tol,
        ) {
            let lp = c.points.last();
            SCache {
                points: c.points.update(
                    c.points.len() - 1,
                    SVPoint { corner: lp.corner || corner, ..lp },
                ),
                ..c
            }
        } else if c.points.len() >= MAX_POINTS as int {
            c
        } else {
            SCache {
                points: c.points.push(new_svpoint_s(x, y, corner)),
                paths: c.paths.update(pi as int, SPath { count: path.count + 1, ..path }),
                ..c
            }
        }
    }
}

/// Mirror of `close_path`: mark the last subpath closed.
pub open spec fn close_path_s(c: SCache) -> SCache {
    if c.paths.len() == 0 {
        c
    } else {
        let pi = c.paths.len() - 1;
        SCache {
            paths: c.paths.update(pi as int, SPath { closed: true, ..c.paths[pi as int] }),
            ..c
        }
    }
}

/// Mirror of `path_solidity`: tag the last subpath.
pub open spec fn path_solidity_s(c: SCache, solidity: Solidity) -> SCache {
    if c.paths.len() == 0 {
        c
    } else {
        let pi = c.paths.len() - 1;
        SCache {
            paths: c.paths.update(pi as int, SPath { solidity, ..c.paths[pi as int] }),
            ..c
        }
    }
}

/// Midpoint of two coordinates, as the subdivision computes it.
pub open spec fn bez_mid_s(a: int, b: int) -> int {
    fx_mul_s(fx_add_s(a, b), 32768)
}

/// One control point's cross-product flatness deviation.
pub open spec fn bez_dev_s(ax: int, ay: int, dx: int, dy: int) -> int {
    sat_s(absi(fx_sub_s(fx_mul_s(ax, dy), fx_mul_s(ay, dx))))
}

/// The flatness test: the control-point deviations squared against the
/// tessellation tolerance times the chord length squared.
pub open spec fn bez_flat_s(
    x1: int,
    y1: int,
    x2: int,
    y2: int,
    x3: int,
    y3: int,
    x4: int,
    y4: int,
    tess_tol: int,
) -> bool {
    let dx = fx_sub_s(x4, x1);
    let dy = fx_sub_s(y4, y1);
    let d2 = bez_dev_s(fx_sub_s(x2, x4), fx_sub_s(y2, y4), dx, dy);
    let d3 = bez_dev_s(fx_sub_s(x3, x4), fx_sub_s(y3, y4), dx, dy);
    fx_mul_s(fx_add_s(d2, d3), fx_add_s(d2, d3)) < fx_mul_s(
        tess_tol,
        fx_add_s(fx_mul_s(dx, dx), fx_mul_s(dy, dy)),
    )
}

/// Mirror of `tesselate_bezier`: de Casteljau midpoint subdivision until the
/// flatness test passes or the depth cap of 10 is hit; only the endpoint of
/// a flat-enough span is recorded.
pub open spec fn tess_bezier_s(
    c: SCache,
    x1: int,
    y1: int,
    x2: int,
    y2: int,
    x3: int,
    y3: int,
    x4: int,
    y4: int,
    level: int,
    corner: bool,
    tess_tol: int,
) -> SCache
    decreases 11 - level,
{
    if level > 10 {
        c
    } else if bez_flat_s(x1, y1, x2, y2, x3, y3, x4, y4, tess_tol) {
        add_point_s(c, x4, y4, corner, tess_tol)
    } else {
        let x12 = bez_mid_s(x1, x2);
        let y12 = bez_mid_s(y1, y2);
        let x23 = bez_mid_s(x2, x3);
        let y23 = bez_mid_s(y2, y3);
        let x34 = bez_mid_s(x3, x4);
        let y34 = bez_mid_s(y3, y4);
        let x123 = bez_mid_s(x12, x23);
        let y123 = bez_mid_s(y12, y23);
        let x234 = bez_mid_s(x23, x34);
        let y234 = bez_mid_s(y23, y34);
        let x1234 = bez_mid_s(x123, x234);
        let y1234 = bez_mid_s(y123, y234);
        let c1 = tess_bezier_s(
            c,
            x1,
            y1,
            x12,
            y12,
            x123,
            y123,
            x1234,
            y1234,
            level + 1,
            false,
            tess_tol,
        );
        tess_bezier_s(c1, x1234, y1234, x234, y234, x34, y34, x4, y4, level + 1, corner, tess_tol)
    }
}

/// One command folded into the cache.
pub open spec fn flatten_one_s(c: SCache, cmd: Command, dist_tol: int, tess_tol: int) -> SCache {
    match cmd {
        Command::MoveTo(p) => add_point_s(add_path_s(c), p@.x, p@.y, true, dist_tol),
        Command::LineTo(p) => add_point_s(c, p@.x, p@.y, true, dist_tol),
        Command::BezierTo(cp1, cp2, p) => {
            if c.points.len() > 0 {
                let last = c.points.last();
                tess_bezier_s(
                    c,
                    last.x,
                    last.y,
                    cp1@.x,
                    cp1@.y,
                    cp2@.x,
                    cp2@.y,
                    p@.x,
                    p@.y,
                    0,
                    true,
                    tess_tol,
                )
            } else {
                c
            }
        },
        Command::Close => close_path_s(c),
        Command::Solidity(s) => path_solidity_s(c, s),
    }
}

/// The command list folded into the cache, from index `i` on.
pub open spec fn flatten_cmds_from_s(
    c: SCache,
    cmds: Seq<Command>,
    i: int,
    dist_tol: int,
    tess_tol: int,
) -> SCache
    decreases cmds.len() - i,
{
    if i < 0 || i >= cmds.len() {
        c
    } else {
        flatten_cmds_from_s(
            flatten_one_s(c, cmds[i], dist_tol, tess_tol),
            cmds,
            i + 1,
            dist_tol,
            tess_tol,
        )
    }
}

/// Twice the signed area of the triangle `a`, `b`, `c`, exact (no scaling).
pub open spec fn tri_area2_s(a: SVPoint, b: SVPoint, c: SVPoint) -> int {
    let abx = b.x - a.x;
    let aby = b.y - a.y;
    let acx = c.x - a.x;
    let acy = c.y - a.y;
    acx * aby - abx * acy
}

/// Twice the signed area of the subpath polygon, as a triangle fan from its
/// first point, summed from triangle `i` on; exact integer arithmetic.
pub open spec fn poly_area2_from_s(points: Seq<SVPoint>, first: int, count: int, i: int) -> int
    decreases count - i,
{
    if i >= count || i < 2 {
        0
    } else {
        tri_area2_s(points[first], points[first + i - 1], points[first + i]) + poly_area2_from_s(
            points,
            first,
            count,
            i + 1,
        )
    }
}

/// Twice the signed area of the subpath polygon.
pub open spec fn poly_area2_s(points: Seq<SVPoint>, first: int, count: int) -> int {
    poly_area2_from_s(points, first, count, 2)
}

/// The point range `[first, first+count)` reversed in place.
pub open spec fn reverse_range_s(points: Seq<SVPoint>, first: int, count: int) -> Seq<SVPoint> {
    Seq::new(
        points.len(),
        |i: int|
            if first <= i < first + count {
                points[first + count - 1 - (i - first)]
            } else {
                points[i]
            },
    )
}

/// The segment from point `i0` to point `i1` stored on `i0`: direction as a
/// unit vector, plus its length before normalization.
pub open spec fn dir_step_s(points: Seq<SVPoint>, i0: int, i1: int) -> SVPoint {
    let p0 = points[i0];
    let p1 = points[i1];
    let v = SPoint { x: fx_sub_s(p1.x, p0.x), y: fx_sub_s(p1.y, p0.y) };
    let d = pt_normalized_s(v);
    SVPoint { dx: d.x, dy: d.y, len: pt_len_s(v), ..p0 }
}

/// The wrap walk of one subpath from step `k` on: store each segment on its
/// start point and fold the position into the bounds.
pub open spec fn dirs_from_s(
    points: Seq<SVPoint>,
    first: int,
    count: int,
    k: int,
    bmin: SPoint,
    bmax: SPoint,
) -> (Seq<SVPoint>, SPoint, SPoint)
    decreases count - k,
{
    if k < 0 || k >= count {
        (points, bmin, bmax)
    } else {
        let i0 = if k == 0 {
            first + count - 1
        } else {
            first + k - 1
        };
        let i1 = if k == 0 {
            first
        } else {
            first + k
        };
        let p0 = points[i0];
        let nbmin = SPoint { x: fx_min_s(bmin.x, p0.x), y: fx_min_s(bmin.y, p0.y) };
        let nbmax = SPoint { x: fx_max_s(bmax.x, p0.x), y: fx_max_s(bmax.y, p0.y) };
        dirs_from_s(points.update(i0, dir_step_s(points, i0, i1)), first, count, k + 1, nbmin, nbmax)
    }
}

/// Mirror of the per-subpath pass after flattening: drop a last point that
/// coincides with the first (closing the subpath), reverse the point order
/// when the signed area disagrees with the declared solidity, then compute
/// directions, lengths and bounds.
pub open spec fn finish_one_path_s(c: SCache, j: int, dist_tol: int) -> SCache {
    let path = c.paths[j];
    if path.count <= 0 {
        c
    } else {
        let first = path.first;
        let lasti = first + path.count - 1;
        let closes = pt_equals_s(
            SPoint { x: c.points[lasti].x, y: c.points[lasti].y },
            SPoint { x: c.points[first].x, y: c.points[first].y },
            dist_tol,
        );
        let count1 = if closes {
            path.count - 1
        } else {
            path.count
        };
        let closed1 = if closes {
            true
        } else {
            path.closed
        };
        let pts2 = if count1 > 2 {
            let area2 = poly_area2_s(c.points, first, count1);
            if (path.solidity == Solidity::Solid && area2 < 0) || (path.solidity == Solidity::Hole
                && area2 > 0) {
                reverse_range_s(c.points, first, count1)
            } else {
                c.points
            }
        } else {
            c.points
        };
        let r = dirs_from_s(pts2, first, count1, 0, c.bmin, c.bmax);
        SCache {
            points: r.0,
            paths: c.paths.update(j, SPath { count: count1, closed: closed1, ..path }),
            verts: c.verts,
            bmin: r.1,
            bmax: r.2,
        }
    }
}

/// The finishing pass folded over the subpaths from index `j` on.
pub open spec fn finish_paths_from_s(c: SCache, j: int, dist_tol: int) -> SCache
    decreases c.paths.len() - j,
{
    if j < 0 || j >= c.paths.len() {
        c
    } else {
        finish_paths_from_s(finish_one_path_s(c, j, dist_tol), j + 1, dist_tol)
    }
}

/// Mirror of `flatten_paths`: fold the commands, reset the bounds, then
/// finish every subpath.
pub open spec fn flatten_spec_s(c: SCache, cmds: Seq<Command>, dist_tol: int, tess_tol: int) -> SCache {
    let c1 = flatten_cmds_from_s(c, cmds, 0, dist_tol, tess_tol);
    let c2 = SCache {
        bmin: SPoint { x: FX_MAX as int, y: FX_MAX as int },
        bmax: SPoint { x: -(FX_MAX as int), y: -(FX_MAX as int) },
        ..c1
    };
    finish_paths_from_s(c2, 0, dist_tol)
}

/// One point's join computation: averaged miter direction (scaled by the
/// clamped inverse of its squared length), handedness, inner-bevel and
/// bevel flags; only the corner flag survives from path building.
pub open spec fn join_point_s(
    p0: SVPoint,
    p1: SVPoint,
    iw: int,
    line_join: LineJoin,
    miter_limit: int,
) -> SVPoint {
    let dlx0 = p0.dy;
    let dly0 = sat_s(-p0.dx);
    let dlx1 = p1.dy;
    let dly1 = sat_s(-p1.dx);
    let dmx0 = fx_mul_s(fx_add_s(dlx0, dlx1), 32768);
    let dmy0 = fx_mul_s(fx_add_s(dly0, dly1), 32768);
    let dmr2 = fx_add_s(fx_mul_s(dmx0, dmx0), fx_mul_s(dmy0, dmy0));
    let scale0 = fx_div_s(FX_ONE as int, dmr2);
    let scale = if scale0 > 39321600 {
        39321600
    } else {
        scale0
    };
    let dmx = if dmr2 > 0 {
        fx_mul_s(dmx0, scale)
    } else {
        dmx0
    };
    let dmy = if dmr2 > 0 {
        fx_mul_s(dmy0, scale)
    } else {
        dmy0
    };
    let cross = fx_sub_s(fx_mul_s(p1.dx, p0.dy), fx_mul_s(p0.dx, p1.dy));
    let left = cross > 0;
    let limit = fx_max_s(fx_mul_s(fx_min_s(p0.len, p1.len), iw), 66191);
    let innerbevel = fx_mul_s(fx_mul_s(dmr2, limit), limit) < FX_ONE as int;
    let bevel = p1.corner && (fx_mul_s(fx_mul_s(dmr2, miter_limit), miter_limit) < FX_ONE as int
        || line_join == LineJoin::Bevel || line_join == LineJoin::Round);
    SVPoint { dmx, dmy, left, bevel, innerbevel, ..p1 }
}

/// The join walk of one subpath from step `k` on, carrying the left-turn
/// and bevel counters.
pub open spec fn joins_path_from_s(
    points: Seq<SVPoint>,
    first: int,
    count: int,
    k: int,
    iw: int,
    line_join: LineJoin,
    miter_limit: int,
    nleft: int,
    nbevel: int,
) -> (Seq<SVPoint>, int, int)
    decreases count - k,
{
    if k < 0 || k >= count {
        (points, nleft, nbevel)
    } else {
        let i0 = if k == 0 {
            first + count - 1
        } else {
            first + k - 1
        };
        let i1 = first + k;
        let np = join_point_s(points[i0], points[i1], iw, line_join, miter_limit);
        let nl = if np.left {
            nleft + 1
        } else {
            nleft
        };
        let nb = if np.bevel || np.innerbevel {
            nbevel + 1
        } else {
            nbevel
        };
        joins_path_from_s(
            points.update(i1, np),
            first,
            count,
            k + 1,
            iw,
            line_join,
            miter_limit,
            nl,
            nb,
        )
    }
}

/// Join computation over one subpath: updated points plus its bevel count
/// and convexity (all turns left).
pub open spec fn joins_one_path_s(
    c: SCache,
    j: int,
    iw: int,
    line_join: LineJoin,
    miter_limit: int,
) -> SCache {
    let path = c.paths[j];
    let r = joins_path_from_s(c.points, path.first, path.count, 0, iw, line_join, miter_limit, 0, 0);
    SCache {
        points: r.0,
        paths: c.paths.update(j, SPath { nbevel: r.2, convex: r.1 == path.count, ..path }),
        ..c
    }
}

/// The join pass folded over the subpaths from index `j` on.
pub open spec fn joins_from_s(c: SCache, j: int, iw: int, line_join: LineJoin, miter_limit: int) -> SCache
    decreases c.paths.len() - j,
{
    if j < 0 || j >= c.paths.len() {
        c
    } else {
        joins_from_s(joins_one_path_s(c, j, iw, line_join, miter_limit), j + 1, iw, line_join, miter_limit)
    }
}

/// Mirror of `calculate_joins`.
pub open spec fn calculate_joins_s(c: SCache, w: int, line_join: LineJoin, miter_limit: int) -> SCache {
    let iw = if w > 0 {
        fx_div_s(FX_ONE as int, w)
    } else {
        0
    };
    joins_from_s(c, 0, iw, line_join, miter_limit)
}

/// Mirror of `curve_divs`: arc subdivisions from the radius and the
/// tessellation tolerance, at least 2.
pub open spec fn curve_divs_s(r: int, arc: int, tol: int) -> int {
    let a = acos_s(fx_div_s(r, fx_add_s(r, tol)));
    let da = fx_add_s(a, a);
    let nd = fx_ceil_s(fx_max_s(fx_div_s(arc, da), 0));
    if nd < 2 {
        2
    } else {
        nd
    }
}

/// Mirror of `choose_bevel`: the two left-edge corner positions, from the
/// raw edge normals on an inner bevel, else both from the miter direction.
pub open spec fn choose_bevel_s(bevel: bool, p0: SVPoint, p1: SVPoint, w: int) -> (int, int, int, int) {
    if bevel {
        (
            fx_add_s(p1.x, fx_mul_s(p0.dy, w)),
            fx_sub_s(p1.y, fx_mul_s(p0.dx, w)),
            fx_add_s(p1.x, fx_mul_s(p1.dy, w)),
            fx_sub_s(p1.y, fx_mul_s(p1.dx, w)),
        )
    } else {
        (
            fx_add_s(p1.x, fx_mul_s(p1.dmx, w)),
            fx_add_s(p1.y, fx_mul_s(p1.dmy, w)),
            fx_add_s(p1.x, fx_mul_s(p1.dmx, w)),
            fx_add_s(p1.y, fx_mul_s(p1.dmy, w)),
        )
    }
}

/// Arc subdivisions for a radius `r` over `arc` radians.
fn curve_divs(r: i64, arc: i64, tol: i64) -> (nd: usize)
    ensures
        nd as int == curve_divs_s(r as int, arc as int, tol as int),
        2 <= nd <= 0x100_0001,
{
    let a = crate::trig::fx_acos(fx_div(r, fx_add(r, tol)));
    let da = fx_add(a, a);
    let nd0 = fx_max(fx_div(arc, da), 0);
    let c = crate::fixed::fx_ceil_usize(nd0);
    if c < 2 {
        2
    } else {
        c
    }
}

/// The left-edge corner pair of a join.
fn choose_bevel(bevel: bool, p0: &VPoint, p1: &VPoint, w: i64) -> (r: (i64, i64, i64, i64))
    ensures
        (r.0 as int, r.1 as int, r.2 as int, r.3 as int) == choose_bevel_s(bevel, p0@, p1@, w as int),
{
    if bevel {
        (
            fx_add(p1.xy.x, fx_mul(p0.d.y, w)),
            fx_sub(p1.xy.y, fx_mul(p0.d.x, w)),
            fx_add(p1.xy.x, fx_mul(p1.d.y, w)),
            fx_sub(p1.xy.y, fx_mul(p1.d.x, w)),
        )
    } else {
        (
            fx_add(p1.xy.x, fx_mul(p1.dm.x, w)),
            fx_add(p1.xy.y, fx_mul(p1.dm.y, w)),
            fx_add(p1.xy.x, fx_mul(p1.dm.x, w)),
            fx_add(p1.xy.y, fx_mul(p1.dm.y, w)),
        )
    }
}

/// Spec constructor for an output vertex.
pub open spec fn svert(x: int, y: int, u: int, v: int) -> SVertex {
    SVertex { x, y, u, v }
}

/// View of a vertex buffer as its spec model.
pub open spec fn verts_view(v: Seq<Vertex>) -> Seq<SVertex> {
    v.map_values(|x: Vertex| x@)
}

/// `base + d * w`, the outward offset every emitter uses.
pub open spec fn off_s(base: int, d: int, w: int) -> int {
    fx_add_s(base, fx_mul_s(d, w))
}

/// `base - d * w`.
pub open spec fn offn_s(base: int, d: int, w: int) -> int {
    fx_sub_s(base, fx_mul_s(d, w))
}

/// Mirror of `butt_cap_start`: four vertices, the first pair pulled back by
/// `d` and faded out, the second pair on the solid edge.
pub open spec fn butt_cap_start_s(
    p: SVPoint,
    dx: int,
    dy: int,
    w: int,
    d: int,
    aa: int,
    u0: int,
    u1: int,
) -> Seq<SVertex> {
    let px = offn_s(p.x, dx, d);
    let py = offn_s(p.y, dy, d);
    let dlx = dy;
    let dly = sat_s(-dx);
    seq![
        svert(offn_s(off_s(px, dlx, w), dx, aa), offn_s(off_s(py, dly, w), dy, aa), u0, 0),
        svert(offn_s(offn_s(px, dlx, w), dx, aa), offn_s(offn_s(py, dly, w), dy, aa), u1, 0),
        svert(off_s(px, dlx, w), off_s(py, dly, w), u0, FX_ONE as int),
        svert(offn_s(px, dlx, w), offn_s(py, dly, w), u1, FX_ONE as int),
    ]
}

/// Mirror of `butt_cap_end`: the solid pair first, then the faded pair
/// pushed forward by `aa`.
pub open spec fn butt_cap_end_s(
    p: SVPoint,
    dx: int,
    dy: int,
    w: int,
    d: int,
    aa: int,
    u0: int,
    u1: int,
) -> Seq<SVertex> {
    let px = offn_s(p.x, dx, d);
    let py = offn_s(p.y, dy, d);
    let dlx = dy;
    let dly = sat_s(-dx);
    seq![
        svert(off_s(px, dlx, w), off_s(py, dly, w), u0, FX_ONE as int),
        svert(offn_s(px, dlx, w), offn_s(py, dly, w), u1, FX_ONE as int),
        svert(off_s(off_s(px, dlx, w), dx, aa), off_s(off_s(py, dly, w), dy, aa), u0, 0),
        svert(off_s(offn_s(px, dlx, w), dx, aa), off_s(offn_s(py, dly, w), dy, aa), u1, 0),
    ]
}

/// The fan of a starting round cap, from step `i` on.
pub open spec fn round_cap_start_fan_s(
    px: int,
    py: int,
    dlx: int,
    dly: int,
    dx: int,
    dy: int,
    w: int,
    ncap: int,
    u0: int,
    i: int,
) -> Seq<SVertex>
    decreases ncap - i,
{
    if i < 0 || i >= ncap {
        Seq::empty()
    } else {
        let a = fx_mul_s(fx_div_s(sat_s(i * 65536), sat_s((ncap - 1) * 65536)), crate::trig::PI_FX as int);
        let ax = fx_mul_s(cos_s(a), w);
        let ay = fx_mul_s(sin_s(a), w);
        seq![
            svert(offn_s(offn_s(px, dlx, ax), dx, ay), offn_s(offn_s(py, dly, ax), dy, ay), u0, FX_ONE as int),
            svert(px, py, 32768, FX_ONE as int),
        ] + round_cap_start_fan_s(px, py, dlx, dly, dx, dy, w, ncap, u0, i + 1)
    }
}

/// Mirror of `round_cap_start`: `ncap` fan pairs then the flat edge pair,
/// `2 * ncap + 2` vertices in all.
pub open spec fn round_cap_start_s(
    p: SVPoint,
    dx: int,
    dy: int,
    w: int,
    ncap: int,
    u0: int,
    u1: int,
) -> Seq<SVertex> {
    let px = p.x;
    let py = p.y;
    let dlx = dy;
    let dly = sat_s(-dx);
    round_cap_start_fan_s(px, py, dlx, dly, dx, dy, w, ncap, u0, 0) + seq![
        svert(off_s(px, dlx, w), off_s(py, dly, w), u0, FX_ONE as int),
        svert(offn_s(px, dlx, w), offn_s(py, dly, w), u1, FX_ONE as int),
    ]
}

/// The fan of an ending round cap, from step `i` on.
pub open spec fn round_cap_end_fan_s(
    px: int,
    py: int,
    dlx: int,
    dly: int,
    dx: int,
    dy: int,
    w: int,
    ncap: int,
    u0: int,
    i: int,
) -> Seq<SVertex>
    decreases ncap - i,
{
    if i < 0 || i >= ncap {
        Seq::empty()
    } else {
        let a = fx_mul_s(fx_div_s(sat_s(i * 65536), sat_s((ncap - 1) * 65536)), crate::trig::PI_FX as int);
        let ax = fx_mul_s(cos_s(a), w);
        let ay = fx_mul_s(sin_s(a), w);
        seq![
            svert(px, py, 32768, FX_ONE as int),
            svert(off_s(offn_s(px, dlx, ax), dx, ay), off_s(offn_s(py, dly, ax), dy, ay), u0, FX_ONE as int),
        ] + round_cap_end_fan_s(px, py, dlx, dly, dx, dy, w, ncap, u0, i + 1)
    }
}

/// Mirror of `round_cap_end`: the flat edge pair then `ncap` fan pairs.
pub open spec fn round_cap_end_s(
    p: SVPoint,
    dx: int,
    dy: int,
    w: int,
    ncap: int,
    u0: int,
    u1: int,
) -> Seq<SVertex> {
    let px = p.x;
    let py = p.y;
    let dlx = dy;
    let dly = sat_s(-dx);
    seq![
        svert(off_s(px, dlx, w), off_s(py, dly, w), u0, FX_ONE as int),
        svert(offn_s(px, dlx, w), offn_s(py, dly, w), u1, FX_ONE as int),
    ] + round_cap_end_fan_s(px, py, dlx, dly, dx, dy, w, ncap, u0, 0)
}

/// The arc-count of a round join: the turn angle over pi, scaled by `ncap`
/// and clamped into `[2, ncap]`.
pub open spec fn round_join_n_s(a0: int, a1: int, ncap: int) -> int {
    let t = fx_mul_s(fx_div_s(fx_sub_s(a0, a1), crate::trig::PI_FX as int), sat_s(ncap * 65536));
    let n0 = fx_ceil_s(fx_max_s(t, 0));
    if n0 < 2 {
        2
    } else if n0 > ncap {
        ncap
    } else {
        n0
    }
}

/// The left-turn fan of a round join, from step `i` on.
pub open spec fn round_join_left_fan_s(
    p1x: int,
    p1y: int,
    a0: int,
    a1: int,
    rw: int,
    ru: int,
    n: int,
    i: int,
) -> Seq<SVertex>
    decreases n - i,
{
    if i < 0 || i >= n {
        Seq::empty()
    } else {
        let u = fx_div_s(sat_s(i * 65536), sat_s((n - 1) * 65536));
        let a = fx_add_s(a0, fx_mul_s(u, fx_sub_s(a1, a0)));
        let rx = off_s(p1x, cos_s(a), rw);
        let ry = off_s(p1y, sin_s(a), rw);
        seq![
            svert(p1x, p1y, 32768, FX_ONE as int),
            svert(rx, ry, ru, FX_ONE as int),
        ] + round_join_left_fan_s(p1x, p1y, a0, a1, rw, ru, n, i + 1)
    }
}

/// The right-turn fan of a round join, from step `i` on. Both
/// coordinates take the cosine, matching the reference tessellation
/// algorithm's right-turn fan.
pub open spec fn round_join_right_fan_s(
    p1x: int,
    p1y: int,
    a0: int,
    a1: int,
    lw: int,
    lu: int,
    n: int,
    i: int,
) -> Seq<SVertex>
    decreases n - i,
{
    if i < 0 || i >= n {
        Seq::empty()
    } else {
        let u = fx_div_s(sat_s(i * 65536), sat_s((n - 1) * 65536));
        let a = fx_add_s(a0, fx_mul_s(u, fx_sub_s(a1, a0)));
        let lx = off_s(p1x, cos_s(a), lw);
        let ly = off_s(p1y, cos_s(a), lw);
        seq![
            svert(lx, ly, lu, FX_ONE as int),
            svert(p1x, p1y, 32768, FX_ONE as int),
        ] + round_join_right_fan_s(p1x, p1y, a0, a1, lw, lu, n, i + 1)
    }
}

/// Mirror of `round_join`.
pub open spec fn round_join_s(
    p0: SVPoint,
    p1: SVPoint,
    lw: int,
    rw: int,
    lu: int,
    ru: int,
    ncap: int,
) -> Seq<SVertex> {
    let dlx0 = p0.dy;
    let dly0 = sat_s(-p0.dx);
    let dlx1 = p1.dy;
    let dly1 = sat_s(-p1.dx);
    if p1.left {
        let b = choose_bevel_s(p1.innerbevel, p0, p1, lw);
        let a0 = atan2_s(sat_s(-dly0), sat_s(-dlx0));
        let a1r = atan2_s(sat_s(-dly1), sat_s(-dlx1));
        let a1 = if a1r > a0 {
            fx_sub_s(a1r, crate::trig::TWO_PI_FX as int)
        } else {
            a1r
        };
        let n = round_join_n_s(a0, a1, ncap);
        seq![
            svert(b.0, b.1, lu, FX_ONE as int),
            svert(offn_s(p1.x, dlx0, rw), offn_s(p1.y, dly0, rw), ru, FX_ONE as int),
        ] + round_join_left_fan_s(p1.x, p1.y, a0, a1, rw, ru, n, 0) + seq![
            svert(b.2, b.3, lu, FX_ONE as int),
            svert(offn_s(p1.x, dlx1, rw), offn_s(p1.y, dly1, rw), ru, FX_ONE as int),
        ]
    } else {
        let b = choose_bevel_s(p1.innerbevel, p0, p1, sat_s(-rw));
        let a0 = atan2_s(dly0, dlx0);
        let a1r = atan2_s(dly1, dlx1);
        let a1 = if a1r < a0 {
            fx_add_s(a1r, crate::trig::TWO_PI_FX as int)
        } else {
            a1r
        };
        let n = round_join_n_s(a0, a1, ncap);
        seq![
            svert(off_s(p1.x, dlx0, rw), off_s(p1.y, dly0, rw), lu, FX_ONE as int),
            svert(b.0, b.1, ru, FX_ONE as int),
        ] + round_join_right_fan_s(p1.x, p1.y, a0, a1, lw, lu, n, 0) + seq![
            svert(off_s(p1.x, dlx1, rw), off_s(p1.y, dly1, rw), lu, FX_ONE as int),
            svert(b.2, b.3, ru, FX_ONE as int),
        ]
    }
}

/// Mirror of `bevel_join`.
pub open spec fn bevel_join_s(
    p0: SVPoint,
    p1: SVPoint,
    lw: int,
    rw: int,
    lu: int,
    ru: int,
) -> Seq<SVertex> {
    let dlx0 = p0.dy;
    let dly0 = sat_s(-p0.dx);
    let dlx1 = p1.dy;
    let dly1 = sat_s(-p1.dx);
    let one = FX_ONE as int;
    if p1.left {
        let b = choose_bevel_s(p1.innerbevel, p0, p1, lw);
        let head = seq![
            svert(b.0, b.1, lu, one),
            svert(offn_s(p1.x, dlx0, rw), offn_s(p1.y, dly0, rw), ru, one),
        ];
        let mid = if p1.bevel {
            seq![
                svert(b.0, b.1, lu, one),
                svert(offn_s(p1.x, dlx0, rw), offn_s(p1.y, dly0, rw), ru, one),
                svert(b.2, b.3, lu, one),
                svert(offn_s(p1.x, dlx1, rw), offn_s(p1.y, dly1, rw), ru, one),
            ]
        } else {
            let rx0 = offn_s(p1.x, p1.dmx, rw);
            let ry0 = offn_s(p1.y, p1.dmy, rw);
            seq![
                svert(p1.x, p1.y, 32768, one),
                svert(offn_s(p1.x, dlx0, rw), offn_s(p1.y, dly0, rw), ru, one),
                svert(rx0, ry0, ru, one),
                svert(rx0, ry0, ru, one),
                svert(p1.x, p1.y, 32768, one),
                svert(offn_s(p1.x, dlx1, rw), offn_s(p1.y, dly1, rw), ru, one),
            ]
        };
        let tail = seq![
            svert(b.2, b.3, lu, one),
            svert(offn_s(p1.x, dlx1, rw), offn_s(p1.y, dly1, rw), ru, one),
        ];
        head + mid + tail
    } else {
        let b = choose_bevel_s(p1.innerbevel, p0, p1, sat_s(-rw));
        let head = seq![
            svert(off_s(p1.x, dlx0, lw), off_s(p1.y, dly0, lw), lu, one),
            svert(b.0, b.1, ru, one),
        ];
        let mid = if p1.bevel {
            seq![
                svert(off_s(p1.x, dlx0, lw), off_s(p1.y, dly0, lw), lu, one),
                svert(b.0, b.1, ru, one),
                svert(off_s(p1.x, dlx1, lw), off_s(p1.y, dly1, lw), lu, one),
                svert(b.2, b.3, ru, one),
            ]
        } else {
            let lx0 = off_s(p1.x, p1.dmx, lw);
            let ly0 = off_s(p1.y, p1.dmy, lw);
            seq![
                svert(off_s(p1.x, dlx0, lw), off_s(p1.y, dly0, lw), lu, one),
                svert(p1.x, p1.y, 32768, one),
                svert(lx0, ly0, lu, one),
                svert(lx0, ly0, lu, one),
                svert(off_s(p1.x, dlx1, lw), off_s(p1.y, dly1, lw), lu, one),
                svert(p1.x, p1.y, 32768, one),
            ]
        };
        let tail = seq![
            svert(off_s(p1.x, dlx1, lw), off_s(p1.y, dly1, lw), lu, one),
            svert(b.2, b.3, ru, one),
        ];
        head + mid + tail
    }
}

fn push_vert(dst: &mut Vec<Vertex>, x: i64, y: i64, u: i64, v: i64)
    ensures
        verts_view(final(dst)@) == verts_view(old(dst)@).push(
            svert(x as int, y as int, u as int, v as int),
        ),
{
    dst.push(Vertex { x, y, u, v });
    proof {
        assert(verts_view(dst@) =~= verts_view(old(dst)@).push(
            svert(x as int, y as int, u as int, v as int),
        ));
    }
}

/// Start cap with a flat end: also used for square caps via the inset `d`.
/// Relies only on the library's own arithmetic.
fn butt_cap_start(
    dst: &mut Vec<Vertex>,
    p: &VPoint,
    dx: i64,
    dy: i64,
    w: i64,
    d: i64,
    aa: i64,
    u0: i64,
    u1: i64,
)
    ensures
        verts_view(final(dst)@) == verts_view(old(dst)@) + butt_cap_start_s(
            p@,
            dx as int,
            dy as int,
            w as int,
            d as int,
            aa as int,
            u0 as int,
            u1 as int,
        ),
{
    let px = fx_sub(p.xy.x, fx_mul(dx, d));
    let py = fx_sub(p.xy.y, fx_mul(dy, d));
    let dlx = dy;
    let dly = fx_neg(dx);
    push_vert(
        dst,
        fx_sub(fx_add(px, fx_mul(dlx, w)), fx_mul(dx, aa)),
        fx_sub(fx_add(py, fx_mul(dly, w)), fx_mul(dy, aa)),
        u0,
        0,
    );
    push_vert(
        dst,
        fx_sub(fx_sub(px, fx_mul(dlx, w)), fx_mul(dx, aa)),
        fx_sub(fx_sub(py, fx_mul(dly, w)), fx_mul(dy, aa)),
        u1,
        0,
    );
    push_vert(dst, fx_add(px, fx_mul(dlx, w)), fx_add(py, fx_mul(dly, w)), u0, FX_ONE);
    push_vert(dst, fx_sub(px, fx_mul(dlx, w)), fx_sub(py, fx_mul(dly, w)), u1, FX_ONE);
    proof {
        assert(verts_view(dst@) =~= verts_view(old(dst)@) + butt_cap_start_s(
            p@,
            dx as int,
            dy as int,
            w as int,
            d as int,
            aa as int,
            u0 as int,
            u1 as int,
        ));
    }
}

/// End cap with a flat edge, faded forward by `aa`.
fn butt_cap_end(
    dst: &mut Vec<Vertex>,
    p: &VPoint,
    dx: i64,
    dy: i64,
    w: i64,
    d: i64,
    aa: i64,
    u0: i64,
    u1: i64,
)
    ensures
        verts_view(final(dst)@) == verts_view(old(dst)@) + butt_cap_end_s(
            p@,
            dx as int,
            dy as int,
            w as int,
            d as int,
            aa as int,
            u0 as int,
            u1 as int,
        ),
{
    let px = fx_sub(p.xy.x, fx_mul(dx, d));
    let py = fx_sub(p.xy.y, fx_mul(dy, d));
    let dlx = dy;
    let dly = fx_neg(dx);
    push_vert(dst, fx_add(px, fx_mul(dlx, w)), fx_add(py, fx_mul(dly, w)), u0, FX_ONE);
    push_vert(dst, fx_sub(px, fx_mul(dlx, w)), fx_sub(py, fx_mul(dly, w)), u1, FX_ONE);
    push_vert(
        dst,
        fx_add(fx_add(px, fx_mul(dlx, w)), fx_mul(dx, aa)),
        fx_add(fx_add(py, fx_mul(dly, w)), fx_mul(dy, aa)),
        u0,
        0,
    );
    push_vert(
        dst,
        fx_add(fx_sub(px, fx_mul(dlx, w)), fx_mul(dx, aa)),
        fx_add(fx_sub(py, fx_mul(dly, w)), fx_mul(dy, aa)),
        u1,
        0,
    );
    proof {
        assert(verts_view(dst@) =~= verts_view(old(dst)@) + butt_cap_end_s(
            p@,
            dx as int,
            dy as int,
            w as int,
            d as int,
            aa as int,
            u0 as int,
            u1 as int,
        ));
    }
}

/// Round start cap: `ncap` fan pairs then the flat edge pair. Positions
/// come from the fixed-point sine/cosine approximations.
fn round_cap_start(
    dst: &mut Vec<Vertex>,
    p: &VPoint,
    dx: i64,
    dy: i64,
    w: i64,
    ncap: usize,
    u0: i64,
    u1: i64,
)
    requires
        2 <= ncap <= 0x100_0001,
    ensures
        verts_view(final(dst)@) == verts_view(old(dst)@) + round_cap_start_s(
            p@,
            dx as int,
            dy as int,
            w as int,
            ncap as int,
            u0 as int,
            u1 as int,
        ),
{
    let px = p.xy.x;
    let py = p.xy.y;
    let dlx = dy;
    let dly = fx_neg(dx);
    let mut i: usize = 0;
    while i < ncap
        invariant
            i <= ncap,
            2 <= ncap <= 0x100_0001,
            dlx == dy,
            dly as int == sat_s(-(dx as int)),
            verts_view(dst@) + round_cap_start_fan_s(
                px as int,
                py as int,
                dlx as int,
                dly as int,
                dx as int,
                dy as int,
                w as int,
                ncap as int,
                u0 as int,
                i as int,
            ) == verts_view(old(dst)@) + round_cap_start_fan_s(
                px as int,
                py as int,
                dlx as int,
                dly as int,
                dx as int,
                dy as int,
                w as int,
                ncap as int,
                u0 as int,
                0,
            ),
        decreases ncap - i,
    {
        let ghost pre = verts_view(dst@);
        let a = fx_mul(
            fx_div(crate::fixed::fx_of_int(i as i64), crate::fixed::fx_of_int((ncap - 1) as i64)),
            crate::trig::PI_FX,
        );
        let ax = fx_mul(crate::trig::fx_cos(a), w);
        let ay = fx_mul(crate::trig::fx_sin(a), w);
        let v1x = fx_sub(fx_sub(px, fx_mul(dlx, ax)), fx_mul(dx, ay));
        let v1y = fx_sub(fx_sub(py, fx_mul(dly, ax)), fx_mul(dy, ay));
        push_vert(dst, v1x, v1y, u0, FX_ONE);
        push_vert(dst, px, py, 32768, FX_ONE);
        proof {
            let fan_i = round_cap_start_fan_s(
                px as int,
                py as int,
                dlx as int,
                dly as int,
                dx as int,
                dy as int,
                w as int,
                ncap as int,
                u0 as int,
                i as int,
            );
            let fan_i1 = round_cap_start_fan_s(
                px as int,
                py as int,
                dlx as int,
                dly as int,
                dx as int,
                dy as int,
                w as int,
                ncap as int,
                u0 as int,
                i as int + 1,
            );
            let v1 = svert(v1x as int, v1y as int, u0 as int, FX_ONE as int);
            let v2 = svert(px as int, py as int, 32768, FX_ONE as int);
            assert(fan_i =~= seq![v1, v2] + fan_i1);
            assert(verts_view(dst@) =~= pre + seq![v1, v2]);
            assert(verts_view(dst@) + fan_i1 =~= pre + fan_i);
        }
        i = i + 1;
    }
    push_vert(dst, fx_add(px, fx_mul(dlx, w)), fx_add(py, fx_mul(dly, w)), u0, FX_ONE);
    push_vert(dst, fx_sub(px, fx_mul(dlx, w)), fx_sub(py, fx_mul(dly, w)), u1, FX_ONE);
    proof {
        assert(verts_view(dst@) =~= verts_view(old(dst)@) + round_cap_start_s(
            p@,
            dx as int,
            dy as int,
            w as int,
            ncap as int,
            u0 as int,
            u1 as int,
        ));
    }
}

/// Round end cap: the flat edge pair then `ncap` fan pairs.
fn round_cap_end(
    dst: &mut Vec<Vertex>,
    p: &VPoint,
    dx: i64,
    dy: i64,
    w: i64,
    ncap: usize,
    u0: i64,
    u1: i64,
)
    requires
        2 <= ncap <= 0x100_0001,
    ensures
        verts_view(final(dst)@) == verts_view(old(dst)@) + round_cap_end_s(
            p@,
            dx as int,
            dy as int,
            w as int,
            ncap as int,
            u0 as int,
            u1 as int,
        ),
{
    let px = p.xy.x;
    let py = p.xy.y;
    let dlx = dy;
    let dly = fx_neg(dx);
    push_vert(dst, fx_add(px, fx_mul(dlx, w)), fx_add(py, fx_mul(dly, w)), u0, FX_ONE);
    push_vert(dst, fx_sub(px, fx_mul(dlx, w)), fx_sub(py, fx_mul(dly, w)), u1, FX_ONE);
    let ghost head_done = verts_view(dst@);
    let mut i: usize = 0;
    while i < ncap
        invariant
            i <= ncap,
            2 <= ncap <= 0x100_0001,
            dlx == dy,
            dly as int == sat_s(-(dx as int)),
            verts_view(dst@) + round_cap_end_fan_s(
                px as int,
                py as int,
                dlx as int,
                dly as int,
                dx as int,
                dy as int,
                w as int,
                ncap as int,
                u0 as int,
                i as int,
            ) == head_done + round_cap_end_fan_s(
                px as int,
                py as int,
                dlx as int,
                dly as int,
                dx as int,
                dy as int,
                w as int,
                ncap as int,
                u0 as int,
                0,
            ),
        decreases ncap - i,
    {
        let ghost pre = verts_view(dst@);
        let a = fx_mul(
            fx_div(crate::fixed::fx_of_int(i as i64), crate::fixed::fx_of_int((ncap - 1) as i64)),
            crate::trig::PI_FX,
        );
        let ax = fx_mul(crate::trig::fx_cos(a), w);
        let ay = fx_mul(crate::trig::fx_sin(a), w);
        let v2x = fx_add(fx_sub(px, fx_mul(dlx, ax)), fx_mul(dx, ay));
        let v2y = fx_add(fx_sub(py, fx_mul(dly, ax)), fx_mul(dy, ay));
        push_vert(dst, px, py, 32768, FX_ONE);
        push_vert(dst, v2x, v2y, u0, FX_ONE);
        proof {
            let fan_i = round_cap_end_fan_s(
                px as int,
                py as int,
                dlx as int,
                dly as int,
                dx as int,
                dy as int,
                w as int,
                ncap as int,
                u0 as int,
                i as int,
            );
            let fan_i1 = round_cap_end_fan_s(
                px as int,
                py as int,
                dlx as int,
                dly as int,
                dx as int,
                dy as int,
                w as int,
                ncap as int,
                u0 as int,
                i as int + 1,
            );
            let v1 = svert(px as int, py as int, 32768, FX_ONE as int);
            let v2 = svert(v2x as int, v2y as int, u0 as int, FX_ONE as int);
            assert(fan_i =~= seq![v1, v2] + fan_i1);
            assert(verts_view(dst@) =~= pre + seq![v1, v2]);
            assert(verts_view(dst@) + fan_i1 =~= pre + fan_i);
        }
        i = i + 1;
    }
    proof {
        assert(verts_view(dst@) =~= verts_view(old(dst)@) + round_cap_end_s(
            p@,
            dx as int,
            dy as int,
            w as int,
            ncap as int,
            u0 as int,
            u1 as int,
        ));
    }
}

/// Round join: an arc fan between the two edge normals; handedness picks
/// the side. The right-turn branch uses the cosine for both coordinates,
/// exactly as the reference tessellator does.
#[verifier::rlimit(100)]
fn round_join(
    dst: &mut Vec<Vertex>,
    p0: &VPoint,
    p1: &VPoint,
    lw: i64,
    rw: i64,
    lu: i64,
    ru: i64,
    ncap: usize,
)
    requires
        2 <= ncap <= 0x100_0001,
    ensures
        verts_view(final(dst)@) == verts_view(old(dst)@) + round_join_s(
            p0@,
            p1@,
            lw as int,
            rw as int,
            lu as int,
            ru as int,
            ncap as int,
        ),
{
    let dlx0 = p0.d.y;
    let dly0 = fx_neg(p0.d.x);
    let dlx1 = p1.d.y;
    let dly1 = fx_neg(p1.d.x);
    if p1.flags.left {
        let b = choose_bevel(p1.flags.innerbevel, p0, p1, lw);
        let a0 = crate::trig::fx_atan2(fx_neg(dly0), fx_neg(dlx0));
        let a1r = crate::trig::fx_atan2(fx_neg(dly1), fx_neg(dlx1));
        let a1 = if a1r > a0 {
            fx_sub(a1r, crate::trig::TWO_PI_FX)
        } else {
            a1r
        };
        push_vert(dst, b.0, b.1, lu, FX_ONE);
        push_vert(dst, fx_sub(p1.xy.x, fx_mul(dlx0, rw)), fx_sub(p1.xy.y, fx_mul(dly0, rw)), ru, FX_ONE);
        let ghost head_done = verts_view(dst@);
        let t = fx_mul(fx_div(fx_sub(a0, a1), crate::trig::PI_FX), crate::fixed::fx_of_int(ncap as i64));
        let n0 = crate::fixed::fx_ceil_usize(fx_max(t, 0));
        let n = if n0 < 2 {
            2
        } else if n0 > ncap {
            ncap
        } else {
            n0
        };
        proof {
            assert(n as int == round_join_n_s(a0 as int, a1 as int, ncap as int));
        }
        let mut i: usize = 0;
        while i < n
            invariant
                i <= n,
                2 <= n <= 0x100_0001,
                verts_view(dst@) + round_join_left_fan_s(
                    p1@.x,
                    p1@.y,
                    a0 as int,
                    a1 as int,
                    rw as int,
                    ru as int,
                    n as int,
                    i as int,
                ) == head_done + round_join_left_fan_s(
                    p1@.x,
                    p1@.y,
                    a0 as int,
                    a1 as int,
                    rw as int,
                    ru as int,
                    n as int,
                    0,
                ),
            decreases n - i,
        {
            let ghost pre = verts_view(dst@);
            let u = fx_div(crate::fixed::fx_of_int(i as i64), crate::fixed::fx_of_int((n - 1) as i64));
            let a = fx_add(a0, fx_mul(u, fx_sub(a1, a0)));
            let rx = fx_add(p1.xy.x, fx_mul(crate::trig::fx_cos(a), rw));
            let ry = fx_add(p1.xy.y, fx_mul(crate::trig::fx_sin(a), rw));
            push_vert(dst, p1.xy.x, p1.xy.y, 32768, FX_ONE);
            push_vert(dst, rx, ry, ru, FX_ONE);
            proof {
                let fan_i = round_join_left_fan_s(
                    p1@.x,
                    p1@.y,
                    a0 as int,
                    a1 as int,
                    rw as int,
                    ru as int,
                    n as int,
                    i as int,
                );
                let fan_i1 = round_join_left_fan_s(
                    p1@.x,
                    p1@.y,
                    a0 as int,
                    a1 as int,
                    rw as int,
                    ru as int,
                    n as int,
                    i as int + 1,
                );
                let v1 = svert(p1@.x, p1@.y, 32768, FX_ONE as int);
                let v2 = svert(rx as int, ry as int, ru as int, FX_ONE as int);
                assert(fan_i =~= seq![v1, v2] + fan_i1);
                assert(verts_view(dst@) =~= pre + seq![v1, v2]);
                assert(verts_view(dst@) + fan_i1 =~= pre + fan_i);
            }
            i = i + 1;
        }
        push_vert(dst, b.2, b.3, lu, FX_ONE);
        push_vert(dst, fx_sub(p1.xy.x, fx_mul(dlx1, rw)), fx_sub(p1.xy.y, fx_mul(dly1, rw)), ru, FX_ONE);
        proof {
            assert(verts_view(dst@) =~= verts_view(old(dst)@) + round_join_s(
                p0@,
                p1@,
                lw as int,
                rw as int,
                lu as int,
                ru as int,
                ncap as int,
            ));
        }
    } else {
        let b = choose_bevel(p1.flags.innerbevel, p0, p1, fx_neg(rw));
        let a0 = crate::trig::fx_atan2(dly0, dlx0);
        let a1r = crate::trig::fx_atan2(dly1, dlx1);
        let a1 = if a1r < a0 {
            fx_add(a1r, crate::trig::TWO_PI_FX)
        } else {
            a1r
        };
        push_vert(dst, fx_add(p1.xy.x, fx_mul(dlx0, rw)), fx_add(p1.xy.y, fx_mul(dly0, rw)), lu, FX_ONE);
        push_vert(dst, b.0, b.1, ru, FX_ONE);
        let ghost head_done = verts_view(dst@);
        let t = fx_mul(fx_div(fx_sub(a0, a1), crate::trig::PI_FX), crate::fixed::fx_of_int(ncap as i64));
        let n0 = crate::fixed::fx_ceil_usize(fx_max(t, 0));
        let n = if n0 < 2 {
            2
        } else if n0 > ncap {
            ncap
        } else {
            n0
        };
        proof {
            assert(n as int == round_join_n_s(a0 as int, a1 as int, ncap as int));
        }
        let mut i: usize = 0;
        while i < n
            invariant
                i <= n,
                2 <= n <= 0x100_0001,
                verts_view(dst@) + round_join_right_fan_s(
                    p1@.x,
                    p1@.y,
                    a0 as int,
                    a1 as int,
                    lw as int,
                    lu as int,
                    n as int,
                    i as int,
                ) == head_done + round_join_right_fan_s(
                    p1@.x,
                    p1@.y,
                    a0 as int,
                    a1 as int,
                    lw as int,
                    lu as int,
                    n as int,
                    0,
                ),
            decreases n - i,
        {
            let ghost pre = verts_view(dst@);
            let u = fx_div(crate::fixed::fx_of_int(i as i64), crate::fixed::fx_of_int((n - 1) as i64));
            let a = fx_add(a0, fx_mul(u, fx_sub(a1, a0)));
            let lx = fx_add(p1.xy.x, fx_mul(crate::trig::fx_cos(a), lw));
            let ly = fx_add(p1.xy.y, fx_mul(crate::trig::fx_cos(a), lw));
            push_vert(dst, lx, ly, lu, FX_ONE);
            push_vert(dst, p1.xy.x, p1.xy.y, 32768, FX_ONE);
            proof {
                let fan_i = round_join_right_fan_s(
                    p1@.x,
                    p1@.y,
                    a0 as int,
                    a1 as int,
                    lw as int,
                    lu as int,
                    n as int,
                    i as int,
                );
                let fan_i1 = round_join_right_fan_s(
                    p1@.x,
                    p1@.y,
                    a0 as int,
                    a1 as int,
                    lw as int,
                    lu as int,
                    n as int,
                    i as int + 1,
                );
                let v1 = svert(lx as int, ly as int, lu as int, FX_ONE as int);
                let v2 = svert(p1@.x, p1@.y, 32768, FX_ONE as int);
                assert(fan_i =~= seq![v1, v2] + fan_i1);
                assert(verts_view(dst@) =~= pre + seq![v1, v2]);
                assert(verts_view(dst@) + fan_i1 =~= pre + fan_i);
            }
            i = i + 1;
        }
        push_vert(dst, fx_add(p1.xy.x, fx_mul(dlx1, rw)), fx_add(p1.xy.y, fx_mul(dly1, rw)), lu, FX_ONE);
        push_vert(dst, b.2, b.3, ru, FX_ONE);
        proof {
            assert(verts_view(dst@) =~= verts_view(old(dst)@) + round_join_s(
                p0@,
                p1@,
                lw as int,
                rw as int,
                lu as int,
                ru as int,
                ncap as int,
            ));
        }
    }
}

/// Bevel or miter-fallback join: quad plus triangle geometry picked by
/// handedness and the bevel flags.
#[verifier::rlimit(100)]
fn bevel_join(dst: &mut Vec<Vertex>, p0: &VPoint, p1: &VPoint, lw: i64, rw: i64, lu: i64, ru: i64)
    ensures
        verts_view(final(dst)@) == verts_view(old(dst)@) + bevel_join_s(
            p0@,
            p1@,
            lw as int,
            rw as int,
            lu as int,
            ru as int,
        ),
{
    let dlx0 = p0.d.y;
    let dly0 = fx_neg(p0.d.x);
    let dlx1 = p1.d.y;
    let dly1 = fx_neg(p1.d.x);
    if p1.flags.left {
        let b = choose_bevel(p1.flags.innerbevel, p0, p1, lw);
        push_vert(dst, b.0, b.1, lu, FX_ONE);
        push_vert(dst, fx_sub(p1.xy.x, fx_mul(dlx0, rw)), fx_sub(p1.xy.y, fx_mul(dly0, rw)), ru, FX_ONE);
        if p1.flags.bevel {
            push_vert(dst, b.0, b.1, lu, FX_ONE);
            push_vert(dst, fx_sub(p1.xy.x, fx_mul(dlx0, rw)), fx_sub(p1.xy.y, fx_mul(dly0, rw)), ru, FX_ONE);
            push_vert(dst, b.2, b.3, lu, FX_ONE);
            push_vert(dst, fx_sub(p1.xy.x, fx_mul(dlx1, rw)), fx_sub(p1.xy.y, fx_mul(dly1, rw)), ru, FX_ONE);
        } else {
            let rx0 = fx_sub(p1.xy.x, fx_mul(p1.dm.x, rw));
            let ry0 = fx_sub(p1.xy.y, fx_mul(p1.dm.y, rw));
            push_vert(dst, p1.xy.x, p1.xy.y, 32768, FX_ONE);
            push_vert(dst, fx_sub(p1.xy.x, fx_mul(dlx0, rw)), fx_sub(p1.xy.y, fx_mul(dly0, rw)), ru, FX_ONE);
            push_vert(dst, rx0, ry0, ru, FX_ONE);
            push_vert(dst, rx0, ry0, ru, FX_ONE);
            push_vert(dst, p1.xy.x, p1.xy.y, 32768, FX_ONE);
            push_vert(dst, fx_sub(p1.xy.x, fx_mul(dlx1, rw)), fx_sub(p1.xy.y, fx_mul(dly1, rw)), ru, FX_ONE);
        }
        push_vert(dst, b.2, b.3, lu, FX_ONE);
        push_vert(dst, fx_sub(p1.xy.x, fx_mul(dlx1, rw)), fx_sub(p1.xy.y, fx_mul(dly1, rw)), ru, FX_ONE);
        proof {
            assert(verts_view(dst@) =~= verts_view(old(dst)@) + bevel_join_s(
                p0@,
                p1@,
                lw as int,
                rw as int,
                lu as int,
                ru as int,
            ));
        }
    } else {
        let b = choose_bevel(p1.flags.innerbevel, p0, p1, fx_neg(rw));
        push_vert(dst, fx_add(p1.xy.x, fx_mul(dlx0, lw)), fx_add(p1.xy.y, fx_mul(dly0, lw)), lu, FX_ONE);
        push_vert(dst, b.0, b.1, ru, FX_ONE);
        if p1.flags.bevel {
            push_vert(dst, fx_add(p1.xy.x, fx_mul(dlx0, lw)), fx_add(p1.xy.y, fx_mul(dly0, lw)), lu, FX_ONE);
            push_vert(dst, b.0, b.1, ru, FX_ONE);
            push_vert(dst, fx_add(p1.xy.x, fx_mul(dlx1, lw)), fx_add(p1.xy.y, fx_mul(dly1, lw)), lu, FX_ONE);
            push_vert(dst, b.2, b.3, ru, FX_ONE);
        } else {
            let lx0 = fx_add(p1.xy.x, fx_mul(p1.dm.x, lw));
            let ly0 = fx_add(p1.xy.y, fx_mul(p1.dm.y, lw));
            push_vert(dst, fx_add(p1.xy.x, fx_mul(dlx0, lw)), fx_add(p1.xy.y, fx_mul(dly0, lw)), lu, FX_ONE);
            push_vert(dst, p1.xy.x, p1.xy.y, 32768, FX_ONE);
            push_vert(dst, lx0, ly0, lu, FX_ONE);
            push_vert(dst, lx0, ly0, lu, FX_ONE);
            push_vert(dst, fx_add(p1.xy.x, fx_mul(dlx1, lw)), fx_add(p1.xy.y, fx_mul(dly1, lw)), lu, FX_ONE);
            push_vert(dst, p1.xy.x, p1.xy.y, 32768, FX_ONE);
        }
        push_vert(dst, fx_add(p1.xy.x, fx_mul(dlx1, lw)), fx_add(p1.xy.y, fx_mul(dly1, lw)), lu, FX_ONE);
        push_vert(dst, b.2, b.3, ru, FX_ONE);
        proof {
            assert(verts_view(dst@) =~= verts_view(old(dst)@) + bevel_join_s(
                p0@,
                p1@,
                lw as int,
                rw as int,
                lu as int,
                ru as int,
            ));
        }
    }
}

/// The plain offset pair a non-beveled stroke point emits.
pub open spec fn stroke_pair_s(p1: SVPoint, w: int, u0: int, u1: int) -> Seq<SVertex> {
    seq![
        svert(off_s(p1.x, p1.dmx, w), off_s(p1.y, p1.dmy, w), u0, FX_ONE as int),
        svert(offn_s(p1.x, p1.dmx, w), offn_s(p1.y, p1.dmy, w), u1, FX_ONE as int),
    ]
}

/// The stroke body of one subpath, walking points `k` to `e`.
pub open spec fn stroke_pts_from_s(
    points: Seq<SVPoint>,
    first: int,
    count: int,
    k: int,
    e: int,
    w: int,
    u0: int,
    u1: int,
    ncap: int,
    line_join: LineJoin,
) -> Seq<SVertex>
    decreases e - k,
{
    if k >= e {
        Seq::empty()
    } else {
        let i1 = first + k;
        let i0 = if k == 0 {
            first + count - 1
        } else {
            first + k - 1
        };
        let p0 = points[i0];
        let p1 = points[i1];
        let vs = if p1.bevel || p1.innerbevel {
            if line_join == LineJoin::Round {
                round_join_s(p0, p1, w, w, u0, u1, ncap)
            } else {
                bevel_join_s(p0, p1, w, w, u0, u1)
            }
        } else {
            stroke_pair_s(p1, w, u0, u1)
        };
        vs + stroke_pts_from_s(points, first, count, k + 1, e, w, u0, u1, ncap, line_join)
    }
}

/// The full stroke emission of one subpath: caps for an open one, a wrap
/// of the first vertex pair for a closed one. Subpaths too short to stroke
/// emit nothing.
pub open spec fn stroke_path_verts_s(
    points: Seq<SVPoint>,
    path: SPath,
    w: int,
    u0: int,
    u1: int,
    ncap: int,
    aa: int,
    line_cap: LineCap,
    line_join: LineJoin,
) -> Seq<SVertex> {
    let first = path.first;
    let count = path.count;
    if count <= 0 || (!path.closed && count < 2) {
        Seq::empty()
    } else if path.closed {
        let body = stroke_pts_from_s(points, first, count, 0, count, w, u0, u1, ncap, line_join);
        body + seq![
            svert(body[0].x, body[0].y, u0, FX_ONE as int),
            svert(body[1].x, body[1].y, u1, FX_ONE as int),
        ]
    } else {
        let p0 = points[first];
        let p1 = points[first + 1];
        let d0 = pt_normalized_s(SPoint { x: fx_sub_s(p1.x, p0.x), y: fx_sub_s(p1.y, p0.y) });
        let cs = if line_cap == LineCap::Butt {
            butt_cap_start_s(p0, d0.x, d0.y, w, sat_s(-fx_mul_s(aa, 32768)), aa, u0, u1)
        } else if line_cap == LineCap::Square {
            butt_cap_start_s(p0, d0.x, d0.y, w, fx_sub_s(w, aa), aa, u0, u1)
        } else {
            round_cap_start_s(p0, d0.x, d0.y, w, ncap, u0, u1)
        };
        let q0 = points[first + count - 2];
        let q1 = points[first + count - 1];
        let d1 = pt_normalized_s(SPoint { x: fx_sub_s(q1.x, q0.x), y: fx_sub_s(q1.y, q0.y) });
        let ce = if line_cap == LineCap::Butt {
            butt_cap_end_s(q1, d1.x, d1.y, w, sat_s(-fx_mul_s(aa, 32768)), aa, u0, u1)
        } else if line_cap == LineCap::Square {
            butt_cap_end_s(q1, d1.x, d1.y, w, fx_sub_s(w, aa), aa, u0, u1)
        } else {
            round_cap_end_s(q1, d1.x, d1.y, w, ncap, u0, u1)
        };
        cs + stroke_pts_from_s(points, first, count, 1, count - 1, w, u0, u1, ncap, line_join) + ce
    }
}

/// The stroke emission folded over the subpaths from index `i` on: each
/// appends its vertices to the shared arena and records its range.
pub open spec fn stroke_emit_from_s(
    c: SCache,
    i: int,
    w: int,
    u0: int,
    u1: int,
    ncap: int,
    aa: int,
    line_cap: LineCap,
    line_join: LineJoin,
) -> SCache
    decreases c.paths.len() - i,
{
    if i < 0 || i >= c.paths.len() {
        c
    } else {
        let path = c.paths[i];
        let vs = stroke_path_verts_s(c.points, path, w, u0, u1, ncap, aa, line_cap, line_join);
        let np = SPath {
            fill_first: 0,
            nfill: 0,
            stroke_first: c.verts.len() as int,
            nstroke: vs.len() as int,
            ..path
        };
        stroke_emit_from_s(
            SCache { verts: c.verts + vs, paths: c.paths.update(i, np), ..c },
            i + 1,
            w,
            u0,
            u1,
            ncap,
            aa,
            line_cap,
            line_join,
        )
    }
}

/// Mirror of `expand_stroke`: the effective half width is inflated by half
/// the fringe; with no fringe both texture columns collapse to the center.
pub open spec fn expand_stroke_s(
    c: SCache,
    w0: int,
    fringe: int,
    line_cap: LineCap,
    line_join: LineJoin,
    miter_limit: int,
    tess_tol: int,
) -> SCache {
    let aa = fringe;
    let ncap = curve_divs_s(w0, crate::trig::PI_FX as int, tess_tol);
    let w = fx_add_s(w0, fx_mul_s(aa, 32768));
    let u0 = if aa == 0 {
        32768
    } else {
        0
    };
    let u1 = if aa == 0 {
        32768
    } else {
        FX_ONE as int
    };
    let c1 = calculate_joins_s(c, w, line_join, miter_limit);
    stroke_emit_from_s(
        SCache { verts: Seq::empty(), ..c1 },
        0,
        w,
        u0,
        u1,
        ncap,
        aa,
        line_cap,
        line_join,
    )
}

proof fn lemma_stroke_pts_len(
    points: Seq<SVPoint>,
    first: int,
    count: int,
    k: int,
    e: int,
    w: int,
    u0: int,
    u1: int,
    ncap: int,
    line_join: LineJoin,
)
    ensures
        stroke_pts_from_s(points, first, count, k, e, w, u0, u1, ncap, line_join).len() >= 2 * (e
            - k),
    decreases e - k,
{
    if k < e {
        lemma_stroke_pts_len(points, first, count, k + 1, e, w, u0, u1, ncap, line_join);
    }
}

/// The fill vertices of one subpath from step `k` on. With a fringe the
/// interior is inset by `woff` along the join directions; without one the
/// points are copied as they are.
pub open spec fn fill_pts_from_s(
    points: Seq<SVPoint>,
    first: int,
    count: int,
    k: int,
    woff: int,
    fringe: bool,
) -> Seq<SVertex>
    decreases count - k,
{
    if k < 0 || k >= count {
        Seq::empty()
    } else {
        let i1 = first + k;
        let i0 = if k == 0 {
            first + count - 1
        } else {
            first + k - 1
        };
        let p0 = points[i0];
        let p1 = points[i1];
        let vs = if fringe {
            if p1.bevel {
                if p1.left {
                    seq![
                        svert(off_s(p1.x, p1.dmx, woff), off_s(p1.y, p1.dmy, woff), 32768, FX_ONE as int),
                    ]
                } else {
                    let dlx0 = p0.dy;
                    let dly0 = sat_s(-p0.dx);
                    let dlx1 = p1.dy;
                    let dly1 = sat_s(-p1.dx);
                    seq![
                        svert(off_s(p1.x, dlx0, woff), off_s(p1.y, dly0, woff), 32768, FX_ONE as int),
                        svert(off_s(p1.x, dlx1, woff), off_s(p1.y, dly1, woff), 32768, FX_ONE as int),
                    ]
                }
            } else {
                seq![
                    svert(off_s(p1.x, p1.dmx, woff), off_s(p1.y, p1.dmy, woff), 32768, FX_ONE as int),
                ]
            }
        } else {
            seq![svert(p1.x, p1.y, 32768, FX_ONE as int)]
        };
        vs + fill_pts_from_s(points, first, count, k + 1, woff, fringe)
    }
}

/// The fringe ring of one subpath from step `k` on: the same bevel logic as
/// a stroke, with asymmetric widths.
pub open spec fn fill_ring_from_s(
    points: Seq<SVPoint>,
    first: int,
    count: int,
    k: int,
    lw: int,
    rw: int,
    lu: int,
    ru: int,
) -> Seq<SVertex>
    decreases count - k,
{
    if k < 0 || k >= count {
        Seq::empty()
    } else {
        let i1 = first + k;
        let i0 = if k == 0 {
            first + count - 1
        } else {
            first + k - 1
        };
        let p0 = points[i0];
        let p1 = points[i1];
        let vs = if p1.bevel || p1.innerbevel {
            bevel_join_s(p0, p1, lw, rw, lu, ru)
        } else {
            seq![
                svert(off_s(p1.x, p1.dmx, lw), off_s(p1.y, p1.dmy, lw), lu, FX_ONE as int),
                svert(offn_s(p1.x, p1.dmx, rw), offn_s(p1.y, p1.dmy, rw), ru, FX_ONE as int),
            ]
        };
        vs + fill_ring_from_s(points, first, count, k + 1, lw, rw, lu, ru)
    }
}

/// The whole fringe ring including the closing copy of its first pair.
pub open spec fn fill_ring_verts_s(
    points: Seq<SVPoint>,
    first: int,
    count: int,
    lw: int,
    rw: int,
    lu: int,
    ru: int,
) -> Seq<SVertex> {
    let ring = fill_ring_from_s(points, first, count, 0, lw, rw, lu, ru);
    ring + seq![
        svert(ring[0].x, ring[0].y, lu, FX_ONE as int),
        svert(ring[1].x, ring[1].y, ru, FX_ONE as int),
    ]
}

/// The fill emission folded over the subpaths from index `i` on.
pub open spec fn fill_emit_from_s(
    c: SCache,
    i: int,
    w: int,
    aa: int,
    fringe: bool,
    convex: bool,
) -> SCache
    decreases c.paths.len() - i,
{
    if i < 0 || i >= c.paths.len() {
        c
    } else {
        let path = c.paths[i];
        let woff = fx_mul_s(aa, 32768);
        if path.count <= 0 {
            let np = SPath {
                fill_first: c.verts.len() as int,
                nfill: 0,
                stroke_first: 0,
                nstroke: 0,
                ..path
            };
            fill_emit_from_s(
                SCache { paths: c.paths.update(i, np), ..c },
                i + 1,
                w,
                aa,
                fringe,
                convex,
            )
        } else {
            let fillvs = fill_pts_from_s(c.points, path.first, path.count, 0, woff, fringe);
            let fill_first = c.verts.len() as int;
            if fringe {
                let lw0 = fx_add_s(w, woff);
                let rw = fx_sub_s(w, woff);
                let lw = if convex {
                    woff
                } else {
                    lw0
                };
                let lu = if convex {
                    32768
                } else {
                    0
                };
                let ring = fill_ring_verts_s(
                    c.points,
                    path.first,
                    path.count,
                    lw,
                    rw,
                    lu,
                    FX_ONE as int,
                );
                let np = SPath {
                    fill_first,
                    nfill: fillvs.len() as int,
                    stroke_first: fill_first + fillvs.len(),
                    nstroke: ring.len() as int,
                    ..path
                };
                fill_emit_from_s(
                    SCache { verts: c.verts + fillvs + ring, paths: c.paths.update(i, np), ..c },
                    i + 1,
                    w,
                    aa,
                    fringe,
                    convex,
                )
            } else {
                let np = SPath {
                    fill_first,
                    nfill: fillvs.len() as int,
                    stroke_first: 0,
                    nstroke: 0,
                    ..path
                };
                fill_emit_from_s(
                    SCache { verts: c.verts + fillvs, paths: c.paths.update(i, np), ..c },
                    i + 1,
                    w,
                    aa,
                    fringe,
                    convex,
                )
            }
        }
    }
}

/// Mirror of `expand_fill`: fringe geometry is produced only for a
/// positive half-width; a single convex subpath collapses the ring to the
/// fringe alone.
pub open spec fn expand_fill_s(
    c: SCache,
    w: int,
    line_join: LineJoin,
    miter_limit: int,
    fringe_width: int,
) -> SCache {
    let aa = fringe_width;
    let fringe = w > 0;
    let c1 = calculate_joins_s(c, w, line_join, miter_limit);
    let convex = c1.paths.len() == 1 && c1.paths[0].convex;
    fill_emit_from_s(SCache { verts: Seq::empty(), ..c1 }, 0, w, aa, fringe, convex)
}

proof fn lemma_fill_ring_len(
    points: Seq<SVPoint>,
    first: int,
    count: int,
    k: int,
    lw: int,
    rw: int,
    lu: int,
    ru: int,
)
    requires
        0 <= k,
    ensures
        fill_ring_from_s(points, first, count, k, lw, rw, lu, ru).len() >= 2 * (count - k),
    decreases count - k,
{
    if 0 <= k < count {
        lemma_fill_ring_len(points, first, count, k + 1, lw, rw, lu, ru);
    }
}

impl Default for PathCache {
    fn default() -> (r: PathCache)
        ensures
            r@.points.len() == 0,
            r@.paths.len() == 0,
            r@.verts.len() == 0,
            r@.bmin == (SPoint { x: 0, y: 0 }),
            r@.bmax == (SPoint { x: 0, y: 0 }),
    {
        PathCache {
            points: Vec::new(),
            paths: Vec::new(),
            vertexes: Vec::new(),
            bounds: Bounds { min: Point { x: 0, y: 0 }, max: Point { x: 0, y: 0 } },
        }
    }
}

impl PathCache {
    /// Drop all flattened points and subpath records; the vertex arena and
    /// bounds are left alone, since only the next expand call overwrites
    /// them.
    pub fn clear(&mut self)
        ensures
            final(self)@ == (SCache {
                points: Seq::<SVPoint>::empty(),
                paths: Seq::<SPath>::empty(),
                ..old(self)@
            }),
            cache_wf(final(self)@),
    {
        self.points.clear();
        self.paths.clear();
        proof {
            assert(self@ =~= (SCache {
                points: Seq::<SVPoint>::empty(),
                paths: Seq::<SPath>::empty(),
                ..old(self)@
            }));
        }
    }

    fn add_path(&mut self)
        requires
            cache_wf(old(self)@),
        ensures
            final(self)@ == add_path_s(old(self)@),
            cache_wf(final(self)@),
    {
        let first = self.points.len();
        self.paths.push(
            Path {
                first,
                count: 0,
                closed: false,
                num_bevel: 0,
                solidity: Solidity::Solid,
                fill_first: 0,
                num_fill: 0,
                stroke_first: 0,
                num_stroke: 0,
                convex: false,
            },
        );
        proof {
            assert(self@ =~= add_path_s(old(self)@));
        }
    }

    fn add_point(&mut self, pt: Point, corner: bool, dist_tol: i64)
        requires
            cache_wf(old(self)@),
            coord_in_range(pt@.x, pt@.y),
        ensures
            final(self)@ == add_point_s(old(self)@, pt@.x, pt@.y, corner, dist_tol as int),
            cache_wf(final(self)@),
    {
        let plen = self.paths.len();
        if plen == 0 {
            return ;
        }
        let pi = plen - 1;
        let path = self.paths[pi];
        let npts = self.points.len();
        if path.count > 0 && npts > 0 {
            let last_pt = self.points[npts - 1];
            if last_pt.xy.equals(pt, dist_tol) {
                let mut np = last_pt;
                np.flags.corner = np.flags.corner || corner;
                self.points[npts - 1] = np;
                proof {
                    assert(self@ =~= add_point_s(
                        old(self)@,
                        pt@.x,
                        pt@.y,
                        corner,
                        dist_tol as int,
                    ));
                }
                return ;
            }
        }
        if self.points.len() >= MAX_POINTS {
            return ;
        }
        self.points.push(
            VPoint {
                xy: pt,
                d: Point { x: 0, y: 0 },
                len: 0,
                dm: Point { x: 0, y: 0 },
                flags: PointFlags::corner_only(corner),
            },
        );
        let mut p2 = path;
        p2.count = path.count + 1;
        self.paths[pi] = p2;
        proof {
            assert(self@ =~= add_point_s(old(self)@, pt@.x, pt@.y, corner, dist_tol as int));
        }
    }

    fn close_path(&mut self)
        requires
            cache_wf(old(self)@),
        ensures
            final(self)@ == close_path_s(old(self)@),
            cache_wf(final(self)@),
    {
        let plen = self.paths.len();
        if plen == 0 {
            return ;
        }
        let pi = plen - 1;
        let mut p2 = self.paths[pi];
        p2.closed = true;
        self.paths[pi] = p2;
        proof {
            assert(self@ =~= close_path_s(old(self)@));
        }
    }

    fn path_solidity(&mut self, solidity: Solidity)
        requires
            cache_wf(old(self)@),
        ensures
            final(self)@ == path_solidity_s(old(self)@, solidity),
            cache_wf(final(self)@),
    {
        let plen = self.paths.len();
        if plen == 0 {
            return ;
        }
        let pi = plen - 1;
        let mut p2 = self.paths[pi];
        p2.solidity = solidity;
        self.paths[pi] = p2;
        proof {
            assert(self@ =~= path_solidity_s(old(self)@, solidity));
        }
    }

    #[verifier::rlimit(100)]
    #[verifier::spinoff_prover]
    fn tesselate_bezier(
        &mut self,
        pt1: Point,
        pt2: Point,
        pt3: Point,
        pt4: Point,
        level: usize,
        corner: bool,
        tess_tol: i64,
    )
        requires
            cache_wf(old(self)@),
            level <= 11,
            coord_in_range(pt1@.x, pt1@.y),
            coord_in_range(pt2@.x, pt2@.y),
            coord_in_range(pt3@.x, pt3@.y),
            coord_in_range(pt4@.x, pt4@.y),
        ensures
            final(self)@ == tess_bezier_s(
                old(self)@,
                pt1@.x,
                pt1@.y,
                pt2@.x,
                pt2@.y,
                pt3@.x,
                pt3@.y,
                pt4@.x,
                pt4@.y,
                level as int,
                corner,
                tess_tol as int,
            ),
            cache_wf(final(self)@),
        decreases 11 - level,
    {
        if level > 10 {
            return ;
        }
        let x1 = pt1.x;
        let y1 = pt1.y;
        let x2 = pt2.x;
        let y2 = pt2.y;
        let x3 = pt3.x;
        let y3 = pt3.y;
        let x4 = pt4.x;
        let y4 = pt4.y;
        let x12 = fx_mul(fx_add(x1, x2), 32768);
        let y12 = fx_mul(fx_add(y1, y2), 32768);
        let x23 = fx_mul(fx_add(x2, x3), 32768);
        let y23 = fx_mul(fx_add(y2, y3), 32768);
        let x34 = fx_mul(fx_add(x3, x4), 32768);
        let y34 = fx_mul(fx_add(y3, y4), 32768);
        let x123 = fx_mul(fx_add(x12, x23), 32768);
        let y123 = fx_mul(fx_add(y12, y23), 32768);
        proof {
            assert(x12 as int == bez_mid_s(x1 as int, x2 as int));
            assert(y12 as int == bez_mid_s(y1 as int, y2 as int));
            assert(x23 as int == bez_mid_s(x2 as int, x3 as int));
            assert(y23 as int == bez_mid_s(y2 as int, y3 as int));
            assert(x34 as int == bez_mid_s(x3 as int, x4 as int));
            assert(y34 as int == bez_mid_s(y3 as int, y4 as int));
            assert(x123 as int == bez_mid_s(x12 as int, x23 as int));
            assert(y123 as int == bez_mid_s(y12 as int, y23 as int));
        }
        let dx = fx_sub(x4, x1);
        let dy = fx_sub(y4, y1);
        let d2 = fx_abs(fx_sub(fx_mul(fx_sub(x2, x4), dy), fx_mul(fx_sub(y2, y4), dx)));
        let d3 = fx_abs(fx_sub(fx_mul(fx_sub(x3, x4), dy), fx_mul(fx_sub(y3, y4), dx)));
        proof {
            assert(d2 as int == bez_dev_s(
                fx_sub_s(x2 as int, x4 as int),
                fx_sub_s(y2 as int, y4 as int),
                dx as int,
                dy as int,
            ));
            assert(d3 as int == bez_dev_s(
                fx_sub_s(x3 as int, x4 as int),
                fx_sub_s(y3 as int, y4 as int),
                dx as int,
                dy as int,
            ));
        }
        let flat = fx_mul(fx_add(d2, d3), fx_add(d2, d3)) < fx_mul(
            tess_tol,
            fx_add(fx_mul(dx, dx), fx_mul(dy, dy)),
        );
        proof {
            assert(flat == bez_flat_s(
                x1 as int,
                y1 as int,
                x2 as int,
                y2 as int,
                x3 as int,
                y3 as int,
                x4 as int,
                y4 as int,
                tess_tol as int,
            ));
        }
        if flat {
            self.add_point(Point::new(x4, y4), corner, tess_tol);
            return ;
        }
        let x234 = fx_mul(fx_add(x23, x34), 32768);
        let y234 = fx_mul(fx_add(y23, y34), 32768);
        let x1234 = fx_mul(fx_add(x123, x234), 32768);
        let y1234 = fx_mul(fx_add(y123, y234), 32768);
        proof {
            assert(x234 as int == bez_mid_s(x23 as int, x34 as int));
            assert(y234 as int == bez_mid_s(y23 as int, y34 as int));
            assert(x1234 as int == bez_mid_s(x123 as int, x234 as int));
            assert(y1234 as int == bez_mid_s(y123 as int, y234 as int));
        }
        self.tesselate_bezier(
            Point::new(x1, y1),
            Point::new(x12, y12),
            Point::new(x123, y123),
            Point::new(x1234, y1234),
            level + 1,
            false,
            tess_tol,
        );
        self.tesselate_bezier(
            Point::new(x1234, y1234),
            Point::new(x234, y234),
            Point::new(x34, y34),
            Point::new(x4, y4),
            level + 1,
            corner,
            tess_tol,
        );
    }

    fn poly_area2(&self, first: usize, count: usize) -> (r: i128)
        requires
            cache_wf(self@),
            first + count <= self@.points.len(),
        ensures
            r as int == poly_area2_s(self@.points, first as int, count as int),
    {
        let mut area: i128 = 0;
        let mut i: usize = 2;
        if count < 2 {
            return 0;
        }
        while i < count
            invariant
                2 <= i <= count,
                first + count <= self@.points.len(),
                cache_wf(self@),
                area as int + poly_area2_from_s(self@.points, first as int, count as int, i as int)
                    == poly_area2_s(self@.points, first as int, count as int),
                absi(area as int) <= (i as int) * 0x80000_0000_0000_0000_0000,
            decreases count - i,
        {
            let a = self.points[first];
            let b = self.points[first + i - 1];
            let c = self.points[first + i];
            let abx: i128 = (b.xy.x as i128) - (a.xy.x as i128);
            let aby: i128 = (b.xy.y as i128) - (a.xy.y as i128);
            let acx: i128 = (c.xy.x as i128) - (a.xy.x as i128);
            let acy: i128 = (c.xy.y as i128) - (a.xy.y as i128);
            proof {
                assert(coord_in_range(self@.points[first as int].x, self@.points[first as int].y));
                assert(coord_in_range(
                    self@.points[first + i - 1].x,
                    self@.points[first + i - 1].y,
                ));
                assert(coord_in_range(self@.points[first + i].x, self@.points[first + i].y));
                crate::fixed::lemma_mul_le(acx as int, aby as int, 0x200_0000_0000, 0x200_0000_0000);
                crate::fixed::lemma_mul_le(abx as int, acy as int, 0x200_0000_0000, 0x200_0000_0000);
            }
            let t: i128 = acx * aby - abx * acy;
            area = area + t;
            i = i + 1;
        }
        area
    }

    fn reverse_range(&mut self, first: usize, count: usize)
        requires
            cache_wf(old(self)@),
            first + count <= old(self)@.points.len(),
        ensures
            final(self)@ == (SCache {
                points: reverse_range_s(old(self)@.points, first as int, count as int),
                ..old(self)@
            }),
            cache_wf(final(self)@),
    {
        if count == 0 {
            proof {
                assert(self@.points =~= reverse_range_s(
                    old(self)@.points,
                    first as int,
                    count as int,
                ));
                assert(self@ =~= (SCache {
                    points: reverse_range_s(old(self)@.points, first as int, count as int),
                    ..old(self)@
                }));
            }
            return ;
        }
        let half = count / 2;
        let mut t: usize = 0;
        while t < half
            invariant
                cache_wf(self@),
                t <= half,
                half == count / 2,
                count >= 1,
                first + count <= self@.points.len(),
                self@.points.len() == old(self)@.points.len(),
                self@.paths == old(self)@.paths,
                self@.verts == old(self)@.verts,
                self@.bmin == old(self)@.bmin,
                self@.bmax == old(self)@.bmax,
                forall|k: int|
                    0 <= k < self@.points.len() && !(first <= k < first + count)
                        ==> #[trigger] self@.points[k] == old(self)@.points[k],
                forall|k: int|
                    first <= k < first + t ==> #[trigger] self@.points[k] == old(self)@.points[2
                        * first + count - 1 - k],
                forall|k: int|
                    first + count - 1 - t < k < first + count ==> #[trigger] self@.points[k] == old(
                        self,
                    )@.points[2 * first + count - 1 - k],
                forall|k: int|
                    first + t <= k <= first + count - 1 - t ==> #[trigger] self@.points[k] == old(
                        self,
                    )@.points[k],
            decreases half - t,
        {
            let i = first + t;
            let j = first + count - 1 - t;
            let ghost snap = self@;
            let a = self.points[i];
            let b = self.points[j];
            self.points[i] = b;
            self.points[j] = a;
            proof {
                assert(self@.points =~= snap.points.update(i as int, b@).update(j as int, a@));
                assert(a@ == snap.points[i as int] && b@ == snap.points[j as int]);
                assert(snap.points[i as int] == old(self)@.points[i as int]);
                assert(snap.points[j as int] == old(self)@.points[j as int]);
                assert(self@.points[i as int] == old(self)@.points[2 * first + count - 1 - i]);
                assert(self@.points[j as int] == old(self)@.points[2 * first + count - 1 - j]);
                assert forall|k: int| 0 <= k < self@.points.len() implies coord_in_range(
                    (#[trigger] self@.points[k]).x,
                    self@.points[k].y,
                ) by {
                    assert(cache_wf(snap));
                    if k != i as int && k != j as int {
                        assert(self@.points[k] == snap.points[k]);
                    }
                };
            }
            t = t + 1;
        }
        proof {
            assert(self@.points =~= reverse_range_s(old(self)@.points, first as int, count as int));
            assert(self@ =~= (SCache {
                points: reverse_range_s(old(self)@.points, first as int, count as int),
                ..old(self)@
            }));
        }
    }

    fn finish_one_path(&mut self, j: usize, dist_tol: i64)
        requires
            cache_wf(old(self)@),
            j < old(self)@.paths.len(),
        ensures
            final(self)@ == finish_one_path_s(old(self)@, j as int, dist_tol as int),
            cache_wf(final(self)@),
            final(self)@.paths.len() == old(self)@.paths.len(),
    {
        let path = self.paths[j];
        if path.count == 0 {
            return ;
        }
        let first = path.first;
        let lasti = first + path.count - 1;
        let p_last = self.points[lasti];
        let p_first = self.points[first];
        let mut count = path.count;
        let mut closed = path.closed;
        if p_last.xy.equals(p_first.xy, dist_tol) {
            count = count - 1;
            closed = true;
        }
        if count > 2 {
            let area2 = self.poly_area2(first, count);
            if (matches!(path.solidity, Solidity::Solid) && area2 < 0) || (matches!(
                path.solidity,
                Solidity::Hole,
            ) && area2 > 0) {
                self.reverse_range(first, count);
            }
        }
        let mut p2 = path;
        p2.count = count;
        p2.closed = closed;
        self.paths[j] = p2;
        let ghost target = finish_one_path_s(old(self)@, j as int, dist_tol as int);
        let ghost pts2 = self@.points;
        let ghost bmin0 = self@.bmin;
        let ghost bmax0 = self@.bmax;
        proof {
            assert(self@.paths =~= target.paths);
        }
        let mut k: usize = 0;
        while k < count
            invariant
                k <= count,
                first + count <= self@.points.len(),
                cache_wf(self@),
                self@.points.len() == pts2.len(),
                self@.paths == target.paths,
                self@.verts == target.verts,
                dirs_from_s(self@.points, first as int, count as int, k as int, self@.bmin, self@.bmax)
                    == dirs_from_s(pts2, first as int, count as int, 0, bmin0, bmax0),
            decreases count - k,
        {
            let ghost snap = self@;
            let i0 = if k == 0 {
                first + count - 1
            } else {
                first + k - 1
            };
            let i1 = if k == 0 {
                first
            } else {
                first + k
            };
            let p0 = self.points[i0];
            let p1 = self.points[i1];
            let mut d = Point::new(fx_sub(p1.xy.x, p0.xy.x), fx_sub(p1.xy.y, p0.xy.y));
            let l = d.normalize();
            let mut np = p0;
            np.d = d;
            np.len = l;
            self.points[i0] = np;
            self.bounds.min = Point::new(
                fx_min(self.bounds.min.x, p0.xy.x),
                fx_min(self.bounds.min.y, p0.xy.y),
            );
            self.bounds.max = Point::new(
                fx_max(self.bounds.max.x, p0.xy.x),
                fx_max(self.bounds.max.y, p0.xy.y),
            );
            proof {
                assert(np@ == dir_step_s(snap.points, i0 as int, i1 as int));
                assert(self@.points =~= snap.points.update(i0 as int, np@));
                assert(dirs_from_s(
                    self@.points,
                    first as int,
                    count as int,
                    (k + 1) as int,
                    self@.bmin,
                    self@.bmax,
                ) == dirs_from_s(snap.points, first as int, count as int, k as int, snap.bmin, snap.bmax));
            }
            k = k + 1;
        }
        proof {
            assert(dirs_from_s(
                self@.points,
                first as int,
                count as int,
                count as int,
                self@.bmin,
                self@.bmax,
            ) == (self@.points, self@.bmin, self@.bmax));
            assert(self@ =~= target);
        }
    }
    /// Flatten a command list into subpath polylines: bezier subdivision,
    /// near-duplicate merging, close collapsing, winding fix-up against the
    /// declared solidity, per-point directions and lengths, and the running
    /// bounding box.
    pub fn flatten_paths(&mut self, commands: &[Command], dist_tol: i64, tess_tol: i64)
        requires
            cache_wf(old(self)@),
            cmds_bounded(commands@),
        ensures
            final(self)@ == flatten_spec_s(
                old(self)@,
                commands@,
                dist_tol as int,
                tess_tol as int,
            ),
            cache_wf(final(self)@),
    {
        let n = commands.len();
        let mut i: usize = 0;
        while i < n
            invariant
                i <= n,
                n == commands@.len(),
                cmds_bounded(commands@),
                cache_wf(self@),
                flatten_cmds_from_s(self@, commands@, i as int, dist_tol as int, tess_tol as int)
                    == flatten_cmds_from_s(
                    old(self)@,
                    commands@,
                    0,
                    dist_tol as int,
                    tess_tol as int,
                ),
            decreases n - i,
        {
            let ghost pre = self@;
            let cmd = commands[i];
            proof {
                assert(cmd == commands@[i as int]);
            }
            match cmd {
                Command::MoveTo(p) => {
                    self.add_path();
                    self.add_point(p, true, dist_tol);
                },
                Command::LineTo(p) => {
                    self.add_point(p, true, dist_tol);
                },
                Command::BezierTo(cp1, cp2, p) => {
                    let npts = self.points.len();
                    if npts > 0 {
                        let last = self.points[npts - 1];
                        proof {
                            assert(pre.points[npts - 1] == last@);
                            assert(coord_in_range(last@.x, last@.y));
                        }
                        self.tesselate_bezier(last.xy, cp1, cp2, p, 0, true, tess_tol);
                    }
                },
                Command::Close => {
                    self.close_path();
                },
                Command::Solidity(s) => {
                    self.path_solidity(s);
                },
            }
            proof {
                assert(self@ == flatten_one_s(
                    pre,
                    commands@[i as int],
                    dist_tol as int,
                    tess_tol as int,
                ));
            }
            i = i + 1;
        }
        self.bounds.min = Point::new(FX_MAX, FX_MAX);
        self.bounds.max = Point::new(-FX_MAX, -FX_MAX);
        let ghost c2 = self@;
        proof {
            assert(c2 =~= (SCache {
                bmin: SPoint { x: FX_MAX as int, y: FX_MAX as int },
                bmax: SPoint { x: -(FX_MAX as int), y: -(FX_MAX as int) },
                ..flatten_cmds_from_s(old(self)@, commands@, 0, dist_tol as int, tess_tol as int)
            }));
        }
        let npaths = self.paths.len();
        let mut j: usize = 0;
        while j < npaths
            invariant
                j <= npaths,
                cache_wf(self@),
                self@.paths.len() == npaths,
                finish_paths_from_s(self@, j as int, dist_tol as int) == finish_paths_from_s(
                    c2,
                    0,
                    dist_tol as int,
                ),
            decreases npaths - j,
        {
            let ghost pre = self@;
            self.finish_one_path(j, dist_tol);
            proof {
                assert(self@ == finish_one_path_s(pre, j as int, dist_tol as int));
            }
            j = j + 1;
        }
        proof {
            assert(finish_paths_from_s(self@, npaths as int, dist_tol as int) == self@);
        }
    }

    fn joins_one_path(&mut self, j: usize, iw: i64, line_join: LineJoin, miter_limit: i64)
        requires
            cache_wf(old(self)@),
            j < old(self)@.paths.len(),
        ensures
            final(self)@ == joins_one_path_s(
                old(self)@,
                j as int,
                iw as int,
                line_join,
                miter_limit as int,
            ),
            cache_wf(final(self)@),
            final(self)@.paths.len() == old(self)@.paths.len(),
    {
        let path = self.paths[j];
        let first = path.first;
        let count = path.count;
        let ghost pts0 = self@.points;
        let mut nleft: usize = 0;
        let mut nbevel: usize = 0;
        let mut k: usize = 0;
        while k < count
            invariant
                k <= count,
                count == old(self)@.paths[j as int].count,
                first == old(self)@.paths[j as int].first,
                first + count <= self@.points.len(),
                cache_wf(self@),
                nleft <= k,
                nbevel <= k,
                self@.points.len() == pts0.len(),
                self@.paths == old(self)@.paths,
                self@.verts == old(self)@.verts,
                self@.bmin == old(self)@.bmin,
                self@.bmax == old(self)@.bmax,
                joins_path_from_s(
                    self@.points,
                    first as int,
                    count as int,
                    k as int,
                    iw as int,
                    line_join,
                    miter_limit as int,
                    nleft as int,
                    nbevel as int,
                ) == joins_path_from_s(
                    pts0,
                    first as int,
                    count as int,
                    0,
                    iw as int,
                    line_join,
                    miter_limit as int,
                    0,
                    0,
                ),
            decreases count - k,
        {
            let ghost snap = self@;
            let i0 = if k == 0 {
                first + count - 1
            } else {
                first + k - 1
            };
            let i1 = first + k;
            let p0 = self.points[i0];
            let p1 = self.points[i1];
            let dlx0 = p0.d.y;
            let dly0 = fx_neg(p0.d.x);
            let dlx1 = p1.d.y;
            let dly1 = fx_neg(p1.d.x);
            let dmx0 = fx_mul(fx_add(dlx0, dlx1), 32768);
            let dmy0 = fx_mul(fx_add(dly0, dly1), 32768);
            let dmr2 = fx_add(fx_mul(dmx0, dmx0), fx_mul(dmy0, dmy0));
            let mut dmx = dmx0;
            let mut dmy = dmy0;
            if dmr2 > 0 {
                let mut scale = fx_div(FX_ONE, dmr2);
                if scale > 39321600 {
                    scale = 39321600;
                }
                dmx = fx_mul(dmx0, scale);
                dmy = fx_mul(dmy0, scale);
            }
            let cross = fx_sub(fx_mul(p1.d.x, p0.d.y), fx_mul(p0.d.x, p1.d.y));
            let left = cross > 0;
            if left {
                nleft = nleft + 1;
            }
            let limit = fx_max(fx_mul(fx_min(p0.len, p1.len), iw), 66191);
            let innerbevel = fx_mul(fx_mul(dmr2, limit), limit) < FX_ONE;
            let miter_over = fx_mul(fx_mul(dmr2, miter_limit), miter_limit) < FX_ONE;
            let bevel = p1.flags.corner && (miter_over || matches!(line_join, LineJoin::Bevel)
                || matches!(line_join, LineJoin::Round));
            if bevel || innerbevel {
                nbevel = nbevel + 1;
            }
            let mut np = p1;
            np.dm = Point::new(dmx, dmy);
            np.flags = PointFlags { corner: p1.flags.corner, left, bevel, innerbevel };
            self.points[i1] = np;
            proof {
                assert(np@ == join_point_s(
                    snap.points[i0 as int],
                    snap.points[i1 as int],
                    iw as int,
                    line_join,
                    miter_limit as int,
                ));
                assert(self@.points =~= snap.points.update(i1 as int, np@));
            }
            k = k + 1;
        }
        let mut p2 = path;
        p2.num_bevel = nbevel;
        p2.convex = nleft == count;
        self.paths[j] = p2;
        proof {
            assert(joins_path_from_s(
                self@.points,
                first as int,
                count as int,
                count as int,
                iw as int,
                line_join,
                miter_limit as int,
                nleft as int,
                nbevel as int,
            ) == (self@.points, nleft as int, nbevel as int));
            assert(self@ =~= joins_one_path_s(
                old(self)@,
                j as int,
                iw as int,
                line_join,
                miter_limit as int,
            ));
        }
    }

    fn calculate_joins(&mut self, w: i64, line_join: LineJoin, miter_limit: i64)
        requires
            cache_wf(old(self)@),
        ensures
            final(self)@ == calculate_joins_s(old(self)@, w as int, line_join, miter_limit as int),
            cache_wf(final(self)@),
            final(self)@.paths.len() == old(self)@.paths.len(),
    {
        let iw: i64 = if w > 0 {
            fx_div(FX_ONE, w)
        } else {
            0
        };
        let npaths = self.paths.len();
        let mut j: usize = 0;
        while j < npaths
            invariant
                j <= npaths,
                cache_wf(self@),
                self@.paths.len() == npaths,
                joins_from_s(self@, j as int, iw as int, line_join, miter_limit as int)
                    == joins_from_s(old(self)@, 0, iw as int, line_join, miter_limit as int),
            decreases npaths - j,
        {
            let ghost pre = self@;
            self.joins_one_path(j, iw, line_join, miter_limit);
            proof {
                assert(self@ == joins_one_path_s(
                    pre,
                    j as int,
                    iw as int,
                    line_join,
                    miter_limit as int,
                ));
            }
            j = j + 1;
        }
        proof {
            assert(joins_from_s(self@, npaths as int, iw as int, line_join, miter_limit as int)
                == self@);
        }
    }
    /// Emit one stroke subpath into the arena, as `expand_stroke`'s
    /// per-path step.
    #[verifier::rlimit(100)]
    fn stroke_one_path(
        &mut self,
        i: usize,
        w: i64,
        u0: i64,
        u1: i64,
        ncap: usize,
        aa: i64,
        line_cap: LineCap,
        line_join: LineJoin,
    )
        requires
            cache_wf(old(self)@),
            i < old(self)@.paths.len(),
            2 <= ncap <= 0x100_0001,
        ensures
            final(self)@ == (SCache {
                verts: old(self)@.verts + stroke_path_verts_s(
                    old(self)@.points,
                    old(self)@.paths[i as int],
                    w as int,
                    u0 as int,
                    u1 as int,
                    ncap as int,
                    aa as int,
                    line_cap,
                    line_join,
                ),
                paths: old(self)@.paths.update(
                    i as int,
                    SPath {
                        fill_first: 0,
                        nfill: 0,
                        stroke_first: old(self)@.verts.len() as int,
                        nstroke: stroke_path_verts_s(
                            old(self)@.points,
                            old(self)@.paths[i as int],
                            w as int,
                            u0 as int,
                            u1 as int,
                            ncap as int,
                            aa as int,
                            line_cap,
                            line_join,
                        ).len() as int,
                        ..old(self)@.paths[i as int]
                    },
                ),
                ..old(self)@
            }),
            cache_wf(final(self)@),
    {
        let ghost pre = self@;
        let path = self.paths[i];
        let first = path.first;
        let count = path.count;
        let start = self.vertexes.len();
        let ghost vs = stroke_path_verts_s(
            pre.points,
            path@,
            w as int,
            u0 as int,
            u1 as int,
            ncap as int,
            aa as int,
            line_cap,
            line_join,
        );
        let mut p2 = path;
        p2.fill_first = 0;
        p2.num_fill = 0;
        p2.stroke_first = start;
        if count == 0 || (!path.closed && count < 2) {
            p2.num_stroke = 0;
            self.paths[i] = p2;
            proof {
                assert(vs =~= Seq::<SVertex>::empty());
                assert(self@.verts =~= pre.verts + vs);
                assert(self@.paths =~= pre.paths.update(
                    i as int,
                    SPath {
                        fill_first: 0,
                        nfill: 0,
                        stroke_first: pre.verts.len() as int,
                        nstroke: vs.len() as int,
                        ..path@
                    },
                ));
                assert(self@ =~= (SCache {
                    verts: pre.verts + vs,
                    paths: pre.paths.update(
                        i as int,
                        SPath {
                            fill_first: 0,
                            nfill: 0,
                            stroke_first: pre.verts.len() as int,
                            nstroke: vs.len() as int,
                            ..path@
                        },
                    ),
                    ..pre
                }));
            }
            return ;
        }
        let s0: usize = if path.closed {
            0
        } else {
            1
        };
        let e0: usize = if path.closed {
            count
        } else {
            count - 1
        };
        let ghost d0v = pt_normalized_s(
            SPoint {
                x: fx_sub_s(pre.points[first as int + 1].x, pre.points[first as int].x),
                y: fx_sub_s(pre.points[first as int + 1].y, pre.points[first as int].y),
            },
        );
        let ghost csv = if line_cap == LineCap::Butt {
            butt_cap_start_s(
                pre.points[first as int],
                d0v.x,
                d0v.y,
                w as int,
                sat_s(-fx_mul_s(aa as int, 32768)),
                aa as int,
                u0 as int,
                u1 as int,
            )
        } else if line_cap == LineCap::Square {
            butt_cap_start_s(
                pre.points[first as int],
                d0v.x,
                d0v.y,
                w as int,
                fx_sub_s(w as int, aa as int),
                aa as int,
                u0 as int,
                u1 as int,
            )
        } else {
            round_cap_start_s(
                pre.points[first as int],
                d0v.x,
                d0v.y,
                w as int,
                ncap as int,
                u0 as int,
                u1 as int,
            )
        };
        if !path.closed {
            let p0c = self.points[first];
            let p1c = self.points[first + 1];
            proof {
                assert(p0c@ == pre.points[first as int]);
                assert(p1c@ == pre.points[first as int + 1]);
            }
            let mut d = Point::new(fx_sub(p1c.xy.x, p0c.xy.x), fx_sub(p1c.xy.y, p0c.xy.y));
            let _seg_len = d.normalize();
            proof {
                assert(d@ == d0v);
            }
            match line_cap {
                LineCap::Butt => {
                    butt_cap_start(
                        &mut self.vertexes,
                        &p0c,
                        d.x,
                        d.y,
                        w,
                        fx_neg(fx_mul(aa, 32768)),
                        aa,
                        u0,
                        u1,
                    );
                },
                LineCap::Square => {
                    butt_cap_start(&mut self.vertexes, &p0c, d.x, d.y, w, fx_sub(w, aa), aa, u0, u1);
                },
                LineCap::Round => {
                    round_cap_start(&mut self.vertexes, &p0c, d.x, d.y, w, ncap, u0, u1);
                },
            }
            proof {
                assert(self@.verts == pre.verts + csv);
            }
        }
        let ghost caps_done = self@.verts;
        let mut k: usize = s0;
        while k < e0
            invariant
                s0 <= k <= e0,
                e0 <= count,
                count == path@.count,
                first == path@.first,
                path@ == pre.paths[i as int],
                first + count <= self@.points.len(),
                self@.points == pre.points,
                self@.paths == pre.paths,
                self@.bmin == pre.bmin,
                self@.bmax == pre.bmax,
                cache_wf(self@),
                2 <= ncap <= 0x100_0001,
                self@.verts + stroke_pts_from_s(
                    pre.points,
                    first as int,
                    count as int,
                    k as int,
                    e0 as int,
                    w as int,
                    u0 as int,
                    u1 as int,
                    ncap as int,
                    line_join,
                ) == caps_done + stroke_pts_from_s(
                    pre.points,
                    first as int,
                    count as int,
                    s0 as int,
                    e0 as int,
                    w as int,
                    u0 as int,
                    u1 as int,
                    ncap as int,
                    line_join,
                ),
            decreases e0 - k,
        {
            let ghost arena_pre = self@.verts;
            let i1 = first + k;
            let i0 = if k == 0 {
                first + count - 1
            } else {
                first + k - 1
            };
            let p0 = self.points[i0];
            let p1 = self.points[i1];
            if p1.flags.bevel || p1.flags.innerbevel {
                if matches!(line_join, LineJoin::Round) {
                    round_join(&mut self.vertexes, &p0, &p1, w, w, u0, u1, ncap);
                } else {
                    bevel_join(&mut self.vertexes, &p0, &p1, w, w, u0, u1);
                }
            } else {
                push_vert(
                    &mut self.vertexes,
                    fx_add(p1.xy.x, fx_mul(p1.dm.x, w)),
                    fx_add(p1.xy.y, fx_mul(p1.dm.y, w)),
                    u0,
                    FX_ONE,
                );
                push_vert(
                    &mut self.vertexes,
                    fx_sub(p1.xy.x, fx_mul(p1.dm.x, w)),
                    fx_sub(p1.xy.y, fx_mul(p1.dm.y, w)),
                    u1,
                    FX_ONE,
                );
            }
            proof {
                let body_k = stroke_pts_from_s(
                    pre.points,
                    first as int,
                    count as int,
                    k as int,
                    e0 as int,
                    w as int,
                    u0 as int,
                    u1 as int,
                    ncap as int,
                    line_join,
                );
                let body_k1 = stroke_pts_from_s(
                    pre.points,
                    first as int,
                    count as int,
                    k as int + 1,
                    e0 as int,
                    w as int,
                    u0 as int,
                    u1 as int,
                    ncap as int,
                    line_join,
                );
                let step = if p1@.bevel || p1@.innerbevel {
                    if line_join == LineJoin::Round {
                        round_join_s(p0@, p1@, w as int, w as int, u0 as int, u1 as int, ncap as int)
                    } else {
                        bevel_join_s(p0@, p1@, w as int, w as int, u0 as int, u1 as int)
                    }
                } else {
                    stroke_pair_s(p1@, w as int, u0 as int, u1 as int)
                };
                assert(p0@ == pre.points[i0 as int]);
                assert(p1@ == pre.points[i1 as int]);
                assert(body_k =~= step + body_k1);
                assert(self@.verts =~= arena_pre + step);
                assert(self@.verts + body_k1 =~= arena_pre + body_k);
            }
            k = k + 1;
        }
        if path.closed {
            proof {
                let body = stroke_pts_from_s(
                    pre.points,
                    first as int,
                    count as int,
                    0,
                    count as int,
                    w as int,
                    u0 as int,
                    u1 as int,
                    ncap as int,
                    line_join,
                );
                lemma_stroke_pts_len(
                    pre.points,
                    first as int,
                    count as int,
                    0,
                    count as int,
                    w as int,
                    u0 as int,
                    u1 as int,
                    ncap as int,
                    line_join,
                );
                assert(self@.verts + stroke_pts_from_s(
                    pre.points,
                    first as int,
                    count as int,
                    e0 as int,
                    e0 as int,
                    w as int,
                    u0 as int,
                    u1 as int,
                    ncap as int,
                    line_join,
                ) =~= self@.verts);
                assert(self@.verts == caps_done + body);
                assert(caps_done == pre.verts);
                assert(caps_done.len() == start as int);
                assert(self@.verts.len() >= start + 2);
                assert(self@.verts.len() == self.vertexes@.len());
            }
            let vlen = self.vertexes.len();
            let v0 = self.vertexes[start];
            let v1 = self.vertexes[start + 1];
            proof {
                let body = stroke_pts_from_s(
                    pre.points,
                    first as int,
                    count as int,
                    0,
                    count as int,
                    w as int,
                    u0 as int,
                    u1 as int,
                    ncap as int,
                    line_join,
                );
                assert(v0@ == self@.verts[start as int]);
                assert(v1@ == self@.verts[start as int + 1]);
                assert(self@.verts[start as int] == body[0]);
                assert(self@.verts[start as int + 1] == body[1]);
            }
            push_vert(&mut self.vertexes, v0.x, v0.y, u0, FX_ONE);
            push_vert(&mut self.vertexes, v1.x, v1.y, u1, FX_ONE);
            proof {
                let body = stroke_pts_from_s(
                    pre.points,
                    first as int,
                    count as int,
                    0,
                    count as int,
                    w as int,
                    u0 as int,
                    u1 as int,
                    ncap as int,
                    line_join,
                );
                assert(v0@ == body[0]);
                assert(v1@ == body[1]);
                assert(vs =~= body + seq![
                    svert(body[0].x, body[0].y, u0 as int, FX_ONE as int),
                    svert(body[1].x, body[1].y, u1 as int, FX_ONE as int),
                ]);
                assert(self@.verts =~= pre.verts + vs);
            }
        } else {
            let q0 = self.points[first + count - 2];
            let q1 = self.points[first + count - 1];
            let mut d = Point::new(fx_sub(q1.xy.x, q0.xy.x), fx_sub(q1.xy.y, q0.xy.y));
            let _seg_len = d.normalize();
            let ghost loop_done = self@.verts;
            let ghost body = stroke_pts_from_s(
                pre.points,
                first as int,
                count as int,
                1,
                count as int - 1,
                w as int,
                u0 as int,
                u1 as int,
                ncap as int,
                line_join,
            );
            proof {
                assert(loop_done + stroke_pts_from_s(
                    pre.points,
                    first as int,
                    count as int,
                    e0 as int,
                    e0 as int,
                    w as int,
                    u0 as int,
                    u1 as int,
                    ncap as int,
                    line_join,
                ) =~= loop_done);
                assert(loop_done == caps_done + body);
                assert(caps_done == pre.verts + csv);
            }
            match line_cap {
                LineCap::Butt => {
                    butt_cap_end(
                        &mut self.vertexes,
                        &q1,
                        d.x,
                        d.y,
                        w,
                        fx_neg(fx_mul(aa, 32768)),
                        aa,
                        u0,
                        u1,
                    );
                },
                LineCap::Square => {
                    butt_cap_end(&mut self.vertexes, &q1, d.x, d.y, w, fx_sub(w, aa), aa, u0, u1);
                },
                LineCap::Round => {
                    round_cap_end(&mut self.vertexes, &q1, d.x, d.y, w, ncap, u0, u1);
                },
            }
            proof {
                assert(q1@ == pre.points[first + count - 1]);
                assert(q0@ == pre.points[first + count - 2]);
                assert(self@.verts =~= pre.verts + vs);
            }
        }
        let nstroke = ptrdistance(start, self.vertexes.len());
        p2.num_stroke = nstroke;
        self.paths[i] = p2;
        proof {
            assert(self@.paths =~= pre.paths.update(
                i as int,
                SPath {
                    fill_first: 0,
                    nfill: 0,
                    stroke_first: pre.verts.len() as int,
                    nstroke: vs.len() as int,
                    ..path@
                },
            ));
            assert(self@ =~= (SCache {
                verts: pre.verts + vs,
                paths: pre.paths.update(
                    i as int,
                    SPath {
                        fill_first: 0,
                        nfill: 0,
                        stroke_first: pre.verts.len() as int,
                        nstroke: vs.len() as int,
                        ..path@
                    },
                ),
                ..pre
            }));
        }
    }

    /// Expand every subpath into an antialiased triangle-strip stroke in
    /// the shared vertex arena, sized up front from the per-subpath counts.
    pub fn expand_stroke(
        &mut self,
        w: i64,
        fringe: i64,
        line_cap: LineCap,
        line_join: LineJoin,
        miter_limit: i64,
        tess_tol: i64,
    )
        requires
            cache_wf(old(self)@),
        ensures
            final(self)@ == expand_stroke_s(
                old(self)@,
                w as int,
                fringe as int,
                line_cap,
                line_join,
                miter_limit as int,
                tess_tol as int,
            ),
            cache_wf(final(self)@),
    {
        let aa = fringe;
        let ncap = curve_divs(w, crate::trig::PI_FX, tess_tol);
        let w = fx_add(w, fx_mul(aa, 32768));
        let u0: i64 = if aa == 0 {
            32768
        } else {
            0
        };
        let u1: i64 = if aa == 0 {
            32768
        } else {
            FX_ONE
        };
        self.calculate_joins(w, line_join, miter_limit);
        let npaths = self.paths.len();
        let mut cverts: usize = 0;
        let mut pi: usize = 0;
        while pi < npaths
            invariant
                pi <= npaths,
                npaths == self.paths.len(),
            decreases npaths - pi,
        {
            let path = self.paths[pi];
            if matches!(line_join, LineJoin::Round) {
                cverts = crate::fixed::usat_add(
                    cverts,
                    crate::fixed::usat_mul(
                        crate::fixed::usat_add(
                            crate::fixed::usat_add(
                                path.count,
                                crate::fixed::usat_mul(
                                    path.num_bevel,
                                    crate::fixed::usat_add(ncap, 2),
                                ),
                            ),
                            1,
                        ),
                        2,
                    ),
                );
            } else {
                cverts = crate::fixed::usat_add(
                    cverts,
                    crate::fixed::usat_mul(
                        crate::fixed::usat_add(
                            crate::fixed::usat_add(
                                path.count,
                                crate::fixed::usat_mul(path.num_bevel, 5),
                            ),
                            1,
                        ),
                        2,
                    ),
                );
                if !path.closed {
                    if matches!(line_cap, LineCap::Round) {
                        cverts = crate::fixed::usat_add(
                            cverts,
                            crate::fixed::usat_mul(
                                crate::fixed::usat_add(crate::fixed::usat_mul(ncap, 2), 2),
                                2,
                            ),
                        );
                    } else {
                        cverts = crate::fixed::usat_add(cverts, 12);
                    }
                }
            }
            pi = pi + 1;
        }
        self.vertexes.clear();
        self.vertexes.reserve(cverts);
        let ghost c2 = self@;
        proof {
            assert(c2 =~= (SCache {
                verts: Seq::<SVertex>::empty(),
                ..calculate_joins_s(old(self)@, w as int, line_join, miter_limit as int)
            }));
        }
        let mut i: usize = 0;
        while i < npaths
            invariant
                i <= npaths,
                self@.paths.len() == npaths,
                cache_wf(self@),
                2 <= ncap <= 0x100_0001,
                stroke_emit_from_s(
                    self@,
                    i as int,
                    w as int,
                    u0 as int,
                    u1 as int,
                    ncap as int,
                    aa as int,
                    line_cap,
                    line_join,
                ) == stroke_emit_from_s(
                    c2,
                    0,
                    w as int,
                    u0 as int,
                    u1 as int,
                    ncap as int,
                    aa as int,
                    line_cap,
                    line_join,
                ),
            decreases npaths - i,
        {
            let ghost pre = self@;
            self.stroke_one_path(i, w, u0, u1, ncap, aa, line_cap, line_join);
            i = i + 1;
        }
        proof {
            assert(stroke_emit_from_s(
                self@,
                npaths as int,
                w as int,
                u0 as int,
                u1 as int,
                ncap as int,
                aa as int,
                line_cap,
                line_join,
            ) == self@);
        }
    }
    /// Emit one fill subpath: the interior fan, then the fringe ring when
    /// antialiasing is on.
    #[verifier::rlimit(100)]
    fn fill_one_path(&mut self, i: usize, w: i64, aa: i64, fringe: bool, convex: bool)
        requires
            cache_wf(old(self)@),
            i < old(self)@.paths.len(),
        ensures
            fill_emit_from_s(old(self)@, i as int, w as int, aa as int, fringe, convex)
                == fill_emit_from_s(final(self)@, i as int + 1, w as int, aa as int, fringe, convex),
            final(self)@.paths.len() == old(self)@.paths.len(),
            final(self)@.points == old(self)@.points,
            cache_wf(final(self)@),
    {
        let ghost pre = self@;
        let path = self.paths[i];
        let first = path.first;
        let count = path.count;
        let woff = fx_mul(aa, 32768);
        let fill_first = self.vertexes.len();
        let mut p2 = path;
        p2.fill_first = fill_first;
        if count == 0 {
            p2.num_fill = 0;
            p2.stroke_first = 0;
            p2.num_stroke = 0;
            self.paths[i] = p2;
            proof {
                assert(self@ =~= (SCache {
                    paths: pre.paths.update(
                        i as int,
                        SPath {
                            fill_first: pre.verts.len() as int,
                            nfill: 0,
                            stroke_first: 0,
                            nstroke: 0,
                            ..path@
                        },
                    ),
                    ..pre
                }));
                assert(fill_emit_from_s(pre, i as int, w as int, aa as int, fringe, convex)
                    == fill_emit_from_s(self@, i as int + 1, w as int, aa as int, fringe, convex));
            }
            return ;
        }
        let ghost fillvs = fill_pts_from_s(
            pre.points,
            first as int,
            count as int,
            0,
            woff as int,
            fringe,
        );
        let mut k: usize = 0;
        while k < count
            invariant
                k <= count,
                count == path@.count,
                first == path@.first,
                path@ == pre.paths[i as int],
                first + count <= self@.points.len(),
                self@.points == pre.points,
                self@.paths == pre.paths,
                self@.bmin == pre.bmin,
                self@.bmax == pre.bmax,
                cache_wf(self@),
                self@.verts + fill_pts_from_s(
                    pre.points,
                    first as int,
                    count as int,
                    k as int,
                    woff as int,
                    fringe,
                ) == pre.verts + fill_pts_from_s(
                    pre.points,
                    first as int,
                    count as int,
                    0,
                    woff as int,
                    fringe,
                ),
            decreases count - k,
        {
            let ghost arena_pre = self@.verts;
            let i1 = first + k;
            let i0 = if k == 0 {
                first + count - 1
            } else {
                first + k - 1
            };
            let p0 = self.points[i0];
            let p1 = self.points[i1];
            if fringe {
                if p1.flags.bevel {
                    if p1.flags.left {
                        push_vert(
                            &mut self.vertexes,
                            fx_add(p1.xy.x, fx_mul(p1.dm.x, woff)),
                            fx_add(p1.xy.y, fx_mul(p1.dm.y, woff)),
                            32768,
                            FX_ONE,
                        );
                    } else {
                        let dlx0 = p0.d.y;
                        let dly0 = fx_neg(p0.d.x);
                        let dlx1 = p1.d.y;
                        let dly1 = fx_neg(p1.d.x);
                        push_vert(
                            &mut self.vertexes,
                            fx_add(p1.xy.x, fx_mul(dlx0, woff)),
                            fx_add(p1.xy.y, fx_mul(dly0, woff)),
                            32768,
                            FX_ONE,
                        );
                        push_vert(
                            &mut self.vertexes,
                            fx_add(p1.xy.x, fx_mul(dlx1, woff)),
                            fx_add(p1.xy.y, fx_mul(dly1, woff)),
                            32768,
                            FX_ONE,
                        );
                    }
                } else {
                    push_vert(
                        &mut self.vertexes,
                        fx_add(p1.xy.x, fx_mul(p1.dm.x, woff)),
                        fx_add(p1.xy.y, fx_mul(p1.dm.y, woff)),
                        32768,
                        FX_ONE,
                    );
                }
            } else {
                push_vert(&mut self.vertexes, p1.xy.x, p1.xy.y, 32768, FX_ONE);
            }
            proof {
                let body_k = fill_pts_from_s(
                    pre.points,
                    first as int,
                    count as int,
                    k as int,
                    woff as int,
                    fringe,
                );
                let body_k1 = fill_pts_from_s(
                    pre.points,
                    first as int,
                    count as int,
                    k as int + 1,
                    woff as int,
                    fringe,
                );
                assert(p0@ == pre.points[i0 as int]);
                assert(p1@ == pre.points[i1 as int]);
                assert(self@.verts + body_k1 =~= arena_pre + body_k);
            }
            k = k + 1;
        }
        proof {
            assert(self@.verts + fill_pts_from_s(
                pre.points,
                first as int,
                count as int,
                count as int,
                woff as int,
                fringe,
            ) =~= self@.verts);
            assert(self@.verts == pre.verts + fillvs);
        }
        p2.num_fill = ptrdistance(fill_first, self.vertexes.len());
        if fringe {
            let lw0 = fx_add(w, woff);
            let rw = fx_sub(w, woff);
            let lw: i64 = if convex {
                woff
            } else {
                lw0
            };
            let lu: i64 = if convex {
                32768
            } else {
                0
            };
            let ru: i64 = FX_ONE;
            let ring_start = self.vertexes.len();
            let ghost ring_base = self@.verts;
            let ghost ring = fill_ring_from_s(
                pre.points,
                first as int,
                count as int,
                0,
                lw as int,
                rw as int,
                lu as int,
                ru as int,
            );
            let mut k2: usize = 0;
            while k2 < count
                invariant
                    k2 <= count,
                    count == path@.count,
                    first == path@.first,
                    path@ == pre.paths[i as int],
                    first + count <= self@.points.len(),
                    self@.points == pre.points,
                    self@.paths == pre.paths,
                    self@.bmin == pre.bmin,
                    self@.bmax == pre.bmax,
                    cache_wf(self@),
                    self@.verts + fill_ring_from_s(
                        pre.points,
                        first as int,
                        count as int,
                        k2 as int,
                        lw as int,
                        rw as int,
                        lu as int,
                        ru as int,
                    ) == ring_base + fill_ring_from_s(
                        pre.points,
                        first as int,
                        count as int,
                        0,
                        lw as int,
                        rw as int,
                        lu as int,
                        ru as int,
                    ),
                decreases count - k2,
            {
                let ghost arena_pre = self@.verts;
                let i1 = first + k2;
                let i0 = if k2 == 0 {
                    first + count - 1
                } else {
                    first + k2 - 1
                };
                let p0 = self.points[i0];
                let p1 = self.points[i1];
                if p1.flags.bevel || p1.flags.innerbevel {
                    bevel_join(&mut self.vertexes, &p0, &p1, lw, rw, lu, ru);
                } else {
                    push_vert(
                        &mut self.vertexes,
                        fx_add(p1.xy.x, fx_mul(p1.dm.x, lw)),
                        fx_add(p1.xy.y, fx_mul(p1.dm.y, lw)),
                        lu,
                        FX_ONE,
                    );
                    push_vert(
                        &mut self.vertexes,
                        fx_sub(p1.xy.x, fx_mul(p1.dm.x, rw)),
                        fx_sub(p1.xy.y, fx_mul(p1.dm.y, rw)),
                        ru,
                        FX_ONE,
                    );
                }
                proof {
                    let body_k = fill_ring_from_s(
                        pre.points,
                        first as int,
                        count as int,
                        k2 as int,
                        lw as int,
                        rw as int,
                        lu as int,
                        ru as int,
                    );
                    let body_k1 = fill_ring_from_s(
                        pre.points,
                        first as int,
                        count as int,
                        k2 as int + 1,
                        lw as int,
                        rw as int,
                        lu as int,
                        ru as int,
                    );
                    assert(p0@ == pre.points[i0 as int]);
                    assert(p1@ == pre.points[i1 as int]);
                    assert(self@.verts + body_k1 =~= arena_pre + body_k);
                }
                k2 = k2 + 1;
            }
            proof {
                lemma_fill_ring_len(
                    pre.points,
                    first as int,
                    count as int,
                    0,
                    lw as int,
                    rw as int,
                    lu as int,
                    ru as int,
                );
                assert(self@.verts + fill_ring_from_s(
                    pre.points,
                    first as int,
                    count as int,
                    count as int,
                    lw as int,
                    rw as int,
                    lu as int,
                    ru as int,
                ) =~= self@.verts);
                assert(self@.verts == ring_base + ring);
                assert(ring_base.len() == ring_start as int);
                assert(self@.verts.len() >= ring_start + 2);
                assert(self@.verts.len() == self.vertexes@.len());
            }
            let vlen2 = self.vertexes.len();
            let r0 = self.vertexes[ring_start];
            let r1 = self.vertexes[ring_start + 1];
            proof {
                assert(r0@ == self@.verts[ring_start as int]);
                assert(r1@ == self@.verts[ring_start as int + 1]);
                assert(self@.verts[ring_start as int] == ring[0]);
                assert(self@.verts[ring_start as int + 1] == ring[1]);
            }
            push_vert(&mut self.vertexes, r0.x, r0.y, lu, FX_ONE);
            push_vert(&mut self.vertexes, r1.x, r1.y, ru, FX_ONE);
            proof {
                assert(self@.verts.len() == self.vertexes@.len());
                assert(self@.verts.len() >= ring_start + 4);
            }
            p2.stroke_first = ring_start;
            p2.num_stroke = ptrdistance(ring_start, self.vertexes.len());
            self.paths[i] = p2;
            proof {
                let ringfull = fill_ring_verts_s(
                    pre.points,
                    first as int,
                    count as int,
                    lw as int,
                    rw as int,
                    lu as int,
                    ru as int,
                );
                assert(ringfull =~= ring + seq![
                    svert(ring[0].x, ring[0].y, lu as int, FX_ONE as int),
                    svert(ring[1].x, ring[1].y, ru as int, FX_ONE as int),
                ]);
                assert(self@.verts =~= pre.verts + fillvs + ringfull);
                assert(self@.paths =~= pre.paths.update(
                    i as int,
                    SPath {
                        fill_first: pre.verts.len() as int,
                        nfill: fillvs.len() as int,
                        stroke_first: (pre.verts.len() + fillvs.len()) as int,
                        nstroke: ringfull.len() as int,
                        ..path@
                    },
                ));
                assert(self@ =~= (SCache {
                    verts: pre.verts + fillvs + ringfull,
                    paths: pre.paths.update(
                        i as int,
                        SPath {
                            fill_first: pre.verts.len() as int,
                            nfill: fillvs.len() as int,
                            stroke_first: (pre.verts.len() + fillvs.len()) as int,
                            nstroke: ringfull.len() as int,
                            ..path@
                        },
                    ),
                    ..pre
                }));
                assert(fill_emit_from_s(pre, i as int, w as int, aa as int, fringe, convex)
                    == fill_emit_from_s(self@, i as int + 1, w as int, aa as int, fringe, convex));
            }
        } else {
            p2.stroke_first = 0;
            p2.num_stroke = 0;
            self.paths[i] = p2;
            proof {
                assert(self@ =~= (SCache {
                    verts: pre.verts + fillvs,
                    paths: pre.paths.update(
                        i as int,
                        SPath {
                            fill_first: pre.verts.len() as int,
                            nfill: fillvs.len() as int,
                            stroke_first: 0,
                            nstroke: 0,
                            ..path@
                        },
                    ),
                    ..pre
                }));
                assert(fill_emit_from_s(pre, i as int, w as int, aa as int, fringe, convex)
                    == fill_emit_from_s(self@, i as int + 1, w as int, aa as int, fringe, convex));
            }
        }
    }

    /// Expand every subpath into fill geometry in the shared vertex arena:
    /// the interior polygon plus, when a fringe width is active, an
    /// antialiasing ring of stroke-like geometry around it.
    pub fn expand_fill(&mut self, w: i64, line_join: LineJoin, miter_limit: i64, fringe_width: i64)
        requires
            cache_wf(old(self)@),
        ensures
            final(self)@ == expand_fill_s(
                old(self)@,
                w as int,
                line_join,
                miter_limit as int,
                fringe_width as int,
            ),
            cache_wf(final(self)@),
    {
        let aa = fringe_width;
        let fringe = w > 0;
        self.calculate_joins(w, line_join, miter_limit);
        let npaths = self.paths.len();
        let convex = npaths == 1 && self.paths[0].convex;
        let mut cverts: usize = 0;
        let mut pi: usize = 0;
        while pi < npaths
            invariant
                pi <= npaths,
                npaths == self.paths.len(),
            decreases npaths - pi,
        {
            let path = self.paths[pi];
            cverts = crate::fixed::usat_add(
                cverts,
                crate::fixed::usat_add(crate::fixed::usat_add(path.count, path.num_bevel), 1),
            );
            if fringe {
                cverts = crate::fixed::usat_add(
                    cverts,
                    crate::fixed::usat_mul(
                        crate::fixed::usat_add(
                            crate::fixed::usat_add(
                                path.count,
                                crate::fixed::usat_mul(path.num_bevel, 5),
                            ),
                            1,
                        ),
                        2,
                    ),
                );
            }
            pi = pi + 1;
        }
        self.vertexes.clear();
        self.vertexes.reserve(cverts);
        let ghost c2 = self@;
        proof {
            assert(c2 =~= (SCache {
                verts: Seq::<SVertex>::empty(),
                ..calculate_joins_s(old(self)@, w as int, line_join, miter_limit as int)
            }));
        }
        let mut i: usize = 0;
        while i < npaths
            invariant
                i <= npaths,
                self@.paths.len() == npaths,
                cache_wf(self@),
                fill_emit_from_s(self@, i as int, w as int, aa as int, fringe, convex)
                    == fill_emit_from_s(c2, 0, w as int, aa as int, fringe, convex),
            decreases npaths - i,
        {
            self.fill_one_path(i, w, aa, fringe, convex);
            i = i + 1;
        }
        proof {
            assert(fill_emit_from_s(self@, npaths as int, w as int, aa as int, fringe, convex)
                == self@);
        }
    }
}

} // verus!
