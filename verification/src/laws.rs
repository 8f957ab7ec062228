//! Laws of the tessellation engine, proved against the spec mirrors in
//! [`crate::cache`].

use vstd::prelude::*;
use crate::cache::{
    cache_wf, calculate_joins_s, curve_divs_s, expand_fill_s, expand_stroke_s, fill_emit_from_s,
    fill_pts_from_s, joins_from_s, joins_one_path_s, joins_path_from_s, round_cap_start_fan_s,
    round_cap_start_s, stroke_emit_from_s, stroke_path_verts_s, stroke_pts_from_s, svert, SCache,
    SVPoint,
};
use crate::context::{LineCap, LineJoin, SPath, Solidity};
use crate::fixed::{fx_div_s, fx_mul_s, FX_ONE};

verus! {

proof fn lemma_round_cap_fan_len(
    px: int,
    py: int,
    dlx: int,
    dly: int,
    dx: int,
    dy: int,
    w: int,
    ncap: int,
    u0: int,
    i: int,
)
    requires
        0 <= i <= ncap,
    ensures
        round_cap_start_fan_s(px, py, dlx, dly, dx, dy, w, ncap, u0, i).len() == 2 * (ncap - i),
    decreases ncap - i,
{
    if i < ncap {
        lemma_round_cap_fan_len(px, py, dlx, dly, dx, dy, w, ncap, u0, i + 1);
    }
}

proof fn lemma_round_cap_fan_v(
    px: int,
    py: int,
    dlx: int,
    dly: int,
    dx: int,
    dy: int,
    w: int,
    ncap: int,
    u0: int,
    i: int,
)
    requires
        0 <= i <= ncap,
    ensures
        forall|j: int|
            0 <= j < round_cap_start_fan_s(px, py, dlx, dly, dx, dy, w, ncap, u0, i).len()
                ==> (#[trigger] round_cap_start_fan_s(px, py, dlx, dly, dx, dy, w, ncap, u0, i)[j]).v
                == FX_ONE as int,
    decreases ncap - i,
{
    if i < ncap {
        lemma_round_cap_fan_v(px, py, dlx, dly, dx, dy, w, ncap, u0, i + 1);
        let r = round_cap_start_fan_s(px, py, dlx, dly, dx, dy, w, ncap, u0, i);
        let r1 = round_cap_start_fan_s(px, py, dlx, dly, dx, dy, w, ncap, u0, i + 1);
        assert forall|j: int| 0 <= j < r.len() implies (#[trigger] r[j]).v == FX_ONE as int by {
            if j >= 2 {
                assert(r[j] == r1[j - 2]);
            }
        };
    }
}

/// Law: a round start cap for stroke radius `r` at tessellation tolerance
/// `tol` emits exactly `2 * ncap + 2` vertices, where `ncap` is the
/// arc-subdivision count `max(2, ceil(pi / (2 * acos(r / (r + tol)))))`,
/// always at least 2; every cap vertex sits on the solid edge (`v == 1`).
pub proof fn lemma_round_cap_vertex_count(
    p: SVPoint,
    dx: int,
    dy: int,
    w: int,
    r: int,
    tol: int,
    u0: int,
    u1: int,
)
    ensures
        curve_divs_s(r, crate::trig::PI_FX as int, tol) >= 2,
        round_cap_start_s(
            p,
            dx,
            dy,
            w,
            curve_divs_s(r, crate::trig::PI_FX as int, tol),
            u0,
            u1,
        ).len() == 2 * curve_divs_s(r, crate::trig::PI_FX as int, tol) + 2,
        forall|j: int|
            0 <= j < round_cap_start_s(
                p,
                dx,
                dy,
                w,
                curve_divs_s(r, crate::trig::PI_FX as int, tol),
                u0,
                u1,
            ).len() ==> (#[trigger] round_cap_start_s(
                p,
                dx,
                dy,
                w,
                curve_divs_s(r, crate::trig::PI_FX as int, tol),
                u0,
                u1,
            )[j]).v == FX_ONE as int,
{
    let ncap = curve_divs_s(r, crate::trig::PI_FX as int, tol);
    let dly = crate::fixed::sat_s(-dx);
    lemma_round_cap_fan_len(p.x, p.y, dy, dly, dx, dy, w, ncap, u0, 0);
    lemma_round_cap_fan_v(p.x, p.y, dy, dly, dx, dy, w, ncap, u0, 0);
    let cap = round_cap_start_s(p, dx, dy, w, ncap, u0, u1);
    let fan = round_cap_start_fan_s(p.x, p.y, dy, dly, dx, dy, w, ncap, u0, 0);
    assert forall|j: int| 0 <= j < cap.len() implies (#[trigger] cap[j]).v == FX_ONE as int by {
        if j < fan.len() {
            assert(cap[j] == fan[j]);
        }
    };
}

proof fn lemma_joins_nbevel_zero(
    points: Seq<SVPoint>,
    first: int,
    count: int,
    k: int,
    iw: int,
    line_join: LineJoin,
    miter_limit: int,
    nleft: int,
    nbevel: int,
)
    requires
        0 <= k,
        0 <= first,
        first + count <= points.len(),
    ensures
        ({
            let r = joins_path_from_s(
                points,
                first,
                count,
                k,
                iw,
                line_join,
                miter_limit,
                nleft,
                nbevel,
            );
            &&& r.2 >= nbevel
            &&& r.0.len() == points.len()
            &&& (r.2 == nbevel ==> forall|j: int|
                first + k <= j < first + count ==> !(#[trigger] r.0[j]).bevel && !r.0[j].innerbevel)
            &&& (forall|j: int|
                !(first + k <= j < first + count) && 0 <= j < points.len()
                    ==> #[trigger] r.0[j] == points[j])
        }),
    decreases count - k,
{
    if 0 <= k < count {
        let i1 = first + k;
        let i0 = if k == 0 {
            first + count - 1
        } else {
            first + k - 1
        };
        let np = crate::cache::join_point_s(points[i0], points[i1], iw, line_join, miter_limit);
        let nl = if np.left {
            nleft + 1
        } else {
            nleft
        };
        let nb = if np.bevel || np.innerbevel {
            nbevel + 1
        } else {
            nbevel
        };
        let upd = points.update(i1, np);
        lemma_joins_nbevel_zero(upd, first, count, k + 1, iw, line_join, miter_limit, nl, nb);
        let r1 = joins_path_from_s(upd, first, count, k + 1, iw, line_join, miter_limit, nl, nb);
        let r = joins_path_from_s(
            points,
            first,
            count,
            k,
            iw,
            line_join,
            miter_limit,
            nleft,
            nbevel,
        );
        assert(r == r1);
        if 0 <= i1 < points.len() {
            assert(r1.0[i1] == upd[i1]);
        }
        if r.2 == nbevel {
            assert(nb == nbevel);
            assert(!np.bevel && !np.innerbevel);
            assert forall|j: int| first + k <= j < first + count implies !(#[trigger] r.0[j]).bevel
                && !r.0[j].innerbevel by {
                if j == i1 {
                    assert(r.0[j] == upd[i1]);
                } else {
                    assert(first + k + 1 <= j < first + count);
                }
            };
        }
        assert forall|j: int|
            !(first + k <= j < first + count) && 0 <= j < points.len() implies #[trigger] r.0[j]
            == points[j] by {
            assert(r1.0[j] == upd[j]);
            assert(upd[j] == points[j]);
        };
    }
}

proof fn lemma_stroke_pts_no_bevel_len(
    points: Seq<SVPoint>,
    first: int,
    count: int,
    k: int,
    e: int,
    w: int,
    u0: int,
    u1: int,
    ncap: int,
    line_join: LineJoin,
)
    requires
        0 <= k,
        e <= count,
        forall|j: int|
            first <= j < first + count ==> !(#[trigger] points[j]).bevel && !points[j].innerbevel,
    ensures
        stroke_pts_from_s(points, first, count, k, e, w, u0, u1, ncap, line_join).len() == 2 * (
        if k < e {
            e - k
        } else {
            0
        }),
    decreases e - k,
{
    if k < e {
        lemma_stroke_pts_no_bevel_len(points, first, count, k + 1, e, w, u0, u1, ncap, line_join);
    }
}

proof fn lemma_stroke_emit_paths(
    c: SCache,
    i: int,
    w: int,
    u0: int,
    u1: int,
    ncap: int,
    aa: int,
    line_cap: LineCap,
    line_join: LineJoin,
)
    requires
        0 <= i <= c.paths.len(),
    ensures
        ({
            let r = stroke_emit_from_s(c, i, w, u0, u1, ncap, aa, line_cap, line_join);
            &&& r.points == c.points
            &&& r.paths.len() == c.paths.len()
            &&& (forall|j: int|
                i <= j < c.paths.len() ==> (#[trigger] r.paths[j]).nstroke
                    == stroke_path_verts_s(
                    c.points,
                    c.paths[j],
                    w,
                    u0,
                    u1,
                    ncap,
                    aa,
                    line_cap,
                    line_join,
                ).len() && r.paths[j].count == c.paths[j].count && r.paths[j].closed
                    == c.paths[j].closed)
            &&& (forall|j: int| 0 <= j < i ==> #[trigger] r.paths[j] == c.paths[j])
        }),
    decreases c.paths.len() - i,
{
    if i < c.paths.len() {
        let path = c.paths[i];
        let vs = stroke_path_verts_s(c.points, path, w, u0, u1, ncap, aa, line_cap, line_join);
        let np = SPath {
            fill_first: 0,
            nfill: 0,
            stroke_first: c.verts.len() as int,
            nstroke: vs.len() as int,
            ..path
        };
        let c1 = SCache { verts: c.verts + vs, paths: c.paths.update(i, np), ..c };
        lemma_stroke_emit_paths(c1, i + 1, w, u0, u1, ncap, aa, line_cap, line_join);
        let r = stroke_emit_from_s(c, i, w, u0, u1, ncap, aa, line_cap, line_join);
        let r1 = stroke_emit_from_s(c1, i + 1, w, u0, u1, ncap, aa, line_cap, line_join);
        assert(r == r1);
        assert(r1.paths[i as int] == c1.paths[i as int]);
        assert(c1.paths[i as int] == np);
        assert forall|j: int|
            i <= j < c.paths.len() implies (#[trigger] r.paths[j]).nstroke == stroke_path_verts_s(
            c.points,
            c.paths[j],
            w,
            u0,
            u1,
            ncap,
            aa,
            line_cap,
            line_join,
        ).len() && r.paths[j].count == c.paths[j].count && r.paths[j].closed == c.paths[j].closed by {
            if j > i {
                assert(c1.paths[j] == c.paths[j]);
                assert(c1.points == c.points);
            }
        };
    }
}

proof fn lemma_joins_one_path_shape(
    c: SCache,
    j: int,
    iw: int,
    line_join: LineJoin,
    miter_limit: int,
)
    requires
        cache_wf(c),
        0 <= j < c.paths.len(),
    ensures
        ({
            let r = joins_one_path_s(c, j, iw, line_join, miter_limit);
            &&& r.paths.len() == c.paths.len()
            &&& r.points.len() == c.points.len()
            &&& r.verts == c.verts
            &&& (forall|m: int|
                0 <= m < c.paths.len() && m != j ==> #[trigger] r.paths[m] == c.paths[m])
            &&& r.paths[j].first == c.paths[j].first
            &&& r.paths[j].count == c.paths[j].count
            &&& r.paths[j].closed == c.paths[j].closed
            &&& r.paths[j].solidity == c.paths[j].solidity
        }),
{
    let path = c.paths[j];
    lemma_joins_nbevel_zero(c.points, path.first, path.count, 0, iw, line_join, miter_limit, 0, 0);
}

proof fn lemma_joins_from_shape(c: SCache, i: int, iw: int, line_join: LineJoin, miter_limit: int)
    requires
        cache_wf(c),
        0 <= i <= c.paths.len(),
    ensures
        ({
            let r = joins_from_s(c, i, iw, line_join, miter_limit);
            &&& r.paths.len() == c.paths.len()
            &&& r.points.len() == c.points.len()
            &&& r.verts == c.verts
            &&& (forall|m: int|
                i <= m < c.paths.len() ==> (#[trigger] r.paths[m]).first == c.paths[m].first
                    && r.paths[m].count == c.paths[m].count && r.paths[m].closed
                    == c.paths[m].closed && r.paths[m].solidity == c.paths[m].solidity)
            &&& (forall|m: int| 0 <= m < i ==> #[trigger] r.paths[m] == c.paths[m])
        }),
    decreases c.paths.len() - i,
{
    if i < c.paths.len() {
        let c1 = joins_one_path_s(c, i, iw, line_join, miter_limit);
        lemma_joins_one_path_shape(c, i, iw, line_join, miter_limit);
        proof_joins_wf(c, i, iw, line_join, miter_limit);
        lemma_joins_from_shape(c1, i + 1, iw, line_join, miter_limit);
        let r = joins_from_s(c, i, iw, line_join, miter_limit);
        let r1 = joins_from_s(c1, i + 1, iw, line_join, miter_limit);
        assert(r == r1);
        assert(r1.paths[i as int] == c1.paths[i as int]);
        assert forall|m: int|
            i <= m < c.paths.len() implies (#[trigger] r.paths[m]).first == c.paths[m].first
            && r.paths[m].count == c.paths[m].count && r.paths[m].closed == c.paths[m].closed
            && r.paths[m].solidity == c.paths[m].solidity by {
            if m > i {
                assert(c1.paths[m] == c.paths[m]);
            }
        };
    }
}

/// Law: a closed subpath that the join pass left without any beveled or
/// inner-beveled point, stroked with a miter join, emits exactly
/// `2 * (count + 1)` stroke vertices: one offset pair per point plus the
/// closing copy of the first pair.
pub proof fn lemma_stroke_miter_vertex_count(
    c: SCache,
    j: int,
    w0: int,
    fringe: int,
    line_cap: LineCap,
    miter_limit: int,
    tess_tol: int,
)
    requires
        cache_wf(c),
        0 <= j < c.paths.len(),
        c.paths[j].closed,
        c.paths[j].count > 0,
        ({
            let w = crate::fixed::fx_add_s(w0, fx_mul_s(fringe, 32768));
            let jc = calculate_joins_s(c, w, LineJoin::Miter, miter_limit);
            forall|m: int|
                jc.paths[j].first <= m < jc.paths[j].first + jc.paths[j].count ==> !(
                #[trigger] jc.points[m]).bevel && !jc.points[m].innerbevel
        }),
    ensures
        expand_stroke_s(c, w0, fringe, line_cap, LineJoin::Miter, miter_limit, tess_tol).paths[j].nstroke
            == 2 * (c.paths[j].count + 1),
{
    let aa = fringe;
    let ncap = curve_divs_s(w0, crate::trig::PI_FX as int, tess_tol);
    let w = crate::fixed::fx_add_s(w0, fx_mul_s(aa, 32768));
    let u0: int = if aa == 0 {
        32768
    } else {
        0
    };
    let u1: int = if aa == 0 {
        32768
    } else {
        FX_ONE as int
    };
    let iw: int = if w > 0 {
        fx_div_s(FX_ONE as int, w)
    } else {
        0
    };
    let c1 = calculate_joins_s(c, w, LineJoin::Miter, miter_limit);
    let c2 = SCache { verts: Seq::empty(), ..c1 };
    lemma_joins_from_shape(c, 0, iw, LineJoin::Miter, miter_limit);
    lemma_stroke_emit_paths(c2, 0, w, u0, u1, ncap, aa, line_cap, LineJoin::Miter);
    let path1 = c1.paths[j];
    lemma_stroke_pts_no_bevel_len(
        c2.points,
        path1.first,
        path1.count,
        0,
        path1.count,
        w,
        u0,
        u1,
        ncap,
        LineJoin::Miter,
    );
    let body = stroke_pts_from_s(
        c2.points,
        path1.first,
        path1.count,
        0,
        path1.count,
        w,
        u0,
        u1,
        ncap,
        LineJoin::Miter,
    );
    assert(stroke_path_verts_s(c2.points, path1, w, u0, u1, ncap, aa, line_cap, LineJoin::Miter)
        =~= body + seq![
        svert(body[0].x, body[0].y, u0, FX_ONE as int),
        svert(body[1].x, body[1].y, u1, FX_ONE as int),
    ]);
}

/// One join pass keeps the cache well-formed.
proof fn proof_joins_wf(c: SCache, i: int, iw: int, line_join: LineJoin, miter_limit: int)
    requires
        cache_wf(c),
        0 <= i < c.paths.len(),
    ensures
        cache_wf(joins_one_path_s(c, i, iw, line_join, miter_limit)),
{
    let path = c.paths[i];
    lemma_joins_xy(c.points, path.first, path.count, 0, iw, line_join, miter_limit, 0, 0);
}

/// The join walk changes only miter directions and flags: positions are
/// untouched and the length is kept.
proof fn lemma_joins_xy(
    points: Seq<SVPoint>,
    first: int,
    count: int,
    k: int,
    iw: int,
    line_join: LineJoin,
    miter_limit: int,
    nleft: int,
    nbevel: int,
)
    requires
        0 <= k,
        0 <= first,
        first + count <= points.len(),
    ensures
        ({
            let r = joins_path_from_s(
                points,
                first,
                count,
                k,
                iw,
                line_join,
                miter_limit,
                nleft,
                nbevel,
            );
            &&& r.0.len() == points.len()
            &&& (forall|m: int|
                0 <= m < points.len() ==> (#[trigger] r.0[m]).x == points[m].x && r.0[m].y
                    == points[m].y)
        }),
    decreases count - k,
{
    if 0 <= k < count {
        let i1 = first + k;
        let i0 = if k == 0 {
            first + count - 1
        } else {
            first + k - 1
        };
        let np = crate::cache::join_point_s(points[i0], points[i1], iw, line_join, miter_limit);
        let nl = if np.left {
            nleft + 1
        } else {
            nleft
        };
        let nb = if np.bevel || np.innerbevel {
            nbevel + 1
        } else {
            nbevel
        };
        lemma_joins_xy(
            points.update(i1, np),
            first,
            count,
            k + 1,
            iw,
            line_join,
            miter_limit,
            nl,
            nb,
        );
    }
}


proof fn lemma_fill_pts_copy(points: Seq<SVPoint>, first: int, count: int, k: int, woff: int)
    requires
        0 <= k <= count,
    ensures
        ({
            let r = fill_pts_from_s(points, first, count, k, woff, false);
            &&& r.len() == count - k
            &&& (forall|m: int|
                0 <= m < count - k ==> #[trigger] r[m] == svert(
                    points[first + k + m].x,
                    points[first + k + m].y,
                    32768,
                    65536,
                ))
        }),
    decreases count - k,
{
    if k < count {
        lemma_fill_pts_copy(points, first, count, k + 1, woff);
        let r = fill_pts_from_s(points, first, count, k, woff, false);
        let r1 = fill_pts_from_s(points, first, count, k + 1, woff, false);
        assert(r =~= seq![
            svert(points[first + k].x, points[first + k].y, 32768, 65536),
        ] + r1);
        assert forall|m: int| 0 <= m < count - k implies #[trigger] r[m] == svert(
            points[first + k + m].x,
            points[first + k + m].y,
            32768,
            65536,
        ) by {
            if m > 0 {
                assert(r[m] == r1[m - 1]);
            }
        };
    }
}

#[verifier::rlimit(100)]
#[verifier::spinoff_prover]
proof fn lemma_fill_emit_paths(c: SCache, i: int, w: int, aa: int, convex: bool)
    requires
        0 <= i <= c.paths.len(),
    ensures
        ({
            let r = fill_emit_from_s(c, i, w, aa, false, convex);
            &&& r.points == c.points
            &&& r.paths.len() == c.paths.len()
            &&& r.verts.len() >= c.verts.len()
            &&& r.verts.subrange(0, c.verts.len() as int) =~= c.verts
            &&& (forall|j: int| 0 <= j < i ==> #[trigger] r.paths[j] == c.paths[j])
            &&& (forall|j: int|
                i <= j < c.paths.len() && (#[trigger] c.paths[j]).count > 0 ==> r.paths[j]
                    == (SPath {
                    fill_first: r.paths[j].fill_first,
                    nfill: c.paths[j].count,
                    stroke_first: 0,
                    nstroke: 0,
                    ..c.paths[j]
                }) && 0 <= r.paths[j].fill_first && r.paths[j].fill_first + r.paths[j].nfill
                    <= r.verts.len() && r.verts.subrange(
                    r.paths[j].fill_first,
                    r.paths[j].fill_first + r.paths[j].nfill,
                ) =~= fill_pts_from_s(
                    c.points,
                    c.paths[j].first,
                    c.paths[j].count,
                    0,
                    fx_mul_s(aa, 32768),
                    false,
                ))
        }),
    decreases c.paths.len() - i,
{
    if i < c.paths.len() {
        let path = c.paths[i];
        let woff = fx_mul_s(aa, 32768);
        let r = fill_emit_from_s(c, i, w, aa, false, convex);
        if path.count <= 0 {
            let np = SPath {
                fill_first: c.verts.len() as int,
                nfill: 0,
                stroke_first: 0,
                nstroke: 0,
                ..path
            };
            let c1 = SCache { paths: c.paths.update(i, np), ..c };
            lemma_fill_emit_paths(c1, i + 1, w, aa, convex);
            let r1 = fill_emit_from_s(c1, i + 1, w, aa, false, convex);
            assert(r == r1);
            assert forall|j: int|
                i <= j < c.paths.len() && (#[trigger] c.paths[j]).count > 0 implies r.paths[j]
                == (SPath {
                fill_first: r.paths[j].fill_first,
                nfill: c.paths[j].count,
                stroke_first: 0,
                nstroke: 0,
                ..c.paths[j]
            }) && 0 <= r.paths[j].fill_first && r.paths[j].fill_first + r.paths[j].nfill
                <= r.verts.len() && r.verts.subrange(
                r.paths[j].fill_first,
                r.paths[j].fill_first + r.paths[j].nfill,
            ) =~= fill_pts_from_s(c.points, c.paths[j].first, c.paths[j].count, 0, woff, false) by {
                assert(j != i);
                assert(c1.paths[j] == c.paths[j]);
                assert(c1.points == c.points);
            };
            assert(r.verts.subrange(0, c.verts.len() as int) =~= c.verts);
        } else {
            let fillvs = fill_pts_from_s(c.points, path.first, path.count, 0, woff, false);
            let fill_first = c.verts.len() as int;
            let np = SPath {
                fill_first,
                nfill: fillvs.len() as int,
                stroke_first: 0,
                nstroke: 0,
                ..path
            };
            let c1 = SCache { verts: c.verts + fillvs, paths: c.paths.update(i, np), ..c };
            lemma_fill_emit_paths(c1, i + 1, w, aa, convex);
            let r1 = fill_emit_from_s(c1, i + 1, w, aa, false, convex);
            assert(r == r1);
            lemma_fill_pts_copy(c.points, path.first, path.count, 0, woff);
            assert(r.paths[i as int] == c1.paths[i as int]);
            assert(r.verts.subrange(0, c1.verts.len() as int) =~= c1.verts);
            assert(r.verts.subrange(fill_first, fill_first + fillvs.len()) =~= c1.verts.subrange(
                fill_first,
                fill_first + fillvs.len(),
            ));
            assert(c1.verts.subrange(fill_first, fill_first + fillvs.len()) =~= fillvs);
            assert forall|j: int|
                i <= j < c.paths.len() && (#[trigger] c.paths[j]).count > 0 implies r.paths[j]
                == (SPath {
                fill_first: r.paths[j].fill_first,
                nfill: c.paths[j].count,
                stroke_first: 0,
                nstroke: 0,
                ..c.paths[j]
            }) && 0 <= r.paths[j].fill_first && r.paths[j].fill_first + r.paths[j].nfill
                <= r.verts.len() && r.verts.subrange(
                r.paths[j].fill_first,
                r.paths[j].fill_first + r.paths[j].nfill,
            ) =~= fill_pts_from_s(c.points, c.paths[j].first, c.paths[j].count, 0, woff, false) by {
                if j > i {
                    assert(c1.paths[j] == c.paths[j]);
                    assert(c1.points == c.points);
                }
            };
            assert(r.verts.subrange(0, c.verts.len() as int) =~= c.verts);
        }
    }
}

/// Law: with the fringe disabled (zero half-width), expanding a fill
/// reproduces each subpath's flattened point positions exactly and in
/// order as its fill fan, one vertex per point with texture coordinates
/// (0.5, 1); this holds in particular for every closed convex subpath.
pub proof fn lemma_fill_disabled_copies_points(
    c: SCache,
    j: int,
    line_join: LineJoin,
    miter_limit: int,
    aa: int,
)
    requires
        cache_wf(c),
        0 <= j < c.paths.len(),
        c.paths[j].count > 0,
    ensures
        ({
            let r = expand_fill_s(c, 0, line_join, miter_limit, aa);
            &&& r.paths.len() == c.paths.len()
            &&& r.paths[j].nfill == c.paths[j].count
            &&& (forall|k: int|
                0 <= k < c.paths[j].count ==> r.verts[r.paths[j].fill_first + k] == svert(
                    (#[trigger] c.points[c.paths[j].first + k]).x,
                    c.points[c.paths[j].first + k].y,
                    32768,
                    65536,
                ))
        }),
{
    let iw: int = 0;
    let c1 = calculate_joins_s(c, 0, line_join, miter_limit);
    lemma_joins_from_shape(c, 0, iw, line_join, miter_limit);
    let convex = c1.paths.len() == 1 && c1.paths[0].convex;
    let c2 = SCache { verts: Seq::empty(), ..c1 };
    lemma_fill_emit_paths(c2, 0, 0, aa, convex);
    let woff = fx_mul_s(aa, 32768);
    let r = expand_fill_s(c, 0, line_join, miter_limit, aa);
    lemma_fill_pts_copy(c2.points, c2.paths[j].first, c2.paths[j].count, 0, woff);
    lemma_joins_positions(c, j, iw, line_join, miter_limit);
    assert forall|k: int| 0 <= k < c.paths[j].count implies r.verts[r.paths[j].fill_first + k]
        == svert(
        (#[trigger] c.points[c.paths[j].first + k]).x,
        c.points[c.paths[j].first + k].y,
        32768,
        65536,
    ) by {
        let fillvs = fill_pts_from_s(c2.points, c2.paths[j].first, c2.paths[j].count, 0, woff, false);
        let ff = r.paths[j].fill_first;
        assert(r.paths[j].nfill == c.paths[j].count);
        assert(0 <= k < r.paths[j].nfill);
        assert(r.verts.subrange(ff, ff + r.paths[j].nfill) =~= fillvs);
        assert(fillvs.len() == c2.paths[j].count);
        assert(r.verts.subrange(ff, ff + r.paths[j].nfill)[k] == r.verts[ff + k]);
        assert(r.verts[r.paths[j].fill_first + k] == fillvs[k]);
        assert(fillvs[k] == svert(
            c2.points[c2.paths[j].first + k].x,
            c2.points[c2.paths[j].first + k].y,
            32768,
            65536,
        ));
        assert(c2.points[c.paths[j].first + k].x == c.points[c.paths[j].first + k].x);
    };
}

/// The join pass keeps every stored position.
proof fn lemma_joins_positions(c: SCache, j: int, iw: int, line_join: LineJoin, miter_limit: int)
    requires
        cache_wf(c),
        0 <= j < c.paths.len(),
    ensures
        ({
            let r = joins_from_s(c, 0, iw, line_join, miter_limit);
            &&& r.points.len() == c.points.len()
            &&& (forall|m: int|
                0 <= m < c.points.len() ==> (#[trigger] r.points[m]).x == c.points[m].x
                    && r.points[m].y == c.points[m].y)
        }),
{
    lemma_joins_positions_from(c, 0, iw, line_join, miter_limit);
}

proof fn lemma_joins_positions_from(
    c: SCache,
    i: int,
    iw: int,
    line_join: LineJoin,
    miter_limit: int,
)
    requires
        cache_wf(c),
        0 <= i <= c.paths.len(),
    ensures
        ({
            let r = joins_from_s(c, i, iw, line_join, miter_limit);
            &&& r.points.len() == c.points.len()
            &&& (forall|m: int|
                0 <= m < c.points.len() ==> (#[trigger] r.points[m]).x == c.points[m].x
                    && r.points[m].y == c.points[m].y)
        }),
    decreases c.paths.len() - i,
{
    if i < c.paths.len() {
        let c1 = joins_one_path_s(c, i, iw, line_join, miter_limit);
        let path = c.paths[i];
        lemma_joins_xy(c.points, path.first, path.count, 0, iw, line_join, miter_limit, 0, 0);
        proof_joins_wf(c, i, iw, line_join, miter_limit);
        lemma_joins_positions_from(c1, i + 1, iw, line_join, miter_limit);
    }
}


/// The edge term of the shoelace sum.
pub open spec fn cross2_s(a: SVPoint, b: SVPoint) -> int {
    a.x * b.y - b.x * a.y
}

/// The shoelace edge sum over `[k, count-1)` (open edges, no wrap).
pub open spec fn chain_from_s(points: Seq<SVPoint>, first: int, count: int, k: int) -> int
    decreases count - 1 - k,
{
    if k >= count - 1 {
        0
    } else {
        cross2_s(points[first + k], points[first + k + 1]) + chain_from_s(points, first, count, k + 1)
    }
}

/// The shoelace edge sum over the first `m` edges.
pub open spec fn chain_upto_s(points: Seq<SVPoint>, first: int, m: int) -> int
    decreases m,
{
    if m <= 0 {
        0
    } else {
        chain_upto_s(points, first, m - 1) + cross2_s(points[first + m - 1], points[first + m])
    }
}

proof fn lemma_fan_shoelace(points: Seq<SVPoint>, first: int, count: int, i: int)
    requires
        2 <= i <= count,
    ensures
        crate::cache::poly_area2_from_s(points, first, count, i) == -chain_from_s(
            points,
            first,
            count,
            i - 1,
        ) + cross2_s(points[first], points[first + count - 1]) - cross2_s(
            points[first],
            points[first + i - 1],
        ),
    decreases count - i,
{
    if i < count {
        lemma_fan_shoelace(points, first, count, i + 1);
        let a = points[first];
        let b = points[first + i - 1];
        let q = points[first + i];
        lemma_tri_cross_expand(a.x, a.y, b.x, b.y, q.x, q.y);
        assert(crate::cache::tri_area2_s(a, b, q) == -cross2_s(b, q) - cross2_s(a, b) + cross2_s(
            a,
            q,
        ));
    }
}

proof fn lemma_tri_cross_expand(ax: int, ay: int, bx: int, by: int, qx: int, qy: int)
    ensures
        (qx - ax) * (by - ay) - (bx - ax) * (qy - ay) == -(bx * qy - qx * by) - (ax * by - bx * ay)
            + (ax * qy - qx * ay),
{
    assert((qx - ax) * (by - ay) - (bx - ax) * (qy - ay) == -(bx * qy - qx * by) - (ax * by - bx
        * ay) + (ax * qy - qx * ay)) by (nonlinear_arith);
}

proof fn lemma_chain_split(points: Seq<SVPoint>, first: int, count: int, k: int)
    requires
        0 <= k <= count - 1,
    ensures
        chain_from_s(points, first, count, k) == chain_upto_s(points, first, count - 1)
            - chain_upto_s(points, first, k),
    decreases count - 1 - k,
{
    if k < count - 1 {
        lemma_chain_split(points, first, count, k + 1);
    }
}

proof fn lemma_chain_rev(points: Seq<SVPoint>, first: int, count: int, k: int)
    requires
        0 <= k <= count - 1,
        0 <= first,
        first + count <= points.len(),
    ensures
        chain_from_s(crate::cache::reverse_range_s(points, first, count), first, count, k)
            == -chain_upto_s(points, first, count - 1 - k),
    decreases count - 1 - k,
{
    let rev = crate::cache::reverse_range_s(points, first, count);
    if k < count - 1 {
        lemma_chain_rev(points, first, count, k + 1);
        assert(rev[first + k] == points[first + count - 1 - k]);
        assert(rev[first + k + 1] == points[first + count - 2 - k]);
        let pa = points[first + count - 2 - k];
        let pb = points[first + count - 1 - k];
        assert(pb.x * pa.y - pa.x * pb.y == -(pa.x * pb.y - pb.x * pa.y)) by (nonlinear_arith);
        assert(cross2_s(pb, pa) == -cross2_s(pa, pb));
        assert(chain_upto_s(points, first, count - 1 - k) == chain_upto_s(
            points,
            first,
            count - 2 - k,
        ) + cross2_s(pa, pb));
    }
}

/// Twice the fan area equals the negated wrapped shoelace sum.
proof fn lemma_area_shoelace(points: Seq<SVPoint>, first: int, count: int)
    requires
        count > 2,
    ensures
        crate::cache::poly_area2_s(points, first, count) == -chain_upto_s(
            points,
            first,
            count - 1,
        ) + cross2_s(points[first], points[first + count - 1]),
{
    lemma_fan_shoelace(points, first, count, 2);
    lemma_chain_split(points, first, count, 1);
    assert(chain_upto_s(points, first, 0) == 0);
    assert(chain_upto_s(points, first, 1) == cross2_s(points[first], points[first + 1]));
}

/// Reversing a subpath's points negates its signed fan area exactly.
pub proof fn lemma_reverse_negates_area(points: Seq<SVPoint>, first: int, count: int)
    requires
        count > 2,
        0 <= first,
        first + count <= points.len(),
    ensures
        crate::cache::poly_area2_s(crate::cache::reverse_range_s(points, first, count), first, count)
            == -crate::cache::poly_area2_s(points, first, count),
{
    let rev = crate::cache::reverse_range_s(points, first, count);
    lemma_area_shoelace(points, first, count);
    lemma_area_shoelace(rev, first, count);
    lemma_chain_split(rev, first, count, 0);
    lemma_chain_rev(points, first, count, 0);
    assert(chain_upto_s(rev, first, 0) == 0);
    assert(chain_from_s(rev, first, count, 0) == chain_upto_s(rev, first, count - 1));
    assert(rev[first] == points[first + count - 1]);
    assert(rev[first + count - 1] == points[first]);
    let p0 = points[first];
    let pl = points[first + count - 1];
    assert(pl.x * p0.y - p0.x * pl.y == -(p0.x * pl.y - pl.x * p0.y)) by (nonlinear_arith);
    assert(cross2_s(pl, p0) == -cross2_s(p0, pl));
}

proof fn lemma_dirs_xy(
    points: Seq<SVPoint>,
    first: int,
    count: int,
    k: int,
    bmin: crate::math::SPoint,
    bmax: crate::math::SPoint,
)
    requires
        0 <= k,
        0 <= first,
        first + count <= points.len(),
    ensures
        ({
            let r = crate::cache::dirs_from_s(points, first, count, k, bmin, bmax);
            &&& r.0.len() == points.len()
            &&& (forall|m: int|
                0 <= m < points.len() ==> (#[trigger] r.0[m]).x == points[m].x && r.0[m].y
                    == points[m].y)
        }),
    decreases count - k,
{
    if 0 <= k < count {
        let i0 = if k == 0 {
            first + count - 1
        } else {
            first + k - 1
        };
        let i1 = if k == 0 {
            first
        } else {
            first + k
        };
        let np = crate::cache::dir_step_s(points, i0, i1);
        let p0 = points[i0];
        let nbmin = crate::math::SPoint {
            x: crate::fixed::fx_min_s(bmin.x, p0.x),
            y: crate::fixed::fx_min_s(bmin.y, p0.y),
        };
        let nbmax = crate::math::SPoint {
            x: crate::fixed::fx_max_s(bmax.x, p0.x),
            y: crate::fixed::fx_max_s(bmax.y, p0.y),
        };
        lemma_dirs_xy(points.update(i0, np), first, count, k + 1, nbmin, nbmax);
    }
}

proof fn lemma_area_xy_only(a: Seq<SVPoint>, b: Seq<SVPoint>, first: int, count: int, i: int)
    requires
        0 <= first,
        a.len() == b.len(),
        first + count <= a.len(),
        forall|m: int| 0 <= m < a.len() ==> (#[trigger] a[m]).x == b[m].x && a[m].y == b[m].y,
    ensures
        crate::cache::poly_area2_from_s(a, first, count, i) == crate::cache::poly_area2_from_s(
            b,
            first,
            count,
            i,
        ),
    decreases count - i,
{
    if 2 <= i < count {
        lemma_area_xy_only(a, b, first, count, i + 1);
    }
}

/// Law: the finishing pass reverses a Hole subpath whose polygon has
/// positive signed area (when its last point does not collapse onto its
/// first), so the stored point order ends up negatively oriented.
pub proof fn lemma_hole_winding_reversed(c: SCache, j: int, dist_tol: int)
    requires
        cache_wf(c),
        0 <= j < c.paths.len(),
        c.paths[j].count > 2,
        c.paths[j].solidity == Solidity::Hole,
        !crate::math::pt_equals_s(
            crate::math::SPoint {
                x: c.points[c.paths[j].first + c.paths[j].count - 1].x,
                y: c.points[c.paths[j].first + c.paths[j].count - 1].y,
            },
            crate::math::SPoint { x: c.points[c.paths[j].first].x, y: c.points[c.paths[j].first].y },
            dist_tol,
        ),
        crate::cache::poly_area2_s(c.points, c.paths[j].first, c.paths[j].count) > 0,
    ensures
        crate::cache::poly_area2_s(
            crate::cache::finish_one_path_s(c, j, dist_tol).points,
            c.paths[j].first,
            c.paths[j].count,
        ) < 0,
{
    let path = c.paths[j];
    let first = path.first;
    let count = path.count;
    let rev = crate::cache::reverse_range_s(c.points, first, count);
    lemma_reverse_negates_area(c.points, first, count);
    lemma_dirs_xy(rev, first, count, 0, c.bmin, c.bmax);
    let dr = crate::cache::dirs_from_s(rev, first, count, 0, c.bmin, c.bmax);
    lemma_area_xy_only(dr.0, rev, first, count, 2);
}



/// A fresh cache with nothing in it.
pub open spec fn empty_cache_s() -> SCache {
    SCache {
        points: Seq::empty(),
        paths: Seq::empty(),
        verts: Seq::empty(),
        bmin: crate::math::SPoint { x: 0, y: 0 },
        bmax: crate::math::SPoint { x: 0, y: 0 },
    }
}

/// The tessellation points a position list flattens into: each position
/// with a corner flag and no derived data yet.
pub open spec fn polyline_pts_s(ps: Seq<crate::math::SPoint>) -> Seq<SVPoint> {
    ps.map_values(|p: crate::math::SPoint| crate::cache::new_svpoint_s(p.x, p.y, true))
}

/// The line segments of a rebuilt polyline, from position `k` on.
pub open spec fn polyline_line_cmds_s(ps: Seq<crate::math::SPoint>, k: int) -> Seq<
    crate::context::Command,
>
    decreases ps.len() - k,
{
    if k < 1 || k >= ps.len() {
        Seq::empty()
    } else {
        seq![crate::context::Command::LineTo(crate::context::spt_to_pt(ps[k]))]
            + polyline_line_cmds_s(ps, k + 1)
    }
}

/// A closed subpath rebuilt from its flattened positions.
pub open spec fn polyline_cmds_s(ps: Seq<crate::math::SPoint>) -> Seq<crate::context::Command> {
    seq![crate::context::Command::MoveTo(crate::context::spt_to_pt(ps[0]))]
        + polyline_line_cmds_s(ps, 1) + seq![crate::context::Command::Close]
}

proof fn lemma_polyline_cmds_index(ps: Seq<crate::math::SPoint>, k: int)
    requires
        1 <= k <= ps.len(),
    ensures
        polyline_line_cmds_s(ps, k).len() == ps.len() - k,
        forall|j: int|
            0 <= j < ps.len() - k ==> polyline_line_cmds_s(ps, k)[j]
                == crate::context::Command::LineTo(crate::context::spt_to_pt(ps[k + j])),
    decreases ps.len() - k,
{
    if k < ps.len() {
        lemma_polyline_cmds_index(ps, k + 1);
        let r = polyline_line_cmds_s(ps, k);
        let r1 = polyline_line_cmds_s(ps, k + 1);
        assert forall|j: int|
            0 <= j < ps.len() - k implies r[j] == crate::context::Command::LineTo(
            crate::context::spt_to_pt(ps[k + j]),
        ) by {
            if j > 0 {
                assert(r[j] == r1[j - 1]);
            }
        };
    }
}

/// Bounded positions: within the saturation range, so rebuilding commands
/// from them round-trips exactly.
pub open spec fn ps_bounded(ps: Seq<crate::math::SPoint>) -> bool {
    forall|k: int|
        0 <= k < ps.len() ==> crate::cache::coord_in_range(
            (#[trigger] ps[k]).x,
            ps[k].y,
        )
}

/// Positions pairwise apart: no two consecutive positions merge under the
/// distance tolerance.
pub open spec fn ps_separated(ps: Seq<crate::math::SPoint>, dist_tol: int) -> bool {
    forall|k: int|
        1 <= k < ps.len() ==> !crate::math::pt_equals_s(#[trigger] ps[k - 1], ps[k], dist_tol)
}

/// The cache state after the rebuilt subpath's first `k` positions.
pub open spec fn poly_state_s(ps: Seq<crate::math::SPoint>, k: int) -> SCache {
    SCache {
        points: polyline_pts_s(ps).subrange(0, k),
        paths: seq![
            SPath {
                first: 0,
                count: k,
                closed: false,
                nbevel: 0,
                solidity: Solidity::Solid,
                fill_first: 0,
                nfill: 0,
                stroke_first: 0,
                nstroke: 0,
                convex: false,
            },
        ],
        verts: Seq::empty(),
        bmin: crate::math::SPoint { x: 0, y: 0 },
        bmax: crate::math::SPoint { x: 0, y: 0 },
    }
}

proof fn lemma_poly_fold(ps: Seq<crate::math::SPoint>, k: int, dist_tol: int, tess_tol: int)
    requires
        1 <= k <= ps.len(),
        ps.len() <= crate::cache::MAX_POINTS as int,
        ps_bounded(ps),
        ps_separated(ps, dist_tol),
    ensures
        crate::cache::flatten_cmds_from_s(
            poly_state_s(ps, k),
            polyline_cmds_s(ps),
            k,
            dist_tol,
            tess_tol,
        ) == crate::cache::close_path_s(poly_state_s(ps, ps.len() as int)),
    decreases ps.len() - k,
{
    let cmds = polyline_cmds_s(ps);
    lemma_polyline_cmds_index(ps, 1);
    assert(cmds.len() == ps.len() + 1);
    if k == ps.len() {
        assert(cmds[k] == crate::context::Command::Close);
        let st = poly_state_s(ps, k);
        let stepped = crate::cache::flatten_one_s(st, cmds[k], dist_tol, tess_tol);
        assert(stepped == crate::cache::close_path_s(st));
        assert(crate::cache::flatten_cmds_from_s(st, cmds, k, dist_tol, tess_tol)
            == crate::cache::flatten_cmds_from_s(stepped, cmds, k + 1, dist_tol, tess_tol));
        assert(crate::cache::flatten_cmds_from_s(stepped, cmds, k + 1, dist_tol, tess_tol)
            == stepped);
    } else {
        assert(cmds[k] == crate::context::Command::LineTo(crate::context::spt_to_pt(ps[k])));
        let st = poly_state_s(ps, k);
        let pt = crate::context::spt_to_pt(ps[k]);
        assert(pt@.x == ps[k].x && pt@.y == ps[k].y);
        let stepped = crate::cache::add_point_s(st, pt@.x, pt@.y, true, dist_tol);
        assert(st.points.last() == crate::cache::new_svpoint_s(ps[k - 1].x, ps[k - 1].y, true));
        assert(!crate::math::pt_equals_s(ps[k - 1], ps[k], dist_tol));
        assert(stepped.points =~= poly_state_s(ps, k + 1).points);
        assert(stepped.paths =~= poly_state_s(ps, k + 1).paths);
        assert(stepped =~= poly_state_s(ps, k + 1));
        assert(crate::cache::flatten_one_s(st, cmds[k], dist_tol, tess_tol) == stepped);
        assert(crate::cache::flatten_cmds_from_s(st, cmds, k, dist_tol, tess_tol)
            == crate::cache::flatten_cmds_from_s(stepped, cmds, k + 1, dist_tol, tess_tol));
        lemma_poly_fold(ps, k + 1, dist_tol, tess_tol);
    }
}

/// Law: flattening is idempotent on its own output. A closed subpath
/// rebuilt from flattened positions whose consecutive points (and the wrap
/// pair) stay apart by the distance tolerance, and whose orientation
/// already agrees with the solid winding, flattens back to exactly the
/// same positions, in the same order.
///
/// The rebuilt command list carries no solidity tag, so the subpath is
/// flattened as solid: a hole subpath re-encoded this way would have its
/// (negatively oriented) points reversed again, which is why the premise
/// asks for nonnegative area. Points that merge under the tolerance, or a
/// wrap pair that collapses, would likewise shorten the sequence, so those
/// inputs are excluded too.
pub proof fn lemma_flatten_polyline_idempotent(
    ps: Seq<crate::math::SPoint>,
    dist_tol: int,
    tess_tol: int,
)
    requires
        1 <= ps.len() <= crate::cache::MAX_POINTS as int,
        ps_bounded(ps),
        ps_separated(ps, dist_tol),
        !crate::math::pt_equals_s(ps[ps.len() - 1], ps[0], dist_tol),
        ps.len() > 2 ==> crate::cache::poly_area2_s(polyline_pts_s(ps), 0, ps.len() as int) >= 0,
    ensures
        ({
            let r = crate::cache::flatten_spec_s(
                empty_cache_s(),
                polyline_cmds_s(ps),
                dist_tol,
                tess_tol,
            );
            &&& r.paths.len() == 1
            &&& r.paths[0].count == ps.len()
            &&& r.paths[0].closed
            &&& r.points.len() == ps.len()
            &&& (forall|k: int|
                0 <= k < ps.len() ==> (#[trigger] r.points[k]).x == ps[k].x && r.points[k].y
                    == ps[k].y)
        }),
{
    let cmds = polyline_cmds_s(ps);
    lemma_polyline_cmds_index(ps, 1);
    let c0 = empty_cache_s();
    // the opening MoveTo starts the subpath and stores the first position
    assert(cmds[0] == crate::context::Command::MoveTo(crate::context::spt_to_pt(ps[0])));
    let c0a = crate::cache::add_path_s(c0);
    let pt0 = crate::context::spt_to_pt(ps[0]);
    assert(pt0@.x == ps[0].x && pt0@.y == ps[0].y);
    let c1 = crate::cache::add_point_s(c0a, pt0@.x, pt0@.y, true, dist_tol);
    assert(c1.points =~= poly_state_s(ps, 1).points);
    assert(c1.paths =~= poly_state_s(ps, 1).paths);
    assert(c1 =~= poly_state_s(ps, 1));
    lemma_poly_fold(ps, 1, dist_tol, tess_tol);
    let pass1 = crate::cache::close_path_s(poly_state_s(ps, ps.len() as int));
    assert(crate::cache::flatten_cmds_from_s(c0, cmds, 0, dist_tol, tess_tol) == pass1);
    assert(pass1.points =~= polyline_pts_s(ps));
    // finishing pass: no collapse, no reversal, directions only
    let c2 = SCache {
        bmin: crate::math::SPoint { x: crate::fixed::FX_MAX as int, y: crate::fixed::FX_MAX as int },
        bmax: crate::math::SPoint {
            x: -(crate::fixed::FX_MAX as int),
            y: -(crate::fixed::FX_MAX as int),
        },
        ..pass1
    };
    let count = ps.len() as int;
    let fin = crate::cache::finish_one_path_s(c2, 0, dist_tol);
    assert(c2.points[count - 1].x == ps[count - 1].x && c2.points[count - 1].y == ps[count
        - 1].y);
    assert(c2.points[0].x == ps[0].x && c2.points[0].y == ps[0].y);
    assert(!crate::math::pt_equals_s(
        crate::math::SPoint { x: c2.points[count - 1].x, y: c2.points[count - 1].y },
        crate::math::SPoint { x: c2.points[0].x, y: c2.points[0].y },
        dist_tol,
    ));
    if count > 2 {
        assert(crate::cache::poly_area2_s(c2.points, 0, count) >= 0);
    }
    lemma_dirs_xy(c2.points, 0, count, 0, c2.bmin, c2.bmax);
    let r = crate::cache::flatten_spec_s(c0, cmds, dist_tol, tess_tol);
    assert(r == crate::cache::finish_paths_from_s(c2, 0, dist_tol));
    assert(crate::cache::finish_paths_from_s(fin, 1, dist_tol) == fin);
    assert(r == fin);
}


/// A closed hole subpath rebuilt from positions: the segments, then the
/// hole tag, then the close.
pub open spec fn hole_cmds_s(ps: Seq<crate::math::SPoint>) -> Seq<crate::context::Command> {
    seq![crate::context::Command::MoveTo(crate::context::spt_to_pt(ps[0]))]
        + polyline_line_cmds_s(ps, 1) + seq![
        crate::context::Command::Solidity(Solidity::Hole),
        crate::context::Command::Close,
    ]
}

proof fn lemma_hole_fold(ps: Seq<crate::math::SPoint>, k: int, dist_tol: int, tess_tol: int)
    requires
        1 <= k <= ps.len(),
        ps.len() <= crate::cache::MAX_POINTS as int,
        ps_bounded(ps),
        ps_separated(ps, dist_tol),
    ensures
        crate::cache::flatten_cmds_from_s(
            poly_state_s(ps, k),
            hole_cmds_s(ps),
            k,
            dist_tol,
            tess_tol,
        ) == crate::cache::close_path_s(
            crate::cache::path_solidity_s(poly_state_s(ps, ps.len() as int), Solidity::Hole),
        ),
    decreases ps.len() - k,
{
    let cmds = hole_cmds_s(ps);
    lemma_polyline_cmds_index(ps, 1);
    assert(cmds.len() == ps.len() + 2);
    if k == ps.len() {
        assert(cmds[k] == crate::context::Command::Solidity(Solidity::Hole));
        assert(cmds[k + 1] == crate::context::Command::Close);
        let st = poly_state_s(ps, k);
        let s1 = crate::cache::path_solidity_s(st, Solidity::Hole);
        assert(crate::cache::flatten_one_s(st, cmds[k], dist_tol, tess_tol) == s1);
        assert(crate::cache::flatten_cmds_from_s(st, cmds, k, dist_tol, tess_tol)
            == crate::cache::flatten_cmds_from_s(s1, cmds, k + 1, dist_tol, tess_tol));
        let s2 = crate::cache::close_path_s(s1);
        assert(crate::cache::flatten_one_s(s1, cmds[k + 1], dist_tol, tess_tol) == s2);
        assert(crate::cache::flatten_cmds_from_s(s1, cmds, k + 1, dist_tol, tess_tol)
            == crate::cache::flatten_cmds_from_s(s2, cmds, k + 2, dist_tol, tess_tol));
        assert(crate::cache::flatten_cmds_from_s(s2, cmds, k + 2, dist_tol, tess_tol) == s2);
    } else {
        assert(cmds[k] == crate::context::Command::LineTo(crate::context::spt_to_pt(ps[k])));
        let st = poly_state_s(ps, k);
        let pt = crate::context::spt_to_pt(ps[k]);
        assert(pt@.x == ps[k].x && pt@.y == ps[k].y);
        let stepped = crate::cache::add_point_s(st, pt@.x, pt@.y, true, dist_tol);
        assert(st.points.last() == crate::cache::new_svpoint_s(ps[k - 1].x, ps[k - 1].y, true));
        assert(!crate::math::pt_equals_s(ps[k - 1], ps[k], dist_tol));
        assert(stepped.points =~= poly_state_s(ps, k + 1).points);
        assert(stepped.paths =~= poly_state_s(ps, k + 1).paths);
        assert(stepped =~= poly_state_s(ps, k + 1));
        assert(crate::cache::flatten_one_s(st, cmds[k], dist_tol, tess_tol) == stepped);
        assert(crate::cache::flatten_cmds_from_s(st, cmds, k, dist_tol, tess_tol)
            == crate::cache::flatten_cmds_from_s(stepped, cmds, k + 1, dist_tol, tess_tol));
        lemma_hole_fold(ps, k + 1, dist_tol, tess_tol);
    }
}

/// Law: flattening a command list that draws one hole-tagged subpath with
/// positive signed area stores that subpath's points in reverse order, so
/// its stored signed area ends negative. This is the winding law stated
/// from the command list itself, through the whole flattening pipeline.
pub proof fn lemma_hole_commands_reversed(
    ps: Seq<crate::math::SPoint>,
    dist_tol: int,
    tess_tol: int,
)
    requires
        3 <= ps.len() <= crate::cache::MAX_POINTS as int,
        ps_bounded(ps),
        ps_separated(ps, dist_tol),
        !crate::math::pt_equals_s(ps[ps.len() - 1], ps[0], dist_tol),
        crate::cache::poly_area2_s(polyline_pts_s(ps), 0, ps.len() as int) > 0,
    ensures
        ({
            let r = crate::cache::flatten_spec_s(
                empty_cache_s(),
                hole_cmds_s(ps),
                dist_tol,
                tess_tol,
            );
            &&& r.paths.len() == 1
            &&& r.paths[0].count == ps.len()
            &&& r.paths[0].closed
            &&& r.paths[0].solidity == Solidity::Hole
            &&& r.points.len() == ps.len()
            &&& (forall|k: int|
                0 <= k < ps.len() ==> (#[trigger] r.points[k]).x == ps[ps.len() - 1 - k].x
                    && r.points[k].y == ps[ps.len() - 1 - k].y)
            &&& crate::cache::poly_area2_s(r.points, 0, ps.len() as int) < 0
        }),
{
    let cmds = hole_cmds_s(ps);
    lemma_polyline_cmds_index(ps, 1);
    let c0 = empty_cache_s();
    assert(cmds[0] == crate::context::Command::MoveTo(crate::context::spt_to_pt(ps[0])));
    let c0a = crate::cache::add_path_s(c0);
    let pt0 = crate::context::spt_to_pt(ps[0]);
    assert(pt0@.x == ps[0].x && pt0@.y == ps[0].y);
    let c1 = crate::cache::add_point_s(c0a, pt0@.x, pt0@.y, true, dist_tol);
    assert(c1.points =~= poly_state_s(ps, 1).points);
    assert(c1.paths =~= poly_state_s(ps, 1).paths);
    assert(c1 =~= poly_state_s(ps, 1));
    lemma_hole_fold(ps, 1, dist_tol, tess_tol);
    let pass1 = crate::cache::close_path_s(
        crate::cache::path_solidity_s(poly_state_s(ps, ps.len() as int), Solidity::Hole),
    );
    assert(crate::cache::flatten_cmds_from_s(c0, cmds, 0, dist_tol, tess_tol) == pass1);
    assert(pass1.points =~= polyline_pts_s(ps));
    let c2 = SCache {
        bmin: crate::math::SPoint { x: crate::fixed::FX_MAX as int, y: crate::fixed::FX_MAX as int },
        bmax: crate::math::SPoint {
            x: -(crate::fixed::FX_MAX as int),
            y: -(crate::fixed::FX_MAX as int),
        },
        ..pass1
    };
    let count = ps.len() as int;
    assert(c2.points[count - 1].x == ps[count - 1].x && c2.points[count - 1].y == ps[count
        - 1].y);
    assert(c2.points[0].x == ps[0].x && c2.points[0].y == ps[0].y);
    assert(!crate::math::pt_equals_s(
        crate::math::SPoint { x: c2.points[count - 1].x, y: c2.points[count - 1].y },
        crate::math::SPoint { x: c2.points[0].x, y: c2.points[0].y },
        dist_tol,
    ));
    assert(crate::cache::poly_area2_s(c2.points, 0, count) > 0);
    let rev = crate::cache::reverse_range_s(c2.points, 0, count);
    lemma_dirs_xy(rev, 0, count, 0, c2.bmin, c2.bmax);
    let fin = crate::cache::finish_one_path_s(c2, 0, dist_tol);
    let dr = crate::cache::dirs_from_s(rev, 0, count, 0, c2.bmin, c2.bmax);
    assert(fin.points == dr.0);
    lemma_reverse_negates_area(c2.points, 0, count);
    lemma_area_xy_only(dr.0, rev, 0, count, 2);
    assert(crate::cache::poly_area2_s(fin.points, 0, count) < 0);
    assert forall|k: int|
        0 <= k < count implies (#[trigger] fin.points[k]).x == ps[count - 1 - k].x
        && fin.points[k].y == ps[count - 1 - k].y by {
        assert(dr.0[k].x == rev[k].x && dr.0[k].y == rev[k].y);
        assert(rev[k] == c2.points[count - 1 - k]);
        assert(c2.points[count - 1 - k] == polyline_pts_s(ps)[count - 1 - k]);
    };
    let r = crate::cache::flatten_spec_s(c0, cmds, dist_tol, tess_tol);
    assert(r == crate::cache::finish_paths_from_s(c2, 0, dist_tol));
    assert(crate::cache::finish_paths_from_s(fin, 1, dist_tol) == fin);
    assert(r == fin);
}

} // verus!
