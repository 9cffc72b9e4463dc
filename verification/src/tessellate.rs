//! Stroke expansion: paths become constant-width triangle ribbons.
//!
//! Every segment of a path contributes one quad; every path point carries a
//! twelve-sided disc that rounds the caps of open paths and the joins of all
//! paths, including the seam joint of a closed path.  All geometry is
//! appended behind the vertices already in the buffer, with indices offset
//! by the vertex count present before the call.

use vstd::prelude::*;

use crate::draw::stroke_ok;
use crate::draw::Color;
use crate::draw::Stroke;
use crate::fixed::fx_mul;
use crate::fixed::fx_mul_spec;
use crate::fixed::is_sqrt;
use crate::fixed::isqrt;
use crate::fixed::lemma_abs_le_sqrt;
use crate::fixed::scaled_div;
use crate::fixed::scaled_spec;
use crate::fixed::sqrt_spec;
use crate::fixed::FX_MAX;
use crate::fixed::FX_SCALE;
use crate::geometry::lemma_mesh_add_wf;
use crate::geometry::mesh_add;
use crate::geometry::mesh_wf;
use crate::geometry::Geometry;
use crate::geometry::Mesh;
use crate::geometry::Vertex;
use crate::transform::apply_spec;
use crate::transform::point_ok;
use crate::transform::transform_ok;
use crate::transform::Point;
use crate::transform::Transform;

verus! {


/// Every point of the sequence is representable.
pub open spec fn pts_ok(pts: Seq<Point>) -> bool {
    forall|i: int| 0 <= i < pts.len() ==> point_ok(#[trigger] pts[i])
}

/// At least one point differs from the first.
pub open spec fn two_distinct(pts: Seq<Point>) -> bool {
    exists|i: int| 0 <= i < pts.len() && #[trigger] pts[i] != pts[0]
}

/// The path produces geometry: two or more points, not all coincident.
pub open spec fn emits(pts: Seq<Point>) -> bool {
    pts.len() >= 2 && two_distinct(pts)
}

/// Segments of a path of `n` points.
pub open spec fn n_segs(n: int, closed: bool) -> int {
    if closed {
        n
    } else {
        n - 1
    }
}

/// The whole stroke's worst-case vertex demand still fits the index range
/// on top of `base` vertices already present.
pub open spec fn fits(base: int, n: int, closed: bool) -> bool {
    base + 13 * n + 4 * n_segs(n, closed) <= 0xFFFF_FFFF
}

/// Half the stroke width after pixel-to-output conversion.
pub open spec fn half_width_spec(w: int, px: int) -> int {
    fx_mul_spec(w, px) / 2
}

/// The far end of segment `i`; the last segment of a closed path wraps to
/// the first point.
pub open spec fn seg_end(pts: Seq<Point>, i: int) -> Point {
    if i + 1 < pts.len() {
        pts[i + 1]
    } else {
        pts[0]
    }
}

/// Euclidean length of the segment, rounded down.
pub open spec fn seg_len(a: Point, b: Point) -> int {
    sqrt_spec(
        (b.x - a.x) * (b.x - a.x) + (b.y - a.y) * (b.y - a.y),
    )
}

/// X component of the half-width offset perpendicular to the segment.
pub open spec fn seg_ox(a: Point, b: Point, half: int) -> int {
    scaled_spec(-(b.y - a.y), half, seg_len(a, b))
}

/// Y component of the half-width offset perpendicular to the segment.
pub open spec fn seg_oy(a: Point, b: Point, half: int) -> int {
    scaled_spec(b.x - a.x, half, seg_len(a, b))
}

/// A vertex from unbounded coordinates known to fit.
pub open spec fn vtx(x: int, y: int, color: Color) -> Vertex {
    Vertex { position: Point { x: x as i64, y: y as i64 }, color }
}

/// The four corners of the ribbon quad of one segment.
pub open spec fn quad_verts(a: Point, b: Point, half: int, color: Color) -> Seq<Vertex> {
    let ox = seg_ox(a, b, half);
    let oy = seg_oy(a, b, half);
    seq![
        vtx(a.x + ox, a.y + oy, color),
        vtx(a.x - ox, a.y - oy, color),
        vtx(b.x + ox, b.y + oy, color),
        vtx(b.x - ox, b.y - oy, color),
    ]
}

/// The two triangles of a quad, indices relative to the quad's first vertex.
pub open spec fn quad_idx() -> Seq<int> {
    seq![0int, 2, 1, 1, 2, 3]
}

/// Cosine of `k` twelfths of a turn, in fixed point.
pub open spec fn circ_x(k: int) -> int {
    if k == 0 {
        65536
    } else if k == 1 {
        56756
    } else if k == 2 {
        32768
    } else if k == 3 {
        0
    } else if k == 4 {
        -32768
    } else if k == 5 {
        -56756
    } else if k == 6 {
        -65536
    } else if k == 7 {
        -56756
    } else if k == 8 {
        -32768
    } else if k == 9 {
        0
    } else if k == 10 {
        32768
    } else {
        56756
    }
}

/// Sine of `k` twelfths of a turn, in fixed point.
pub open spec fn circ_y(k: int) -> int {
    if k == 0 {
        0
    } else if k == 1 {
        32768
    } else if k == 2 {
        56756
    } else if k == 3 {
        65536
    } else if k == 4 {
        56756
    } else if k == 5 {
        32768
    } else if k == 6 {
        0
    } else if k == 7 {
        -32768
    } else if k == 8 {
        -56756
    } else if k == 9 {
        -65536
    } else if k == 10 {
        -56756
    } else {
        -32768
    }
}

/// Rim vertex `k` of the join disc around `c`.
pub open spec fn rim_vertex(c: Point, half: int, color: Color, k: int) -> Vertex {
    vtx(
        c.x + scaled_spec(circ_x(k), half, FX_SCALE as int),
        c.y + scaled_spec(circ_y(k), half, FX_SCALE as int),
        color,
    )
}

/// The first `k` rim vertices of the disc.
pub open spec fn disc_rim(c: Point, half: int, color: Color, k: int) -> Seq<Vertex>
    decreases k,
{
    if k <= 0 {
        Seq::empty()
    } else {
        disc_rim(c, half, color, k - 1).push(rim_vertex(c, half, color, k - 1))
    }
}

/// All 13 vertices of the join disc: the center, then the rim.
pub open spec fn disc_verts(c: Point, half: int, color: Color) -> Seq<Vertex> {
    seq![vtx(c.x as int, c.y as int, color)] + disc_rim(c, half, color, 12)
}

/// The first `k` fan triangles of the disc, indices relative to the center.
pub open spec fn disc_idx_pre(k: int) -> Seq<int>
    decreases k,
{
    if k <= 0 {
        Seq::empty()
    } else {
        disc_idx_pre(k - 1) + seq![
            0int,
            k,
            if k == 12 {
                1int
            } else {
                k + 1
            },
        ]
    }
}

/// The whole disc fan.
pub open spec fn disc_idx() -> Seq<int> {
    disc_idx_pre(12)
}

/// The mesh after the quads of the first `i` segments.
pub open spec fn segs_mesh(m: Mesh, pts: Seq<Point>, half: int, color: Color, i: int) -> Mesh
    decreases i,
{
    if i <= 0 {
        m
    } else {
        let prev = segs_mesh(m, pts, half, color, i - 1);
        let a = pts[i - 1];
        let b = seg_end(pts, i - 1);
        if a == b {
            prev
        } else {
            mesh_add(prev, quad_verts(a, b, half, color), quad_idx())
        }
    }
}

/// The mesh after the join discs of the first `j` path points.
pub open spec fn discs_mesh(m: Mesh, pts: Seq<Point>, half: int, color: Color, j: int) -> Mesh
    decreases j,
{
    if j <= 0 {
        m
    } else {
        mesh_add(
            discs_mesh(m, pts, half, color, j - 1),
            disc_verts(pts[j - 1], half, color),
            disc_idx(),
        )
    }
}

/// The full stroke: quads for every segment, then a disc at every point.
pub open spec fn stroke_mesh(m: Mesh, pts: Seq<Point>, closed: bool, half: int, color: Color) -> Mesh {
    discs_mesh(
        segs_mesh(m, pts, half, color, n_segs(pts.len() as int, closed)),
        pts,
        half,
        color,
        pts.len() as int,
    )
}

/// What one tessellation call appends: the full stroke where the path is
/// non-degenerate and the result still fits the index range, else nothing.
pub open spec fn append_stroke(m: Mesh, pts: Seq<Point>, closed: bool, half: int, color: Color) -> Mesh {
    if emits(pts) && fits(m.verts.len() as int, pts.len() as int, closed) {
        stroke_mesh(m, pts, closed, half, color)
    } else {
        m
    }
}

/// The disc rim has one vertex per step.
pub proof fn lemma_disc_rim_len(c: Point, half: int, color: Color, k: int)
    requires
        0 <= k,
    ensures
        disc_rim(c, half, color, k).len() == k,
    decreases k,
{
    if k > 0 {
        lemma_disc_rim_len(c, half, color, k - 1);
    }
}

/// The disc fan's indices come in triples and stay within its 13 vertices.
pub proof fn lemma_disc_idx_pre(k: int)
    requires
        0 <= k <= 12,
    ensures
        disc_idx_pre(k).len() == 3 * k,
        forall|i: int| 0 <= i < 3 * k ==> 0 <= #[trigger] disc_idx_pre(k)[i] < 13,
    decreases k,
{
    if k > 0 {
        lemma_disc_idx_pre(k - 1);
    }
}

/// Segment quads keep the mesh well-formed and add at most 4 vertices and
/// 6 indices per segment.
pub proof fn lemma_segs_mesh_props(m: Mesh, pts: Seq<Point>, half: int, color: Color, i: int)
    requires
        mesh_wf(m),
        0 <= i,
    ensures
        mesh_wf(segs_mesh(m, pts, half, color, i)),
        m.verts.len() <= segs_mesh(m, pts, half, color, i).verts.len() <= m.verts.len() + 4 * i,
    decreases i,
{
    if i > 0 {
        lemma_segs_mesh_props(m, pts, half, color, i - 1);
        let prev = segs_mesh(m, pts, half, color, i - 1);
        let a = pts[i - 1];
        let b = seg_end(pts, i - 1);
        if a != b {
            lemma_mesh_add_wf(prev, quad_verts(a, b, half, color), quad_idx());
        }
    }
}

/// Join discs keep the mesh well-formed and add exactly 13 vertices and
/// 36 indices per point.
pub proof fn lemma_discs_mesh_props(m: Mesh, pts: Seq<Point>, half: int, color: Color, j: int)
    requires
        mesh_wf(m),
        0 <= j,
    ensures
        mesh_wf(discs_mesh(m, pts, half, color, j)),
        discs_mesh(m, pts, half, color, j).verts.len() == m.verts.len() + 13 * j,
        discs_mesh(m, pts, half, color, j).idx.len() == m.idx.len() + 36 * j,
    decreases j,
{
    if j > 0 {
        lemma_discs_mesh_props(m, pts, half, color, j - 1);
        let prev = discs_mesh(m, pts, half, color, j - 1);
        lemma_disc_rim_len(pts[j - 1], half, color, 12);
        lemma_disc_idx_pre(12);
        lemma_mesh_add_wf(prev, disc_verts(pts[j - 1], half, color), disc_idx());
    }
}

/// What a stroke appends is well-formed on top of a well-formed mesh, and
/// within the budget that `fits` reserved.
pub proof fn lemma_stroke_mesh_props(m: Mesh, pts: Seq<Point>, closed: bool, half: int, color: Color)
    requires
        mesh_wf(m),
        pts.len() >= 2,
    ensures
        mesh_wf(stroke_mesh(m, pts, closed, half, color)),
        stroke_mesh(m, pts, closed, half, color).verts.len() <= m.verts.len() + 13 * pts.len()
            + 4 * n_segs(pts.len() as int, closed),
{
    lemma_segs_mesh_props(m, pts, half, color, n_segs(pts.len() as int, closed));
    lemma_discs_mesh_props(
        segs_mesh(m, pts, half, color, n_segs(pts.len() as int, closed)),
        pts,
        half,
        color,
        pts.len() as int,
    );
}

/// The fixed-point direction of rim point `k`.
fn circ_dir(k: usize) -> (r: (i64, i64))
    requires
        k < 12,
    ensures
        r.0 as int == circ_x(k as int),
        r.1 as int == circ_y(k as int),
        -65536 <= r.0 <= 65536,
        -65536 <= r.1 <= 65536,
{
    if k == 0 {
        (65536, 0)
    } else if k == 1 {
        (56756, 32768)
    } else if k == 2 {
        (32768, 56756)
    } else if k == 3 {
        (0, 65536)
    } else if k == 4 {
        (-32768, 56756)
    } else if k == 5 {
        (-56756, 32768)
    } else if k == 6 {
        (-65536, 0)
    } else if k == 7 {
        (-56756, -32768)
    } else if k == 8 {
        (-32768, -56756)
    } else if k == 9 {
        (0, -65536)
    } else if k == 10 {
        (32768, -56756)
    } else {
        (56756, -32768)
    }
}

/// Convert a pixel-unit stroke width to half an output-unit width.
fn half_width(w: i64, px: i64) -> (h: i64)
    requires
        0 <= w,
        0 <= px,
    ensures
        h as int == half_width_spec(w as int, px as int),
        0 <= h <= FX_MAX,
{
    let wndc: i64 = fx_mul(w, px);
    proof {
        assert((w as int) * (px as int) >= 0) by (nonlinear_arith)
            requires
                0 <= w as int,
                0 <= px as int,
        ;
        vstd::arithmetic::div_mod::lemma_div_pos_is_pos((w as int) * (px as int), FX_SCALE as int);
    }
    let h: i64 = ((wndc as u64) / 2) as i64;
    h
}

/// Append the ribbon quad of the non-degenerate segment `a -> b`.
fn emit_quad(geom: &mut Geometry, a: Point, b: Point, half: i64, color: Color)
    requires
        a != b,
        point_ok(a),
        point_ok(b),
        0 <= half <= FX_MAX,
        old(geom).vertices@.len() + 4 <= 0xFFFF_FFFF,
    ensures
        final(geom)@ == mesh_add(old(geom)@, quad_verts(a, b, half as int, color), quad_idx()),
        final(geom).vertices@.len() == old(geom).vertices@.len() + 4,
{
    let dx: i64 = b.x - a.x;
    let dy: i64 = b.y - a.y;
    proof {
        assert((dx as int) * (dx as int) <= 0x4_0000_0000_0000_0000_0000int
            && (dx as int) * (dx as int) >= 0) by (nonlinear_arith)
            requires
                -0x200_0000_0000int <= dx as int <= 0x200_0000_0000int,
        ;
        assert((dy as int) * (dy as int) <= 0x4_0000_0000_0000_0000_0000int
            && (dy as int) * (dy as int) >= 0) by (nonlinear_arith)
            requires
                -0x200_0000_0000int <= dy as int <= 0x200_0000_0000int,
        ;
        if dx != 0 {
            assert((dx as int) * (dx as int) >= 1) by (nonlinear_arith)
                requires
                    dx as int != 0,
            ;
        } else {
            assert(dy != 0);
            assert((dy as int) * (dy as int) >= 1) by (nonlinear_arith)
                requires
                    dy as int != 0,
            ;
        }
    }
    let d2: i128 = (dx as i128) * (dx as i128) + (dy as i128) * (dy as i128);
    let len: u128 = isqrt(d2 as u128);
    proof {
        let n = d2 as int;
        let l = len as int;
        assert(is_sqrt(n, l));
        if l == 0 {
            assert(n < (l + 1) * (l + 1));
            assert((l + 1) * (l + 1) == 1) by (nonlinear_arith)
                requires
                    l == 0,
            ;
            assert(false);
        }
        lemma_abs_le_sqrt(dx as int, n, l);
        lemma_abs_le_sqrt(dy as int, n, l);
        assert(l == seg_len(a, b));
    }
    let ox: i64 = scaled_div(-dy, half, len);
    let oy: i64 = scaled_div(dx, half, len);
    let bv: usize = geom.vertices.len();
    geom.push_vertex(Vertex { position: Point { x: a.x + ox, y: a.y + oy }, color });
    geom.push_vertex(Vertex { position: Point { x: a.x - ox, y: a.y - oy }, color });
    geom.push_vertex(Vertex { position: Point { x: b.x + ox, y: b.y + oy }, color });
    geom.push_vertex(Vertex { position: Point { x: b.x - ox, y: b.y - oy }, color });
    geom.push_index(bv as u32);
    geom.push_index((bv + 2) as u32);
    geom.push_index((bv + 1) as u32);
    geom.push_index((bv + 1) as u32);
    geom.push_index((bv + 2) as u32);
    geom.push_index((bv + 3) as u32);
    proof {
        let target = mesh_add(old(geom)@, quad_verts(a, b, half as int, color), quad_idx());
        assert(geom@.verts =~= target.verts);
        assert(geom@.idx =~= target.idx);
    }
}

/// Append the round-join disc around path point `c`.
fn emit_disc(geom: &mut Geometry, c: Point, half: i64, color: Color)
    requires
        point_ok(c),
        0 <= half <= FX_MAX,
        old(geom).vertices@.len() + 13 <= 0xFFFF_FFFF,
    ensures
        final(geom)@ == mesh_add(old(geom)@, disc_verts(c, half as int, color), disc_idx()),
        final(geom).vertices@.len() == old(geom).vertices@.len() + 13,
{
    let bv: usize = geom.vertices.len();
    geom.push_vertex(Vertex { position: Point { x: c.x, y: c.y }, color });
    let mut k: usize = 0;
    while k < 12
        invariant
            k <= 12,
            point_ok(c),
            0 <= half <= FX_MAX,
            bv == old(geom).vertices@.len(),
            bv + 13 <= 0xFFFF_FFFF,
            geom.vertices@.len() == bv + 1 + k,
            geom@.verts =~= old(geom)@.verts + seq![
                vtx(c.x as int, c.y as int, color),
            ] + disc_rim(c, half as int, color, k as int),
            geom@.idx == old(geom)@.idx,
        decreases 12 - k,
    {
        proof {
            lemma_disc_rim_len(c, half as int, color, k as int);
        }
        let dir: (i64, i64) = circ_dir(k);
        let rx: i64 = scaled_div(dir.0, half, 65536u128);
        let ry: i64 = scaled_div(dir.1, half, 65536u128);
        geom.push_vertex(Vertex { position: Point { x: c.x + rx, y: c.y + ry }, color });
        proof {
            assert(FX_SCALE as int == 65536int);
            assert(disc_rim(c, half as int, color, k + 1 as int) == disc_rim(
                c,
                half as int,
                color,
                k as int,
            ).push(rim_vertex(c, half as int, color, k as int)));
            assert(geom@.verts =~= old(geom)@.verts + seq![
                vtx(c.x as int, c.y as int, color),
            ] + disc_rim(c, half as int, color, (k + 1) as int));
        }
        k = k + 1;
    }
    proof {
        lemma_disc_rim_len(c, half as int, color, 12);
    }
    let mut t: usize = 0;
    while t < 12
        invariant
            t <= 12,
            bv == old(geom).vertices@.len(),
            bv + 13 <= 0xFFFF_FFFF,
            geom.vertices@.len() == bv + 13,
            geom@.verts == old(geom)@.verts + disc_verts(c, half as int, color),
            geom@.idx =~= old(geom)@.idx + disc_idx_pre(t as int).map_values(
                |j: int| j + bv as int,
            ),
        decreases 12 - t,
    {
        proof {
            lemma_disc_idx_pre(t as int);
        }
        geom.push_index(bv as u32);
        geom.push_index((bv + t + 1) as u32);
        let wrap: usize = if t + 1 < 12 {
            t + 2
        } else {
            1
        };
        geom.push_index((bv + wrap) as u32);
        proof {
            lemma_disc_idx_pre((t + 1) as int);
            assert(geom@.idx =~= old(geom)@.idx + disc_idx_pre((t + 1) as int).map_values(
                |j: int| j + bv as int,
            ));
        }
        t = t + 1;
    }
    proof {
        let target = mesh_add(old(geom)@, disc_verts(c, half as int, color), disc_idx());
        lemma_disc_idx_pre(12);
        assert(geom@.verts =~= target.verts);
        assert(geom@.idx =~= target.idx);
    }
}

/// Expand one already-transformed path into quads and join discs.
///
/// A path with fewer than two distinct points appends nothing; so does one
/// whose expansion would no longer fit the index range — both are silent
/// no-ops, never errors.
pub(crate) fn tessellate_stroke(
    pts: &Vec<Point>,
    closed: bool,
    stroke: &Stroke,
    px_to_ndc: i64,
    geom: &mut Geometry,
)
    requires
        old(geom).wf(),
        pts_ok(pts@),
        stroke_ok(*stroke),
        0 <= px_to_ndc,
    ensures
        final(geom).wf(),
        final(geom)@ == append_stroke(
            old(geom)@,
            pts@,
            closed,
            half_width_spec(stroke.width_px as int, px_to_ndc as int),
            stroke.color,
        ),
{
    let n: usize = pts.len();
    if n < 2 {
        return ;
    }
    let p0: Point = pts[0];
    let mut distinct: bool = false;
    let mut s: usize = 1;
    while s < n
        invariant
            1 <= s <= n,
            n == pts@.len(),
            p0 == pts@[0],
            distinct <==> exists|i: int| 0 <= i < s && #[trigger] pts@[i] != pts@[0],
        decreases n - s,
    {
        if !(pts[s].x == p0.x && pts[s].y == p0.y) {
            distinct = true;
        }
        s = s + 1;
    }
    if !distinct {
        return ;
    }
    if n > 0x1000_0000 {
        return ;
    }
    let nsegs: usize = if closed {
        n
    } else {
        n - 1
    };
    let needed: u64 = 13u64 * (n as u64) + 4u64 * (nsegs as u64);
    let base: usize = geom.vertices.len();
    if (base as u64) + needed > 0xFFFF_FFFFu64 {
        return ;
    }
    let half: i64 = half_width(stroke.width_px, px_to_ndc);
    let ghost m0: Mesh = old(geom)@;
    let ghost hw: int = half_width_spec(stroke.width_px as int, px_to_ndc as int);
    let color: Color = stroke.color;
    let mut i: usize = 0;
    while i < nsegs
        invariant
            i <= nsegs,
            n == pts@.len(),
            2 <= n <= 0x1000_0000,
            nsegs == n_segs(n as int, closed),
            pts_ok(pts@),
            stroke_ok(*stroke),
            color == stroke.color,
            0 <= half <= FX_MAX,
            half as int == hw,
            m0 == old(geom)@,
            mesh_wf(m0),
            base == m0.verts.len(),
            base + 13 * n + 4 * nsegs <= 0xFFFF_FFFF,
            geom@ == segs_mesh(m0, pts@, hw, color, i as int),
            geom.vertices@.len() <= base + 4 * i,
        decreases nsegs - i,
    {
        proof {
            lemma_segs_mesh_props(m0, pts@, hw, color, i as int);
        }
        let a: Point = pts[i];
        let b: Point = if i + 1 < n {
            pts[i + 1]
        } else {
            pts[0]
        };
        if !(a.x == b.x && a.y == b.y) {
            emit_quad(geom, a, b, half, color);
        }
        i = i + 1;
    }
    let ghost m1: Mesh = segs_mesh(m0, pts@, hw, color, nsegs as int);
    proof {
        lemma_segs_mesh_props(m0, pts@, hw, color, nsegs as int);
    }
    let mut j: usize = 0;
    while j < n
        invariant
            j <= n,
            n == pts@.len(),
            2 <= n <= 0x1000_0000,
            nsegs == n_segs(n as int, closed),
            pts_ok(pts@),
            0 <= half <= FX_MAX,
            half as int == hw,
            m0 == old(geom)@,
            m1 == segs_mesh(m0, pts@, hw, color, nsegs as int),
            mesh_wf(m1),
            base == m0.verts.len(),
            base + 13 * n + 4 * nsegs <= 0xFFFF_FFFF,
            m1.verts.len() <= base + 4 * nsegs,
            geom@ == discs_mesh(m1, pts@, hw, color, j as int),
            geom.vertices@.len() == m1.verts.len() + 13 * j,
        decreases n - j,
    {
        proof {
            lemma_discs_mesh_props(m1, pts@, hw, color, j as int);
        }
        let c: Point = pts[j];
        emit_disc(geom, c, half, color);
        j = j + 1;
    }
    proof {
        lemma_stroke_mesh_props(m0, pts@, closed, hw, color);
        assert(geom@ == stroke_mesh(m0, pts@, closed, hw, color));
        assert(emits(pts@));
        assert(fits(m0.verts.len() as int, pts@.len() as int, closed));
    }
}

/// The vertex and index counts a run of segment quads adds do not depend on
/// what the mesh already holds.
proof fn lemma_segs_mesh_count(m1: Mesh, m2: Mesh, pts: Seq<Point>, half: int, color: Color, i: int)
    requires
        0 <= i,
    ensures
        segs_mesh(m1, pts, half, color, i).verts.len() - m1.verts.len() == segs_mesh(
            m2,
            pts,
            half,
            color,
            i,
        ).verts.len() - m2.verts.len(),
        segs_mesh(m1, pts, half, color, i).idx.len() - m1.idx.len() == segs_mesh(
            m2,
            pts,
            half,
            color,
            i,
        ).idx.len() - m2.idx.len(),
    decreases i,
{
    if i > 0 {
        lemma_segs_mesh_count(m1, m2, pts, half, color, i - 1);
    }
}

/// Determinism of stroke expansion: two tessellation calls on the same
/// points, width and color append the same number of vertices and of
/// indices, whatever the buffer already held, as long as both calls fit.
pub proof fn lemma_stroke_deterministic(
    m1: Mesh,
    m2: Mesh,
    pts: Seq<Point>,
    closed: bool,
    half: int,
    color: Color,
)
    requires
        fits(m1.verts.len() as int, pts.len() as int, closed),
        fits(m2.verts.len() as int, pts.len() as int, closed),
    ensures
        append_stroke(m1, pts, closed, half, color).verts.len() - m1.verts.len() == append_stroke(
            m2,
            pts,
            closed,
            half,
            color,
        ).verts.len() - m2.verts.len(),
        append_stroke(m1, pts, closed, half, color).idx.len() - m1.idx.len() == append_stroke(
            m2,
            pts,
            closed,
            half,
            color,
        ).idx.len() - m2.idx.len(),
{
    if emits(pts) {
        let ns = n_segs(pts.len() as int, closed);
        lemma_segs_mesh_count(m1, m2, pts, half, color, ns);
        let s1 = segs_mesh(m1, pts, half, color, ns);
        let s2 = segs_mesh(m2, pts, half, color, ns);
        lemma_discs_count(s1, s2, pts, half, color, pts.len() as int);
    }
}

/// The counts a run of join discs adds are fixed by the point count alone.
proof fn lemma_discs_count(m1: Mesh, m2: Mesh, pts: Seq<Point>, half: int, color: Color, j: int)
    requires
        0 <= j,
    ensures
        discs_mesh(m1, pts, half, color, j).verts.len() - m1.verts.len() == discs_mesh(
            m2,
            pts,
            half,
            color,
            j,
        ).verts.len() - m2.verts.len(),
        discs_mesh(m1, pts, half, color, j).idx.len() - m1.idx.len() == discs_mesh(
            m2,
            pts,
            half,
            color,
            j,
        ).idx.len() - m2.idx.len(),
    decreases j,
{
    if j > 0 {
        lemma_discs_count(m1, m2, pts, half, color, j - 1);
        lemma_disc_rim_len(pts[j - 1], half, color, 12);
        lemma_disc_idx_pre(12);
    }
}

/// Join discs land in consecutive 13-vertex blocks behind the quads.
proof fn lemma_discs_block(m: Mesh, pts: Seq<Point>, half: int, color: Color, j: int, jj: int)
    requires
        0 <= jj < j,
    ensures
        discs_mesh(m, pts, half, color, j).verts.subrange(
            m.verts.len() + 13 * jj,
            m.verts.len() + 13 * jj + 13,
        ) == disc_verts(pts[jj], half, color),
    decreases j,
{
    let prev = discs_mesh(m, pts, half, color, j - 1);
    lemma_disc_rim_len(pts[j - 1], half, color, 12);
    let cur = discs_mesh(m, pts, half, color, j);
    assert(prev.verts.len() == m.verts.len() + 13 * (j - 1)) by {
        lemma_discs_len_only(m, pts, half, color, j - 1);
    }
    if jj == j - 1 {
        assert(cur.verts.subrange(m.verts.len() + 13 * jj, m.verts.len() + 13 * jj + 13)
            =~= disc_verts(pts[jj], half, color));
    } else {
        lemma_discs_block(m, pts, half, color, j - 1, jj);
        assert(cur.verts.subrange(m.verts.len() + 13 * jj, m.verts.len() + 13 * jj + 13)
            =~= prev.verts.subrange(m.verts.len() + 13 * jj, m.verts.len() + 13 * jj + 13));
    }
}

/// A run of `j` join discs adds exactly `13 * j` vertices.
proof fn lemma_discs_len_only(m: Mesh, pts: Seq<Point>, half: int, color: Color, j: int)
    requires
        0 <= j,
    ensures
        discs_mesh(m, pts, half, color, j).verts.len() == m.verts.len() + 13 * j,
    decreases j,
{
    if j > 0 {
        lemma_discs_len_only(m, pts, half, color, j - 1);
        lemma_disc_rim_len(pts[j - 1], half, color, 12);
    }
}

/// Closed paths have no gap at the seam: the joint between the last and the
/// first point gets a quad and a join disc built exactly like every interior
/// joint.
pub proof fn lemma_closed_seam_join(m: Mesh, pts: Seq<Point>, half: int, color: Color)
    requires
        emits(pts),
        fits(m.verts.len() as int, pts.len() as int, true),
    ensures
        ({
            let r = append_stroke(m, pts, true, half, color);
            let sm = segs_mesh(m, pts, half, color, pts.len() as int);
            // every path point, the seam point included, carries its own
            // 13-vertex join disc, identical in shape for all of them
            &&& forall|j: int|
                0 <= j < pts.len() ==> r.verts.subrange(
                    sm.verts.len() + 13 * j,
                    sm.verts.len() + 13 * j + 13,
                ) == disc_verts(pts[j], half, color)
                // and when the seam segment is not degenerate its ribbon quad
                // is appended exactly as an interior segment's would be
            &&& (pts[pts.len() - 1] != pts[0] ==> sm == mesh_add(
                segs_mesh(m, pts, half, color, pts.len() - 1),
                quad_verts(pts[pts.len() - 1], pts[0], half, color),
                quad_idx(),
            ))
        }),
{
    let r = append_stroke(m, pts, true, half, color);
    let sm = segs_mesh(m, pts, half, color, pts.len() as int);
    assert forall|j: int| 0 <= j < pts.len() implies r.verts.subrange(
        sm.verts.len() + 13 * j,
        sm.verts.len() + 13 * j + 13,
    ) == disc_verts(pts[j], half, color) by {
        lemma_discs_block(sm, pts, half, color, pts.len() as int, j);
    }
}

/// The transform carried by an optional reference, as a value.
pub open spec fn deref_opt(t: Option<&Transform>) -> Option<Transform> {
    match t {
        Option::None => Option::None,
        Option::Some(r) => Option::Some(*r),
    }
}

/// An absent transform is always acceptable; a present one must be
/// well-formed.
pub open spec fn opt_transform_ok(t: Option<Transform>) -> bool {
    match t {
        Option::None => true,
        Option::Some(tr) => transform_ok(tr),
    }
}

/// The path as the tessellator sees it: mapped through the transform when
/// one is supplied, unchanged otherwise.
pub open spec fn tpoints(pts: Seq<Point>, t: Option<Transform>) -> Seq<Point> {
    match t {
        Option::None => pts,
        Option::Some(tr) => pts.map_values(|p: Point| apply_spec(tr, p)),
    }
}

/// Tessellate a polyline into triangles.
///
/// `px_to_ndc` converts pixel measurements to output units.
pub fn tessellate_polyline(
    pts: &Vec<Point>,
    closed: bool,
    stroke: &Stroke,
    transform: Option<&Transform>,
    px_to_ndc: i64,
    geom: &mut Geometry,
)
    requires
        old(geom).wf(),
        pts_ok(pts@),
        stroke_ok(*stroke),
        0 <= px_to_ndc,
        opt_transform_ok(deref_opt(transform)),
    ensures
        final(geom).wf(),
        final(geom)@ == append_stroke(
            old(geom)@,
            tpoints(pts@, deref_opt(transform)),
            closed,
            half_width_spec(stroke.width_px as int, px_to_ndc as int),
            stroke.color,
        ),
{
    match transform {
        Option::None => {
            tessellate_stroke(pts, closed, stroke, px_to_ndc, geom);
        },
        Option::Some(t) => {
            let mut tp: Vec<Point> = Vec::new();
            let n: usize = pts.len();
            let mut i: usize = 0;
            while i < n
                invariant
                    i <= n,
                    n == pts@.len(),
                    pts_ok(pts@),
                    transform_ok(*t),
                    tp@ =~= pts@.subrange(0, i as int).map_values(|p: Point| apply_spec(*t, p)),
                    pts_ok(tp@),
                decreases n - i,
            {
                let q: Point = t.apply(pts[i]);
                tp.push(q);
                proof {
                    assert(tp@ =~= pts@.subrange(0, (i + 1) as int).map_values(
                        |p: Point| apply_spec(*t, p),
                    ));
                }
                i = i + 1;
            }
            proof {
                assert(pts@.subrange(0, n as int) =~= pts@);
                assert(tp@ =~= tpoints(pts@, deref_opt(transform)));
            }
            tessellate_stroke(&tp, closed, stroke, px_to_ndc, geom);
        },
    }
}

/// Tessellate a single line segment into triangles.
///
/// `px_to_ndc` converts pixel measurements to output units.
pub fn tessellate_line(
    line: &crate::draw::Line2,
    transform: Option<&Transform>,
    px_to_ndc: i64,
    geom: &mut Geometry,
)
    requires
        old(geom).wf(),
        point_ok(line.a),
        point_ok(line.b),
        stroke_ok(line.stroke),
        0 <= px_to_ndc,
        opt_transform_ok(deref_opt(transform)),
    ensures
        final(geom).wf(),
        final(geom)@ == append_stroke(
            old(geom)@,
            tpoints(seq![line.a, line.b], deref_opt(transform)),
            false,
            half_width_spec(line.stroke.width_px as int, px_to_ndc as int),
            line.stroke.color,
        ),
{
    let mut ends: Vec<Point> = Vec::new();
    ends.push(line.a);
    ends.push(line.b);
    proof {
        assert(ends@ =~= seq![line.a, line.b]);
    }
    tessellate_polyline(&ends, false, &line.stroke, transform, px_to_ndc, geom);
}

} // verus!
