//! Tests for the tessellation module.

use vectorcade_render::tessellate::{tessellate_line, tessellate_polyline};
use vectorcade_render::{Color, Geometry, Line2, Point, Stroke};

fn fx(v: f64) -> i64 {
    (v * 65536.0).round() as i64
}

fn pt(x: f64, y: f64) -> Point {
    Point { x: fx(x), y: fx(y) }
}

fn white_stroke(width: f64) -> Stroke {
    Stroke::new(Color::white(), fx(width))
}

// Treats stroke widths as already being in output units.
const PX_TO_NDC: i64 = 65536;

#[test]
fn tessellate_line_produces_geometry() {
    let line = Line2 {
        a: pt(0.0, 0.0),
        b: pt(1.0, 0.0),
        stroke: white_stroke(0.1),
    };
    let mut geom = Geometry::new();
    tessellate_line(&line, None, PX_TO_NDC, &mut geom);

    assert!(!geom.vertices.is_empty(), "should produce vertices");
    assert!(!geom.indices.is_empty(), "should produce indices");
    assert_eq!(geom.indices.len() % 3, 0, "indices should form triangles");
}

#[test]
fn tessellate_polyline_produces_geometry() {
    let pts = vec![pt(0.0, 0.0), pt(1.0, 0.0), pt(1.0, 1.0)];
    let mut geom = Geometry::new();
    tessellate_polyline(&pts, false, &white_stroke(0.1), None, PX_TO_NDC, &mut geom);

    assert!(!geom.vertices.is_empty());
    assert!(!geom.indices.is_empty());
}

#[test]
fn tessellate_closed_polyline() {
    let pts = vec![pt(0.0, 0.0), pt(1.0, 0.0), pt(0.5, 1.0)];
    let mut geom = Geometry::new();
    tessellate_polyline(&pts, true, &white_stroke(0.1), None, PX_TO_NDC, &mut geom);

    assert!(!geom.vertices.is_empty());
}

#[test]
fn empty_points_produces_no_geometry() {
    let mut geom = Geometry::new();
    tessellate_polyline(&vec![], false, &white_stroke(0.1), None, PX_TO_NDC, &mut geom);
    assert!(geom.vertices.is_empty());
}

#[test]
fn single_point_produces_no_geometry() {
    let mut geom = Geometry::new();
    tessellate_polyline(&vec![pt(0.0, 0.0)], false, &white_stroke(0.1), None, PX_TO_NDC, &mut geom);
    assert!(geom.vertices.is_empty());
}

#[test]
fn coincident_points_produce_no_geometry() {
    // Two points, but not two distinct ones: nothing may be appended.
    let mut geom = Geometry::new();
    tessellate_polyline(
        &vec![pt(0.25, 0.25), pt(0.25, 0.25)],
        false,
        &white_stroke(0.1),
        None,
        PX_TO_NDC,
        &mut geom,
    );
    assert!(geom.vertices.is_empty());
    assert!(geom.indices.is_empty());
}

#[test]
fn open_line_counts_follow_the_quad_and_disc_formula() {
    // One segment quad (4 vertices, 6 indices) plus one 13-vertex,
    // 36-index join disc per path point.
    let line = Line2 {
        a: pt(0.0, 0.0),
        b: pt(1.0, 0.0),
        stroke: white_stroke(0.1),
    };
    let mut geom = Geometry::new();
    tessellate_line(&line, None, PX_TO_NDC, &mut geom);
    assert_eq!(geom.vertices.len(), 4 + 2 * 13);
    assert_eq!(geom.indices.len(), 6 + 2 * 36);
}

#[test]
fn closed_triangle_counts_follow_the_quad_and_disc_formula() {
    // Closed path: one quad per segment including the wrap-around seam
    // segment, one disc per point.
    let pts = vec![pt(0.0, 0.0), pt(1.0, 0.0), pt(0.5, 1.0)];
    let mut geom = Geometry::new();
    tessellate_polyline(&pts, true, &white_stroke(0.1), None, PX_TO_NDC, &mut geom);
    assert_eq!(geom.vertices.len(), 3 * 4 + 3 * 13);
    assert_eq!(geom.indices.len(), 3 * 6 + 3 * 36);
}

#[test]
fn open_polyline_has_one_fewer_quad_than_closed() {
    let pts = vec![pt(0.0, 0.0), pt(1.0, 0.0), pt(0.5, 1.0)];
    let mut open_geom = Geometry::new();
    tessellate_polyline(&pts, false, &white_stroke(0.1), None, PX_TO_NDC, &mut open_geom);
    let mut closed_geom = Geometry::new();
    tessellate_polyline(&pts, true, &white_stroke(0.1), None, PX_TO_NDC, &mut closed_geom);
    assert_eq!(closed_geom.vertices.len(), open_geom.vertices.len() + 4);
    assert_eq!(closed_geom.indices.len(), open_geom.indices.len() + 6);
}

#[test]
fn all_indices_reference_existing_vertices() {
    let pts = vec![pt(-0.5, -0.5), pt(0.5, -0.5), pt(0.5, 0.5), pt(-0.5, 0.5)];
    let mut geom = Geometry::new();
    tessellate_polyline(&pts, true, &white_stroke(0.05), None, PX_TO_NDC, &mut geom);
    tessellate_line(
        &Line2 { a: pt(0.0, 0.0), b: pt(0.3, 0.3), stroke: white_stroke(0.02) },
        None,
        PX_TO_NDC,
        &mut geom,
    );
    assert_eq!(geom.indices.len() % 3, 0);
    for &ix in &geom.indices {
        assert!((ix as usize) < geom.vertices.len());
    }
}

#[test]
fn base_vertex_offset_accumulates_across_calls() {
    // A second identical call must append the same count again, with its
    // indices shifted past the first call's vertices.
    let pts = vec![pt(0.0, 0.0), pt(1.0, 0.0), pt(1.0, 1.0)];
    let mut geom = Geometry::new();
    tessellate_polyline(&pts, false, &white_stroke(0.1), None, PX_TO_NDC, &mut geom);
    let first_verts = geom.vertices.len();
    let first_idx = geom.indices.len();
    tessellate_polyline(&pts, false, &white_stroke(0.1), None, PX_TO_NDC, &mut geom);
    assert_eq!(geom.vertices.len(), 2 * first_verts);
    assert_eq!(geom.indices.len(), 2 * first_idx);
    for &ix in &geom.indices[first_idx..] {
        assert!((ix as usize) >= first_verts);
        assert!((ix as usize) < geom.vertices.len());
    }
}

#[test]
fn transform_translates_stroke_geometry() {
    // The same path under a pure translation yields vertices shifted by
    // exactly that translation.
    let pts = vec![pt(0.0, 0.0), pt(1.0, 0.0)];
    let mut plain = Geometry::new();
    tessellate_polyline(&pts, false, &white_stroke(0.1), None, PX_TO_NDC, &mut plain);

    let shift = vectorcade_render::Transform {
        m00: fx(1.0), m01: 0, m02: fx(0.25),
        m10: 0, m11: fx(1.0), m12: fx(-0.5),
        m20: 0, m21: 0, m22: fx(1.0),
    };
    let mut moved = Geometry::new();
    tessellate_polyline(&pts, false, &white_stroke(0.1), Some(&shift), PX_TO_NDC, &mut moved);

    assert_eq!(plain.vertices.len(), moved.vertices.len());
    for (a, b) in plain.vertices.iter().zip(moved.vertices.iter()) {
        assert_eq!(a.position.x + fx(0.25), b.position.x);
        assert_eq!(a.position.y + fx(-0.5), b.position.y);
    }
}
