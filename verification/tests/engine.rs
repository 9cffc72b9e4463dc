//! Scenario tests for the tessellating renderer engine.

use vectorcade_render::text::{
    Font, FontRegistry, Glyph, GlyphPath, GlyphPathCmd, STYLE_DEFAULT,
};
use vectorcade_render::{
    Color, DrawCmd, Line2, Point, Renderer, Stroke, Transform, VectorRenderer,
};

fn fx(v: f64) -> i64 {
    (v * 65536.0).round() as i64
}

fn pt(x: f64, y: f64) -> Point {
    Point { x: fx(x), y: fx(y) }
}

fn white_stroke(width: f64) -> Stroke {
    Stroke::new(Color::white(), fx(width))
}

fn translation(x: f64, y: f64) -> Transform {
    Transform {
        m00: fx(1.0), m01: 0, m02: fx(x),
        m10: 0, m11: fx(1.0), m12: fx(y),
        m20: 0, m21: 0, m22: fx(1.0),
    }
}

fn scale(x: f64, y: f64) -> Transform {
    Transform {
        m00: fx(x), m01: 0, m02: 0,
        m10: 0, m11: fx(y), m12: 0,
        m20: 0, m21: 0, m22: fx(1.0),
    }
}

/// A small font with outlines for 'A' and 'B' only.
fn default_font() -> Font {
    let a_legs = GlyphPath {
        cmds: vec![
            GlyphPathCmd::MoveTo(pt(0.0, 0.0)),
            GlyphPathCmd::LineTo(pt(0.4, 1.0)),
            GlyphPathCmd::LineTo(pt(0.8, 0.0)),
        ],
    };
    let a_bar = GlyphPath {
        cmds: vec![
            GlyphPathCmd::MoveTo(pt(0.2, 0.4)),
            GlyphPathCmd::LineTo(pt(0.6, 0.4)),
        ],
    };
    let b_box = GlyphPath {
        cmds: vec![
            GlyphPathCmd::MoveTo(pt(0.0, 0.0)),
            GlyphPathCmd::LineTo(pt(0.0, 1.0)),
            GlyphPathCmd::LineTo(pt(0.6, 1.0)),
            GlyphPathCmd::LineTo(pt(0.6, 0.0)),
            GlyphPathCmd::Close,
        ],
    };
    Font {
        style: STYLE_DEFAULT,
        default_advance: fx(1.0),
        glyphs: vec![
            Glyph { ch: 'A', advance: fx(1.0), paths: vec![a_legs, a_bar] },
            Glyph { ch: 'B', advance: fx(1.0), paths: vec![b_box] },
        ],
    }
}

fn default_registry() -> FontRegistry {
    let mut reg = FontRegistry::new();
    reg.register(default_font());
    reg
}

fn engine() -> Renderer {
    Renderer::new(default_registry(), 65536)
}

#[test]
fn render_empty_display_list() {
    let mut r = engine();
    let stats = r.render(&vec![]);
    assert_eq!(stats.lines, 0);
    assert_eq!(stats.polylines, 0);
    assert_eq!(stats.text_runs, 0);
    assert!(r.geometry.vertices.is_empty());
    assert!(r.geometry.indices.is_empty());
}

#[test]
fn scenario_mixed_display_list() {
    // Without the text run, for comparison.
    let base_cmds = vec![
        DrawCmd::Clear { color: Color::black() },
        DrawCmd::Line(Line2 { a: pt(0.0, 0.0), b: pt(1.0, 0.0), stroke: white_stroke(2.0) }),
        DrawCmd::Polyline {
            pts: vec![pt(0.0, 0.0), pt(1.0, 0.0), pt(1.0, 1.0)],
            closed: false,
            stroke: Stroke::new(Color { r: 0xFFFF, g: 0, b: 0, a: 0xFFFF }, fx(1.0)),
        },
    ];
    let mut r = engine();
    r.render(&base_cmds);
    let without_text = r.geometry.vertices.len();
    assert!(without_text > 0);

    let mut cmds = base_cmds.clone();
    cmds.push(DrawCmd::Text {
        pos: pt(-0.5, 0.5),
        text: "AB".to_string(),
        size_px: fx(12.0),
        color: Color::white(),
        style: STYLE_DEFAULT,
    });
    let stats = r.render(&cmds);
    assert_eq!(stats.lines, 1);
    assert_eq!(stats.polylines, 1);
    assert_eq!(stats.text_runs, 1);
    assert!(!r.geometry.vertices.is_empty());
    assert!(!r.geometry.indices.is_empty());
    // Both 'A' and 'B' have outlines, so the text run contributed geometry.
    assert!(r.geometry.vertices.len() > without_text);
    assert_eq!(r.geometry.indices.len() % 3, 0);
    for &ix in &r.geometry.indices {
        assert!((ix as usize) < r.geometry.vertices.len());
    }
}

#[test]
fn unknown_font_style_counts_but_adds_nothing() {
    let mut r = engine();
    let stats = r.render(&vec![DrawCmd::Text {
        pos: pt(0.0, 0.0),
        text: "AB".to_string(),
        size_px: fx(12.0),
        color: Color::white(),
        style: 99,
    }]);
    assert_eq!(stats.text_runs, 1);
    assert!(r.geometry.vertices.is_empty());
    assert!(r.geometry.indices.is_empty());
}

#[test]
fn degenerate_line_counts_but_adds_nothing() {
    let mut r = engine();
    let stats = r.render(&vec![DrawCmd::Line(Line2 {
        a: pt(0.3, 0.3),
        b: pt(0.3, 0.3),
        stroke: white_stroke(2.0),
    })]);
    assert_eq!(stats.lines, 1);
    assert!(r.geometry.vertices.is_empty());
}

#[test]
fn collapsing_transform_counts_but_adds_nothing() {
    // After a scale-to-zero transform the endpoints coincide, so no
    // vertices may be appended; the counter still moves.
    let mut r = engine();
    let stats = r.render(&vec![
        DrawCmd::PushTransform(scale(0.0, 0.0)),
        DrawCmd::Line(Line2 { a: pt(0.0, 0.0), b: pt(1.0, 1.0), stroke: white_stroke(2.0) }),
    ]);
    assert_eq!(stats.lines, 1);
    assert!(r.geometry.vertices.is_empty());
}

#[test]
fn pushed_transforms_compose() {
    let t1 = translation(0.25, 0.0);
    let t2 = scale(0.5, 0.5);
    let line = DrawCmd::Line(Line2 {
        a: pt(0.1, 0.2),
        b: pt(0.9, 0.7),
        stroke: white_stroke(2.0),
    });

    let mut nested = engine();
    nested.render(&vec![
        DrawCmd::PushTransform(t1),
        DrawCmd::PushTransform(t2),
        line.clone(),
    ]);

    let mut flat = engine();
    flat.render(&vec![DrawCmd::PushTransform(t1.compose(t2)), line.clone()]);

    assert_eq!(nested.geometry.vertices, flat.geometry.vertices);
    assert_eq!(nested.geometry.indices, flat.geometry.indices);
}

#[test]
fn pop_beyond_empty_stack_is_a_noop() {
    let line = DrawCmd::Line(Line2 {
        a: pt(0.0, 0.0),
        b: pt(0.5, 0.5),
        stroke: white_stroke(1.0),
    });

    let mut popped = engine();
    let stats = popped.render(&vec![DrawCmd::PopTransform, DrawCmd::PopTransform, line.clone()]);
    assert_eq!(stats.lines, 1);

    let mut plain = engine();
    plain.render(&vec![line.clone()]);

    assert_eq!(popped.geometry.vertices, plain.geometry.vertices);
    assert_eq!(popped.geometry.indices, plain.geometry.indices);
}

#[test]
fn identical_strokes_in_one_pass_append_identical_counts() {
    let poly = DrawCmd::Polyline {
        pts: vec![pt(0.0, 0.0), pt(0.5, 0.0), pt(0.5, 0.5)],
        closed: false,
        stroke: white_stroke(1.5),
    };

    let mut single = engine();
    single.render(&vec![poly.clone()]);
    let one_verts = single.geometry.vertices.len();
    let one_idx = single.geometry.indices.len();

    let mut double = engine();
    double.render(&vec![poly.clone(), poly.clone()]);
    assert_eq!(double.geometry.vertices.len(), 2 * one_verts);
    assert_eq!(double.geometry.indices.len(), 2 * one_idx);
}

#[test]
fn missing_glyph_still_advances_the_cursor() {
    // 'Z' has no outline in the test font; "ZA" must render 'A' exactly one
    // advance to the right of where "A" alone would stand.
    let size = fx(0.2);
    let mut with_gap = engine();
    with_gap.render(&vec![DrawCmd::Text {
        pos: pt(0.0, 0.0),
        text: "ZA".to_string(),
        size_px: size,
        color: Color::white(),
        style: STYLE_DEFAULT,
    }]);

    // advance(Z) = default advance = one em, so the shift is one glyph size.
    let mut shifted = engine();
    shifted.render(&vec![DrawCmd::Text {
        pos: Point { x: size, y: 0 },
        text: "A".to_string(),
        size_px: size,
        color: Color::white(),
        style: STYLE_DEFAULT,
    }]);

    assert_eq!(with_gap.geometry.vertices, shifted.geometry.vertices);
    assert_eq!(with_gap.geometry.indices, shifted.geometry.indices);
}

#[test]
fn clear_command_sets_the_pending_clear_color() {
    let red = Color { r: 0xFFFF, g: 0, b: 0, a: 0xFFFF };
    let mut r = engine();
    r.render(&vec![DrawCmd::Clear { color: red }]);
    assert_eq!(r.state.clear_color(), red);

    // The next pass resets the clear color along with everything else.
    r.render(&vec![]);
    assert_eq!(r.state.clear_color(), Color::black());
}

#[test]
fn closed_polyline_seam_matches_interior_joins() {
    // In a closed triangle every point carries one join disc and every
    // segment one quad, the seam segment and seam joint included: the mesh
    // is exactly three quads and three discs, with no gap at the seam.
    let mut r = engine();
    r.render(&vec![DrawCmd::Polyline {
        pts: vec![pt(0.0, 0.0), pt(1.0, 0.0), pt(0.5, 1.0)],
        closed: true,
        stroke: white_stroke(1.0),
    }]);
    assert_eq!(r.geometry.vertices.len(), 3 * 4 + 3 * 13);
    assert_eq!(r.geometry.indices.len(), 3 * 6 + 3 * 36);
}
