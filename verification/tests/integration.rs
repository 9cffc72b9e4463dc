//! Integration tests for full display-list processing.
//!
//! Exercises all draw-command kinds through the counting renderer.

use vectorcade_render::text::{
    STYLE_ATARI, STYLE_CINEMATRONICS, STYLE_MIDWAY, STYLE_VECTOR_SCANLINE,
};
use vectorcade_render::{Color, DrawCmd, Line2, NullRenderer, Point, Stroke, Transform, VectorRenderer};

fn fx(v: f64) -> i64 {
    (v * 65536.0).round() as i64
}

fn pt(x: f64, y: f64) -> Point {
    Point { x: fx(x), y: fx(y) }
}

fn white_stroke(width: f64) -> Stroke {
    Stroke::new(Color::white(), fx(width))
}

fn rotation_z(radians: f64) -> Transform {
    let (s, c) = radians.sin_cos();
    Transform {
        m00: fx(c), m01: fx(-s), m02: 0,
        m10: fx(s), m11: fx(c), m12: 0,
        m20: 0, m21: 0, m22: fx(1.0),
    }
}

fn translation(x: f64, y: f64) -> Transform {
    Transform {
        m00: fx(1.0), m01: 0, m02: fx(x),
        m10: 0, m11: fx(1.0), m12: fx(y),
        m20: 0, m21: 0, m22: fx(1.0),
    }
}

fn scale(x: f64, y: f64) -> Transform {
    Transform {
        m00: fx(x), m01: 0, m02: 0,
        m10: 0, m11: fx(y), m12: 0,
        m20: 0, m21: 0, m22: fx(1.0),
    }
}

#[test]
fn renders_pong_like_scene() {
    let mut renderer = NullRenderer;
    let cmds = vec![
        DrawCmd::Clear { color: Color::black() },
        // Left paddle
        DrawCmd::Polyline {
            pts: vec![pt(-0.9, -0.2), pt(-0.9, 0.2), pt(-0.85, 0.2), pt(-0.85, -0.2)],
            closed: true,
            stroke: white_stroke(2.0),
        },
        // Right paddle
        DrawCmd::Polyline {
            pts: vec![pt(0.85, -0.15), pt(0.85, 0.15), pt(0.9, 0.15), pt(0.9, -0.15)],
            closed: true,
            stroke: white_stroke(2.0),
        },
        // Ball
        DrawCmd::Polyline {
            pts: vec![pt(-0.02, -0.02), pt(0.02, -0.02), pt(0.02, 0.02), pt(-0.02, 0.02)],
            closed: true,
            stroke: white_stroke(2.0),
        },
        // Center line
        DrawCmd::Line(Line2 { a: pt(0.0, -1.0), b: pt(0.0, 1.0), stroke: white_stroke(1.0) }),
        // Score text
        DrawCmd::Text {
            pos: pt(-0.3, 0.8),
            text: "3".to_string(),
            size_px: fx(32.0),
            color: Color::white(),
            style: STYLE_ATARI,
        },
        DrawCmd::Text {
            pos: pt(0.2, 0.8),
            text: "2".to_string(),
            size_px: fx(32.0),
            color: Color::white(),
            style: STYLE_ATARI,
        },
    ];

    let stats = renderer.render(&cmds);
    assert_eq!(stats.lines, 1, "should have 1 center line");
    assert_eq!(stats.polylines, 3, "should have 3 polylines (paddles + ball)");
    assert_eq!(stats.text_runs, 2, "should have 2 score texts");
}

#[test]
fn renders_asteroids_like_scene() {
    let mut renderer = NullRenderer;
    let cmds = vec![
        DrawCmd::Clear { color: Color::black() },
        // Ship (triangle)
        DrawCmd::PushTransform(rotation_z(0.5)),
        DrawCmd::Polyline {
            pts: vec![pt(0.0, 0.05), pt(-0.03, -0.03), pt(0.03, -0.03)],
            closed: true,
            stroke: white_stroke(1.5),
        },
        DrawCmd::PopTransform,
        // Asteroid (irregular polygon)
        DrawCmd::PushTransform(translation(0.5, 0.3)),
        DrawCmd::Polyline {
            pts: vec![
                pt(0.0, 0.1), pt(0.08, 0.06), pt(0.1, 0.0),
                pt(0.07, -0.08), pt(-0.05, -0.1), pt(-0.1, -0.02),
                pt(-0.08, 0.07),
            ],
            closed: true,
            stroke: white_stroke(1.5),
        },
        DrawCmd::PopTransform,
        // Bullet
        DrawCmd::Line(Line2 {
            a: pt(0.1, 0.1),
            b: pt(0.12, 0.12),
            stroke: white_stroke(2.0),
        }),
        // Score
        DrawCmd::Text {
            pos: pt(-0.9, 0.9),
            text: "1250".to_string(),
            size_px: fx(24.0),
            color: Color::white(),
            style: STYLE_ATARI,
        },
    ];

    let stats = renderer.render(&cmds);
    assert_eq!(stats.lines, 1, "should have 1 bullet line");
    assert_eq!(stats.polylines, 2, "should have 2 polylines (ship + asteroid)");
    assert_eq!(stats.text_runs, 1, "should have 1 score text");
}

#[test]
fn handles_nested_transforms() {
    let mut renderer = NullRenderer;
    let cmds = vec![
        DrawCmd::Clear { color: Color::black() },
        DrawCmd::PushTransform(translation(0.5, 0.0)),
        DrawCmd::PushTransform(scale(0.5, 0.5)),
        DrawCmd::PushTransform(rotation_z(std::f64::consts::PI / 4.0)),
        DrawCmd::Line(Line2 { a: pt(0.0, 0.0), b: pt(0.1, 0.0), stroke: white_stroke(1.0) }),
        DrawCmd::PopTransform,
        DrawCmd::PopTransform,
        DrawCmd::PopTransform,
    ];

    let stats = renderer.render(&cmds);
    assert_eq!(stats.lines, 1);
}

#[test]
fn handles_all_font_styles() {
    let mut renderer = NullRenderer;
    let cmds = vec![
        DrawCmd::Clear { color: Color::black() },
        DrawCmd::Text { pos: pt(-0.8, 0.6), text: "ATARI".to_string(), size_px: fx(20.0), color: Color::white(), style: STYLE_ATARI },
        DrawCmd::Text { pos: pt(-0.8, 0.3), text: "CINEMA".to_string(), size_px: fx(20.0), color: Color::white(), style: STYLE_CINEMATRONICS },
        DrawCmd::Text { pos: pt(-0.8, 0.0), text: "MIDWAY".to_string(), size_px: fx(20.0), color: Color::white(), style: STYLE_MIDWAY },
        DrawCmd::Text { pos: pt(-0.8, -0.3), text: "SCAN".to_string(), size_px: fx(20.0), color: Color::white(), style: STYLE_VECTOR_SCANLINE },
    ];

    let stats = renderer.render(&cmds);
    assert_eq!(stats.text_runs, 4, "should render all 4 font styles");
}

#[test]
fn handles_colored_strokes() {
    let mut renderer = NullRenderer;
    let green = Color { r: 0, g: 0xFFFF, b: 0, a: 0xFFFF };
    let red = Color { r: 0xFFFF, g: 0, b: 0, a: 0xFFFF };
    let blue = Color { r: 0, g: 0, b: 0xFFFF, a: 0xFFFF };

    let cmds = vec![
        DrawCmd::Clear { color: Color::black() },
        DrawCmd::Line(Line2 { a: pt(-0.5, 0.0), b: pt(0.5, 0.0), stroke: Stroke::new(green, fx(3.0)) }),
        DrawCmd::Line(Line2 { a: pt(0.0, -0.5), b: pt(0.0, 0.5), stroke: Stroke::new(red, fx(3.0)) }),
        DrawCmd::Polyline {
            pts: vec![pt(-0.3, -0.3), pt(0.3, -0.3), pt(0.0, 0.3)],
            closed: true,
            stroke: Stroke::new(blue, fx(2.0)),
        },
    ];

    let stats = renderer.render(&cmds);
    assert_eq!(stats.lines, 2);
    assert_eq!(stats.polylines, 1);
}
