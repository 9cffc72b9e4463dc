//! The draw-command vocabulary consumed by one render pass.

use vstd::prelude::*;

use crate::fixed::fx_ok;
use crate::transform::point_ok;
use crate::transform::transform_ok;
use crate::transform::Point;
use crate::transform::Transform;

verus! {

/// An RGBA color; `0xFFFF` per channel stands for full intensity.
#[derive(Clone, Copy, Debug, PartialEq, Eq, Structural)]
pub struct Color {
    pub r: u16,
    pub g: u16,
    pub b: u16,
    pub a: u16,
}

/// Opaque black.
pub open spec fn black_spec() -> Color {
    Color { r: 0, g: 0, b: 0, a: 0xFFFF }
}

/// Opaque white.
pub open spec fn white_spec() -> Color {
    Color { r: 0xFFFF, g: 0xFFFF, b: 0xFFFF, a: 0xFFFF }
}

impl Color {
    pub fn new(r: u16, g: u16, b: u16, a: u16) -> (c: Color)
        ensures
            c == (Color { r, g, b, a }),
    {
        Color { r, g, b, a }
    }

    pub fn black() -> (c: Color)
        ensures
            c == black_spec(),
    {
        Color { r: 0, g: 0, b: 0, a: 0xFFFF }
    }

    pub fn white() -> (c: Color)
        ensures
            c == white_spec(),
    {
        Color { r: 0xFFFF, g: 0xFFFF, b: 0xFFFF, a: 0xFFFF }
    }
}

/// How a path is rendered as a ribbon: a pixel-unit width plus a color.
#[derive(Clone, Copy, Debug, PartialEq, Eq, Structural)]
pub struct Stroke {
    pub color: Color,
    pub width_px: i64,
}

impl Stroke {
    pub fn new(color: Color, width_px: i64) -> (s: Stroke)
        ensures
            s == (Stroke { color, width_px }),
    {
        Stroke { color, width_px }
    }
}

/// A single stroked line segment.
#[derive(Clone, Copy, Debug, PartialEq, Eq, Structural)]
pub struct Line2 {
    pub a: Point,
    pub b: Point,
    pub stroke: Stroke,
}

/// One instruction of a display list.
#[derive(Clone, Debug)]
pub enum DrawCmd {
    /// Set the pending clear color for the pass.
    Clear { color: Color },
    /// Compose a transform onto the current one, saving the old.
    PushTransform(Transform),
    /// Restore the most recently saved transform; a no-op on an empty stack.
    PopTransform,
    /// Stroke a single segment.
    Line(Line2),
    /// Stroke an open or closed point path.
    Polyline { pts: Vec<Point>, closed: bool, stroke: Stroke },
    /// Stroke the glyph outlines of a text run.
    Text { pos: Point, text: String, size_px: i64, color: Color, style: u32 },
}

/// A stroke has a nonnegative width.
pub open spec fn stroke_ok(s: Stroke) -> bool {
    0 <= s.width_px
}

/// The command's coordinates are representable and its sizes nonnegative.
pub open spec fn cmd_ok(c: DrawCmd) -> bool {
    match c {
        DrawCmd::Clear { .. } => true,
        DrawCmd::PushTransform(t) => transform_ok(t),
        DrawCmd::PopTransform => true,
        DrawCmd::Line(l) => point_ok(l.a) && point_ok(l.b) && stroke_ok(l.stroke),
        DrawCmd::Polyline { pts, closed, stroke } => (forall|i: int|
            0 <= i < pts@.len() ==> point_ok(pts@[i])) && stroke_ok(stroke),
        DrawCmd::Text { pos, text, size_px, color, style } => point_ok(pos) && 0 <= size_px
            && fx_ok(size_px as int),
    }
}

/// Every command of the list is well-formed.
pub open spec fn cmds_ok(cmds: Seq<DrawCmd>) -> bool {
    forall|i: int| 0 <= i < cmds.len() ==> cmd_ok(#[trigger] cmds[i])
}

} // verus!
