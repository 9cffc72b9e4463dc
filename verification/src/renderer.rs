//! The per-pass command interpreter.
//!
//! One pass scans the display list once, in order: transform commands mutate
//! the render state, drawing commands tessellate through the current
//! transform into the shared geometry buffer, and every drawing command
//! counts whether or not it produced geometry.

use vstd::prelude::*;

use crate::draw::black_spec;
use crate::draw::cmds_ok;
use crate::draw::Color;
use crate::draw::DrawCmd;
use crate::draw::Line2;
use crate::draw::Stroke;
use crate::fixed::fx_mul_spec;
use crate::geometry::Geometry;
use crate::geometry::Mesh;
use crate::state::transform_opt_spec;
use crate::state::RenderState;
use crate::stats::RenderStats;
use crate::tessellate::append_stroke;
use crate::tessellate::half_width_spec;
use crate::tessellate::tessellate_line;
use crate::tessellate::tessellate_polyline;
use crate::tessellate::tpoints;
use crate::text::find_font;
use crate::text::tessellate_text;
use crate::text::text_emit;
use crate::text::Font;
use crate::text::FontRegistry;
use crate::text::TextParams;
use crate::text::GLYPH_STROKE_FRAC;
use crate::transform::compose_spec;
use crate::transform::identity_spec;
use crate::transform::Point;
use crate::transform::Transform;

verus! {

/// The abstract state of one render pass.
pub ghost struct Pass {
    pub stack: Seq<Transform>,
    pub current: Transform,
    pub clear: Color,
    pub mesh: Mesh,
    pub lines: int,
    pub polylines: int,
    pub text_runs: int,
}

/// The state every pass starts from: empty stack, identity transform,
/// black clear color, empty geometry, zero counters.
pub open spec fn pass_init() -> Pass {
    Pass {
        stack: Seq::empty(),
        current: identity_spec(),
        clear: black_spec(),
        mesh: Mesh { verts: Seq::empty(), idx: Seq::empty() },
        lines: 0,
        polylines: 0,
        text_runs: 0,
    }
}

/// What a stroked line contributes to the pass mesh.
pub open spec fn line_mesh(m: Mesh, l: Line2, cur: Transform, px: int) -> Mesh {
    append_stroke(
        m,
        tpoints(seq![l.a, l.b], transform_opt_spec(cur)),
        false,
        half_width_spec(l.stroke.width_px as int, px),
        l.stroke.color,
    )
}

/// What a stroked polyline contributes to the pass mesh.
pub open spec fn polyline_mesh(
    m: Mesh,
    pts: Seq<Point>,
    closed: bool,
    stroke: Stroke,
    cur: Transform,
    px: int,
) -> Mesh {
    append_stroke(
        m,
        tpoints(pts, transform_opt_spec(cur)),
        closed,
        half_width_spec(stroke.width_px as int, px),
        stroke.color,
    )
}

/// What a text run contributes to the pass mesh: nothing at all when its
/// style is not registered.
pub open spec fn text_mesh(
    m: Mesh,
    fonts: Seq<Font>,
    pos: Point,
    chars: Seq<char>,
    size_px: int,
    color: Color,
    style: u32,
    cur: Transform,
    px: int,
) -> Mesh {
    match find_font(fonts, style) {
        Option::None => m,
        Option::Some(f) => text_emit(
            m,
            f,
            chars,
            0,
            pos.x as int,
            pos.y as int,
            fx_mul_spec(size_px, px),
            transform_opt_spec(cur),
            half_width_spec(fx_mul_spec(size_px, GLYPH_STROKE_FRAC as int), px),
            color,
        ),
    }
}

/// One interpreter step: how a single command transforms the pass state.
pub open spec fn pass_step(p: Pass, cmd: DrawCmd, fonts: Seq<Font>, px: int) -> Pass {
    match cmd {
        DrawCmd::Clear { color } => Pass { clear: color, ..p },
        DrawCmd::PushTransform(t) => Pass {
            stack: p.stack.push(p.current),
            current: compose_spec(p.current, t),
            ..p
        },
        DrawCmd::PopTransform => if p.stack.len() > 0 {
            Pass { current: p.stack.last(), stack: p.stack.drop_last(), ..p }
        } else {
            p
        },
        DrawCmd::Line(l) => Pass { mesh: line_mesh(p.mesh, l, p.current, px), lines: p.lines + 1, ..p },
        DrawCmd::Polyline { pts, closed, stroke } => Pass {
            mesh: polyline_mesh(p.mesh, pts@, closed, stroke, p.current, px),
            polylines: p.polylines + 1,
            ..p
        },
        DrawCmd::Text { pos, text, size_px, color, style } => Pass {
            mesh: text_mesh(p.mesh, fonts, pos, text@, size_px as int, color, style, p.current, px),
            text_runs: p.text_runs + 1,
            ..p
        },
    }
}

/// The pass state after the first `i` commands, starting from `start`.
pub open spec fn pass_run(start: Pass, cmds: Seq<DrawCmd>, fonts: Seq<Font>, px: int, i: int) -> Pass
    decreases i,
{
    if i <= 0 {
        start
    } else {
        pass_step(pass_run(start, cmds, fonts, px, i - 1), cmds[i - 1], fonts, px)
    }
}

/// How many line commands a display list holds.
pub open spec fn n_lines(cmds: Seq<DrawCmd>) -> int
    decreases cmds.len(),
{
    if cmds.len() == 0 {
        0
    } else {
        n_lines(cmds.drop_last()) + if cmds.last() is Line {
            1int
        } else {
            0int
        }
    }
}

/// How many polyline commands a display list holds.
pub open spec fn n_polylines(cmds: Seq<DrawCmd>) -> int
    decreases cmds.len(),
{
    if cmds.len() == 0 {
        0
    } else {
        n_polylines(cmds.drop_last()) + if cmds.last() is Polyline {
            1int
        } else {
            0int
        }
    }
}

/// How many text commands a display list holds.
pub open spec fn n_text_runs(cmds: Seq<DrawCmd>) -> int
    decreases cmds.len(),
{
    if cmds.len() == 0 {
        0
    } else {
        n_text_runs(cmds.drop_last()) + if cmds.last() is Text {
            1int
        } else {
            0int
        }
    }
}

/// Counters stay within the number of commands seen.
pub proof fn lemma_counts_bound(cmds: Seq<DrawCmd>)
    ensures
        0 <= n_lines(cmds) <= cmds.len(),
        0 <= n_polylines(cmds) <= cmds.len(),
        0 <= n_text_runs(cmds) <= cmds.len(),
    decreases cmds.len(),
{
    if cmds.len() > 0 {
        lemma_counts_bound(cmds.drop_last());
    }
}

/// The pass counters count commands alone, independent of the render state
/// and of whether any geometry was actually produced.
pub proof fn lemma_pass_counts(start: Pass, cmds: Seq<DrawCmd>, fonts: Seq<Font>, px: int, i: int)
    requires
        0 <= i <= cmds.len(),
    ensures
        pass_run(start, cmds, fonts, px, i).lines == start.lines + n_lines(cmds.take(i)),
        pass_run(start, cmds, fonts, px, i).polylines == start.polylines + n_polylines(
            cmds.take(i),
        ),
        pass_run(start, cmds, fonts, px, i).text_runs == start.text_runs + n_text_runs(
            cmds.take(i),
        ),
    decreases i,
{
    if i > 0 {
        lemma_pass_counts(start, cmds, fonts, px, i - 1);
        assert(cmds.take(i).drop_last() =~= cmds.take(i - 1));
        assert(cmds.take(i).last() == cmds[i - 1]);
    }
}

/// Trait for vector graphics renderers.
///
/// Implementations consume display lists and report primitive counts.
pub trait VectorRenderer {
    /// The implementation's own well-formedness.
    spec fn inv(&self) -> bool;

    /// Render a list of draw commands and return statistics.
    fn render(&mut self, cmds: &Vec<DrawCmd>) -> (stats: RenderStats)
        requires
            old(self).inv(),
            cmds_ok(cmds@),
            cmds@.len() <= 0xFFFF_FFFF,
        ensures
            final(self).inv(),
            stats.lines as int == n_lines(cmds@),
            stats.polylines as int == n_polylines(cmds@),
            stats.text_runs as int == n_text_runs(cmds@),
    ;
}

/// Placeholder renderer for tests and headless runs.
///
/// Counts draw commands without producing any visual output.
pub struct NullRenderer;

impl VectorRenderer for NullRenderer {
    open spec fn inv(&self) -> bool {
        true
    }

    fn render(&mut self, cmds: &Vec<DrawCmd>) -> (stats: RenderStats) {
        let mut stats: RenderStats = RenderStats::zero();
        let n: usize = cmds.len();
        let mut i: usize = 0;
        while i < n
            invariant
                i <= n,
                n == cmds@.len() <= 0xFFFF_FFFF,
                stats.lines as int == n_lines(cmds@.take(i as int)),
                stats.polylines as int == n_polylines(cmds@.take(i as int)),
                stats.text_runs as int == n_text_runs(cmds@.take(i as int)),
            decreases n - i,
        {
            proof {
                lemma_counts_bound(cmds@.take(i as int));
                assert(cmds@.take(i + 1).drop_last() =~= cmds@.take(i as int));
                assert(cmds@.take(i + 1).last() == cmds@[i as int]);
            }
            match &cmds[i] {
                DrawCmd::Line(_) => {
                    stats.lines = stats.lines + 1;
                },
                DrawCmd::Polyline { .. } => {
                    stats.polylines = stats.polylines + 1;
                },
                DrawCmd::Text { .. } => {
                    stats.text_runs = stats.text_runs + 1;
                },
                _ => {},
            }
            i = i + 1;
        }
        proof {
            assert(cmds@.take(n as int) =~= cmds@);
        }
        stats
    }
}

/// The tessellating renderer core: interprets a display list into triangle
/// geometry held in its own buffer, using its registered fonts and a fixed
/// pixel-to-output conversion factor per pass.
pub struct Renderer {
    pub fonts: FontRegistry,
    pub geometry: Geometry,
    pub state: RenderState,
    pub px_to_ndc: i64,
}

impl Renderer {
    /// The engine invariant: sound geometry, representable transforms and a
    /// nonnegative conversion factor.
    pub open spec fn wf(self) -> bool {
        self.geometry.wf() && self.state.wf() && 0 <= self.px_to_ndc
    }

    /// A renderer over the given fonts; `px_to_ndc` converts pixel
    /// measurements to output units for the whole of every pass.
    pub fn new(fonts: FontRegistry, px_to_ndc: i64) -> (r: Renderer)
        requires
            0 <= px_to_ndc,
        ensures
            r.wf(),
            r.fonts.fonts@ == fonts.fonts@,
            r.geometry@.verts.len() == 0,
            r.geometry@.idx.len() == 0,
            r.state.transform_stack@ == Seq::<Transform>::empty(),
            r.state.current == identity_spec(),
            r.state.clear == black_spec(),
            r.px_to_ndc == px_to_ndc,
    {
        Renderer {
            fonts,
            geometry: Geometry::new(),
            state: RenderState::new(),
            px_to_ndc,
        }
    }

    /// Interpret the display list: clear the geometry, then scan the
    /// commands once, in order.  The render state is taken as it stands, so
    /// a full pass resets it first.
    #[verifier::rlimit(100)]
    pub fn tessellate_commands(&mut self, cmds: &Vec<DrawCmd>) -> (stats: RenderStats)
        requires
            old(self).wf(),
            cmds_ok(cmds@),
            cmds@.len() <= 0xFFFF_FFFF,
        ensures
            final(self).wf(),
            final(self).fonts.fonts@ == old(self).fonts.fonts@,
            final(self).px_to_ndc == old(self).px_to_ndc,
            ({
                let start = Pass {
                    stack: old(self).state.transform_stack@,
                    current: old(self).state.current,
                    clear: old(self).state.clear,
                    mesh: Mesh { verts: Seq::empty(), idx: Seq::empty() },
                    lines: 0,
                    polylines: 0,
                    text_runs: 0,
                };
                let p = pass_run(
                    start,
                    cmds@,
                    old(self).fonts.fonts@,
                    old(self).px_to_ndc as int,
                    cmds@.len() as int,
                );
                final(self).geometry@ == p.mesh && final(self).state.transform_stack@ == p.stack
                    && final(self).state.current == p.current && final(self).state.clear == p.clear
                    && stats.lines as int == p.lines && stats.polylines as int == p.polylines
                    && stats.text_runs as int == p.text_runs
            }),
    {
        let mut stats: RenderStats = RenderStats::zero();
        self.geometry.clear();
        let ghost start: Pass = Pass {
            stack: old(self).state.transform_stack@,
            current: old(self).state.current,
            clear: old(self).state.clear,
            mesh: Mesh { verts: Seq::empty(), idx: Seq::empty() },
            lines: 0,
            polylines: 0,
            text_runs: 0,
        };
        let ghost fonts0: Seq<Font> = old(self).fonts.fonts@;
        let ghost px: int = old(self).px_to_ndc as int;
        let n: usize = cmds.len();
        let mut i: usize = 0;
        while i < n
            invariant
                i <= n,
                n == cmds@.len() <= 0xFFFF_FFFF,
                cmds_ok(cmds@),
                self.wf(),
                self.fonts.fonts@ == fonts0,
                self.px_to_ndc == old(self).px_to_ndc,
                px == self.px_to_ndc as int,
                start == (Pass {
                    stack: old(self).state.transform_stack@,
                    current: old(self).state.current,
                    clear: old(self).state.clear,
                    mesh: Mesh { verts: Seq::empty(), idx: Seq::empty() },
                    lines: 0,
                    polylines: 0,
                    text_runs: 0,
                }),
                ({
                    let p = pass_run(start, cmds@, fonts0, px, i as int);
                    self.geometry@ == p.mesh && self.state.transform_stack@ == p.stack
                        && self.state.current == p.current && self.state.clear == p.clear
                        && stats.lines as int == p.lines && stats.polylines as int == p.polylines
                        && stats.text_runs as int == p.text_runs
                }),
            decreases n - i,
        {
            proof {
                lemma_pass_counts(start, cmds@, fonts0, px, i as int);
                lemma_counts_bound(cmds@.take(i as int));
                assert(cmds@.take(i as int).len() == i as int);
                assert(stats.lines as int <= i as int);
                assert(stats.polylines as int <= i as int);
                assert(stats.text_runs as int <= i as int);
                assert(crate::draw::cmd_ok(cmds@[i as int]));
            }
            match &cmds[i] {
                DrawCmd::Clear { color } => {
                    self.state.clear = *color;
                },
                DrawCmd::PushTransform(t) => {
                    self.state.push(*t);
                },
                DrawCmd::PopTransform => {
                    self.state.pop();
                },
                DrawCmd::Line(line) => {
                    let t: Option<Transform> = self.state.transform_opt();
                    let tr: Option<&Transform> = match &t {
                        Option::Some(x) => Option::Some(x),
                        Option::None => Option::None,
                    };
                    tessellate_line(line, tr, self.px_to_ndc, &mut self.geometry);
                    stats.lines = stats.lines + 1;
                },
                DrawCmd::Polyline { pts, closed, stroke } => {
                    let t: Option<Transform> = self.state.transform_opt();
                    let tr: Option<&Transform> = match &t {
                        Option::Some(x) => Option::Some(x),
                        Option::None => Option::None,
                    };
                    tessellate_polyline(pts, *closed, stroke, tr, self.px_to_ndc, &mut self.geometry);
                    stats.polylines = stats.polylines + 1;
                },
                DrawCmd::Text { pos, text, size_px, color, style } => {
                    let t: Option<Transform> = self.state.transform_opt();
                    let tr: Option<&Transform> = match &t {
                        Option::Some(x) => Option::Some(x),
                        Option::None => Option::None,
                    };
                    let params: TextParams<'_> = TextParams {
                        registry: &self.fonts,
                        text: text.as_str(),
                        pos: *pos,
                        size_px: *size_px,
                        color: *color,
                        style: *style,
                        px_to_ndc: self.px_to_ndc,
                    };
                    tessellate_text(&params, tr, &mut self.geometry);
                    stats.text_runs = stats.text_runs + 1;
                },
            }
            i = i + 1;
        }
        stats
    }
}

/// An empty display list leaves a pass exactly where it started: with the
/// geometry and counters it began with.
pub proof fn lemma_empty_pass(start: Pass, fonts: Seq<Font>, px: int)
    ensures
        pass_run(start, Seq::empty(), fonts, px, 0) == start,
{
}

/// A line whose two endpoints coincide after the transform appends no
/// geometry, yet still increments the line counter.
pub proof fn lemma_degenerate_line(p: Pass, l: Line2, fonts: Seq<Font>, px: int)
    requires
        !crate::tessellate::emits(tpoints(seq![l.a, l.b], transform_opt_spec(p.current))),
    ensures
        pass_step(p, DrawCmd::Line(l), fonts, px).mesh == p.mesh,
        pass_step(p, DrawCmd::Line(l), fonts, px).lines == p.lines + 1,
{
}

/// A polyline with fewer than two distinct points after the transform
/// appends no geometry, yet still increments the polyline counter.
pub proof fn lemma_degenerate_polyline(
    p: Pass,
    pts: Vec<Point>,
    closed: bool,
    stroke: Stroke,
    fonts: Seq<Font>,
    px: int,
)
    requires
        !crate::tessellate::emits(tpoints(pts@, transform_opt_spec(p.current))),
    ensures
        pass_step(p, DrawCmd::Polyline { pts, closed, stroke }, fonts, px).mesh == p.mesh,
        pass_step(p, DrawCmd::Polyline { pts, closed, stroke }, fonts, px).polylines == p.polylines
            + 1,
{
}

/// Nested transforms compose: pushing `t1` and then `t2` from a pass whose
/// current transform is still the identity makes every subsequent primitive
/// see exactly `t1 * t2`.
pub proof fn lemma_push_composes(p: Pass, t1: Transform, t2: Transform, fonts: Seq<Font>, px: int)
    requires
        p.current == identity_spec(),
        crate::transform::transform_ok(t1),
    ensures
        pass_step(
            pass_step(p, DrawCmd::PushTransform(t1), fonts, px),
            DrawCmd::PushTransform(t2),
            fonts,
            px,
        ).current == compose_spec(t1, t2),
{
    crate::transform::lemma_identity_compose(t1);
}

/// Popping beyond an empty stack is an idempotent no-op: one pop on an
/// empty stack changes nothing, and so does a second.
pub proof fn lemma_pop_empty(p: Pass, fonts: Seq<Font>, px: int)
    requires
        p.stack.len() == 0,
    ensures
        pass_step(p, DrawCmd::PopTransform, fonts, px) == p,
        pass_step(pass_step(p, DrawCmd::PopTransform, fonts, px), DrawCmd::PopTransform, fonts, px)
            == p,
{
}

impl VectorRenderer for Renderer {
    open spec fn inv(&self) -> bool {
        self.wf()
    }

    fn render(&mut self, cmds: &Vec<DrawCmd>) -> (stats: RenderStats) {
        self.state.reset();
        let stats: RenderStats = self.tessellate_commands(cmds);
        proof {
            lemma_pass_counts(
                pass_init(),
                cmds@,
                old(self).fonts.fonts@,
                old(self).px_to_ndc as int,
                cmds@.len() as int,
            );
            assert(cmds@.take(cmds@.len() as int) =~= cmds@);
        }
        stats
    }
}

} // verus!
