//! Text rendering: glyph outlines stroked through the tessellator.
//!
//! A glyph is a set of sub-paths in font-design units.  Each sub-path is
//! walked as an explicit accumulator: `MoveTo` flushes what was gathered and
//! starts anew, `LineTo` appends, `Close` marks the sub-path closed; the
//! last sub-path is flushed at the end of the walk.  Flushed sub-paths are
//! stroked exactly like any other polyline.

use vstd::prelude::*;
use vstd::string::StrSliceExecFns;

use crate::draw::stroke_ok;
use crate::draw::Color;
use crate::draw::Stroke;
use crate::fixed::clamp_fx;
use crate::fixed::clamp_spec;
use crate::fixed::fx_mul;
use crate::fixed::fx_mul_spec;
use crate::fixed::fx_ok;
use crate::geometry::Geometry;
use crate::geometry::Mesh;
use crate::tessellate::append_stroke;
use crate::tessellate::deref_opt;
use crate::tessellate::half_width_spec;
use crate::tessellate::opt_transform_ok;
use crate::tessellate::pts_ok;
use crate::tessellate::tessellate_polyline;
use crate::tessellate::tpoints;
use crate::transform::point_ok;
use crate::transform::Point;
use crate::transform::Transform;

verus! {

/// Glyph outline stroke width as a fraction of the font size: about 8%.
pub const GLYPH_STROKE_FRAC: i64 = 5243;

/// The default font style id.
pub const STYLE_DEFAULT: u32 = 0;

/// The Atari-flavoured font style id.
pub const STYLE_ATARI: u32 = 1;

/// The Cinematronics-flavoured font style id.
pub const STYLE_CINEMATRONICS: u32 = 2;

/// The Midway-flavoured font style id.
pub const STYLE_MIDWAY: u32 = 3;

/// The scanline-flavoured font style id.
pub const STYLE_VECTOR_SCANLINE: u32 = 4;

/// One step of a glyph outline sub-path, in font-design units.
#[derive(Clone, Copy, Debug, PartialEq, Eq, Structural)]
pub enum GlyphPathCmd {
    MoveTo(Point),
    LineTo(Point),
    Close,
}

/// One outline path of a glyph.
#[derive(Clone, Debug)]
pub struct GlyphPath {
    pub cmds: Vec<GlyphPathCmd>,
}

/// A character's outline paths plus its horizontal advance in design units.
#[derive(Clone, Debug)]
pub struct Glyph {
    pub ch: char,
    pub advance: i64,
    pub paths: Vec<GlyphPath>,
}

/// The outlines of one font style.
#[derive(Clone, Debug)]
pub struct Font {
    pub style: u32,
    pub default_advance: i64,
    pub glyphs: Vec<Glyph>,
}

/// The font styles available to a renderer, keyed by style id.
#[derive(Clone, Debug)]
pub struct FontRegistry {
    pub fonts: Vec<Font>,
}

/// The first glyph of the sequence drawn for `ch`, if any.
pub open spec fn find_glyph(glyphs: Seq<Glyph>, ch: char) -> Option<Glyph>
    decreases glyphs.len(),
{
    if glyphs.len() == 0 {
        Option::None
    } else if glyphs[0].ch == ch {
        Option::Some(glyphs[0])
    } else {
        find_glyph(glyphs.skip(1), ch)
    }
}

/// The first registered font of the given style, if any.
pub open spec fn find_font(fonts: Seq<Font>, style: u32) -> Option<Font>
    decreases fonts.len(),
{
    if fonts.len() == 0 {
        Option::None
    } else if fonts[0].style == style {
        Option::Some(fonts[0])
    } else {
        find_font(fonts.skip(1), style)
    }
}

/// The font has an outline for the character.
pub open spec fn font_has_glyph(f: Font, ch: char) -> bool {
    find_glyph(f.glyphs@, ch) is Some
}

/// The cursor advance for the character: its glyph's metric, or the font's
/// fallback for characters without an outline.
pub open spec fn font_advance(f: Font, ch: char) -> int {
    match find_glyph(f.glyphs@, ch) {
        Option::Some(g) => g.advance as int,
        Option::None => f.default_advance as int,
    }
}

/// Map a design-space outline point into render space: scale by the glyph
/// size, then offset by the cursor and the baseline.
pub open spec fn glyph_pt_spec(p: Point, ox: int, oy: int, s: int) -> Point {
    Point {
        x: clamp_spec(ox + fx_mul_spec(p.x as int, s)) as i64,
        y: clamp_spec(oy + fx_mul_spec(p.y as int, s)) as i64,
    }
}

/// Walk the rest of one outline path, carrying the sub-path gathered so far;
/// `MoveTo` flushes it as a stroke, the walk's end flushes the remainder.
pub open spec fn walk_cmds(
    m: Mesh,
    cmds: Seq<GlyphPathCmd>,
    i: int,
    cur: Seq<Point>,
    closed: bool,
    ox: int,
    oy: int,
    s: int,
    t: Option<Transform>,
    half: int,
    color: Color,
) -> Mesh
    decreases cmds.len() - i,
{
    if i < 0 || i >= cmds.len() {
        append_stroke(m, tpoints(cur, t), closed, half, color)
    } else {
        match cmds[i] {
            GlyphPathCmd::MoveTo(p) => walk_cmds(
                append_stroke(m, tpoints(cur, t), closed, half, color),
                cmds,
                i + 1,
                seq![glyph_pt_spec(p, ox, oy, s)],
                false,
                ox,
                oy,
                s,
                t,
                half,
                color,
            ),
            GlyphPathCmd::LineTo(p) => walk_cmds(
                m,
                cmds,
                i + 1,
                cur.push(glyph_pt_spec(p, ox, oy, s)),
                closed,
                ox,
                oy,
                s,
                t,
                half,
                color,
            ),
            GlyphPathCmd::Close => walk_cmds(m, cmds, i + 1, cur, true, ox, oy, s, t, half, color),
        }
    }
}

/// Stroke the outline paths of one glyph, from path `j` on.
pub open spec fn glyph_emit(
    m: Mesh,
    paths: Seq<GlyphPath>,
    j: int,
    ox: int,
    oy: int,
    s: int,
    t: Option<Transform>,
    half: int,
    color: Color,
) -> Mesh
    decreases paths.len() - j,
{
    if j < 0 || j >= paths.len() {
        m
    } else {
        glyph_emit(
            walk_cmds(m, paths[j].cmds@, 0, Seq::empty(), false, ox, oy, s, t, half, color),
            paths,
            j + 1,
            ox,
            oy,
            s,
            t,
            half,
            color,
        )
    }
}

/// Render the characters of a text run from position `k` on: each character
/// with an outline is stroked at the cursor, and the cursor advances by the
/// character's metric whether or not an outline exists.
pub open spec fn text_emit(
    m: Mesh,
    f: Font,
    chars: Seq<char>,
    k: int,
    cx: int,
    oy: int,
    s: int,
    t: Option<Transform>,
    half: int,
    color: Color,
) -> Mesh
    decreases chars.len() - k,
{
    if k < 0 || k >= chars.len() {
        m
    } else {
        let ch = chars[k];
        let m2 = match find_glyph(f.glyphs@, ch) {
            Option::Some(g) => glyph_emit(m, g.paths@, 0, cx, oy, s, t, half, color),
            Option::None => m,
        };
        text_emit(
            m2,
            f,
            chars,
            k + 1,
            clamp_spec(cx + fx_mul_spec(font_advance(f, ch), s)),
            oy,
            s,
            t,
            half,
            color,
        )
    }
}

impl Font {
    /// Whether an outline is registered for the character.
    pub fn has_glyph(&self, ch: char) -> (b: bool)
        ensures
            b == font_has_glyph(*self, ch),
    {
        self.glyph(ch).is_some()
    }

    /// The cursor advance for the character, in design units.
    pub fn advance(&self, ch: char) -> (a: i64)
        ensures
            a as int == font_advance(*self, ch),
    {
        match self.glyph(ch) {
            Option::Some(g) => g.advance,
            Option::None => self.default_advance,
        }
    }

    /// Linear search for the character's glyph.
    fn glyph(&self, ch: char) -> (r: Option<&Glyph>)
        ensures
            match r {
                Option::Some(g) => find_glyph(self.glyphs@, ch) == Option::Some(*g),
                Option::None => find_glyph(self.glyphs@, ch) is None,
            },
    {
        let n: usize = self.glyphs.len();
        let mut i: usize = 0;
        proof {
            assert(self.glyphs@.skip(0) =~= self.glyphs@);
        }
        while i < n
            invariant
                i <= n,
                n == self.glyphs@.len(),
                find_glyph(self.glyphs@, ch) == find_glyph(self.glyphs@.skip(i as int), ch),
            decreases n - i,
        {
            if self.glyphs[i].ch == ch {
                proof {
                    assert(self.glyphs@.skip(i as int)[0] == self.glyphs@[i as int]);
                }
                return Option::Some(&self.glyphs[i]);
            }
            proof {
                assert(self.glyphs@.skip(i as int).skip(1) =~= self.glyphs@.skip(i + 1));
            }
            i = i + 1;
        }
        proof {
            assert(self.glyphs@.skip(n as int).len() == 0);
        }
        Option::None
    }
}

impl FontRegistry {
    /// An empty registry.
    pub fn new() -> (r: FontRegistry)
        ensures
            r.fonts@ == Seq::<Font>::empty(),
    {
        FontRegistry { fonts: Vec::new() }
    }

    /// Register a font; later lookups of its style find the earliest entry.
    pub fn register(&mut self, f: Font)
        ensures
            final(self).fonts@ == old(self).fonts@.push(f),
    {
        self.fonts.push(f);
    }

    /// Linear search for a style's font.
    pub fn get(&self, style: u32) -> (r: Option<&Font>)
        ensures
            match r {
                Option::Some(f) => find_font(self.fonts@, style) == Option::Some(*f),
                Option::None => find_font(self.fonts@, style) is None,
            },
    {
        let n: usize = self.fonts.len();
        let mut i: usize = 0;
        proof {
            assert(self.fonts@.skip(0) =~= self.fonts@);
        }
        while i < n
            invariant
                i <= n,
                n == self.fonts@.len(),
                find_font(self.fonts@, style) == find_font(self.fonts@.skip(i as int), style),
            decreases n - i,
        {
            if self.fonts[i].style == style {
                proof {
                    assert(self.fonts@.skip(i as int)[0] == self.fonts@[i as int]);
                }
                return Option::Some(&self.fonts[i]);
            }
            proof {
                assert(self.fonts@.skip(i as int).skip(1) =~= self.fonts@.skip(i + 1));
            }
            i = i + 1;
        }
        proof {
            assert(self.fonts@.skip(n as int).len() == 0);
        }
        Option::None
    }
}

/// Map one design-space point into render space.
fn glyph_pt(p: Point, ox: i64, oy: i64, s: i64) -> (r: Point)
    requires
        fx_ok(ox as int),
        fx_ok(oy as int),
    ensures
        r == glyph_pt_spec(p, ox as int, oy as int, s as int),
        point_ok(r),
{
    let sx: i64 = fx_mul(p.x, s);
    let sy: i64 = fx_mul(p.y, s);
    Point { x: clamp_fx(ox + sx), y: clamp_fx(oy + sy) }
}

/// Stroke a gathered sub-path if it holds at least two points.
fn flush_path(
    pts: &Vec<Point>,
    closed: bool,
    stroke: &Stroke,
    transform: Option<&Transform>,
    px_to_ndc: i64,
    geom: &mut Geometry,
)
    requires
        old(geom).wf(),
        pts_ok(pts@),
        stroke_ok(*stroke),
        0 <= px_to_ndc,
        opt_transform_ok(deref_opt(transform)),
    ensures
        final(geom).wf(),
        final(geom)@ == append_stroke(
            old(geom)@,
            tpoints(pts@, deref_opt(transform)),
            closed,
            half_width_spec(stroke.width_px as int, px_to_ndc as int),
            stroke.color,
        ),
{
    if pts.len() >= 2 {
        tessellate_polyline(pts, closed, stroke, transform, px_to_ndc, geom);
    } else {
        proof {
            assert(tpoints(pts@, deref_opt(transform)).len() < 2);
        }
    }
}

/// Walk one outline path of a glyph, stroking each flushed sub-path.
fn tessellate_glyph(
    cmds: &Vec<GlyphPathCmd>,
    x_offset: i64,
    y_offset: i64,
    scale: i64,
    stroke: &Stroke,
    transform: Option<&Transform>,
    px_to_ndc: i64,
    geom: &mut Geometry,
)
    requires
        old(geom).wf(),
        fx_ok(x_offset as int),
        fx_ok(y_offset as int),
        stroke_ok(*stroke),
        0 <= px_to_ndc,
        opt_transform_ok(deref_opt(transform)),
    ensures
        final(geom).wf(),
        final(geom)@ == walk_cmds(
            old(geom)@,
            cmds@,
            0,
            Seq::empty(),
            false,
            x_offset as int,
            y_offset as int,
            scale as int,
            deref_opt(transform),
            half_width_spec(stroke.width_px as int, px_to_ndc as int),
            stroke.color,
        ),
{
    let ghost t: Option<Transform> = deref_opt(transform);
    let ghost half: int = half_width_spec(stroke.width_px as int, px_to_ndc as int);
    let ghost target: Mesh = walk_cmds(
        old(geom)@,
        cmds@,
        0,
        Seq::empty(),
        false,
        x_offset as int,
        y_offset as int,
        scale as int,
        t,
        half,
        stroke.color,
    );
    let mut pts: Vec<Point> = Vec::new();
    let mut closed: bool = false;
    let n: usize = cmds.len();
    let mut i: usize = 0;
    while i < n
        invariant
            i <= n,
            n == cmds@.len(),
            geom.wf(),
            pts_ok(pts@),
            fx_ok(x_offset as int),
            fx_ok(y_offset as int),
            stroke_ok(*stroke),
            0 <= px_to_ndc,
            t == deref_opt(transform),
            opt_transform_ok(t),
            half == half_width_spec(stroke.width_px as int, px_to_ndc as int),
            target == walk_cmds(
                geom@,
                cmds@,
                i as int,
                pts@,
                closed,
                x_offset as int,
                y_offset as int,
                scale as int,
                t,
                half,
                stroke.color,
            ),
        decreases n - i,
    {
        let c: GlyphPathCmd = cmds[i];
        match c {
            GlyphPathCmd::MoveTo(p) => {
                flush_path(&pts, closed, stroke, transform, px_to_ndc, geom);
                pts.clear();
                closed = false;
                pts.push(glyph_pt(p, x_offset, y_offset, scale));
                proof {
                    assert(pts@ =~= seq![
                        glyph_pt_spec(p, x_offset as int, y_offset as int, scale as int),
                    ]);
                }
            },
            GlyphPathCmd::LineTo(p) => {
                pts.push(glyph_pt(p, x_offset, y_offset, scale));
            },
            GlyphPathCmd::Close => {
                closed = true;
            },
        }
        i = i + 1;
    }
    flush_path(&pts, closed, stroke, transform, px_to_ndc, geom);
}

/// Parameters for text rendering.
pub struct TextParams<'a> {
    pub registry: &'a FontRegistry,
    pub text: &'a str,
    pub pos: Point,
    pub size_px: i64,
    pub color: Color,
    pub style: u32,
    /// Pixel to output-unit conversion factor.
    pub px_to_ndc: i64,
}

/// Render text into geometry using the given font registry.
///
/// An unregistered style makes the whole run a silent no-op; a character
/// without an outline is skipped but still advances the cursor.
pub fn tessellate_text(params: &TextParams<'_>, transform: Option<&Transform>, geom: &mut Geometry)
    requires
        old(geom).wf(),
        point_ok(params.pos),
        0 <= params.size_px,
        fx_ok(params.size_px as int),
        0 <= params.px_to_ndc,
        opt_transform_ok(deref_opt(transform)),
    ensures
        final(geom).wf(),
        match find_font(params.registry.fonts@, params.style) {
            Option::None => final(geom)@ == old(geom)@,
            Option::Some(f) => final(geom)@ == text_emit(
                old(geom)@,
                f,
                params.text@,
                0,
                params.pos.x as int,
                params.pos.y as int,
                fx_mul_spec(params.size_px as int, params.px_to_ndc as int),
                deref_opt(transform),
                half_width_spec(
                    fx_mul_spec(params.size_px as int, GLYPH_STROKE_FRAC as int),
                    params.px_to_ndc as int,
                ),
                params.color,
            ),
        },
{
    let font: &Font = match params.registry.get(params.style) {
        Option::Some(f) => f,
        Option::None => {
            return ;
        },
    };
    let ghost fspec: Font = *font;
    // Glyph outlines always render as strokes, their width a fixed fraction
    // of the font size.
    let stroke: Stroke = Stroke::new(params.color, fx_mul(params.size_px, GLYPH_STROKE_FRAC));
    proof {
        assert((params.size_px as int) * (GLYPH_STROKE_FRAC as int) >= 0) by (nonlinear_arith)
            requires
                0 <= params.size_px as int,
        ;
        vstd::arithmetic::div_mod::lemma_div_pos_is_pos(
            (params.size_px as int) * (GLYPH_STROKE_FRAC as int),
            crate::fixed::FX_SCALE as int,
        );
    }
    let size_ndc: i64 = fx_mul(params.size_px, params.px_to_ndc);
    let ghost t: Option<Transform> = deref_opt(transform);
    let ghost half: int = half_width_spec(stroke.width_px as int, params.px_to_ndc as int);
    let ghost target: Mesh = text_emit(
        old(geom)@,
        fspec,
        params.text@,
        0,
        params.pos.x as int,
        params.pos.y as int,
        size_ndc as int,
        t,
        half,
        params.color,
    );
    let mut cursor_x: i64 = params.pos.x;
    let n: usize = params.text.unicode_len();
    let mut k: usize = 0;
    while k < n
        invariant
            k <= n,
            n == params.text@.len(),
            geom.wf(),
            fspec == *font,
            fx_ok(cursor_x as int),
            point_ok(params.pos),
            stroke == (Stroke { color: params.color, width_px: stroke.width_px }),
            stroke_ok(stroke),
            0 <= params.px_to_ndc,
            t == deref_opt(transform),
            opt_transform_ok(t),
            half == half_width_spec(stroke.width_px as int, params.px_to_ndc as int),
            target == text_emit(
                geom@,
                fspec,
                params.text@,
                k as int,
                cursor_x as int,
                params.pos.y as int,
                size_ndc as int,
                t,
                half,
                params.color,
            ),
        decreases n - k,
    {
        let ch: char = params.text.get_char(k);
        match font.glyph(ch) {
            Option::Some(g) => {
                let ghost m_at: Mesh = geom@;
                let np: usize = g.paths.len();
                let mut j: usize = 0;
                while j < np
                    invariant
                        j <= np,
                        np == g.paths@.len(),
                        geom.wf(),
                        fx_ok(cursor_x as int),
                        point_ok(params.pos),
                        stroke_ok(stroke),
                        0 <= params.px_to_ndc,
                        t == deref_opt(transform),
                        opt_transform_ok(t),
                        half == half_width_spec(stroke.width_px as int, params.px_to_ndc as int),
                        glyph_emit(
                            m_at,
                            g.paths@,
                            0,
                            cursor_x as int,
                            params.pos.y as int,
                            size_ndc as int,
                            t,
                            half,
                            stroke.color,
                        ) == glyph_emit(
                            geom@,
                            g.paths@,
                            j as int,
                            cursor_x as int,
                            params.pos.y as int,
                            size_ndc as int,
                            t,
                            half,
                            stroke.color,
                        ),
                    decreases np - j,
                {
                    tessellate_glyph(
                        &g.paths[j].cmds,
                        cursor_x,
                        params.pos.y,
                        size_ndc,
                        &stroke,
                        transform,
                        params.px_to_ndc,
                        geom,
                    );
                    j = j + 1;
                }
            },
            Option::None => {},
        }
        let adv: i64 = font.advance(ch);
        cursor_x = clamp_fx(cursor_x + fx_mul(adv, size_ndc));
        k = k + 1;
    }
}

} // verus!
