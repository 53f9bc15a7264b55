//! The glyph-to-screen mapper: turns placed glyphs and their atlas
//! rectangles into normalized-device-coordinate quads, two triangles per
//! glyph.
//!
//! Pixel space has its origin at the top left with y growing down; device
//! space runs from (-1,-1) to (1,1) with y growing up.  The map is
//! `ndc = (pixel / screen_dimension - 1/2) * 2` on the x axis and the same
//! with a flip, `1 - pixel / screen_dimension`, on the y axis.  To stay
//! exact, vertices carry the numerator `2 * pixel - dimension` (x axis) or
//! `dimension - 2 * pixel` (y axis); the device coordinate is that
//! numerator over the screen dimension, a division the renderer performs.

use vstd::prelude::*;

use crate::layout::GlyphBounds;
use crate::layout::GlyphPlacement;
use crate::layout::PLACEMENT_LIMIT;
use crate::layout::placement_bounded;

verus! {

/// A color with 8-bit channels; the renderer maps each channel to [0, 1].
#[derive(Clone, Copy, PartialEq, Eq, Structural, Debug)]
pub struct Rgba {
    pub red: u8,
    pub green: u8,
    pub blue: u8,
    pub alpha: u8,
}

/// The region of the glyph-cache texture holding one glyph's image, in
/// texel coordinates.
#[derive(Clone, Copy, PartialEq, Eq, Structural, Debug)]
pub struct AtlasRect {
    pub min_x: u32,
    pub min_y: u32,
    pub max_x: u32,
    pub max_y: u32,
}

/// The numerator of an x-axis device coordinate over denominator `screen_w`.
pub open spec fn ndc_x_num(px: int, screen_w: int) -> int {
    2 * px - screen_w
}

/// The numerator of a y-axis device coordinate over denominator `screen_h`;
/// the subtraction flips the axis.
pub open spec fn ndc_y_num(py: int, screen_h: int) -> int {
    screen_h - 2 * py
}

/// The device-coordinate map scales each axis by exactly two pixel units
/// per numerator unit, keeps the order of x coordinates, and reverses the
/// order of y coordinates: no flip beyond the intentional one, and the
/// aspect ratio of every rectangle is preserved.
pub proof fn lemma_ndc_preserves_geometry(a: int, b: int, d: int)
    ensures
        ndc_x_num(b, d) - ndc_x_num(a, d) == 2 * (b - a),
        ndc_y_num(a, d) - ndc_y_num(b, d) == 2 * (b - a),
        a < b <==> ndc_x_num(a, d) < ndc_x_num(b, d),
        a < b <==> ndc_y_num(a, d) > ndc_y_num(b, d),
{
}

/// One corner of a glyph quad: a device-coordinate numerator pair, the
/// texel it samples in the glyph cache, and the text color.
#[derive(Clone, Copy, PartialEq, Eq, Structural, Debug)]
pub struct QuadVertex {
    pub x_num: i64,
    pub y_num: i64,
    pub u: u32,
    pub v: u32,
    pub color: Rgba,
}

/// The six vertices (two triangles) of one glyph's quad.  Each corner of
/// the screen rectangle pairs with the matching corner of the atlas
/// rectangle: the only inversion is the y-axis flip of the device map.
pub open spec fn glyph_quad(
    p: GlyphPlacement,
    b: GlyphBounds,
    a: AtlasRect,
    screen_w: int,
    screen_h: int,
    color: Rgba,
) -> Seq<QuadVertex> {
    let xl = ndc_x_num(p.x + b.min_x, screen_w) as i64;
    let xr = ndc_x_num(p.x + b.max_x, screen_w) as i64;
    let yt = ndc_y_num(p.y + b.min_y, screen_h) as i64;
    let yb = ndc_y_num(p.y + b.max_y, screen_h) as i64;
    seq![
        QuadVertex { x_num: xl, y_num: yb, u: a.min_x, v: a.max_y, color: color },
        QuadVertex { x_num: xl, y_num: yt, u: a.min_x, v: a.min_y, color: color },
        QuadVertex { x_num: xr, y_num: yt, u: a.max_x, v: a.min_y, color: color },
        QuadVertex { x_num: xr, y_num: yt, u: a.max_x, v: a.min_y, color: color },
        QuadVertex { x_num: xr, y_num: yb, u: a.max_x, v: a.max_y, color: color },
        QuadVertex { x_num: xl, y_num: yb, u: a.min_x, v: a.max_y, color: color },
    ]
}

/// The vertices of the first `n` placements: six per glyph that has both
/// visible ink and an atlas rectangle, none for the others, in input order.
pub open spec fn quads_upto(
    placements: Seq<GlyphPlacement>,
    atlas: Seq<Option<AtlasRect>>,
    screen_w: int,
    screen_h: int,
    color: Rgba,
    n: int,
) -> Seq<QuadVertex>
    decreases n,
{
    if n <= 0 {
        Seq::empty()
    } else {
        let prefix = quads_upto(placements, atlas, screen_w, screen_h, color, n - 1);
        match (placements[n - 1].bounds, atlas[n - 1]) {
            (Some(b), Some(a)) => prefix + glyph_quad(
                placements[n - 1],
                b,
                a,
                screen_w,
                screen_h,
                color,
            ),
            _ => prefix,
        }
    }
}

/// The vertices of the whole run: what `glyph_quads` returns.
pub open spec fn spec_quads(
    placements: Seq<GlyphPlacement>,
    atlas: Seq<Option<AtlasRect>>,
    screen_w: int,
    screen_h: int,
    color: Rgba,
) -> Seq<QuadVertex> {
    quads_upto(placements, atlas, screen_w, screen_h, color, placements.len() as int)
}

/// Maps each placed glyph that has both a bounding box and an atlas
/// rectangle to the six vertices of its screen quad; glyphs with no
/// visible ink or no cached image are skipped.
pub fn glyph_quads(
    placements: &Vec<GlyphPlacement>,
    atlas: &Vec<Option<AtlasRect>>,
    screen_w: i64,
    screen_h: i64,
    color: Rgba,
) -> (out: Vec<QuadVertex>)
    requires
        atlas@.len() == placements@.len(),
        0 < screen_w <= PLACEMENT_LIMIT,
        0 < screen_h <= PLACEMENT_LIMIT,
        forall|i: int|
            0 <= i < placements@.len() ==> placement_bounded(#[trigger] placements@[i]),
    ensures
        out@ == spec_quads(placements@, atlas@, screen_w as int, screen_h as int, color),
{
    let mut out: Vec<QuadVertex> = Vec::new();
    let n = placements.len();
    let mut i: usize = 0;
    while i < n
        invariant
            i <= n,
            out@ == quads_upto(
                placements@,
                atlas@,
                screen_w as int,
                screen_h as int,
                color,
                i as int,
            ),
        decreases n - i,
    {
        let p = placements[i];
        let slot = atlas[i];
        match (p.bounds, slot) {
            (Some(b), Some(a)) => {
                proof {
                    assert(placement_bounded(placements@[i as int]));
                }
                let xl = 2 * (p.x + b.min_x) - screen_w;
                let xr = 2 * (p.x + b.max_x) - screen_w;
                let yt = screen_h - 2 * (p.y + b.min_y);
                let yb = screen_h - 2 * (p.y + b.max_y);
                out.push(QuadVertex { x_num: xl, y_num: yb, u: a.min_x, v: a.max_y, color });
                out.push(QuadVertex { x_num: xl, y_num: yt, u: a.min_x, v: a.min_y, color });
                out.push(QuadVertex { x_num: xr, y_num: yt, u: a.max_x, v: a.min_y, color });
                out.push(QuadVertex { x_num: xr, y_num: yt, u: a.max_x, v: a.min_y, color });
                out.push(QuadVertex { x_num: xr, y_num: yb, u: a.max_x, v: a.max_y, color });
                out.push(QuadVertex { x_num: xl, y_num: yb, u: a.min_x, v: a.max_y, color });
                proof {
                    assert(out@ =~= quads_upto(
                        placements@,
                        atlas@,
                        screen_w as int,
                        screen_h as int,
                        color,
                        i as int,
                    ) + glyph_quad(
                        placements@[i as int],
                        b,
                        a,
                        screen_w as int,
                        screen_h as int,
                        color,
                    ));
                }
            },
            _ => {},
        }
        i += 1;
    }
    out
}

} // verus!
