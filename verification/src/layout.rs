//! Paragraph layout: a pure function from a run of shaped glyphs, vertical
//! font metrics, a start position and a maximum width to an ordered sequence
//! of baseline placements, one per renderable input character.
//!
//! The caret starts at the start position pushed down by the font's ascent.
//! A carriage return forces a hard line break; a line feed is a no-op; other
//! control characters are skipped.  Kerning is applied between neighbours on
//! the same line.  After placing a glyph whose bounding box overruns the
//! maximum width, the placement is redone at the head of the next line; a
//! glyph that starts a line is kept even when it overruns on its own.
//!
//! All metrics are integers; a host with fractional font metrics picks a
//! fixed-point unit and scales on the way in.

use vstd::prelude::*;

use crate::transform::COORD_LIMIT;
use crate::transform::Position;
use crate::transform::position_bounded;

verus! {

/// Largest magnitude accepted for a per-glyph metric (advance, kerning, or
/// a bounding-box offset).
pub const METRIC_LIMIT: i64 = 1_000_000_000;

/// Largest number of shaped glyphs accepted in one run.
pub const RUN_LIMIT: usize = 1_000_000;

/// Every coordinate a layout run can produce stays within this magnitude.
pub const PLACEMENT_LIMIT: i64 = 10_000_000_000_000_000;

/// Vertical metrics of a font at a fixed scale.
#[derive(Clone, Copy, PartialEq, Eq, Structural, Debug)]
pub struct VMetrics {
    pub ascent: i64,
    pub descent: i64,
    pub line_gap: i64,
}

/// A glyph's pixel bounding box, as offsets from its baseline position.
#[derive(Clone, Copy, PartialEq, Eq, Structural, Debug)]
pub struct GlyphBounds {
    pub min_x: i64,
    pub min_y: i64,
    pub max_x: i64,
    pub max_y: i64,
}

/// One input character together with the metrics the font assigns it:
/// its advance width, the kerning against the previous character of the
/// input, and its bounding box if it has visible ink.
#[derive(Clone, Copy, PartialEq, Eq, Structural, Debug)]
pub struct ShapedGlyph {
    pub ch: char,
    pub advance: i64,
    /// Kerning between the previous renderable input character and this
    /// one; layout applies it only when both stand on the same line.
    pub kern: i64,
    pub bounds: Option<GlyphBounds>,
}

/// One laid-out character: its resolved baseline position, with the
/// bounding-box offsets carried through for the quad mapper.
#[derive(Clone, Copy, PartialEq, Eq, Structural, Debug)]
pub struct GlyphPlacement {
    pub ch: char,
    pub x: i64,
    pub y: i64,
    pub bounds: Option<GlyphBounds>,
}

/// Whether `c` is a control character (the Unicode `Cc` category).
pub open spec fn spec_is_control(c: char) -> bool {
    (c as u32) < 32 || (127 <= (c as u32) && (c as u32) < 160)
}

/// Control characters are never rendered; they only steer the caret.
pub fn is_control_char(c: char) -> (r: bool)
    ensures
        r == spec_is_control(c),
{
    let u = c as u32;
    u < 32 || (127 <= u && u < 160)
}

/// The distance between successive baselines.
pub open spec fn line_height(vm: VMetrics) -> int {
    vm.ascent - vm.descent + vm.line_gap
}

pub open spec fn bounds_bounded(b: GlyphBounds) -> bool {
    &&& -METRIC_LIMIT <= b.min_x <= METRIC_LIMIT
    &&& -METRIC_LIMIT <= b.min_y <= METRIC_LIMIT
    &&& -METRIC_LIMIT <= b.max_x <= METRIC_LIMIT
    &&& -METRIC_LIMIT <= b.max_y <= METRIC_LIMIT
}

pub open spec fn glyph_bounded(g: ShapedGlyph) -> bool {
    &&& -METRIC_LIMIT <= g.advance <= METRIC_LIMIT
    &&& -METRIC_LIMIT <= g.kern <= METRIC_LIMIT
    &&& (g.bounds matches Some(b) ==> bounds_bounded(b))
}

pub open spec fn run_bounded(shaped: Seq<ShapedGlyph>) -> bool {
    &&& shaped.len() <= RUN_LIMIT
    &&& forall|i: int| 0 <= i < shaped.len() ==> glyph_bounded(#[trigger] shaped[i])
}

pub open spec fn vmetrics_bounded(vm: VMetrics) -> bool {
    &&& -METRIC_LIMIT <= vm.ascent <= METRIC_LIMIT
    &&& -METRIC_LIMIT <= vm.descent <= METRIC_LIMIT
    &&& -METRIC_LIMIT <= vm.line_gap <= METRIC_LIMIT
}

/// A placement the quad mapper can take without overflow.
pub open spec fn placement_bounded(p: GlyphPlacement) -> bool {
    &&& -PLACEMENT_LIMIT <= p.x <= PLACEMENT_LIMIT
    &&& -PLACEMENT_LIMIT <= p.y <= PLACEMENT_LIMIT
    &&& (p.bounds matches Some(b) ==> bounds_bounded(b))
}

/// The layout caret between characters: the placements emitted so far, the
/// insertion point, and whether a glyph already stands on the current line
/// (the kerning reference).
pub ghost struct LayoutState {
    pub out: Seq<GlyphPlacement>,
    pub caret_x: int,
    pub caret_y: int,
    pub has_prev: bool,
}

/// The caret before any character: at the start position, pushed down by
/// the font's ascent, with nothing on the line.
pub open spec fn layout_init(start_x: int, start_y: int, vm: VMetrics) -> LayoutState {
    LayoutState { out: Seq::empty(), caret_x: start_x, caret_y: start_y + vm.ascent, has_prev: false }
}

/// One character's effect on the caret.
pub open spec fn layout_step(
    st: LayoutState,
    g: ShapedGlyph,
    start_x: int,
    adv_h: int,
    max_width: int,
) -> LayoutState {
    if spec_is_control(g.ch) {
        if g.ch == '\r' {
            // Hard break: back to the start column, one line down.
            LayoutState { out: st.out, caret_x: start_x, caret_y: st.caret_y + adv_h, has_prev: false }
        } else {
            st
        }
    } else {
        let x0 = if st.has_prev {
            st.caret_x + g.kern
        } else {
            st.caret_x
        };
        let wraps = match g.bounds {
            Some(b) => x0 + b.max_x > max_width,
            None => false,
        };
        if wraps {
            let gy = st.caret_y + adv_h;
            LayoutState {
                out: st.out.push(
                    GlyphPlacement { ch: g.ch, x: start_x as i64, y: gy as i64, bounds: g.bounds },
                ),
                caret_x: start_x + g.advance,
                caret_y: gy,
                has_prev: false,
            }
        } else {
            LayoutState {
                out: st.out.push(
                    GlyphPlacement { ch: g.ch, x: x0 as i64, y: st.caret_y as i64, bounds: g.bounds },
                ),
                caret_x: x0 + g.advance,
                caret_y: st.caret_y,
                has_prev: true,
            }
        }
    }
}

/// The caret after the first `n` characters of the run.
pub open spec fn layout_upto(
    shaped: Seq<ShapedGlyph>,
    start_x: int,
    start_y: int,
    vm: VMetrics,
    max_width: int,
    n: int,
) -> LayoutState
    decreases n,
{
    if n <= 0 {
        layout_init(start_x, start_y, vm)
    } else {
        layout_step(
            layout_upto(shaped, start_x, start_y, vm, max_width, n - 1),
            shaped[n - 1],
            start_x,
            line_height(vm),
            max_width,
        )
    }
}

/// The placements of the whole run: what `layout_paragraph` returns.
pub open spec fn spec_layout(
    shaped: Seq<ShapedGlyph>,
    start_x: int,
    start_y: int,
    vm: VMetrics,
    max_width: int,
) -> Seq<GlyphPlacement> {
    layout_upto(shaped, start_x, start_y, vm, max_width, shaped.len() as int).out
}

/// The renderable prefix: the first `n` input characters with the control
/// characters dropped, in input order.
pub open spec fn renderables_upto(shaped: Seq<ShapedGlyph>, n: int) -> Seq<ShapedGlyph>
    decreases n,
{
    if n <= 0 {
        Seq::empty()
    } else if spec_is_control(shaped[n - 1].ch) {
        renderables_upto(shaped, n - 1)
    } else {
        renderables_upto(shaped, n - 1).push(shaped[n - 1])
    }
}

/// After `n` characters the caret has moved at most `n` glyph steps away
/// from the start position, and every placement emitted so far is in range
/// for the quad mapper.
proof fn lemma_layout_state_bounds_upto(
    shaped: Seq<ShapedGlyph>,
    start_x: int,
    start_y: int,
    vm: VMetrics,
    max_width: int,
    n: int,
)
    requires
        run_bounded(shaped),
        vmetrics_bounded(vm),
        -COORD_LIMIT <= start_x <= COORD_LIMIT,
        -COORD_LIMIT <= start_y <= COORD_LIMIT,
        0 <= n <= shaped.len(),
    ensures
        ({
            let st = layout_upto(shaped, start_x, start_y, vm, max_width, n);
            &&& -(COORD_LIMIT + 2_000_000_000 * n) <= st.caret_x <= COORD_LIMIT + 2_000_000_000
                * n
            &&& -(COORD_LIMIT + METRIC_LIMIT + 3_000_000_000 * n) <= st.caret_y <= COORD_LIMIT
                + METRIC_LIMIT + 3_000_000_000 * n
            &&& forall|j: int|
                0 <= j < st.out.len() ==> placement_bounded(#[trigger] st.out[j])
        }),
    decreases n,
{
    if n > 0 {
        lemma_layout_state_bounds_upto(shaped, start_x, start_y, vm, max_width, n - 1);
        assert(glyph_bounded(shaped[n - 1]));
    }
}

/// Wrapper around the caret-bound induction for the whole run.
proof fn lemma_layout_placements_bounded_upto(
    shaped: Seq<ShapedGlyph>,
    start_x: int,
    start_y: int,
    vm: VMetrics,
    max_width: int,
)
    requires
        run_bounded(shaped),
        vmetrics_bounded(vm),
        -COORD_LIMIT <= start_x <= COORD_LIMIT,
        -COORD_LIMIT <= start_y <= COORD_LIMIT,
    ensures
        forall|j: int|
            0 <= j < spec_layout(shaped, start_x, start_y, vm, max_width).len()
                ==> placement_bounded(
                #[trigger] spec_layout(shaped, start_x, start_y, vm, max_width)[j],
            ),
{
    lemma_layout_state_bounds_upto(shaped, start_x, start_y, vm, max_width, shaped.len() as int);
}

/// Every placement the layout of a bounded run produces is in range for the
/// quad mapper.
pub proof fn lemma_layout_placements_bounded(
    shaped: Seq<ShapedGlyph>,
    start: Position,
    vm: VMetrics,
    max_width: i64,
)
    requires
        run_bounded(shaped),
        vmetrics_bounded(vm),
        position_bounded(start),
    ensures
        forall|j: int|
            0 <= j < spec_layout(shaped, start.x as int, start.y as int, vm, max_width as int).len()
                ==> placement_bounded(
                #[trigger] spec_layout(shaped, start.x as int, start.y as int, vm, max_width as int)[j],
            ),
{
    lemma_layout_placements_bounded_upto(shaped, start.x as int, start.y as int, vm, max_width as int);
}

/// Lays the run out: one placement per renderable input character, in input
/// order, wrapped against `max_width` and broken at carriage returns.
pub fn layout_paragraph(
    shaped: &Vec<ShapedGlyph>,
    vm: VMetrics,
    start: Position,
    max_width: i64,
) -> (out: Vec<GlyphPlacement>)
    requires
        run_bounded(shaped@),
        vmetrics_bounded(vm),
        position_bounded(start),
    ensures
        out@ == spec_layout(shaped@, start.x as int, start.y as int, vm, max_width as int),
{
    let mut out: Vec<GlyphPlacement> = Vec::new();
    let advance_height = vm.ascent - vm.descent + vm.line_gap;
    let mut caret_x = start.x;
    let mut caret_y = start.y + vm.ascent;
    let mut has_prev = false;
    let n = shaped.len();
    let mut i: usize = 0;
    while i < n
        invariant
            i <= n,
            ({
                let st = layout_upto(
                    shaped@,
                    start.x as int,
                    start.y as int,
                    vm,
                    max_width as int,
                    i as int,
                );
                &&& out@ == st.out
                &&& caret_x as int == st.caret_x
                &&& caret_y as int == st.caret_y
                &&& has_prev == st.has_prev
            }),
        decreases n - i,
    {
        proof {
            lemma_layout_state_bounds_upto(
                shaped@,
                start.x as int,
                start.y as int,
                vm,
                max_width as int,
                i as int,
            );
            assert(glyph_bounded(shaped@[i as int]));
        }
        let g = shaped[i];
        if is_control_char(g.ch) {
            if g.ch == '\r' {
                caret_x = start.x;
                caret_y = caret_y + advance_height;
                has_prev = false;
            }
        } else {
            if has_prev {
                caret_x = caret_x + g.kern;
            }
            let mut gx = caret_x;
            let mut gy = caret_y;
            let mut wrapped = false;
            match g.bounds {
                Some(b) => {
                    if gx + b.max_x > max_width {
                        caret_x = start.x;
                        caret_y = caret_y + advance_height;
                        gx = caret_x;
                        gy = caret_y;
                        has_prev = false;
                        wrapped = true;
                    }
                },
                None => {},
            }
            if !wrapped {
                has_prev = true;
            }
            caret_x = gx + g.advance;
            out.push(GlyphPlacement { ch: g.ch, x: gx, y: gy, bounds: g.bounds });
        }
        i += 1;
    }
    out
}

/// Layout is a pure function of its inputs: any two results of laying out
/// identical inputs are identical.
pub proof fn lemma_layout_deterministic(
    out1: Seq<GlyphPlacement>,
    out2: Seq<GlyphPlacement>,
    shaped: Seq<ShapedGlyph>,
    start_x: int,
    start_y: int,
    vm: VMetrics,
    max_width: int,
)
    requires
        out1 == spec_layout(shaped, start_x, start_y, vm, max_width),
        out2 == spec_layout(shaped, start_x, start_y, vm, max_width),
    ensures
        out1 == out2,
{
}

proof fn lemma_wrap_invariant_upto(
    shaped: Seq<ShapedGlyph>,
    start_x: int,
    start_y: int,
    vm: VMetrics,
    max_width: int,
    n: int,
)
    requires
        run_bounded(shaped),
        vmetrics_bounded(vm),
        -COORD_LIMIT <= start_x <= COORD_LIMIT,
        -COORD_LIMIT <= start_y <= COORD_LIMIT,
        0 <= n <= shaped.len(),
    ensures
        ({
            let out = layout_upto(shaped, start_x, start_y, vm, max_width, n).out;
            forall|j: int|
                0 <= j < out.len() ==> ((#[trigger] out[j]).bounds matches Some(b) ==> out[j].x
                    + b.max_x <= max_width || out[j].x == start_x)
        }),
    decreases n,
{
    if n > 0 {
        lemma_wrap_invariant_upto(shaped, start_x, start_y, vm, max_width, n - 1);
        lemma_layout_state_bounds_upto(shaped, start_x, start_y, vm, max_width, n - 1);
        assert(glyph_bounded(shaped[n - 1]));
    }
}

/// The wrapping invariant: every placed glyph's bounding box either ends at
/// or before the maximum width, or the glyph stands at the head of its line
/// (a lone glyph wider than the maximum width is placed, never dropped).
pub proof fn lemma_wrap_invariant(
    shaped: Seq<ShapedGlyph>,
    start: Position,
    vm: VMetrics,
    max_width: i64,
)
    requires
        run_bounded(shaped),
        vmetrics_bounded(vm),
        position_bounded(start),
    ensures
        ({
            let out = spec_layout(shaped, start.x as int, start.y as int, vm, max_width as int);
            forall|j: int|
                0 <= j < out.len() ==> ((#[trigger] out[j]).bounds matches Some(b) ==> out[j].x
                    + b.max_x <= max_width || out[j].x == start.x)
        }),
{
    lemma_wrap_invariant_upto(
        shaped,
        start.x as int,
        start.y as int,
        vm,
        max_width as int,
        shaped.len() as int,
    );
}

proof fn lemma_one_per_renderable_upto(
    shaped: Seq<ShapedGlyph>,
    start_x: int,
    start_y: int,
    vm: VMetrics,
    max_width: int,
    n: int,
)
    requires
        0 <= n <= shaped.len(),
    ensures
        ({
            let out = layout_upto(shaped, start_x, start_y, vm, max_width, n).out;
            let rs = renderables_upto(shaped, n);
            &&& out.len() == rs.len()
            &&& forall|j: int|
                0 <= j < out.len() ==> (#[trigger] out[j]).ch == rs[j].ch && out[j].bounds
                    == rs[j].bounds
        }),
    decreases n,
{
    if n > 0 {
        lemma_one_per_renderable_upto(shaped, start_x, start_y, vm, max_width, n - 1);
    }
}

/// The layout output holds exactly one placement per renderable input
/// character, in input order, each carrying that character and its
/// bounding-box offsets.
pub proof fn lemma_layout_one_per_renderable(
    shaped: Seq<ShapedGlyph>,
    start_x: int,
    start_y: int,
    vm: VMetrics,
    max_width: int,
)
    ensures
        ({
            let out = spec_layout(shaped, start_x, start_y, vm, max_width);
            let rs = renderables_upto(shaped, shaped.len() as int);
            &&& out.len() == rs.len()
            &&& forall|j: int|
                0 <= j < out.len() ==> (#[trigger] out[j]).ch == rs[j].ch && out[j].bounds
                    == rs[j].bounds
        }),
{
    lemma_one_per_renderable_upto(shaped, start_x, start_y, vm, max_width, shaped.len() as int);
}

} // verus!
