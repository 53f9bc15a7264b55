use glyph_world::layout::{GlyphBounds, GlyphPlacement};
use glyph_world::quads::{glyph_quads, AtlasRect, Rgba};

fn black() -> Rgba {
    Rgba { red: 0, green: 0, blue: 0, alpha: 255 }
}

#[test]
fn one_glyph_maps_to_six_exact_vertices() {
    let placements = vec![GlyphPlacement {
        ch: 'a',
        x: 10,
        y: 20,
        bounds: Some(GlyphBounds { min_x: 1, min_y: -8, max_x: 5, max_y: 2 }),
    }];
    let atlas = vec![Some(AtlasRect { min_x: 0, min_y: 0, max_x: 16, max_y: 16 })];
    let out = glyph_quads(&placements, &atlas, 100, 200, black());
    assert_eq!(out.len(), 6);
    // Pixel rectangle (11, 12)..(15, 22); numerators 2*px - 100 and
    // 200 - 2*py.
    let xl = -78;
    let xr = -70;
    let yt = 176;
    let yb = 156;
    let corners: Vec<(i64, i64, u32, u32)> =
        out.iter().map(|v| (v.x_num, v.y_num, v.u, v.v)).collect();
    assert_eq!(
        corners,
        vec![
            (xl, yb, 0, 16),
            (xl, yt, 0, 0),
            (xr, yt, 16, 0),
            (xr, yt, 16, 0),
            (xr, yb, 16, 16),
            (xl, yb, 0, 16),
        ]
    );
    for v in &out {
        assert_eq!(v.color, black());
    }
}

#[test]
fn glyphs_without_ink_or_atlas_are_skipped() {
    let bounds = Some(GlyphBounds { min_x: 0, min_y: -8, max_x: 4, max_y: 1 });
    let placements = vec![
        GlyphPlacement { ch: ' ', x: 0, y: 10, bounds: None },
        GlyphPlacement { ch: 'a', x: 5, y: 10, bounds },
        GlyphPlacement { ch: 'b', x: 10, y: 10, bounds },
    ];
    let atlas = vec![
        Some(AtlasRect { min_x: 0, min_y: 0, max_x: 4, max_y: 8 }),
        None,
        Some(AtlasRect { min_x: 4, min_y: 0, max_x: 8, max_y: 8 }),
    ];
    let out = glyph_quads(&placements, &atlas, 64, 64, black());
    assert_eq!(out.len(), 6);
    assert_eq!(out[0].u, 4);
}

#[test]
fn the_y_axis_is_flipped_and_the_x_axis_is_not() {
    let placements = vec![GlyphPlacement {
        ch: 'a',
        x: 4,
        y: 12,
        bounds: Some(GlyphBounds { min_x: 0, min_y: -6, max_x: 3, max_y: 0 }),
    }];
    let atlas = vec![Some(AtlasRect { min_x: 0, min_y: 0, max_x: 8, max_y: 8 })];
    let out = glyph_quads(&placements, &atlas, 32, 32, black());
    // Pixel x grows left to right and so do the numerators; pixel y grows
    // downward while the numerators grow upward.
    let left = out[1];
    let right = out[2];
    assert!(left.x_num < right.x_num);
    let top = out[1];
    let bottom = out[0];
    assert!(top.y_num > bottom.y_num);
    // Aspect is preserved: numerator spans are twice the pixel spans.
    assert_eq!(right.x_num - left.x_num, 2 * 3);
    assert_eq!(top.y_num - bottom.y_num, 2 * 6);
}

#[test]
fn quad_count_is_six_per_eligible_glyph() {
    let bounds = Some(GlyphBounds { min_x: 0, min_y: -8, max_x: 4, max_y: 1 });
    let placements: Vec<GlyphPlacement> =
        (0..5).map(|i| GlyphPlacement { ch: 'x', x: 6 * i, y: 10, bounds }).collect();
    let atlas: Vec<Option<AtlasRect>> =
        (0..5).map(|_| Some(AtlasRect { min_x: 0, min_y: 0, max_x: 4, max_y: 8 })).collect();
    let out = glyph_quads(&placements, &atlas, 128, 128, black());
    assert_eq!(out.len(), 30);
}
