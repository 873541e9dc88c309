use aseqmatrix::graphics::{
    coordinate, draw_character, draw_string, draw_tiled_background, draw_tiles, extent, glyph_tile,
    product_i32, product_u32, stepped, Blit, PixelDimension, PixelPosition, PixelRect, TileDimension,
    TileRect, TileTexture,
};

fn controls() -> TileTexture {
    TileTexture {
        tile_size: PixelDimension { width: 16, height: 16 },
        tiles_per_dimension: TileDimension { width: 16, height: 16 },
    }
}

fn font() -> TileTexture {
    TileTexture {
        tile_size: PixelDimension { width: 8, height: 12 },
        tiles_per_dimension: TileDimension { width: 16, height: 8 },
    }
}

fn rect(x: i32, y: i32, width: u32, height: u32) -> PixelRect {
    PixelRect { x, y, width, height }
}

#[test]
fn products_within_the_ranges_of_the_renderer() {
    assert_eq!(product_i32(5, 16), Some(80));
    assert_eq!(product_i32(0, usize::MAX), Some(0));
    assert_eq!(product_i32(1, 0x7fff_ffff), Some(i32::MAX));
    assert_eq!(product_i32(2, 0x4000_0000), None);
    assert_eq!(product_i32(usize::MAX, usize::MAX), None);
    assert_eq!(product_u32(2, 0x4000_0000), Some(0x8000_0000));
    assert_eq!(product_u32(1, 0xffff_ffff), Some(u32::MAX));
    assert_eq!(product_u32(2, 0x8000_0000), None);
    assert_eq!(product_u32(usize::MAX, 2), None);
}

#[test]
fn coordinates_and_extents_within_the_ranges_of_the_renderer() {
    assert_eq!(coordinate(-7), Some(-7));
    assert_eq!(coordinate(0x7fff_ffff), Some(i32::MAX));
    assert_eq!(coordinate(-0x8000_0000), Some(i32::MIN));
    assert_eq!(extent(0), Some(0));
    assert_eq!(extent(0xffff_ffff), Some(u32::MAX));
}

#[test]
fn stepping_forward_and_backward() {
    assert_eq!(stepped(10, 3, 8, true), Some(34));
    assert_eq!(stepped(10, 3, 8, false), Some(-14));
    assert_eq!(stepped(0x7fff_fff0, 2, 8, true), None);
    assert_eq!(stepped(-0x7fff_fff0, 3, 8, false), None);
    assert_eq!(stepped(5, usize::MAX, 2, false), None);
    assert_eq!(stepped(5, usize::MAX, 0, true), Some(5));
}

#[test]
fn tiles_are_copied_from_their_place_on_the_sheet() {
    let source = TileRect { x: 5, y: 2, width: 1, height: 2 };
    assert_eq!(
        draw_tiles(&controls(), source, PixelPosition { x: 100, y: 40 }),
        Some(Blit { source: rect(80, 32, 16, 32), target: rect(100, 40, 16, 32), quarter_turns: 0 })
    );
}

#[test]
fn tiles_may_lie_left_of_and_above_the_canvas() {
    let source = TileRect { x: 0, y: 0, width: 2, height: 2 };
    assert_eq!(
        draw_tiles(&controls(), source, PixelPosition { x: -5, y: -7 }),
        Some(Blit { source: rect(0, 0, 32, 32), target: rect(-5, -7, 32, 32), quarter_turns: 0 })
    );
}

#[test]
fn tiles_too_large_for_the_renderer_are_not_drawn() {
    let huge = TileTexture {
        tile_size: PixelDimension { width: 0x4000_0000, height: 16 },
        tiles_per_dimension: TileDimension { width: 16, height: 16 },
    };
    let place = PixelPosition { x: 0, y: 0 };
    assert_eq!(draw_tiles(&huge, TileRect { x: 2, y: 0, width: 1, height: 1 }, place), None);
    assert_eq!(draw_tiles(&huge, TileRect { x: 0, y: 0, width: 4, height: 1 }, place), None);
    assert!(draw_tiles(&huge, TileRect { x: 1, y: 0, width: 2, height: 1 }, place).is_some());
}

#[test]
fn printable_ascii_has_tiles_of_its_own() {
    assert_eq!(glyph_tile(' '), 32);
    assert_eq!(glyph_tile('A'), 65);
    assert_eq!(glyph_tile('~'), 126);
    assert_eq!(glyph_tile('\u{7f}'), 127);
}

#[test]
fn other_characters_share_the_last_tile() {
    assert_eq!(glyph_tile('\u{0}'), 127);
    assert_eq!(glyph_tile('\n'), 127);
    assert_eq!(glyph_tile('\u{1f}'), 127);
    assert_eq!(glyph_tile('\u{80}'), 127);
    assert_eq!(glyph_tile('é'), 127);
    assert_eq!(glyph_tile('\u{10ffff}'), 127);
}

#[test]
fn character_is_copied_from_its_row_and_column() {
    assert_eq!(
        draw_character(&font(), 'A', PixelPosition { x: 10, y: 20 }, 3),
        Some(Blit { source: rect(8, 48, 8, 12), target: rect(10, 20, 8, 12), quarter_turns: 3 })
    );
    assert_eq!(
        draw_character(&font(), '\u{7f}', PixelPosition { x: 0, y: 0 }, 0),
        Some(Blit { source: rect(120, 84, 8, 12), target: rect(0, 0, 8, 12), quarter_turns: 0 })
    );
}

#[test]
fn character_of_a_sheet_without_columns_is_not_drawn() {
    let mut sheet = font();
    sheet.tiles_per_dimension.width = 0;
    assert_eq!(draw_character(&sheet, 'A', PixelPosition { x: 0, y: 0 }, 0), None);
}

#[test]
fn text_advances_by_the_tile_width_in_the_direction_of_the_rotation() {
    let start = PixelPosition { x: 10, y: 20 };
    let a = rect(8, 48, 8, 12);
    let b = rect(16, 48, 8, 12);
    let expect = |first: (i32, i32), second: (i32, i32), turns: usize| {
        Some(vec![
            Blit { source: a, target: rect(first.0, first.1, 8, 12), quarter_turns: turns },
            Blit { source: b, target: rect(second.0, second.1, 8, 12), quarter_turns: turns },
        ])
    };
    assert_eq!(draw_string(&font(), "AB", start, 0), expect((10, 20), (18, 20), 0));
    assert_eq!(draw_string(&font(), "AB", start, 1), expect((10, 20), (10, 28), 1));
    assert_eq!(draw_string(&font(), "AB", start, 2), expect((10, 20), (2, 20), 2));
    assert_eq!(draw_string(&font(), "AB", start, 3), expect((10, 20), (10, 12), 3));
}

#[test]
fn text_counts_characters_not_bytes() {
    let drawn = draw_string(&font(), "éa", PixelPosition { x: 0, y: 0 }, 0).unwrap();
    assert_eq!(drawn.len(), 2);
    assert_eq!(drawn[0].source, rect(120, 84, 8, 12));
    assert_eq!(drawn[1].target, rect(8, 0, 8, 12));
}

#[test]
fn empty_text_draws_nothing() {
    assert_eq!(draw_string(&font(), "", PixelPosition { x: 3, y: 4 }, 2), Some(vec![]));
}

#[test]
fn text_with_a_fifth_rotation_is_not_drawn() {
    assert_eq!(draw_string(&font(), "AB", PixelPosition { x: 0, y: 0 }, 4), None);
    assert_eq!(draw_string(&font(), "", PixelPosition { x: 0, y: 0 }, 4), None);
}

#[test]
fn text_that_runs_out_of_range_is_not_drawn() {
    assert_eq!(draw_string(&font(), "AB", PixelPosition { x: 0x7fff_fffc, y: 0 }, 0), None);
    assert!(draw_string(&font(), "A", PixelPosition { x: 0x7fff_fffc, y: 0 }, 0).is_some());
}

#[test]
fn background_covers_the_canvas_column_by_column() {
    let tile = PixelDimension { width: 64, height: 64 };
    let blit = |x: i32, y: i32| Blit {
        source: rect(0, 0, 64, 64),
        target: rect(x, y, 64, 64),
        quarter_turns: 0,
    };
    assert_eq!(
        draw_tiled_background(PixelDimension { width: 100, height: 50 }, tile),
        Some(vec![blit(0, 0), blit(64, 0)])
    );
    assert_eq!(
        draw_tiled_background(PixelDimension { width: 100, height: 100 }, tile),
        Some(vec![blit(0, 0), blit(0, 64), blit(64, 0), blit(64, 64)])
    );
}

#[test]
fn background_lays_one_more_tile_where_the_canvas_is_a_multiple() {
    let tile = PixelDimension { width: 64, height: 32 };
    let drawn = draw_tiled_background(PixelDimension { width: 128, height: 0 }, tile).unwrap();
    assert_eq!(drawn.len(), 3);
    assert_eq!(drawn[2].target, rect(128, 0, 64, 32));
}

#[test]
fn background_without_extent_covers_nothing() {
    let canvas = PixelDimension { width: 100, height: 100 };
    assert_eq!(draw_tiled_background(canvas, PixelDimension { width: 0, height: 64 }), None);
    assert_eq!(draw_tiled_background(canvas, PixelDimension { width: 64, height: 0 }), None);
}
