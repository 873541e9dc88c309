use aseqmatrix::graphics::{PixelDimension, PixelPosition, TileDimension, TileRect, TileTexture};
use aseqmatrix::layout::WindowSize;
use aseqmatrix::store::MatrixCell;
use aseqmatrix::theme::{Sprite, Theme, ThemeManifest, ThemeMetadata, ThemeMetrics};

fn manifest(window_margin: usize, label_spacing: usize) -> ThemeManifest {
    ThemeManifest {
        metadata: ThemeMetadata {
            name: "Memphis".to_string(),
            version: "1.0".to_string(),
            authors: vec!["A. Designer".to_string()],
            license: "CC0".to_string(),
        },
        metrics: ThemeMetrics { window_margin, label_spacing },
    }
}

fn theme_with_font_height(font_height: usize) -> Theme {
    Theme::new(
        manifest(12, 12),
        PixelDimension { width: 64, height: 64 },
        PixelDimension { width: 256, height: 256 },
        PixelDimension { width: 128, height: 8 * font_height },
    )
}

fn theme() -> Theme {
    theme_with_font_height(16)
}

fn at(x: isize, y: isize) -> Option<PixelPosition> {
    Some(PixelPosition { x, y })
}

fn cell(sender_index: usize, receiver_index: usize) -> Option<MatrixCell> {
    Some(MatrixCell { sender_index, receiver_index })
}

#[test]
fn theme_cuts_its_sheets_into_tiles() {
    let theme = Theme::new(
        manifest(12, 12),
        PixelDimension { width: 64, height: 48 },
        PixelDimension { width: 256, height: 512 },
        PixelDimension { width: 128, height: 100 },
    );
    assert_eq!(theme.manifest, manifest(12, 12));
    assert_eq!(theme.background_texture, PixelDimension { width: 64, height: 48 });
    assert_eq!(
        theme.controls_texture,
        TileTexture {
            tile_size: PixelDimension { width: 16, height: 32 },
            tiles_per_dimension: TileDimension { width: 16, height: 16 },
        }
    );
    assert_eq!(
        theme.font_texture,
        TileTexture {
            tile_size: PixelDimension { width: 8, height: 12 },
            tiles_per_dimension: TileDimension { width: 16, height: 8 },
        }
    );
}

#[test]
fn sprites_lie_where_the_sheet_has_them() {
    assert_eq!(Sprite::ArrowLeftNormal.rect(), TileRect { x: 5, y: 0, width: 1, height: 2 });
    assert_eq!(Sprite::ArrowLeftActive.rect(), TileRect { x: 5, y: 2, width: 1, height: 2 });
    assert_eq!(Sprite::ArrowDownNormal.rect(), TileRect { x: 6, y: 1, width: 2, height: 1 });
    assert_eq!(Sprite::ArrowDownActive.rect(), TileRect { x: 6, y: 3, width: 2, height: 1 });
    assert_eq!(Sprite::ButtonNormal.rect(), TileRect { x: 0, y: 0, width: 2, height: 2 });
    assert_eq!(Sprite::ButtonActive.rect(), TileRect { x: 0, y: 2, width: 2, height: 2 });
    assert_eq!(Sprite::ButtonDisabled.rect(), TileRect { x: 0, y: 4, width: 2, height: 2 });
    assert_eq!(Sprite::ButtonNormalDown.rect(), TileRect { x: 2, y: 0, width: 2, height: 2 });
    assert_eq!(Sprite::ButtonActiveDown.rect(), TileRect { x: 2, y: 2, width: 2, height: 2 });
    assert_eq!(Sprite::ButtonDisabledDown.rect(), TileRect { x: 2, y: 4, width: 2, height: 2 });
}

#[test]
fn hovered_buttons_show_as_at_rest() {
    assert_eq!(Sprite::ButtonNormalHover.rect(), Sprite::ButtonNormal.rect());
    assert_eq!(Sprite::ButtonActiveHover.rect(), Sprite::ButtonActive.rect());
    assert_eq!(Sprite::ButtonDisabledHover.rect(), Sprite::ButtonDisabled.rect());
}

#[test]
fn arrows_light_up_when_selected() {
    assert_eq!(Sprite::row_arrow(false), Sprite::ArrowLeftNormal);
    assert_eq!(Sprite::row_arrow(true), Sprite::ArrowLeftActive);
    assert_eq!(Sprite::column_arrow(false), Sprite::ArrowDownNormal);
    assert_eq!(Sprite::column_arrow(true), Sprite::ArrowDownActive);
}

#[test]
fn button_picture_for_every_state() {
    for connected in [false, true] {
        assert_eq!(Sprite::button(true, connected, false, false), Sprite::ButtonDisabled);
        assert_eq!(Sprite::button(true, connected, false, true), Sprite::ButtonDisabledHover);
        assert_eq!(Sprite::button(true, connected, true, true), Sprite::ButtonDisabledDown);
        assert_eq!(Sprite::button(true, connected, true, false), Sprite::ButtonDisabled);
    }
    assert_eq!(Sprite::button(false, false, false, false), Sprite::ButtonNormal);
    assert_eq!(Sprite::button(false, false, false, true), Sprite::ButtonNormalHover);
    assert_eq!(Sprite::button(false, false, true, true), Sprite::ButtonNormalDown);
    assert_eq!(Sprite::button(false, false, true, false), Sprite::ButtonNormal);
    assert_eq!(Sprite::button(false, true, false, false), Sprite::ButtonActive);
    assert_eq!(Sprite::button(false, true, false, true), Sprite::ButtonActiveHover);
    assert_eq!(Sprite::button(false, true, true, true), Sprite::ButtonActiveDown);
    assert_eq!(Sprite::button(false, true, true, false), Sprite::ButtonActive);
}

#[test]
fn buttons_fill_a_grid_from_the_margin() {
    assert_eq!(theme().button_origin(0, 0), at(12, 12));
    assert_eq!(theme().button_origin(2, 1), at(76, 44));
    assert_eq!(theme().button_origin(0, 5), at(12, 172));
}

#[test]
fn row_labels_stand_right_of_the_grid_in_the_middle_of_the_row() {
    assert_eq!(theme().row_label_origin(3, 0), at(136, 20));
    assert_eq!(theme().row_label_origin(3, 1), at(136, 52));
    assert_eq!(theme().row_label_origin(0, 0), at(40, 20));
}

#[test]
fn column_labels_start_below_the_grid_by_their_length() {
    assert_eq!(theme().column_label_origin(1, 2, 5), at(52, 144));
    assert_eq!(theme().column_label_origin(0, 0, 0), at(20, 40));
}

#[test]
fn labels_taller_than_buttons_are_centred_towards_zero() {
    assert_eq!(theme_with_font_height(40).row_label_origin(3, 1), at(136, 40));
    assert_eq!(theme_with_font_height(41).row_label_origin(3, 1), at(136, 40));
    assert_eq!(theme_with_font_height(31).row_label_origin(3, 1), at(136, 44));
    assert_eq!(theme_with_font_height(41).column_label_origin(0, 0, 0), at(8, 40));
    assert_eq!(theme_with_font_height(100).column_label_origin(0, 0, 0), at(-22, 40));
}

#[test]
fn places_out_of_range_are_none() {
    assert_eq!(theme().button_origin(0x0400_0000, 0), None);
    assert_eq!(theme().button_origin(0, usize::MAX), None);
    assert_eq!(theme().row_label_origin(usize::MAX, 0), None);
    assert_eq!(theme().column_label_origin(0, 0, usize::MAX), None);
    assert_eq!(theme().button_origin(0x03ff_ffff, 0), at(0x7fff_ffec, 12));
}

#[test]
fn window_fits_the_grid_and_the_longest_labels() {
    assert_eq!(theme().window_size(3, 2, 10, 7), Some(WindowSize { width: 228, height: 172 }));
    assert_eq!(theme().window_size(0, 0, 0, 0), Some(WindowSize { width: 52, height: 52 }));
}

#[test]
fn window_too_large_for_the_window_system_is_none() {
    assert_eq!(theme().window_size(usize::MAX, 2, 10, 7), None);
    assert_eq!(theme().window_size(3, 2, 10, 0x2000_0000), None);
    assert!(theme().window_size(3, 2, 0x1fff_ff00, 7).is_some());
}

#[test]
fn pointer_finds_the_button_under_it() {
    let theme = theme();
    assert_eq!(theme.button_under(3, 2, PixelPosition { x: 12, y: 12 }), cell(0, 0));
    assert_eq!(theme.button_under(3, 2, PixelPosition { x: 43, y: 43 }), cell(0, 0));
    assert_eq!(theme.button_under(3, 2, PixelPosition { x: 44, y: 12 }), cell(1, 0));
    assert_eq!(theme.button_under(3, 2, PixelPosition { x: 107, y: 75 }), cell(2, 1));
}

#[test]
fn pointer_beside_the_grid_finds_nothing() {
    let theme = theme();
    assert_eq!(theme.button_under(3, 2, PixelPosition { x: 11, y: 20 }), None);
    assert_eq!(theme.button_under(3, 2, PixelPosition { x: 20, y: 11 }), None);
    assert_eq!(theme.button_under(3, 2, PixelPosition { x: -1, y: 20 }), None);
    assert_eq!(theme.button_under(3, 2, PixelPosition { x: 20, y: -300 }), None);
    assert_eq!(theme.button_under(3, 2, PixelPosition { x: 108, y: 20 }), None);
    assert_eq!(theme.button_under(3, 2, PixelPosition { x: 20, y: 76 }), None);
    assert_eq!(theme.button_under(0, 0, PixelPosition { x: 20, y: 20 }), None);
}

#[test]
fn buttons_without_extent_are_never_under_the_pointer() {
    let flat = Theme::new(
        manifest(12, 12),
        PixelDimension { width: 64, height: 64 },
        PixelDimension { width: 8, height: 256 },
        PixelDimension { width: 128, height: 128 },
    );
    assert_eq!(flat.button_under(3, 2, PixelPosition { x: 20, y: 20 }), None);
}
