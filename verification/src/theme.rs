//! Themes: the manifest that describes one, and the geometry of its sheets.

use vstd::prelude::*;

use crate::graphics::{PixelDimension, TileDimension, TileRect, TileTexture};

verus! {

/// Who made a theme, and under which terms.
#[derive(Clone, Debug, PartialEq, Eq)]
pub struct ThemeMetadata {
    pub name: String,
    pub version: String,
    pub authors: Vec<String>,
    pub license: String,
}

/// The distances that a theme sets, in pixels.
#[derive(Copy, Clone, Debug, PartialEq, Eq, Structural)]
pub struct ThemeMetrics {
    pub window_margin: usize,
    pub label_spacing: usize,
}

/// What the manifest file of a theme holds.
#[derive(Clone, Debug, PartialEq, Eq)]
pub struct ThemeManifest {
    pub metadata: ThemeMetadata,
    pub metrics: ThemeMetrics,
}

/// What the renderer needs to know of a loaded theme: its manifest and the
/// geometry of its three images.
#[derive(Clone, Debug, PartialEq, Eq)]
pub struct Theme {
    pub manifest: ThemeManifest,
    /// The size of the background tile.
    pub background_texture: PixelDimension,
    /// The sheet of buttons and arrows.
    pub controls_texture: TileTexture,
    /// The sheet of characters.
    pub font_texture: TileTexture,
}

impl Theme {
    /// The theme with the given manifest and images of the given sizes. The
    /// sheet of controls is cut into 16 by 16 tiles, the sheet of characters
    /// into 16 by 8.
    pub fn new(
        manifest: ThemeManifest,
        background: PixelDimension,
        controls: PixelDimension,
        font: PixelDimension,
    ) -> (theme: Theme)
        ensures
            theme.manifest == manifest,
            theme.background_texture == background,
            theme.controls_texture == (TileTexture {
                tile_size: PixelDimension {
                    width: (controls.width / 16) as usize,
                    height: (controls.height / 16) as usize,
                },
                tiles_per_dimension: TileDimension { width: 16, height: 16 },
            }),
            theme.font_texture == (TileTexture {
                tile_size: PixelDimension {
                    width: (font.width / 16) as usize,
                    height: (font.height / 8) as usize,
                },
                tiles_per_dimension: TileDimension { width: 16, height: 8 },
            }),
    {
        Theme {
            manifest,
            background_texture: background,
            controls_texture: TileTexture {
                tile_size: PixelDimension { width: controls.width / 16, height: controls.height / 16 },
                tiles_per_dimension: TileDimension { width: 16, height: 16 },
            },
            font_texture: TileTexture {
                tile_size: PixelDimension { width: font.width / 16, height: font.height / 8 },
                tiles_per_dimension: TileDimension { width: 16, height: 8 },
            },
        }
    }
}

/// The pictures on the sheet of controls.
#[derive(Copy, Clone, Debug, PartialEq, Eq, Structural)]
pub enum Sprite {
    ArrowLeftNormal,
    ArrowLeftActive,
    ArrowDownNormal,
    ArrowDownActive,
    ButtonNormal,
    ButtonNormalHover,
    ButtonNormalDown,
    ButtonActive,
    ButtonActiveHover,
    ButtonActiveDown,
    ButtonDisabled,
    ButtonDisabledHover,
    ButtonDisabledDown,
}

impl Sprite {
    /// Where the picture lies on the sheet. The sheet holds no picture of
    /// its own for a button under the pointer: it shows as at rest.
    pub open spec fn spec_rect(self) -> TileRect {
        match self {
            Sprite::ArrowLeftNormal => TileRect { x: 5, y: 0, width: 1, height: 2 },
            Sprite::ArrowLeftActive => TileRect { x: 5, y: 2, width: 1, height: 2 },
            Sprite::ArrowDownNormal => TileRect { x: 6, y: 1, width: 2, height: 1 },
            Sprite::ArrowDownActive => TileRect { x: 6, y: 3, width: 2, height: 1 },
            Sprite::ButtonNormal => TileRect { x: 0, y: 0, width: 2, height: 2 },
            Sprite::ButtonNormalHover => TileRect { x: 0, y: 0, width: 2, height: 2 },
            Sprite::ButtonNormalDown => TileRect { x: 2, y: 0, width: 2, height: 2 },
            Sprite::ButtonActive => TileRect { x: 0, y: 2, width: 2, height: 2 },
            Sprite::ButtonActiveHover => TileRect { x: 0, y: 2, width: 2, height: 2 },
            Sprite::ButtonActiveDown => TileRect { x: 2, y: 2, width: 2, height: 2 },
            Sprite::ButtonDisabled => TileRect { x: 0, y: 4, width: 2, height: 2 },
            Sprite::ButtonDisabledHover => TileRect { x: 0, y: 4, width: 2, height: 2 },
            Sprite::ButtonDisabledDown => TileRect { x: 2, y: 4, width: 2, height: 2 },
        }
    }

    /// Where the picture lies on the sheet.
    #[verifier::when_used_as_spec(spec_rect)]
    pub fn rect(self) -> (rect: TileRect)
        ensures
            rect == self.spec_rect(),
    {
        match self {
            Sprite::ArrowLeftNormal => TileRect { x: 5, y: 0, width: 1, height: 2 },
            Sprite::ArrowLeftActive => TileRect { x: 5, y: 2, width: 1, height: 2 },
            Sprite::ArrowDownNormal => TileRect { x: 6, y: 1, width: 2, height: 1 },
            Sprite::ArrowDownActive => TileRect { x: 6, y: 3, width: 2, height: 1 },
            Sprite::ButtonNormal => TileRect { x: 0, y: 0, width: 2, height: 2 },
            Sprite::ButtonNormalHover => TileRect { x: 0, y: 0, width: 2, height: 2 },
            Sprite::ButtonNormalDown => TileRect { x: 2, y: 0, width: 2, height: 2 },
            Sprite::ButtonActive => TileRect { x: 0, y: 2, width: 2, height: 2 },
            Sprite::ButtonActiveHover => TileRect { x: 0, y: 2, width: 2, height: 2 },
            Sprite::ButtonActiveDown => TileRect { x: 2, y: 2, width: 2, height: 2 },
            Sprite::ButtonDisabled => TileRect { x: 0, y: 4, width: 2, height: 2 },
            Sprite::ButtonDisabledHover => TileRect { x: 0, y: 4, width: 2, height: 2 },
            Sprite::ButtonDisabledDown => TileRect { x: 2, y: 4, width: 2, height: 2 },
        }
    }

    /// The picture of the arrow beside a row.
    pub open spec fn spec_row_arrow(selected: bool) -> Sprite {
        if selected {
            Sprite::ArrowLeftActive
        } else {
            Sprite::ArrowLeftNormal
        }
    }

    /// The picture of the arrow beside a row: lit where the row is selected.
    #[verifier::when_used_as_spec(spec_row_arrow)]
    pub fn row_arrow(selected: bool) -> (sprite: Sprite)
        ensures
            sprite == Sprite::spec_row_arrow(selected),
    {
        if selected {
            Sprite::ArrowLeftActive
        } else {
            Sprite::ArrowLeftNormal
        }
    }

    /// The picture of the arrow below a column.
    pub open spec fn spec_column_arrow(selected: bool) -> Sprite {
        if selected {
            Sprite::ArrowDownActive
        } else {
            Sprite::ArrowDownNormal
        }
    }

    /// The picture of the arrow below a column: lit where the column is
    /// selected.
    #[verifier::when_used_as_spec(spec_column_arrow)]
    pub fn column_arrow(selected: bool) -> (sprite: Sprite)
        ensures
            sprite == Sprite::spec_column_arrow(selected),
    {
        if selected {
            Sprite::ArrowDownActive
        } else {
            Sprite::ArrowDownNormal
        }
    }

    /// The picture of a button of the matrix.
    pub open spec fn spec_button(disabled: bool, connected: bool, down: bool, hovered: bool)
        -> Sprite {
        if disabled {
            if hovered && down {
                Sprite::ButtonDisabledDown
            } else if hovered {
                Sprite::ButtonDisabledHover
            } else {
                Sprite::ButtonDisabled
            }
        } else if connected {
            if hovered && down {
                Sprite::ButtonActiveDown
            } else if hovered {
                Sprite::ButtonActiveHover
            } else {
                Sprite::ButtonActive
            }
        } else {
            if hovered && down {
                Sprite::ButtonNormalDown
            } else if hovered {
                Sprite::ButtonNormalHover
            } else {
                Sprite::ButtonNormal
            }
        }
    }

    /// The picture of a button of the matrix. A button that would connect a
    /// port to itself is disabled; otherwise it shows whether its edge is
    /// active. A button under the pointer shows as hovered, or as held down
    /// while the mouse button is.
    #[verifier::when_used_as_spec(spec_button)]
    pub fn button(disabled: bool, connected: bool, down: bool, hovered: bool) -> (sprite: Sprite)
        ensures
            sprite == Sprite::spec_button(disabled, connected, down, hovered),
    {
        match (disabled, connected, down, hovered) {
            (true, _, false, true) => Sprite::ButtonDisabledHover,
            (true, _, true, true) => Sprite::ButtonDisabledDown,
            (true, _, _, _) => Sprite::ButtonDisabled,
            (false, false, false, true) => Sprite::ButtonNormalHover,
            (false, false, true, true) => Sprite::ButtonNormalDown,
            (false, false, _, _) => Sprite::ButtonNormal,
            (false, true, false, true) => Sprite::ButtonActiveHover,
            (false, true, true, true) => Sprite::ButtonActiveDown,
            (false, true, _, _) => Sprite::ButtonActive,
        }
    }
}

} // verus!
