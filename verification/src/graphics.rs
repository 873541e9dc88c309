//! Pixel and tile geometry of the tile sheets.

use vstd::prelude::*;
use vstd::string::StrSliceExecFns;

use crate::seq_facts::{gather, lemma_gather_missing, lemma_gather_next, seen};

verus! {

/// A place on the canvas, in pixels.
#[derive(Copy, Clone, Debug, PartialEq, Eq, Structural)]
pub struct PixelPosition {
    pub x: isize,
    pub y: isize,
}

/// A size in pixels.
#[derive(Copy, Clone, Debug, PartialEq, Eq, Structural)]
pub struct PixelDimension {
    pub width: usize,
    pub height: usize,
}

/// A place on a tile sheet, in tiles.
#[derive(Copy, Clone, Debug, PartialEq, Eq, Structural)]
pub struct TilePosition {
    pub x: usize,
    pub y: usize,
}

/// A size in tiles.
#[derive(Copy, Clone, Debug, PartialEq, Eq, Structural)]
pub struct TileDimension {
    pub width: usize,
    pub height: usize,
}

/// A block of tiles on a tile sheet.
#[derive(Copy, Clone, Debug, PartialEq, Eq, Structural)]
pub struct TileRect {
    pub x: usize,
    pub y: usize,
    pub width: usize,
    pub height: usize,
}

/// The geometry of a tile sheet: how large one tile is and how many tiles the
/// sheet holds in each direction.
#[derive(Copy, Clone, Debug, PartialEq, Eq, Structural)]
pub struct TileTexture {
    pub tile_size: PixelDimension,
    pub tiles_per_dimension: TileDimension,
}

impl TileTexture {
    /// The geometry of a sheet of `texture_size` pixels that is cut into
    /// `tiles_per_dimension` tiles; `None` where a direction has no tile.
    pub fn new(texture_size: PixelDimension, tiles_per_dimension: TileDimension) -> (sheet: Option<
        TileTexture,
    >)
        ensures
            sheet is Some <==> tiles_per_dimension.width > 0 && tiles_per_dimension.height > 0,
            sheet matches Some(s) ==> {
                &&& s.tiles_per_dimension == tiles_per_dimension
                &&& s.tile_size.width == texture_size.width as int / tiles_per_dimension.width as int
                &&& s.tile_size.height == texture_size.height as int
                    / tiles_per_dimension.height as int
            },
    {
        if tiles_per_dimension.width == 0 || tiles_per_dimension.height == 0 {
            return None;
        }
        Some(
            TileTexture {
                tile_size: PixelDimension {
                    width: texture_size.width / tiles_per_dimension.width,
                    height: texture_size.height / tiles_per_dimension.height,
                },
                tiles_per_dimension,
            },
        )
    }
}

/// A rectangle in the units of the renderer.
#[derive(Copy, Clone, Debug, PartialEq, Eq, Structural)]
pub struct PixelRect {
    pub x: i32,
    pub y: i32,
    pub width: u32,
    pub height: u32,
}

/// One copy from a sheet to the canvas: the part of the sheet, the place on
/// the canvas, and by how many quarter turns the copy is turned clockwise
/// about the top left corner of that place.
#[derive(Copy, Clone, Debug, PartialEq, Eq, Structural)]
pub struct Blit {
    pub source: PixelRect,
    pub target: PixelRect,
    pub quarter_turns: usize,
}

/// Whether the renderer can take the number as a coordinate.
pub open spec fn fits_i32(v: int) -> bool {
    i32::MIN <= v <= i32::MAX
}

/// Whether the renderer can take the number as an extent.
pub open spec fn fits_u32(v: int) -> bool {
    0 <= v <= u32::MAX
}

/// The rectangle with the given corner and extents, where the renderer can
/// take all four numbers.
pub open spec fn rect_of(x: int, y: int, width: int, height: int) -> Option<PixelRect> {
    if fits_i32(x) && fits_i32(y) && fits_u32(width) && fits_u32(height) {
        Some(PixelRect { x: x as i32, y: y as i32, width: width as u32, height: height as u32 })
    } else {
        None
    }
}

/// The copy of a block of tiles to a place on the canvas, unturned.
pub open spec fn tiles_blit(sheet: TileTexture, source: TileRect, x: int, y: int) -> Option<Blit> {
    let width = source.width * sheet.tile_size.width;
    let height = source.height * sheet.tile_size.height;
    match (
        rect_of(
            source.x * sheet.tile_size.width,
            source.y * sheet.tile_size.height,
            width,
            height,
        ),
        rect_of(x, y, width, height),
    ) {
        (Some(source), Some(target)) => Some(Blit { source, target, quarter_turns: 0 }),
        _ => None,
    }
}

/// The tile that shows a character: its own code for the printable ASCII
/// characters, and the tile after the last of them for every other character.
pub open spec fn glyph_index(character: char) -> int {
    if character <= '\u{1F}' || character >= '\u{80}' {
        0x7F
    } else {
        character as int
    }
}

/// The copy of the tile of a character to a place on the canvas. The tiles
/// of the sheet are counted row by row.
pub open spec fn glyph_blit(sheet: TileTexture, character: char, x: int, y: int, rotation: usize)
    -> Option<Blit> {
    let per_row = sheet.tiles_per_dimension.width as int;
    if per_row == 0 {
        None
    } else {
        match (
            rect_of(
                (glyph_index(character) % per_row) * sheet.tile_size.width,
                (glyph_index(character) / per_row) * sheet.tile_size.height,
                sheet.tile_size.width as int,
                sheet.tile_size.height as int,
            ),
            rect_of(x, y, sheet.tile_size.width as int, sheet.tile_size.height as int),
        ) {
            (Some(source), Some(target)) => Some(Blit { source, target, quarter_turns: rotation }),
            _ => None,
        }
    }
}

/// How far the `index`-th character of a text stands from the first one,
/// along x and along y: one tile width per character in the direction that
/// the rotation gives.
pub open spec fn glyph_offset(rotation: usize, step: int, index: int) -> (int, int) {
    if rotation == 0 {
        (index * step, 0)
    } else if rotation == 1 {
        (0, index * step)
    } else if rotation == 2 {
        (-(index * step), 0)
    } else {
        (0, -(index * step))
    }
}

/// The copy that draws the `index`-th character of a text.
pub open spec fn string_glyph(
    sheet: TileTexture,
    text: Seq<char>,
    x: int,
    y: int,
    rotation: usize,
) -> spec_fn(int) -> Option<Seq<Blit>> {
    |index: int|
        {
            let offset = glyph_offset(rotation, sheet.tile_size.width as int, index);
            match glyph_blit(sheet, text[index], x + offset.0, y + offset.1, rotation) {
                Some(blit) => Some(seq![blit]),
                None => None,
            }
        }
}

/// The copies that draw a text from a place on the canvas, one for each
/// character, first to last. There are four rotations, 0 to 3.
pub open spec fn string_blits(sheet: TileTexture, text: Seq<char>, x: int, y: int, rotation: usize)
    -> Option<Seq<Blit>> {
    if rotation > 3 {
        None
    } else {
        gather(text.len(), string_glyph(sheet, text, x, y, rotation))
    }
}

/// The copy that lays the background tile at one place of the grid.
pub open spec fn background_tile(texture: PixelDimension, column: int) -> spec_fn(int) -> Option<
    Seq<Blit>,
> {
    |row: int|
        match (
            rect_of(0, 0, texture.width as int, texture.height as int),
            rect_of(
                texture.width * column,
                texture.height * row,
                texture.width as int,
                texture.height as int,
            ),
        ) {
            (Some(source), Some(target)) => Some(seq![Blit { source, target, quarter_turns: 0 }]),
            _ => None,
        }
}

/// The copies that lay one column of the background.
pub open spec fn background_column(canvas: PixelDimension, texture: PixelDimension) -> spec_fn(
    int,
) -> Option<Seq<Blit>> {
    |column: int|
        gather((canvas.height as int / texture.height as int + 1) as nat, background_tile(texture, column))
}

/// The copies that cover the canvas with the background tile, column by
/// column from the left, each column from the top; the last tile of a row
/// and of a column may reach over the edge. A tile without extent covers
/// nothing.
pub open spec fn background_blits(canvas: PixelDimension, texture: PixelDimension) -> Option<
    Seq<Blit>,
> {
    if texture.width == 0 || texture.height == 0 {
        None
    } else {
        gather(
            (canvas.width as int / texture.width as int + 1) as nat,
            background_column(canvas, texture),
        )
    }
}

/// The product of two sizes as a coordinate.
pub fn product_i32(a: usize, b: usize) -> (product: Option<i32>)
    ensures
        product == (if a * b <= i32::MAX {
            Some((a * b) as i32)
        } else {
            None::<i32>
        }),
{
    match a.checked_mul(b) {
        Some(p) => if p <= 0x7fff_ffff {
            Some(p as i32)
        } else {
            None
        },
        None => None,
    }
}

/// The product of two sizes as an extent.
pub fn product_u32(a: usize, b: usize) -> (product: Option<u32>)
    ensures
        product == (if a * b <= u32::MAX {
            Some((a * b) as u32)
        } else {
            None::<u32>
        }),
{
    match a.checked_mul(b) {
        Some(p) => if p <= 0xffff_ffff {
            Some(p as u32)
        } else {
            None
        },
        None => None,
    }
}

/// A pixel coordinate as the renderer takes it.
pub fn coordinate(v: isize) -> (c: Option<i32>)
    ensures
        c == (if fits_i32(v as int) {
            Some(v as i32)
        } else {
            None::<i32>
        }),
{
    if -0x8000_0000 <= v && v <= 0x7fff_ffff {
        Some(v as i32)
    } else {
        None
    }
}

/// A size as the renderer takes it.
pub fn extent(v: usize) -> (e: Option<u32>)
    ensures
        e == (if v <= u32::MAX {
            Some(v as u32)
        } else {
            None::<u32>
        }),
{
    if v <= 0xffff_ffff {
        Some(v as u32)
    } else {
        None
    }
}

/// Plans the copy of a block of tiles to a place on the canvas; `None`
/// where the renderer cannot take one of the numbers.
pub fn draw_tiles(tile_texture: &TileTexture, source: TileRect, target: PixelPosition) -> (blit:
    Option<Blit>)
    ensures
        blit == tiles_blit(*tile_texture, source, target.x as int, target.y as int),
{
    let sx = product_i32(source.x, tile_texture.tile_size.width)?;
    let sy = product_i32(source.y, tile_texture.tile_size.height)?;
    let width = product_u32(source.width, tile_texture.tile_size.width)?;
    let height = product_u32(source.height, tile_texture.tile_size.height)?;
    let x = coordinate(target.x)?;
    let y = coordinate(target.y)?;
    Some(
        Blit {
            source: PixelRect { x: sx, y: sy, width, height },
            target: PixelRect { x, y, width, height },
            quarter_turns: 0,
        },
    )
}

/// The tile that shows a character.
pub fn glyph_tile(character: char) -> (index: usize)
    ensures
        index == glyph_index(character),
{
    if character <= '\u{1F}' || character >= '\u{80}' {
        0x7F
    } else {
        character as usize
    }
}

/// Plans the copy of the tile of a character to a place on the canvas;
/// `None` where the sheet has no tile in a row or the renderer cannot take
/// one of the numbers.
pub fn draw_character(
    tile_texture: &TileTexture,
    character: char,
    target: PixelPosition,
    rotation: usize,
) -> (blit: Option<Blit>)
    ensures
        blit == glyph_blit(*tile_texture, character, target.x as int, target.y as int, rotation),
{
    let per_row = tile_texture.tiles_per_dimension.width;
    if per_row == 0 {
        return None;
    }
    let tile_index = glyph_tile(character);
    let tile_position = TilePosition { x: tile_index % per_row, y: tile_index / per_row };
    let sx = product_i32(tile_position.x, tile_texture.tile_size.width)?;
    let sy = product_i32(tile_position.y, tile_texture.tile_size.height)?;
    let width = extent(tile_texture.tile_size.width)?;
    let height = extent(tile_texture.tile_size.height)?;
    let x = coordinate(target.x)?;
    let y = coordinate(target.y)?;
    Some(
        Blit {
            source: PixelRect { x: sx, y: sy, width, height },
            target: PixelRect { x, y, width, height },
            quarter_turns: rotation,
        },
    )
}

/// The coordinate that lies `index` steps of `step` pixels after `base`, or
/// before it; `None` where the renderer cannot take it.
pub fn stepped(base: isize, index: usize, step: usize, forward: bool) -> (place: Option<isize>)
    ensures
        place == (if forward {
            if fits_i32(base + index * step) {
                Some((base + index * step) as isize)
            } else {
                None::<isize>
            }
        } else {
            if fits_i32(base - index * step) {
                Some((base - index * step) as isize)
            } else {
                None::<isize>
            }
        }),
{
    match index.checked_mul(step) {
        Some(distance) => {
            let exact: i128 = if forward {
                base as i128 + distance as i128
            } else {
                base as i128 - distance as i128
            };
            if -0x8000_0000 <= exact && exact <= 0x7fff_ffff {
                Some(exact as isize)
            } else {
                None
            }
        },
        None => None,
    }
}

/// Plans the copies that draw a text from a place on the canvas, one for
/// each character; `None` where the rotation is none of the four, the sheet
/// has no tile in a row, or the renderer cannot take one of the numbers.
pub fn draw_string(
    tile_texture: &TileTexture,
    string: &str,
    target: PixelPosition,
    rotation: usize,
) -> (blits: Option<Vec<Blit>>)
    ensures
        seen(blits) == string_blits(
            *tile_texture,
            string@,
            target.x as int,
            target.y as int,
            rotation,
        ),
{
    if rotation > 3 {
        return None;
    }
    let ghost glyphs = string_glyph(*tile_texture, string@, target.x as int, target.y as int, rotation);
    let step = tile_texture.tile_size.width;
    let count = string.unicode_len();
    let mut blits: Vec<Blit> = Vec::new();
    let mut index: usize = 0;
    while index < count
        invariant
            index <= count,
            count == string@.len(),
            rotation <= 3,
            step == tile_texture.tile_size.width,
            glyphs == string_glyph(
                *tile_texture,
                string@,
                target.x as int,
                target.y as int,
                rotation,
            ),
            gather(index as nat, glyphs) == Some(blits@),
        decreases count - index,
    {
        let character = string.get_char(index);
        let place = if rotation == 0 {
            match stepped(target.x, index, step, true) {
                Some(x) => Some(PixelPosition { x, y: target.y }),
                None => None,
            }
        } else if rotation == 1 {
            match stepped(target.y, index, step, true) {
                Some(y) => Some(PixelPosition { x: target.x, y }),
                None => None,
            }
        } else if rotation == 2 {
            match stepped(target.x, index, step, false) {
                Some(x) => Some(PixelPosition { x, y: target.y }),
                None => None,
            }
        } else {
            match stepped(target.y, index, step, false) {
                Some(y) => Some(PixelPosition { x: target.x, y }),
                None => None,
            }
        };
        let blit = match place {
            Some(place) => draw_character(tile_texture, character, place, rotation),
            None => None,
        };
        match blit {
            Some(blit) => {
                proof {
                    assert(glyphs(index as int) == Some(seq![blit]));
                    lemma_gather_next(index as nat, glyphs);
                    assert(blits@ + seq![blit] =~= blits@.push(blit));
                }
                blits.push(blit);
            },
            None => {
                proof {
                    assert(glyphs(index as int) is None);
                    lemma_gather_missing(count as nat, glyphs, index as int);
                }
                return None;
            },
        }
        index += 1;
    }
    Some(blits)
}

/// Plans the copies that cover a canvas with the background tile; `None`
/// where the tile has no extent or the renderer cannot take one of the
/// numbers.
pub fn draw_tiled_background(canvas: PixelDimension, texture: PixelDimension) -> (blits: Option<
    Vec<Blit>,
>)
    ensures
        seen(blits) == background_blits(canvas, texture),
{
    if texture.width == 0 || texture.height == 0 {
        return None;
    }
    let width = extent(texture.width)?;
    let height = extent(texture.height)?;
    let source = PixelRect { x: 0, y: 0, width, height };
    let last_column = canvas.width / texture.width;
    let last_row = canvas.height / texture.height;
    let ghost columns = background_column(canvas, texture);
    let mut blits: Vec<Blit> = Vec::new();
    let mut column: usize = 0;
    while column <= last_column
        invariant
            texture.width > 0,
            texture.height > 0,
            width == texture.width,
            height == texture.height,
            source == (PixelRect { x: 0, y: 0, width, height }),
            last_column == canvas.width as int / texture.width as int,
            last_row == canvas.height as int / texture.height as int,
            columns == background_column(canvas, texture),
            column <= last_column + 1,
            column <= i32::MAX + 1,
            gather(column as nat, columns) == Some(blits@),
        decreases last_column + 1 - column,
    {
        let ghost tiles = background_tile(texture, column as int);
        let x = match product_i32(texture.width, column) {
            Some(x) => x,
            None => {
                proof {
                    assert(tiles(0) is None);
                    lemma_gather_missing((last_row + 1) as nat, tiles, 0);
                    assert(columns(column as int) is None);
                    lemma_gather_missing((last_column + 1) as nat, columns, column as int);
                }
                return None;
            },
        };
        assert(column <= i32::MAX) by (nonlinear_arith)
            requires
                texture.width >= 1,
                texture.width * column <= i32::MAX,
                column >= 0,
        ;
        let mut strip: Vec<Blit> = Vec::new();
        let mut row: usize = 0;
        while row <= last_row
            invariant
                texture.height > 0,
                width == texture.width,
                height == texture.height,
                source == (PixelRect { x: 0, y: 0, width, height }),
                x == texture.width * column,
                tiles == background_tile(texture, column as int),
                columns == background_column(canvas, texture),
                last_column == canvas.width as int / texture.width as int,
                last_row == canvas.height as int / texture.height as int,
                column <= last_column,
                row <= last_row + 1,
                row <= i32::MAX + 1,
                gather(row as nat, tiles) == Some(strip@),
            decreases last_row + 1 - row,
        {
            let y = match product_i32(texture.height, row) {
                Some(y) => y,
                None => {
                    proof {
                        assert(tiles(row as int) is None);
                        lemma_gather_missing((last_row + 1) as nat, tiles, row as int);
                        assert(columns(column as int) is None);
                        lemma_gather_missing((last_column + 1) as nat, columns, column as int);
                    }
                    return None;
                },
            };
            assert(row <= i32::MAX) by (nonlinear_arith)
                requires
                    texture.height >= 1,
                    texture.height * row <= i32::MAX,
                    row >= 0,
            ;
            let blit = Blit { source, target: PixelRect { x, y, width, height }, quarter_turns: 0 };
            proof {
                assert(tiles(row as int) == Some(seq![blit]));
                lemma_gather_next(row as nat, tiles);
                assert(strip@ + seq![blit] =~= strip@.push(blit));
            }
            strip.push(blit);
            row += 1;
        }
        proof {
            assert(row == last_row + 1);
            assert(columns(column as int) == Some(strip@));
            lemma_gather_next(column as nat, columns);
        }
        blits.append(&mut strip);
        column += 1;
    }
    assert(column == last_column + 1);
    Some(blits)
}

} // verus!
