//! Where the parts of the matrix stand in the window.
//!
//! Columns stand for sending ports and rows for receiving ports. The buttons
//! fill a grid that starts at the window margin; the arrows and labels of the
//! rows stand to the right of the grid, those of the columns below it.

use vstd::prelude::*;

use crate::graphics::{fits_i32, PixelPosition};
use crate::store::MatrixCell;
use crate::theme::Theme;

verus! {

/// Half of a number, rounded towards zero.
pub open spec fn half_toward_zero(v: int) -> int {
    if v >= 0 {
        v / 2
    } else {
        -((-v) / 2)
    }
}

/// The place with the given coordinates, where the renderer can take them.
pub open spec fn place_at(x: int, y: int) -> Option<PixelPosition> {
    if fits_i32(x) && fits_i32(y) {
        Some(PixelPosition { x: x as isize, y: y as isize })
    } else {
        None
    }
}

/// The size of a window as the window system takes it.
#[derive(Copy, Clone, Debug, PartialEq, Eq, Structural)]
pub struct WindowSize {
    pub width: u32,
    pub height: u32,
}

impl Theme {
    /// The width of a button: two tiles of the sheet of controls.
    pub open spec fn button_width(self) -> int {
        2 * self.controls_texture.tile_size.width
    }

    /// The height of a button: two tiles of the sheet of controls.
    pub open spec fn button_height(self) -> int {
        2 * self.controls_texture.tile_size.height
    }

    /// The left edge of a column of buttons.
    pub open spec fn column_x(self, column: int) -> int {
        self.manifest.metrics.window_margin + column * self.button_width()
    }

    /// The top edge of a row of buttons.
    pub open spec fn row_y(self, row: int) -> int {
        self.manifest.metrics.window_margin + row * self.button_height()
    }

    /// The left edge of the labels of the rows: right of the grid of
    /// `columns` columns, its arrows and the label spacing.
    pub open spec fn row_label_x(self, columns: int) -> int {
        self.column_x(columns) + self.controls_texture.tile_size.width
            + self.manifest.metrics.label_spacing
    }

    /// The top edge of the label of a row: such that the characters stand in
    /// the middle of the row.
    pub open spec fn row_label_y(self, row: int) -> int {
        self.row_y(row) + half_toward_zero(
            self.button_height() - self.font_texture.tile_size.height,
        )
    }

    /// The left edge of the label of a column: such that the characters,
    /// which stand on their side, are in the middle of the column.
    pub open spec fn column_label_x(self, column: int) -> int {
        self.column_x(column) + half_toward_zero(
            self.button_width() - self.font_texture.tile_size.height,
        )
    }

    /// Where the label of a column starts: it reads upwards, so it starts as
    /// far below the grid of `rows` rows, its arrows and the label spacing as
    /// it is long.
    pub open spec fn column_label_y(self, rows: int, length: int) -> int {
        self.row_y(rows) + self.controls_texture.tile_size.height
            + self.manifest.metrics.label_spacing + length * self.font_texture.tile_size.width
    }

    /// The width of the window around a grid of `columns` columns whose
    /// longest row label has `longest` characters.
    pub open spec fn window_width(self, columns: int, longest: int) -> int {
        self.row_label_x(columns) + longest * self.font_texture.tile_size.width
            + self.manifest.metrics.window_margin
    }

    /// The height of the window around a grid of `rows` rows whose longest
    /// column label has `longest` characters.
    pub open spec fn window_height(self, rows: int, longest: int) -> int {
        self.column_label_y(rows, longest) + self.manifest.metrics.window_margin
    }

    /// The button under a place of the window, in a grid of `columns` by
    /// `rows` buttons. Left of the grid, above it, right of it and below it
    /// there is none, and none anywhere where buttons have no extent.
    pub open spec fn button_at(self, columns: int, rows: int, x: int, y: int) -> Option<
        MatrixCell,
    > {
        let px = x - self.manifest.metrics.window_margin;
        let py = y - self.manifest.metrics.window_margin;
        if px < 0 || py < 0 || self.button_width() == 0 || self.button_height() == 0 {
            None
        } else if px / self.button_width() < columns && py / self.button_height() < rows {
            Some(
                MatrixCell {
                    sender_index: (px / self.button_width()) as usize,
                    receiver_index: (py / self.button_height()) as usize,
                },
            )
        } else {
            None
        }
    }

    /// The size of the window, where the window system can take it.
    pub open spec fn window_size_for(
        self,
        columns: int,
        rows: int,
        longest_row_label: int,
        longest_column_label: int,
    ) -> Option<WindowSize> {
        let width = self.window_width(columns, longest_row_label);
        let height = self.window_height(rows, longest_column_label);
        if width <= u32::MAX && height <= u32::MAX {
            Some(WindowSize { width: width as u32, height: height as u32 })
        } else {
            None
        }
    }
}

/// Whether `held` stands for the number: it holds it, or it holds nothing
/// and the number is too large to hold.
spec fn stands_for(held: Option<u128>, value: int) -> bool {
    match held {
        Some(v) => v == value,
        None => value > u128::MAX,
    }
}

fn wide_product(a: Option<u128>, b: Option<u128>, Ghost(x): Ghost<int>, Ghost(y): Ghost<int>) -> (p:
    Option<u128>)
    requires
        stands_for(a, x),
        stands_for(b, y),
        x >= 0,
        y >= 0,
    ensures
        stands_for(p, x * y),
{
    match (a, b) {
        (Some(a), Some(b)) => a.checked_mul(b),
        (Some(a), None) => {
            if a == 0 {
                assert(x * y == 0) by (nonlinear_arith)
                    requires
                        x == 0,
                ;
                Some(0)
            } else {
                assert(x * y > u128::MAX) by (nonlinear_arith)
                    requires
                        x >= 1,
                        y > u128::MAX,
                ;
                None
            }
        },
        (None, Some(b)) => {
            if b == 0 {
                assert(x * y == 0) by (nonlinear_arith)
                    requires
                        y == 0,
                ;
                Some(0)
            } else {
                assert(x * y > u128::MAX) by (nonlinear_arith)
                    requires
                        y >= 1,
                        x > u128::MAX,
                ;
                None
            }
        },
        (None, None) => {
            assert(x * y > u128::MAX) by (nonlinear_arith)
                requires
                    y > u128::MAX,
                    x > u128::MAX,
            ;
            None
        },
    }
}

fn wide_sum(a: Option<u128>, b: Option<u128>, Ghost(x): Ghost<int>, Ghost(y): Ghost<int>) -> (s:
    Option<u128>)
    requires
        stands_for(a, x),
        stands_for(b, y),
        x >= 0,
        y >= 0,
    ensures
        stands_for(s, x + y),
{
    match (a, b) {
        (Some(a), Some(b)) => a.checked_add(b),
        _ => None,
    }
}

fn wide(v: usize) -> (w: Option<u128>)
    ensures
        stands_for(w, v as int),
{
    Some(v as u128)
}

fn as_coordinate(held: Option<u128>, Ghost(value): Ghost<int>) -> (c: Option<isize>)
    requires
        stands_for(held, value),
        value >= 0,
    ensures
        c == (if value <= i32::MAX {
            Some(value as isize)
        } else {
            None::<isize>
        }),
{
    match held {
        Some(v) => if v <= 0x7fff_ffff {
            Some(v as isize)
        } else {
            None
        },
        None => None,
    }
}

fn as_extent(held: Option<u128>, Ghost(value): Ghost<int>) -> (e: Option<u32>)
    requires
        stands_for(held, value),
        value >= 0,
    ensures
        e == (if value <= u32::MAX {
            Some(value as u32)
        } else {
            None::<u32>
        }),
{
    match held {
        Some(v) => if v <= 0xffff_ffff {
            Some(v as u32)
        } else {
            None
        },
        None => None,
    }
}

/// The coordinate that lies half the difference of `2 * outer` and `inner`
/// after `base`.
fn centred(base: Option<u128>, Ghost(value): Ghost<int>, outer: usize, inner: usize) -> (c: Option<
    isize,
>)
    requires
        stands_for(base, value),
        value >= 0,
    ensures
        c == (if fits_i32(value + half_toward_zero(2 * outer - inner)) {
            Some((value + half_toward_zero(2 * outer - inner)) as isize)
        } else {
            None::<isize>
        }),
{
    let double: u128 = 2 * (outer as u128);
    let inner: u128 = inner as u128;
    match base {
        None => None,
        Some(v) => {
            if double >= inner {
                let shift: u128 = (double - inner) / 2;
                match v.checked_add(shift) {
                    Some(t) => if t <= 0x7fff_ffff {
                        Some(t as isize)
                    } else {
                        None
                    },
                    None => None,
                }
            } else {
                let shift: u128 = (inner - double) / 2;
                if v >= shift {
                    let t: u128 = v - shift;
                    if t <= 0x7fff_ffff {
                        Some(t as isize)
                    } else {
                        None
                    }
                } else {
                    let below: u128 = shift - v;
                    if below <= 0x8000_0000 {
                        Some((-(below as i64)) as isize)
                    } else {
                        None
                    }
                }
            }
        },
    }
}

impl Theme {
    fn wide_column_x(&self, column: usize) -> (x: Option<u128>)
        ensures
            stands_for(x, self.column_x(column as int)),
            self.column_x(column as int) >= 0,
    {
        let width = self.controls_texture.tile_size.width;
        let button = wide_product(wide(2), wide(width), Ghost(2), Ghost(width as int));
        assert(column * (2 * width) >= 0) by (nonlinear_arith)
            requires
                column >= 0,
                width >= 0,
        ;
        let across = wide_product(wide(column), button, Ghost(column as int), Ghost(2 * width));
        wide_sum(
            wide(self.manifest.metrics.window_margin),
            across,
            Ghost(self.manifest.metrics.window_margin as int),
            Ghost(column * (2 * width)),
        )
    }

    fn wide_row_y(&self, row: usize) -> (y: Option<u128>)
        ensures
            stands_for(y, self.row_y(row as int)),
            self.row_y(row as int) >= 0,
    {
        let height = self.controls_texture.tile_size.height;
        let button = wide_product(wide(2), wide(height), Ghost(2), Ghost(height as int));
        assert(row * (2 * height) >= 0) by (nonlinear_arith)
            requires
                row >= 0,
                height >= 0,
        ;
        let down = wide_product(wide(row), button, Ghost(row as int), Ghost(2 * height));
        wide_sum(
            wide(self.manifest.metrics.window_margin),
            down,
            Ghost(self.manifest.metrics.window_margin as int),
            Ghost(row * (2 * height)),
        )
    }

    fn wide_row_label_x(&self, columns: usize) -> (x: Option<u128>)
        ensures
            stands_for(x, self.row_label_x(columns as int)),
            self.row_label_x(columns as int) >= 0,
    {
        let grid = self.wide_column_x(columns);
        let arrow = wide_sum(
            grid,
            wide(self.controls_texture.tile_size.width),
            Ghost(self.column_x(columns as int)),
            Ghost(self.controls_texture.tile_size.width as int),
        );
        wide_sum(
            arrow,
            wide(self.manifest.metrics.label_spacing),
            Ghost(self.column_x(columns as int) + self.controls_texture.tile_size.width),
            Ghost(self.manifest.metrics.label_spacing as int),
        )
    }

    fn wide_column_label_y(&self, rows: usize, length: usize) -> (y: Option<u128>)
        ensures
            stands_for(y, self.column_label_y(rows as int, length as int)),
            self.column_label_y(rows as int, length as int) >= 0,
    {
        let step = self.font_texture.tile_size.width;
        let grid = self.wide_row_y(rows);
        let arrow = wide_sum(
            grid,
            wide(self.controls_texture.tile_size.height),
            Ghost(self.row_y(rows as int)),
            Ghost(self.controls_texture.tile_size.height as int),
        );
        let spaced = wide_sum(
            arrow,
            wide(self.manifest.metrics.label_spacing),
            Ghost(self.row_y(rows as int) + self.controls_texture.tile_size.height),
            Ghost(self.manifest.metrics.label_spacing as int),
        );
        assert(length * step >= 0) by (nonlinear_arith)
            requires
                length >= 0,
                step >= 0,
        ;
        let text = wide_product(wide(length), wide(step), Ghost(length as int), Ghost(step as int));
        wide_sum(
            spaced,
            text,
            Ghost(
                self.row_y(rows as int) + self.controls_texture.tile_size.height
                    + self.manifest.metrics.label_spacing,
            ),
            Ghost(length * step),
        )
    }

    /// The top left corner of a button; `None` where the renderer cannot
    /// take its coordinates.
    pub fn button_origin(&self, column: usize, row: usize) -> (place: Option<PixelPosition>)
        ensures
            place == place_at(self.column_x(column as int), self.row_y(row as int)),
    {
        let x = as_coordinate(self.wide_column_x(column), Ghost(self.column_x(column as int)))?;
        let y = as_coordinate(self.wide_row_y(row), Ghost(self.row_y(row as int)))?;
        Some(PixelPosition { x, y })
    }

    /// Where the label of a row starts, right of a grid of `columns`
    /// columns; `None` where the renderer cannot take the coordinates.
    pub fn row_label_origin(&self, columns: usize, row: usize) -> (place: Option<PixelPosition>)
        ensures
            place == place_at(self.row_label_x(columns as int), self.row_label_y(row as int)),
    {
        let x = as_coordinate(
            self.wide_row_label_x(columns),
            Ghost(self.row_label_x(columns as int)),
        )?;
        let y = centred(
            self.wide_row_y(row),
            Ghost(self.row_y(row as int)),
            self.controls_texture.tile_size.height,
            self.font_texture.tile_size.height,
        )?;
        Some(PixelPosition { x, y })
    }

    /// Where the label of `length` characters of a column starts, below a
    /// grid of `rows` rows; `None` where the renderer cannot take the
    /// coordinates.
    pub fn column_label_origin(&self, column: usize, rows: usize, length: usize) -> (place: Option<
        PixelPosition,
    >)
        ensures
            place == place_at(
                self.column_label_x(column as int),
                self.column_label_y(rows as int, length as int),
            ),
    {
        let x = centred(
            self.wide_column_x(column),
            Ghost(self.column_x(column as int)),
            self.controls_texture.tile_size.width,
            self.font_texture.tile_size.height,
        )?;
        let y = as_coordinate(
            self.wide_column_label_y(rows, length),
            Ghost(self.column_label_y(rows as int, length as int)),
        )?;
        Some(PixelPosition { x, y })
    }

    /// The size of the window around a grid of `columns` by `rows` buttons
    /// with labels of at most the given lengths; `None` where the window
    /// system cannot take it.
    pub fn window_size(
        &self,
        columns: usize,
        rows: usize,
        longest_row_label: usize,
        longest_column_label: usize,
    ) -> (size: Option<WindowSize>)
        ensures
            size == self.window_size_for(
                columns as int,
                rows as int,
                longest_row_label as int,
                longest_column_label as int,
            ),
    {
        let step = self.font_texture.tile_size.width;
        let margin = self.manifest.metrics.window_margin;
        assert(longest_row_label * step >= 0) by (nonlinear_arith)
            requires
                longest_row_label >= 0,
                step >= 0,
        ;
        let text = wide_product(
            wide(longest_row_label),
            wide(step),
            Ghost(longest_row_label as int),
            Ghost(step as int),
        );
        let labelled = wide_sum(
            self.wide_row_label_x(columns),
            text,
            Ghost(self.row_label_x(columns as int)),
            Ghost(longest_row_label * step),
        );
        let across = wide_sum(
            labelled,
            wide(margin),
            Ghost(self.row_label_x(columns as int) + longest_row_label * step),
            Ghost(margin as int),
        );
        let down = wide_sum(
            self.wide_column_label_y(rows, longest_column_label),
            wide(margin),
            Ghost(self.column_label_y(rows as int, longest_column_label as int)),
            Ghost(margin as int),
        );
        let width = as_extent(across, Ghost(self.window_width(columns as int, longest_row_label as int)));
        let height = as_extent(
            down,
            Ghost(self.window_height(rows as int, longest_column_label as int)),
        );
        match (width, height) {
            (Some(width), Some(height)) => Some(WindowSize { width, height }),
            _ => None,
        }
    }

    /// The button under a place of the window, in a grid of `columns` by
    /// `rows` buttons.
    pub fn button_under(&self, columns: usize, rows: usize, position: PixelPosition) -> (cell:
        Option<MatrixCell>)
        ensures
            cell == self.button_at(
                columns as int,
                rows as int,
                position.x as int,
                position.y as int,
            ),
    {
        let margin = self.manifest.metrics.window_margin as u128;
        let width: u128 = 2 * (self.controls_texture.tile_size.width as u128);
        let height: u128 = 2 * (self.controls_texture.tile_size.height as u128);
        if position.x < 0 || position.y < 0 || width == 0 || height == 0 {
            return None;
        }
        let x = position.x as u128;
        let y = position.y as u128;
        if x < margin || y < margin {
            return None;
        }
        let column = (x - margin) / width;
        let row = (y - margin) / height;
        if column < columns as u128 && row < rows as u128 {
            Some(MatrixCell { sender_index: column as usize, receiver_index: row as usize })
        } else {
            None
        }
    }
}

} // verus!
