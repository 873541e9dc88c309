//! The picture of the window: the list of copies that draws it.

use vstd::prelude::*;

use crate::graphics::{
    background_blits, draw_string, draw_tiled_background, draw_tiles, glyph_blit, glyph_offset,
    rect_of, string_blits, string_glyph, tiles_blit, Blit, PixelDimension, PixelPosition, TileRect,
    TileTexture,
};
use crate::layout::place_at;
use crate::seq_facts::{gather, lemma_gather_missing, lemma_gather_next, seen};
use crate::state::{measure, receiver_labels, sender_labels, AppState, AppView};
use crate::store::MatrixCell;
use crate::text::texts;
use crate::theme::{Sprite, Theme};

verus! {

/// The images of a theme.
#[derive(Copy, Clone, Debug, PartialEq, Eq, Structural)]
pub enum Sheet {
    Background,
    Controls,
    Font,
}

/// One step of drawing: a copy from one of the images to the canvas.
#[derive(Copy, Clone, Debug, PartialEq, Eq, Structural)]
pub struct DrawCommand {
    pub sheet: Sheet,
    pub blit: Blit,
}

/// The step that makes a copy from the given image.
pub open spec fn from_sheet(sheet: Sheet) -> spec_fn(Blit) -> DrawCommand {
    |blit: Blit| DrawCommand { sheet, blit }
}

/// The steps that make the copies from the given image, where there are any.
pub open spec fn tagged(sheet: Sheet, blits: Option<Seq<Blit>>) -> Option<Seq<DrawCommand>> {
    match blits {
        Some(blits) => Some(blits.map_values(from_sheet(sheet))),
        None => None,
    }
}

/// The list of one copy, where there is one.
pub open spec fn single(blit: Option<Blit>) -> Option<Seq<Blit>> {
    match blit {
        Some(blit) => Some(seq![blit]),
        None => None,
    }
}

/// One list of steps after another, where both are there.
pub open spec fn joined(first: Option<Seq<DrawCommand>>, second: Option<Seq<DrawCommand>>)
    -> Option<Seq<DrawCommand>> {
    match (first, second) {
        (Some(first), Some(second)) => Some(first + second),
        _ => None,
    }
}

impl AppView {
    /// Whether the selected button lies in the row.
    pub open spec fn row_selected(self, row: int) -> bool {
        self.store.selection.cell matches Some(cell) && cell.receiver_index == row
    }

    /// Whether the selected button lies in the column.
    pub open spec fn column_selected(self, column: int) -> bool {
        self.store.selection.cell matches Some(cell) && cell.sender_index == column
    }

    /// The picture of the button at a crossing. The button that would
    /// connect a port to itself is disabled.
    pub open spec fn button_sprite(self, column: int, row: int) -> Sprite {
        let sender = self.store.snapshot.senders[column].address;
        let receiver = self.store.snapshot.receivers[row].address;
        let hovered = self.store.selection.cell matches Some(cell) && cell.sender_index == column
            && cell.receiver_index == row;
        Sprite::button(
            sender == receiver,
            self.store.snapshot.has_edge(sender, receiver),
            self.store.selection.pressed && hovered,
            hovered,
        )
    }
}

/// The steps that draw the head of a row: its arrow, right of the grid, and
/// right of that its label.
pub open spec fn row_header(state: AppView, theme: Theme) -> spec_fn(int) -> Option<
    Seq<DrawCommand>,
> {
    |row: int|
        joined(
            tagged(
                Sheet::Controls,
                single(
                    tiles_blit(
                        theme.controls_texture,
                        Sprite::row_arrow(state.row_selected(row)).rect(),
                        theme.column_x(state.columns()),
                        theme.row_y(row),
                    ),
                ),
            ),
            tagged(
                Sheet::Font,
                string_blits(
                    theme.font_texture,
                    receiver_labels(state.store.snapshot, state.show_addresses)[row],
                    theme.row_label_x(state.columns()),
                    theme.row_label_y(row),
                    0,
                ),
            ),
        )
}

/// The steps that draw the head of a column: its arrow, below the grid, and
/// below that its label, which reads upwards.
pub open spec fn column_header(state: AppView, theme: Theme) -> spec_fn(int) -> Option<
    Seq<DrawCommand>,
> {
    |column: int|
        joined(
            tagged(
                Sheet::Controls,
                single(
                    tiles_blit(
                        theme.controls_texture,
                        Sprite::column_arrow(state.column_selected(column)).rect(),
                        theme.column_x(column),
                        theme.row_y(state.rows()),
                    ),
                ),
            ),
            tagged(
                Sheet::Font,
                string_blits(
                    theme.font_texture,
                    sender_labels(state.store.snapshot, state.show_addresses)[column],
                    theme.column_label_x(column),
                    theme.column_label_y(
                        state.rows(),
                        measure(
                            sender_labels(state.store.snapshot, state.show_addresses)[column],
                        ) as int,
                    ),
                    3,
                ),
            ),
        )
}

/// The step that draws the button at a crossing of a row.
pub open spec fn button(state: AppView, theme: Theme, row: int) -> spec_fn(int) -> Option<
    Seq<DrawCommand>,
> {
    |column: int|
        tagged(
            Sheet::Controls,
            single(
                tiles_blit(
                    theme.controls_texture,
                    state.button_sprite(column, row).rect(),
                    theme.column_x(column),
                    theme.row_y(row),
                ),
            ),
        )
}

/// The steps that draw the buttons of a row, left to right.
pub open spec fn button_row(state: AppView, theme: Theme) -> spec_fn(int) -> Option<
    Seq<DrawCommand>,
> {
    |row: int| gather(state.columns() as nat, button(state, theme, row))
}

/// The steps that draw the window on a canvas of the given size: the
/// background, the heads of the rows from the top, the heads of the columns
/// from the left, and the buttons row by row. There is no picture where the
/// renderer cannot take one of its numbers.
pub open spec fn frame(state: AppView, theme: Theme, canvas: PixelDimension) -> Option<
    Seq<DrawCommand>,
> {
    joined(
        joined(
            joined(
                tagged(Sheet::Background, background_blits(canvas, theme.background_texture)),
                gather(state.rows() as nat, row_header(state, theme)),
            ),
            gather(state.columns() as nat, column_header(state, theme)),
        ),
        gather(state.rows() as nat, button_row(state, theme)),
    )
}

fn tag(sheet: Sheet, blits: &Vec<Blit>) -> (steps: Vec<DrawCommand>)
    ensures
        Some(steps@) == tagged(sheet, Some(blits@)),
{
    let mut steps: Vec<DrawCommand> = Vec::new();
    let mut i: usize = 0;
    while i < blits.len()
        invariant
            i <= blits.len(),
            steps@ =~= blits@.take(i as int).map_values(from_sheet(sheet)),
        decreases blits.len() - i,
    {
        steps.push(DrawCommand { sheet, blit: blits[i] });
        i += 1;
    }
    assert(blits@.take(blits.len() as int) =~= blits@);
    steps
}

fn place_tiles(
    sheet: &TileTexture,
    source: TileRect,
    place: Option<PixelPosition>,
    Ghost(x): Ghost<int>,
    Ghost(y): Ghost<int>,
) -> (blit: Option<Blit>)
    requires
        place == place_at(x, y),
    ensures
        blit == tiles_blit(*sheet, source, x, y),
{
    match place {
        Some(place) => draw_tiles(sheet, source, place),
        None => None,
    }
}

fn place_string(
    sheet: &TileTexture,
    text: &String,
    place: Option<PixelPosition>,
    Ghost(x): Ghost<int>,
    Ghost(y): Ghost<int>,
    rotation: usize,
) -> (blits: Option<Vec<Blit>>)
    requires
        place == place_at(x, y),
    ensures
        seen(blits) == string_blits(*sheet, text@, x, y, rotation),
{
    match place {
        Some(place) => draw_string(sheet, text.as_str(), place, rotation),
        None => {
            if rotation <= 3 && text.as_str().is_empty() {
                Some(Vec::new())
            } else {
                proof {
                    if rotation <= 3 {
                        let glyphs = string_glyph(*sheet, text@, x, y, rotation);
                        assert(glyph_offset(rotation, sheet.tile_size.width as int, 0) == (
                            0int,
                            0int,
                        )) by (nonlinear_arith);
                        assert(glyphs(0) is None);
                        lemma_gather_missing(text@.len(), glyphs, 0);
                    }
                }
                None
            }
        },
    }
}

fn row_headers(state: &AppState, theme: &Theme, labels: &Vec<String>) -> (steps: Option<
    Vec<DrawCommand>,
>)
    requires
        texts(labels@) == receiver_labels(state@.store.snapshot, state@.show_addresses),
    ensures
        seen(steps) == gather(state@.rows() as nat, row_header(state@, *theme)),
{
    let snapshot = state.store.snapshot();
    let columns = snapshot.senders().len();
    let rows = snapshot.receivers().len();
    let selection = state.store.selection();
    let ghost heads = row_header(state@, *theme);
    let mut steps: Vec<DrawCommand> = Vec::new();
    let mut row: usize = 0;
    assert(labels@.len() == texts(labels@).len());
    while row < rows
        invariant
            row <= rows,
            rows == state@.rows(),
            columns == state@.columns(),
            rows == labels.len(),
            selection == state@.store.selection,
            texts(labels@) == receiver_labels(state@.store.snapshot, state@.show_addresses),
            heads == row_header(state@, *theme),
            gather(row as nat, heads) == Some(steps@),
        decreases rows - row,
    {
        let selected = match selection.cell {
            Some(cell) => cell.receiver_index == row,
            None => false,
        };
        let arrow = place_tiles(
            &theme.controls_texture,
            Sprite::row_arrow(selected).rect(),
            theme.button_origin(columns, row),
            Ghost(theme.column_x(columns as int)),
            Ghost(theme.row_y(row as int)),
        );
        let label = place_string(
            &theme.font_texture,
            &labels[row],
            theme.row_label_origin(columns, row),
            Ghost(theme.row_label_x(columns as int)),
            Ghost(theme.row_label_y(row as int)),
            0,
        );
        proof {
            assert(texts(labels@)[row as int] == labels[row as int]@);
        }
        match (arrow, label) {
            (Some(arrow), Some(label)) => {
                let mut text = tag(Sheet::Font, &label);
                proof {
                    let head = seq![DrawCommand { sheet: Sheet::Controls, blit: arrow }];
                    assert(seq![arrow].map_values(from_sheet(Sheet::Controls)) =~= head);
                    assert(heads(row as int) == Some(head + text@));
                    lemma_gather_next(row as nat, heads);
                    assert(steps@.push(DrawCommand { sheet: Sheet::Controls, blit: arrow })
                        + text@ =~= steps@ + (head + text@));
                }
                steps.push(DrawCommand { sheet: Sheet::Controls, blit: arrow });
                steps.append(&mut text);
            },
            _ => {
                proof {
                    assert(heads(row as int) is None);
                    lemma_gather_missing(rows as nat, heads, row as int);
                }
                return None;
            },
        }
        row += 1;
    }
    Some(steps)
}

fn column_headers(state: &AppState, theme: &Theme, labels: &Vec<String>) -> (steps: Option<
    Vec<DrawCommand>,
>)
    requires
        texts(labels@) == sender_labels(state@.store.snapshot, state@.show_addresses),
    ensures
        seen(steps) == gather(state@.columns() as nat, column_header(state@, *theme)),
{
    let snapshot = state.store.snapshot();
    let columns = snapshot.senders().len();
    let rows = snapshot.receivers().len();
    let selection = state.store.selection();
    let ghost heads = column_header(state@, *theme);
    let mut steps: Vec<DrawCommand> = Vec::new();
    let mut column: usize = 0;
    assert(labels@.len() == texts(labels@).len());
    while column < columns
        invariant
            column <= columns,
            rows == state@.rows(),
            columns == state@.columns(),
            columns == labels.len(),
            selection == state@.store.selection,
            texts(labels@) == sender_labels(state@.store.snapshot, state@.show_addresses),
            heads == column_header(state@, *theme),
            gather(column as nat, heads) == Some(steps@),
        decreases columns - column,
    {
        let selected = match selection.cell {
            Some(cell) => cell.sender_index == column,
            None => false,
        };
        let length = labels[column].as_str().len();
        proof {
            assert(texts(labels@)[column as int] == labels[column as int]@);
        }
        let arrow = place_tiles(
            &theme.controls_texture,
            Sprite::column_arrow(selected).rect(),
            theme.button_origin(column, rows),
            Ghost(theme.column_x(column as int)),
            Ghost(theme.row_y(rows as int)),
        );
        let label = place_string(
            &theme.font_texture,
            &labels[column],
            theme.column_label_origin(column, rows, length),
            Ghost(theme.column_label_x(column as int)),
            Ghost(theme.column_label_y(rows as int, length as int)),
            3,
        );
        match (arrow, label) {
            (Some(arrow), Some(label)) => {
                let mut text = tag(Sheet::Font, &label);
                proof {
                    let head = seq![DrawCommand { sheet: Sheet::Controls, blit: arrow }];
                    assert(seq![arrow].map_values(from_sheet(Sheet::Controls)) =~= head);
                    assert(heads(column as int) == Some(head + text@));
                    lemma_gather_next(column as nat, heads);
                    assert(steps@.push(DrawCommand { sheet: Sheet::Controls, blit: arrow })
                        + text@ =~= steps@ + (head + text@));
                }
                steps.push(DrawCommand { sheet: Sheet::Controls, blit: arrow });
                steps.append(&mut text);
            },
            _ => {
                proof {
                    assert(heads(column as int) is None);
                    lemma_gather_missing(columns as nat, heads, column as int);
                }
                return None;
            },
        }
        column += 1;
    }
    Some(steps)
}

fn buttons(state: &AppState, theme: &Theme) -> (steps: Option<Vec<DrawCommand>>)
    ensures
        seen(steps) == gather(state@.rows() as nat, button_row(state@, *theme)),
{
    let snapshot = state.store.snapshot();
    let senders = snapshot.senders();
    let receivers = snapshot.receivers();
    let columns = senders.len();
    let rows = receivers.len();
    let selection = state.store.selection();
    let ghost lines = button_row(state@, *theme);
    let mut steps: Vec<DrawCommand> = Vec::new();
    let mut row: usize = 0;
    while row < rows
        invariant
            row <= rows,
            rows == state@.rows(),
            columns == state@.columns(),
            snapshot@ == state@.store.snapshot,
            crate::snapshot::records_view(senders@) == snapshot@.senders,
            crate::snapshot::records_view(receivers@) == snapshot@.receivers,
            columns == senders.len(),
            rows == receivers.len(),
            selection == state@.store.selection,
            lines == button_row(state@, *theme),
            gather(row as nat, lines) == Some(steps@),
        decreases rows - row,
    {
        let ghost line = button(state@, *theme, row as int);
        let receiver = receivers[row].address;
        let mut strip: Vec<DrawCommand> = Vec::new();
        let mut column: usize = 0;
        while column < columns
            invariant
                column <= columns,
                row < rows,
                rows == state@.rows(),
                columns == state@.columns(),
                snapshot@ == state@.store.snapshot,
                crate::snapshot::records_view(senders@) == snapshot@.senders,
                crate::snapshot::records_view(receivers@) == snapshot@.receivers,
                columns == senders.len(),
                rows == receivers.len(),
                receiver == receivers[row as int].address,
                selection == state@.store.selection,
                lines == button_row(state@, *theme),
                line == button(state@, *theme, row as int),
                gather(column as nat, line) == Some(strip@),
            decreases columns - column,
        {
            let sender = senders[column].address;
            let hovered = match selection.cell {
                Some(cell) => cell.sender_index == column && cell.receiver_index == row,
                None => false,
            };
            let sprite = Sprite::button(
                sender == receiver,
                snapshot.has_edge(sender, receiver),
                selection.pressed && hovered,
                hovered,
            );
            proof {
                assert(crate::snapshot::records_view(senders@)[column as int].address == sender);
                assert(crate::snapshot::records_view(receivers@)[row as int].address == receiver);
                assert(sprite == state@.button_sprite(column as int, row as int));
            }
            let blit = place_tiles(
                &theme.controls_texture,
                sprite.rect(),
                theme.button_origin(column, row),
                Ghost(theme.column_x(column as int)),
                Ghost(theme.row_y(row as int)),
            );
            match blit {
                Some(blit) => {
                    let step = DrawCommand { sheet: Sheet::Controls, blit };
                    proof {
                        assert(seq![blit].map_values(from_sheet(Sheet::Controls)) =~= seq![step]);
                        assert(line(column as int) == Some(seq![step]));
                        lemma_gather_next(column as nat, line);
                        assert(strip@ + seq![step] =~= strip@.push(step));
                    }
                    strip.push(step);
                },
                None => {
                    proof {
                        assert(line(column as int) is None);
                        lemma_gather_missing(columns as nat, line, column as int);
                        assert(lines(row as int) is None);
                        lemma_gather_missing(rows as nat, lines, row as int);
                    }
                    return None;
                },
            }
            column += 1;
        }
        proof {
            assert(lines(row as int) == Some(strip@));
            lemma_gather_next(row as nat, lines);
        }
        steps.append(&mut strip);
        row += 1;
    }
    Some(steps)
}

impl AppState {
    /// Plans the picture of the window on a canvas of the given size; `None`
    /// where the renderer cannot take one of the numbers.
    pub fn render(&self, theme: &Theme, canvas: PixelDimension) -> (steps: Option<Vec<DrawCommand>>)
        ensures
            seen(steps) == frame(self@, *theme, canvas),
    {
        let background = draw_tiled_background(canvas, theme.background_texture);
        let rows = row_headers(self, theme, &self.output_names());
        let columns = column_headers(self, theme, &self.input_names());
        let grid = buttons(self, theme);
        match (background, rows, columns, grid) {
            (Some(background), Some(mut rows), Some(mut columns), Some(mut grid)) => {
                let mut steps = tag(Sheet::Background, &background);
                steps.append(&mut rows);
                steps.append(&mut columns);
                steps.append(&mut grid);
                Some(steps)
            },
            _ => None,
        }
    }
}

} // verus!
