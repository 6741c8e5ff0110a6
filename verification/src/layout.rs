//! What is drawn where: the symbol and colour of a cell, and the places of
//! the board, the banners and the menu on a terminal of a given size. The
//! drawing itself is done elsewhere.

use crate::game_logic::centered;
use crate::types::{CellBox, CellKind, CellState, Color, ColorConfig};
use vstd::prelude::*;

verus! {

/// What is drawn for a cell.
#[derive(Clone, Copy, Debug, PartialEq, Eq)]
pub enum Glyph {
    /// A cell not yet revealed.
    Hidden,
    /// A flag.
    Flag,
    /// A revealed mine.
    Mine,
    /// A revealed cell with no mine around it.
    Empty,
    /// A revealed cell with that many mines around it.
    Digit(u8),
}

/// What is drawn for `cell`.
pub open spec fn glyph_of(cell: CellBox) -> Glyph {
    match cell.state {
        CellState::Hidden => Glyph::Hidden,
        CellState::Flagged => Glyph::Flag,
        CellState::Revealed => match cell.kind {
            CellKind::Mine => Glyph::Mine,
            CellKind::Number(n) => if n == 0 {
                Glyph::Empty
            } else {
                Glyph::Digit(n)
            },
        },
    }
}

/// Which of the eight colours for numbers the number `n` is drawn in: the
/// first for 0 and 1, the last for 8 and above.
pub open spec fn number_slot(n: u8) -> int {
    if n <= 1 {
        0
    } else if n >= 8 {
        7
    } else {
        n - 1
    }
}

/// The colour that `glyph` is drawn in.
pub open spec fn color_of(glyph: Glyph, config: ColorConfig) -> Color {
    match glyph {
        Glyph::Hidden => config.hidden_cell,
        Glyph::Flag => config.flagged_cell,
        Glyph::Mine => config.mine,
        Glyph::Empty => config.empty_cell,
        Glyph::Digit(n) => config.number@[number_slot(n)],
    }
}

/// What is drawn for `cell`.
pub fn cell_glyph(cell: &CellBox) -> (glyph: Glyph)
    ensures
        glyph == glyph_of(*cell),
{
    match cell.state {
        CellState::Hidden => Glyph::Hidden,
        CellState::Flagged => Glyph::Flag,
        CellState::Revealed => match cell.kind {
            CellKind::Mine => Glyph::Mine,
            CellKind::Number(n) => if n == 0 {
                Glyph::Empty
            } else {
                Glyph::Digit(n)
            },
        },
    }
}

/// The colour that `glyph` is drawn in.
pub fn glyph_color(glyph: Glyph, config: &ColorConfig) -> (color: Color)
    ensures
        color == color_of(glyph, *config),
{
    match glyph {
        Glyph::Hidden => config.hidden_cell,
        Glyph::Flag => config.flagged_cell,
        Glyph::Mine => config.mine,
        Glyph::Empty => config.empty_cell,
        Glyph::Digit(n) => {
            let below: usize = (n as usize).saturating_sub(1);
            let slot: usize = if below < 7 {
                below
            } else {
                7
            };
            config.number[slot]
        },
    }
}

/// The column or row at which something that takes `need` starts when it
/// is centred in `space`; 0 when it does not fit.
pub fn centered_start(space: u16, need: usize) -> (start: u16)
    ensures
        start == centered(space as int, need as int),
{
    if space as usize >= need {
        ((space as usize - need) / 2) as u16
    } else {
        0
    }
}

/// The row at which a banner of `art_height` rows starts: three rows above
/// a board that leaves room for it, if the terminal has that many rows
/// above the banner; else centred in the terminal.
pub open spec fn banner_row(board_start_y: int, art_height: int, rows: int) -> int {
    if board_start_y > art_height {
        if board_start_y - art_height >= 3 {
            board_start_y - art_height - 3
        } else {
            0
        }
    } else {
        centered(rows, art_height)
    }
}

/// The row at which a banner of `art_height` rows starts over a board that
/// starts at row `board_start_y`, on a terminal of `rows` rows.
pub fn overlay_row(board_start_y: u16, art_height: u16, rows: u16) -> (row: u16)
    ensures
        row == banner_row(board_start_y as int, art_height as int, rows as int),
{
    if board_start_y > art_height {
        (board_start_y - art_height).saturating_sub(3)
    } else {
        centered_start(rows, art_height as usize)
    }
}

/// The row at which the title above a menu of `entries` entries starts:
/// title, one empty row, the entries and one more row are centred together.
pub fn menu_title_row(rows: u16, art_height: u16, entries: usize) -> (row: u16)
    ensures
        row == centered(rows as int, art_height + entries + 2),
{
    if entries > usize::MAX - 2 - art_height as usize {
        0
    } else {
        centered_start(rows, art_height as usize + entries + 2)
    }
}

} // verus!
