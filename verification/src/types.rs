//! Shared value types and the limits on board sizes.

use vstd::prelude::*;

verus! {

/// Overall state of the game.
#[derive(Clone, Copy, Debug, PartialEq, Eq, Structural)]
pub enum GameState {
    /// A menu is shown.
    Menu,
    /// A board is being played.
    Ongoing,
    /// Every safe cell has been revealed.
    Won,
    /// A mine has been revealed.
    Lost,
    /// The program is about to end.
    Exit,
}

/// What the player sees of a cell.
#[derive(Clone, Copy, Debug, PartialEq, Eq, Structural)]
pub enum CellState {
    Hidden,
    Revealed,
    Flagged,
}

/// What a cell holds: a mine, or the number of mines around it.
#[derive(Clone, Copy, Debug, PartialEq, Eq, Structural)]
pub enum CellKind {
    Mine,
    Number(u8),
}

/// One cell of the board.
#[derive(Clone, Copy, Debug, PartialEq, Eq, Structural)]
pub struct CellBox {
    /// The kind of cell (mine or number).
    pub kind: CellKind,
    /// The state of the cell (hidden, revealed, flagged).
    pub state: CellState,
}

/// Size and mine count of a board.
#[derive(Clone, Copy, Debug, PartialEq, Eq, Structural)]
pub struct GameConfig {
    pub width: usize,
    pub height: usize,
    pub mines: usize,
}

/// What an entry of a menu is for.
#[derive(Clone, Copy, Debug, PartialEq, Eq, Structural)]
pub enum MenuItemType {
    Beginnner,
    Intermediate,
    Expert,
    Custom,
    Exit,
    Width,
    Height,
    Mines,
    Confirm,
}

/// An entry of a menu.
#[derive(Clone, Copy, Debug, PartialEq, Eq)]
pub enum MenuItem {
    /// An entry to choose: a preset with its configuration, or a command.
    Main { item_type: MenuItemType, name: &'static str, config: Option<GameConfig> },
    /// An entry to adjust: a value of the custom configuration.
    Custom { item_type: MenuItemType, name: &'static str, value: usize },
}

/// A colour of the terminal.
#[derive(Clone, Copy, Debug, PartialEq, Eq)]
pub enum Color {
    Black,
    DarkGrey,
    Red,
    DarkRed,
    Green,
    Blue,
    Magenta,
    DarkYellow,
    Yellow,
    Cyan,
    White,
    Grey,
}

/// Color configuration for the terminal UI.
#[derive(Clone, Copy, Debug, PartialEq, Eq)]
pub struct ColorConfig {
    pub background: Color,
    pub hidden_cell: Color,
    pub flagged_cell: Color,
    pub mine: Color,
    pub empty_cell: Color,
    /// The colours of the numbers 1 to 8.
    pub number: [Color; 8],
    pub border: Color,
    pub counter: Color,
}

/// The colours that the game is drawn in.
pub open spec fn spec_color_config() -> ColorConfig {
    ColorConfig {
        background: Color::White,
        hidden_cell: Color::DarkGrey,
        flagged_cell: Color::DarkRed,
        mine: Color::Black,
        empty_cell: Color::Black,
        number: [
            Color::Blue,
            Color::Green,
            Color::Red,
            Color::Magenta,
            Color::DarkYellow,
            Color::Cyan,
            Color::White,
            Color::Grey,
        ],
        border: Color::Black,
        counter: Color::Blue,
    }
}

/// The colours that the game is drawn in.
pub fn color_config() -> (config: ColorConfig)
    ensures
        config == spec_color_config(),
{
    ColorConfig {
        background: Color::White,
        hidden_cell: Color::DarkGrey,
        flagged_cell: Color::DarkRed,
        mine: Color::Black,
        empty_cell: Color::Black,
        number: [
            Color::Blue,
            Color::Green,
            Color::Red,
            Color::Magenta,
            Color::DarkYellow,
            Color::Cyan,
            Color::White,
            Color::Grey,
        ],
        border: Color::Black,
        counter: Color::Blue,
    }
}

/// Minimum allowed board width.
pub const MIN_WIDTH: usize = 5;
/// Maximum allowed board width.
pub const MAX_WIDTH: usize = 50;
/// Minimum allowed board height.
pub const MIN_HEIGHT: usize = 5;
/// Maximum allowed board height.
pub const MAX_HEIGHT: usize = 50;
/// Minimum allowed number of mines.
pub const MIN_MINES: usize = 1;

/// Configuration of the board that exists before any menu choice.
pub open spec fn spec_default_config() -> GameConfig {
    GameConfig { width: 20, height: 20, mines: 25 }
}

/// Configuration of the board that exists before any menu choice.
#[verifier::when_used_as_spec(spec_default_config)]
pub fn default_config() -> (config: GameConfig)
    ensures
        config == spec_default_config(),
{
    GameConfig { width: 20, height: 20, mines: 25 }
}

impl GameConfig {
    /// A board can be built from the configuration: at least one cell is
    /// left without a mine, and the cells can be counted in an `isize`.
    pub open spec fn playable(self) -> bool {
        self.mines < self.width * self.height <= isize::MAX
    }

    /// Tells whether a board can be built from the configuration.
    pub fn is_playable(&self) -> (playable: bool)
        ensures
            playable == self.playable(),
    {
        match self.width.checked_mul(self.height) {
            Some(cells) => self.mines < cells && cells <= isize::MAX as usize,
            None => false,
        }
    }

    /// The configuration keeps the limits on width, height and mines.
    pub open spec fn within_limits(self) -> bool {
        &&& MIN_WIDTH <= self.width <= MAX_WIDTH
        &&& MIN_HEIGHT <= self.height <= MAX_HEIGHT
        &&& MIN_MINES <= self.mines < self.width * self.height
    }
}

} // verus!
