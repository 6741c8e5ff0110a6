//! The game as a whole: which of its states it is in, and what an event
//! turns that state into.

use crate::game_logic::{Board, BoardView};
use crate::grid::Grid;
use crate::input::{should_exit, should_menu, should_restart, Button, InputEvent, PointerKind};
use crate::menu::{
    handle_menu_event, main_menu_items, menu_after_key, process_menu_selection,
    selection_outcome, Menu,
};
use crate::timer::TimerView;
use crate::types::{default_config, GameState};
use vstd::prelude::*;

verus! {

/// The state that a game is in after a click that told the player
/// `signal`: a game that has ended is won or lost, any other goes on.
pub open spec fn state_after(signal: Option<GameState>) -> GameState {
    match signal {
        Some(state) => state,
        None => GameState::Ongoing,
    }
}

/// The board as it is shown when the game is over: with its mines
/// revealed.
pub open spec fn shown(board: BoardView) -> BoardView {
    BoardView { grid: board.grid.mines_shown(), ..board }
}

/// The board made ready for another game of the same size and number of
/// mines.
pub open spec fn cleared_for_restart(board: BoardView) -> BoardView {
    BoardView {
        grid: Grid::blank_of(board.grid.width, board.grid.height),
        mines_total: board.mines_total,
        mines_placed: false,
        timer: TimerView::idle(),
    }
}

/// What is on display in a state of the game.
#[derive(Clone, Copy, Debug, PartialEq, Eq)]
pub enum Screen {
    /// The menu.
    Menu,
    /// The board.
    Board,
    /// The board, and over it the banner of a game won or lost.
    BoardWithBanner { won: bool },
    /// Nothing: the program ends.
    Nothing,
}

/// What is on display in `state`.
pub open spec fn screen_of(state: GameState) -> Screen {
    match state {
        GameState::Menu => Screen::Menu,
        GameState::Ongoing => Screen::Board,
        GameState::Won => Screen::BoardWithBanner { won: true },
        GameState::Lost => Screen::BoardWithBanner { won: false },
        GameState::Exit => Screen::Nothing,
    }
}

/// A game: its state, the board and the menu on display.
pub struct Game {
    pub state: GameState,
    pub board: Board,
    pub menu: Menu,
}

impl Game {
    /// Board and menu keep their invariants.
    pub open spec fn wf(&self) -> bool {
        self.board.wf() && self.menu.wf()
    }

    /// `after` is this game after `event`, on a terminal of `cols` columns
    /// and `rows` rows.
    ///
    /// An event that asks to leave ends the game, whatever its state.
    /// Otherwise: in a menu, keys move and choose, and what was chosen takes
    /// effect; on a board, a click of the left button reveals and may end
    /// the game, a click of the right button toggles a flag; after the end
    /// the mines are shown, and the player may start again on the same
    /// board or go back to the main menu.
    pub open spec fn stepped(&self, event: InputEvent, cols: int, rows: int, after: &Game) -> bool {
        if event.asks_exit() {
            &&& after.state == GameState::Exit
            &&& after.board@ == self.board@
            &&& after.menu == self.menu
        } else {
            match self.state {
                GameState::Menu => exists|keyed: Menu| #[trigger]
                    menu_after_key(self.menu, event, keyed) && selection_outcome(
                        keyed,
                        self.board@,
                        self.state,
                        after.menu,
                        after.board@,
                        after.state,
                    ),
                GameState::Ongoing => after.menu == self.menu && match event {
                    InputEvent::Pointer { kind: PointerKind::Down(Button::Left), column, row } => {
                        exists|signal: Option<GameState>| #[trigger]
                            self.board@.left_clicked(
                                after.board@,
                                column as int,
                                row as int,
                                cols,
                                rows,
                                signal,
                            ) && after.state == state_after(signal)
                    },
                    InputEvent::Pointer { kind: PointerKind::Down(Button::Right), column, row } => {
                        &&& after.state == self.state
                        &&& after.board@ == self.board@.right_clicked(
                            column as int,
                            row as int,
                            cols,
                            rows,
                        )
                    },
                    _ => after.state == self.state && after.board@ == self.board@,
                },
                GameState::Won | GameState::Lost => if event.asks_restart() {
                    &&& after.state == GameState::Ongoing
                    &&& after.board@ == cleared_for_restart(self.board@)
                    &&& after.menu == self.menu
                } else if event.asks_menu() {
                    &&& after.state == GameState::Menu
                    &&& after.board@ == shown(self.board@)
                    &&& after.menu.is_new(main_menu_items())
                } else {
                    &&& after.state == self.state
                    &&& after.board@ == shown(self.board@)
                    &&& after.menu == self.menu
                },
                GameState::Exit => {
                    &&& after.state == self.state
                    &&& after.board@ == self.board@
                    &&& after.menu == self.menu
                },
            }
        }
    }

    /// A game as the program starts it: in the main menu, with a board of
    /// the default configuration behind it.
    pub fn new() -> (game: Game)
        ensures
            game.wf(),
            game.state == GameState::Menu,
            game.board@ == BoardView::fresh(default_config()),
            game.menu.is_new(main_menu_items()),
    {
        Game { state: GameState::Menu, board: Board::new(), menu: Menu::new_main_menu() }
    }

    /// What is to be drawn for the game as it is.
    pub fn screen(&self) -> (screen: Screen)
        ensures
            screen == screen_of(self.state),
    {
        match self.state {
            GameState::Menu => Screen::Menu,
            GameState::Ongoing => Screen::Board,
            GameState::Won => Screen::BoardWithBanner { won: true },
            GameState::Lost => Screen::BoardWithBanner { won: false },
            GameState::Exit => Screen::Nothing,
        }
    }

    /// Tells whether the display is to be drawn again when no event has
    /// come in for a while: on a board in play, where the clock runs.
    pub fn redraws_while_idle(&self) -> (redraws: bool)
        ensures
            redraws == (self.state == GameState::Ongoing),
    {
        match self.state {
            GameState::Ongoing => true,
            _ => false,
        }
    }

    /// Takes one event from the terminal, which has `cols` columns and
    /// `rows` rows, and moves the game on.
    pub fn handle_event(&mut self, event: &InputEvent, cols: u16, rows: u16)
        requires
            old(self).wf(),
        ensures
            final(self).wf(),
            old(self).stepped(*event, cols as int, rows as int, final(self)),
    {
        if should_exit(event) {
            self.state = GameState::Exit;
            return ;
        }
        match self.state {
            GameState::Menu => {
                handle_menu_event(event, &mut self.menu);
                let ghost keyed = self.menu;
                process_menu_selection(&mut self.menu, &mut self.board, &mut self.state);
                assert(menu_after_key(old(self).menu, *event, keyed));
            },
            GameState::Ongoing => {
                match event {
                    InputEvent::Pointer { kind: PointerKind::Down(Button::Left), column, row } => {
                        let signal = self.board.handle_mouse_left(*column, *row, cols, rows);
                        match signal {
                            Some(new_state) => {
                                self.state = new_state;
                            },
                            None => {},
                        }
                        assert(old(self).board@.left_clicked(
                            self.board@,
                            *column as int,
                            *row as int,
                            cols as int,
                            rows as int,
                            signal,
                        ));
                        assert(self.state == state_after(signal));
                    },
                    InputEvent::Pointer { kind: PointerKind::Down(Button::Right), column, row } => {
                        self.board.handle_mouse_right(*column, *row, cols, rows);
                    },
                    _ => {},
                }
            },
            GameState::Won | GameState::Lost => {
                self.board.reveal_all_mines();
                if should_restart(event) {
                    self.state = GameState::Ongoing;
                    self.board.reset();
                } else if should_menu(event) {
                    self.state = GameState::Menu;
                    self.menu = Menu::new_main_menu();
                }
            },
            GameState::Exit => {},
        }
    }
}

} // verus!
