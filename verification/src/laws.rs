//! What follows from the rules of the game: laws that hold of every grid,
//! proved from the definitions that the contracts of the board use.

use crate::game_logic::{clamped_config, BoardView};
use crate::grid::{
    flag_toggled, lemma_count_state_update, lemma_index_of_position, lemma_position_of_index,
    lemma_same_flags_counted, lemma_with_cell, revealed, Grid,
};
use crate::clicks::{
    lemma_chord_keeps_flags, lemma_flood_keeps_flags, lemma_flood_of_mine, lemma_flood_origin,
};
use crate::mines::{is_shuffle, lemma_picks_distinct, mine_pick, mine_places};
use crate::types::{
    CellKind, CellState, GameConfig, GameState, MAX_HEIGHT, MAX_WIDTH, MIN_HEIGHT, MIN_MINES,
    MIN_WIDTH,
};
use vstd::prelude::*;

verus! {

/// Whatever the order of the cells, no mine is laid on the place to avoid,
/// and every mine is laid inside the grid.
pub proof fn lemma_mines_keep_off(order: Seq<usize>, cells: nat, mines: nat, avoid: int)
    requires
        is_shuffle(order, cells),
        mines < cells,
    ensures
        !mine_places(order, mines, avoid).contains(avoid),
        forall|p: int| #[trigger] mine_places(order, mines, avoid).contains(p) ==> 0 <= p < cells,
{
    let places = mine_places(order, mines, avoid);
    assert forall|p: int| #[trigger] places.contains(p) implies 0 <= p < cells && p != avoid by {
        let i = choose|i: int| 0 <= i < mines && #[trigger] mine_pick(order, mines, avoid, i) == p;
        lemma_picks_distinct(order, cells, mines, avoid, i, i);
    }
}

/// A wish for a board brought within the limits keeps them, and a board
/// can be built from it; a wish that keeps them already is left as it is.
pub proof fn lemma_clamped_config(width: usize, height: usize, mines: usize)
    ensures
        clamped_config(width, height, mines).within_limits(),
        clamped_config(width, height, mines).playable(),
        MIN_WIDTH <= width <= MAX_WIDTH && MIN_HEIGHT <= height <= MAX_HEIGHT && MIN_MINES <= mines
            < width * height ==> clamped_config(width, height, mines) == (GameConfig {
            width,
            height,
            mines,
        }),
{
    let config = clamped_config(width, height, mines);
    assert(25 <= config.width * config.height <= 2500) by (nonlinear_arith)
        requires
            5 <= config.width <= 50,
            5 <= config.height <= 50,
    ;
}

/// Laying mines at given places has one outcome: two grids that both are a
/// grid `g` with mines laid at `places` are the same.
pub proof fn lemma_mined_is_unique(g: Grid, places: Set<int>, a: Grid, b: Grid)
    requires
        g.wf(),
        g.mined(a, places),
        g.mined(b, places),
    ensures
        a == b,
{
    assert forall|x: int, y: int| #[trigger] a.mine_weight(x, y) == b.mine_weight(x, y) by {
        if g.contains(x, y) {
            lemma_index_of_position(g, x, y);
            let i = g.index(x, y);
            assert(a.cells[i].kind == CellKind::Mine <==> places.contains(i));
            assert(b.cells[i].kind == CellKind::Mine <==> places.contains(i));
        }
    }
    assert forall|i: int| 0 <= i < a.cells.len() implies a.cells[i] == b.cells[i] by {
        lemma_position_of_index(g, i);
        let x = g.col(i);
        let y = g.row(i);
        assert(a.cells[i].state == g.cells[i].state);
        assert(b.cells[i].state == g.cells[i].state);
        assert(a.cells[i].kind == CellKind::Mine <==> places.contains(i));
        assert(b.cells[i].kind == CellKind::Mine <==> places.contains(i));
        assert(a.cell(x, y) == a.cells[i]);
        assert(b.cell(x, y) == b.cells[i]);
    }
    assert(a.cells =~= b.cells);
}

/// The game is won exactly when no cell without a mine is still hidden or
/// bears a flag.
pub proof fn lemma_cleared_means_none_left(g: Grid)
    ensures
        g.cleared() <==> forall|i: int|
            0 <= i < g.cells.len() && (#[trigger] g.cells[i]).kind != CellKind::Mine
                ==> g.cells[i].state != CellState::Hidden && g.cells[i].state
                != CellState::Flagged,
{
    if g.cleared() {
        assert forall|i: int|
            0 <= i < g.cells.len() && (#[trigger] g.cells[i]).kind
                != CellKind::Mine implies g.cells[i].state != CellState::Hidden
            && g.cells[i].state != CellState::Flagged by {}
    }
}

/// A click on a revealed cell that is a mine or shows zero changes nothing
/// and tells the player nothing.
pub proof fn lemma_click_on_revealed(g: Grid, x: int, y: int)
    requires
        g.contains(x, y),
        g.cell(x, y).state == CellState::Revealed,
        !g.chords_at(x, y),
    ensures
        g.clicked(x, y) == g,
        g.click_signal(x, y).is_none(),
{
}

/// Once a click has revealed a hidden cell that is a mine or shows zero,
/// a second click at the same position changes nothing and tells the player
/// nothing.
pub proof fn lemma_second_click(g: Grid, x: int, y: int)
    requires
        g.wf(),
        g.hidden_at(x, y),
        !g.chords_at(x, y),
    ensures
        g.clicked(x, y).cell(x, y).state == CellState::Revealed,
        g.clicked(x, y).clicked(x, y) == g.clicked(x, y),
        g.clicked(x, y).click_signal(x, y).is_none(),
{
    lemma_flood_origin(g, x, y);
    lemma_index_of_position(g, x, y);
}

/// A click on a revealed number has the same cells to show the second time
/// as the first: the grid after two such clicks is the grid after one.
pub proof fn lemma_second_chord(g: Grid, x: int, y: int)
    requires
        g.wf(),
    ensures
        g.chord_revealed(x, y).chord_revealed(x, y) == g.chord_revealed(x, y),
{
    let once = g.chord_revealed(x, y);
    assert(once.chord_revealed(x, y).cells =~= once.cells);
}

/// A click on a hidden mine loses the game, reveals that mine, and leaves
/// every other cell as it was.
pub proof fn lemma_click_on_mine(g: Grid, x: int, y: int)
    requires
        g.wf(),
        g.hidden_at(x, y),
        g.mine_at(x, y),
    ensures
        g.click_signal(x, y) == Some(GameState::Lost),
        g.clicked(x, y) == g.with_cell(x, y, revealed(g.cell(x, y))),
        forall|x2: int, y2: int|
            g.contains(x2, y2) && !(x2 == x && y2 == y) ==> #[trigger] g.clicked(x, y).cell(
                x2,
                y2,
            ) == g.cell(x2, y2),
{
    lemma_flood_of_mine(g, x, y);
    lemma_with_cell(g, x, y, revealed(g.cell(x, y)));
}

/// Toggling the flag of a cell twice leaves the grid as it was: a hidden
/// cell with a flag put on and taken off again is hidden.
pub proof fn lemma_toggle_round_trip(g: Grid, x: int, y: int)
    requires
        g.wf(),
    ensures
        g.toggled(x, y).toggled(x, y) == g,
        g.hidden_at(x, y) ==> g.toggled(x, y).cell(x, y).state == CellState::Flagged,
{
    if g.contains(x, y) {
        lemma_index_of_position(g, x, y);
        assert(g.toggled(x, y).toggled(x, y).cells =~= g.cells);
    }
}

/// A flag put on a hidden cell lowers the number of mines that remain to
/// be marked by exactly one; a flag taken off raises it by one; a revealed
/// cell takes no flag, so toggling it changes nothing.
pub proof fn lemma_flag_changes_remaining(board: BoardView, x: int, y: int)
    requires
        board.grid.wf(),
        board.grid.contains(x, y),
    ensures
        ({
            let after = BoardView { grid: board.grid.toggled(x, y), ..board };
            match board.grid.cell(x, y).state {
                CellState::Hidden => after.remaining_mines() == board.remaining_mines() - 1,
                CellState::Flagged => after.remaining_mines() == board.remaining_mines() + 1,
                CellState::Revealed => after.remaining_mines() == board.remaining_mines(),
            }
        }),
{
    let g = board.grid;
    lemma_index_of_position(g, x, y);
    lemma_count_state_update(
        g.cells,
        g.index(x, y),
        flag_toggled(g.cell(x, y)),
        CellState::Flagged,
    );
}

/// A reveal that spreads from any position leaves the number of mines
/// that remain to be marked as it was: it reveals hidden cells only.
pub proof fn lemma_flood_keeps_remaining(board: BoardView, x: int, y: int)
    requires
        board.grid.wf(),
    ensures
        (BoardView { grid: board.grid.flood_revealed(x, y), ..board }).remaining_mines()
            == board.remaining_mines(),
{
    lemma_flood_keeps_flags(board.grid, x, y);
}

/// Revealing the cells around any position that bear no flag leaves the
/// number of mines that remain to be marked as it was.
pub proof fn lemma_chord_keeps_remaining(board: BoardView, x: int, y: int)
    ensures
        (BoardView { grid: board.grid.chord_revealed(x, y), ..board }).remaining_mines()
            == board.remaining_mines(),
{
    lemma_chord_keeps_flags(board.grid, x, y);
}

/// A click, wherever it falls, leaves the number of mines that remain to
/// be marked as it was.
pub proof fn lemma_click_keeps_remaining(board: BoardView, x: int, y: int)
    requires
        board.grid.wf(),
    ensures
        (BoardView { grid: board.grid.clicked(x, y), ..board }).remaining_mines()
            == board.remaining_mines(),
{
    lemma_flood_keeps_remaining(board, x, y);
    lemma_chord_keeps_remaining(board, x, y);
}

/// Showing the mines at the end of a game leaves the number of mines that
/// remain to be marked as it was, where no mine bears a flag. A mine that
/// bears a flag loses it when it is shown, so each such mine raises the
/// number by one.
pub proof fn lemma_mines_shown_keeps_remaining(board: BoardView)
    requires
        forall|i: int|
            0 <= i < board.grid.cells.len() && (#[trigger] board.grid.cells[i]).kind
                == CellKind::Mine ==> board.grid.cells[i].state != CellState::Flagged,
    ensures
        (BoardView { grid: board.grid.mines_shown(), ..board }).remaining_mines()
            == board.remaining_mines(),
{
    let g = board.grid;
    let after = g.mines_shown();
    assert forall|i: int| 0 <= i < g.cells.len()
        implies ((#[trigger] g.cells[i]).state == CellState::Flagged
        <==> after.cells[i].state == CellState::Flagged) by {}
    lemma_same_flags_counted(g.cells, after.cells);
}

} // verus!
