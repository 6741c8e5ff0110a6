//! The board: its cells, the laying of mines, and what a click does.

use crate::grid::{
    around, changed_around, count_state, lemma_around, lemma_blank_is_consistent,
    lemma_change_start, lemma_change_step, lemma_count_state_bound, lemma_count_state_update,
    lemma_index_of_position, lemma_mines_around_bound, lemma_position_of_index,
    lemma_same_flags_counted, lemma_same_layout, lemma_sides_fit, lemma_with_cell, revealed,
    Grid,
};
use crate::mines::{
    bumped, is_shuffle, laid_places, lemma_mine_laid, lemma_picks_distinct, mine_pick,
    mine_places, raised_around,
};
use crate::clicks::{
    chord_opened, flood_progress, lemma_chord_done, lemma_chord_hit, lemma_chord_keeps_flags,
    lemma_click_keeps_layout, lemma_flood_done, lemma_flood_keeps_flags,
    lemma_flood_keeps_layout, lemma_flood_of_mine, lemma_flood_skip, lemma_flood_start,
    lemma_flood_visit, lemma_reached_mine_is_origin,
};
use crate::shuffle::shuffled_places;
use crate::timer::{timer_halted, timer_started, Timer, TimerView};
use crate::types::{
    default_config, CellBox, CellKind, CellState, GameConfig, GameState, MAX_HEIGHT, MAX_WIDTH,
    MIN_HEIGHT, MIN_MINES, MIN_WIDTH,
};
use vstd::prelude::*;

verus! {

/// What a board stands for.
pub struct BoardView {
    /// The cells.
    pub grid: Grid,
    /// The number of mines that the board is played with.
    pub mines_total: nat,
    /// Whether the mines have been laid.
    pub mines_placed: bool,
    /// The stopwatch.
    pub timer: TimerView,
}

/// A Minesweeper board.
pub struct Board {
    grid: Vec<CellBox>,
    pub width: usize,
    pub height: usize,
    pub timer: Timer,
    mines_placed: bool,
    mines_to_place: usize,
}

impl View for Board {
    type V = BoardView;

    closed spec fn view(&self) -> BoardView {
        BoardView {
            grid: Grid {
                width: self.width as nat,
                height: self.height as nat,
                cells: self.grid@,
            },
            mines_total: self.mines_to_place as nat,
            mines_placed: self.mines_placed,
            timer: self.timer@,
        }
    }
}

impl BoardView {
    /// The invariant of a board: one cell for each position, at least one
    /// of them without a mine, and every number right for the mines that
    /// have been laid.
    pub open spec fn wf(self) -> bool {
        &&& self.shaped()
        &&& self.grid.counts_consistent()
        &&& !self.mines_placed ==> self.grid.blank()
        &&& self.mines_placed ==> self.grid.mine_count() == self.mines_total
    }

    /// The board has one cell for each position, their number fits an
    /// `isize`, and it is played with fewer mines than it has cells.
    pub open spec fn shaped(self) -> bool {
        &&& self.grid.wf()
        &&& self.mines_total < self.grid.width * self.grid.height <= isize::MAX
    }

    /// What is true of the form of this board is true of `after`: its
    /// shape, the rightness of its numbers, and its invariant.
    pub open spec fn keeps_form(self, after: BoardView) -> bool {
        &&& self.shaped() ==> after.shaped()
        &&& self.shaped() && self.grid.counts_consistent() ==> after.grid.counts_consistent()
        &&& self.wf() ==> after.wf()
    }

    /// `after` is this board after a move that left the grid `grid` and
    /// told the player `signal`: the mines are as they were, as many remain
    /// to be marked, and the stopwatch has been halted if the game ended.
    pub open spec fn played(self, after: BoardView, grid: Grid, signal: Option<GameState>) -> bool {
        &&& after.grid == grid
        &&& after.mines_total == self.mines_total
        &&& after.mines_placed == self.mines_placed
        &&& after.remaining_mines() == self.remaining_mines()
        &&& signal.is_some() ==> timer_halted(self.timer, after.timer)
        &&& signal.is_none() ==> after.timer == self.timer
    }

    /// `after` is this board after a click at `(x, y)` that told the player
    /// `signal`.
    ///
    /// Off the board a click does nothing. On a board with its mines laid,
    /// the cells change as `Grid::clicked` says. On a board without them the
    /// mines are laid first, in some order of the cells that keeps them off
    /// `(x, y)`, and the stopwatch is started.
    pub open spec fn clicked_at(
        self,
        after: BoardView,
        x: int,
        y: int,
        signal: Option<GameState>,
    ) -> bool {
        &&& after.mines_total == self.mines_total
        &&& after.remaining_mines() == self.remaining_mines()
        &&& !self.grid.contains(x, y) ==> after == self && signal.is_none()
        &&& self.grid.contains(x, y) ==> after.mines_placed
        &&& self.mines_placed ==> self.played(after, self.grid.clicked(x, y), signal) && signal
            == self.grid.click_signal(x, y)
        &&& self.grid.contains(x, y) && !self.mines_placed ==> {
            &&& !after.grid.mine_at(x, y)
            &&& self.grid.cell(x, y).state != CellState::Revealed ==> signal != Some(
                GameState::Lost,
            )
            &&& exists|order: Seq<usize>, laid: Grid|
                {
                    &&& is_shuffle(order, self.grid.cells.len())
                    &&& #[trigger] self.grid.mined(
                        laid,
                        mine_places(order, self.mines_total, self.grid.place_of(x, y)),
                    )
                    &&& after.grid == laid.clicked(x, y)
                    &&& signal == laid.click_signal(x, y)
                }
            &&& exists|running: TimerView| #[trigger]
                timer_started(self.timer, running) && if signal.is_some() {
                    timer_halted(running, after.timer)
                } else {
                    after.timer == running
                }
        }
    }

    /// Where the drawing of the board starts on a terminal of `cols`
    /// columns and `rows` rows: the board takes two columns for each cell
    /// and one more on either side, and is centred.
    pub open spec fn start_pos(self, cols: int, rows: int) -> (int, int) {
        (centered(cols, 2 * (self.grid.width as int) + 2), centered(rows, self.grid.height as int))
    }

    /// The position that a click at a column and row of the terminal falls
    /// on: past the border and one column of padding, two columns to a cell.
    /// What falls left of or above the board counts as its first column or
    /// row.
    pub open spec fn click_position(self, column: int, row: int, cols: int, rows: int) -> (
        int,
        int,
    ) {
        let (start_x, start_y) = self.start_pos(cols, rows);
        let dx = column - start_x - 2;
        let dy = row - start_y - 1;
        (
            if dx < 0 {
                0
            } else {
                dx / 2
            },
            if dy < 0 {
                0
            } else {
                dy
            },
        )
    }

    /// A terminal of `cols` columns and `rows` rows has room for the board
    /// with its border.
    pub open spec fn fits(self, cols: int, rows: int) -> bool {
        cols >= 2 + 2 * self.grid.width && rows >= 2 + self.grid.height
    }

    /// The centred board starts on the terminal: half of what the terminal
    /// has more than the board takes, rounded towards zero, is no negative
    /// number of columns or rows.
    pub open spec fn starts_on(self, cols: int, rows: int) -> bool {
        cols + 1 >= 2 * self.grid.width + 2 && rows + 1 >= self.grid.height
    }

    /// The cell that a click at a column and row of the terminal falls on:
    /// the position that the click falls on, if it lies on the board. There
    /// is none where the click falls right of or below the board, nor on a
    /// terminal so small that the centred board would start left of it or
    /// above it.
    pub open spec fn clicked_cell(self, column: int, row: int, cols: int, rows: int) -> Option<
        (int, int),
    > {
        let (x, y) = self.click_position(column, row, cols, rows);
        if self.starts_on(cols, rows) && self.grid.contains(x, y) {
            Some((x, y))
        } else {
            None
        }
    }

    /// `after` is this board after a click of the left button at a column
    /// and row of the terminal that told the player `signal`: a click on
    /// the cell that it falls on, and nothing where it falls on none.
    pub open spec fn left_clicked(
        self,
        after: BoardView,
        column: int,
        row: int,
        cols: int,
        rows: int,
        signal: Option<GameState>,
    ) -> bool {
        match self.clicked_cell(column, row, cols, rows) {
            Some((x, y)) => self.clicked_at(after, x, y, signal),
            None => after == self && signal.is_none(),
        }
    }

    /// The board after a click of the right button at a column and row of
    /// the terminal: the flag of the cell that it falls on is toggled.
    pub open spec fn right_clicked(self, column: int, row: int, cols: int, rows: int) -> BoardView {
        match self.clicked_cell(column, row, cols, rows) {
            Some((x, y)) => BoardView { grid: self.grid.toggled(x, y), ..self },
            None => self,
        }
    }

    /// The number of mines less the number of flags: how many mines the
    /// player has yet to mark.
    pub open spec fn remaining_mines(self) -> int {
        self.mines_total - self.grid.flag_count()
    }

    /// A board for `config` on which nothing has happened yet.
    pub open spec fn fresh(config: GameConfig) -> BoardView {
        BoardView {
            grid: Grid::blank_of(config.width as nat, config.height as nat),
            mines_total: config.mines as nat,
            mines_placed: false,
            timer: TimerView::idle(),
        }
    }
}

impl Board {
    /// The board keeps its invariant.
    pub open spec fn wf(&self) -> bool {
        self@.wf()
    }

    /// The stopwatch of the board.
    pub fn timer(&self) -> (timer: &Timer)
        ensures
            timer@ == self@.timer,
    {
        &self.timer
    }

    /// Creates a board for the default configuration.
    pub fn new() -> (board: Board)
        ensures
            board.wf(),
            board@ == BoardView::fresh(default_config()),
    {
        Board::new_with_config(default_config())
    }

    /// Creates a board for `config`: every cell hidden, no mine laid, the
    /// stopwatch at zero.
    pub fn new_with_config(config: GameConfig) -> (board: Board)
        requires
            config.playable(),
        ensures
            board.wf(),
            board@ == BoardView::fresh(config),
    {
        let grid = vec![
            CellBox { kind: CellKind::Number(0), state: CellState::Hidden };
            config.width * config.height
        ];
        let board = Board {
            grid,
            width: config.width,
            height: config.height,
            timer: Timer::new(),
            mines_to_place: config.mines,
            mines_placed: false,
        };
        proof {
            assert(board@.grid.cells =~= BoardView::fresh(config).grid.cells);
            lemma_blank_is_consistent(board@.grid);
        }
        board
    }

    /// Width and height of the board, in cells.
    pub fn size(&self) -> (size: (usize, usize))
        ensures
            size.0 == self@.grid.width,
            size.1 == self@.grid.height,
    {
        (self.width, self.height)
    }

    /// Where the cell at `(x, y)` is stored, if the position is on the board.
    fn cell_index(&self, x: isize, y: isize) -> (found: Option<usize>)
        requires
            self@.shaped(),
        ensures
            match found {
                Some(i) => self@.grid.contains(x as int, y as int) && i == self@.grid.index(
                    x as int,
                    y as int,
                ) && i < self@.grid.cells.len(),
                None => !self@.grid.contains(x as int, y as int),
            },
    {
        proof {
            lemma_sides_fit(self@.grid);
        }
        if x >= 0 && x < self.width as isize && y >= 0 && y < self.height as isize {
            proof {
                lemma_index_of_position(self@.grid, x as int, y as int);
            }
            let index: isize = y * self.width as isize + x;
            Some(index as usize)
        } else {
            None
        }
    }

    /// The cell at `(x, y)`, if the position is on the board.
    pub fn get_cell(&self, x: isize, y: isize) -> (found: Option<&CellBox>)
        requires
            self@.shaped(),
        ensures
            match found {
                Some(c) => self@.grid.contains(x as int, y as int) && *c == self@.grid.cell(
                    x as int,
                    y as int,
                ),
                None => !self@.grid.contains(x as int, y as int),
            },
    {
        match self.cell_index(x, y) {
            Some(i) => Some(&self.grid[i]),
            None => None,
        }
    }

    /// Tells whether the game is won: every cell that is no mine has been
    /// revealed. A won game stops the stopwatch.
    pub fn check_win_condition(&mut self) -> (signal: Option<GameState>)
        ensures
            final(self)@.grid == old(self)@.grid,
            final(self)@.mines_total == old(self)@.mines_total,
            final(self)@.mines_placed == old(self)@.mines_placed,
            old(self)@.grid.cleared() ==> signal == Some(GameState::Won) && timer_halted(
                old(self)@.timer,
                final(self)@.timer,
            ),
            !old(self)@.grid.cleared() ==> signal.is_none()
                && final(self)@.timer == old(self)@.timer,
    {
        let n: usize = self.grid.len();
        let mut i: usize = 0;
        while i < n
            invariant
                i <= n,
                n == self.grid@.len(),
                *self == *old(self),
                forall|k: int|
                    0 <= k < i ==> (#[trigger] self.grid@[k]).kind != CellKind::Mine
                        ==> self.grid@[k].state == CellState::Revealed,
            decreases n - i,
        {
            let cell = self.grid[i];
            if cell.kind != CellKind::Mine && cell.state != CellState::Revealed {
                return None;
            }
            i += 1;
        }
        self.timer.stop();
        Some(GameState::Won)
    }

    /// Lays a mine on the cell stored at `idx`, which holds none, and raises
    /// the number of every cell around it that is no mine.
    fn lay_mine(&mut self, idx: usize)
        requires
            old(self)@.shaped(),
            old(self)@.grid.counts_consistent(),
            idx < old(self)@.grid.cells.len(),
            old(self)@.grid.cells[idx as int].kind != CellKind::Mine,
        ensures
            final(self)@.shaped(),
            final(self)@.mines_total == old(self)@.mines_total,
            final(self)@.mines_placed == old(self)@.mines_placed,
            final(self)@.timer == old(self)@.timer,
            final(self)@.grid.width == old(self)@.grid.width,
            final(self)@.grid.height == old(self)@.grid.height,
            final(self)@.grid.cells.len() == old(self)@.grid.cells.len(),
            final(self)@.grid.counts_consistent(),
            forall|i: int|
                0 <= i < old(self)@.grid.cells.len()
                    ==> (#[trigger] final(self)@.grid.cells[i]).state
                    == old(self)@.grid.cells[i].state,
            forall|i: int|
                0 <= i < old(self)@.grid.cells.len()
                    ==> ((#[trigger] final(self)@.grid.cells[i]).kind == CellKind::Mine
                    <==> (old(self)@.grid.cells[i].kind == CellKind::Mine || i == idx)),
            final(self)@.grid.mine_count() == old(self)@.grid.mine_count() + 1,
    {
        let ghost g0 = self@.grid;
        proof {
            lemma_position_of_index(g0, idx as int);
            lemma_sides_fit(g0);
        }
        let x: isize = (idx % self.width) as isize;
        let y: isize = (idx / self.width) as isize;
        let state = self.grid[idx].state;
        self.grid[idx] = CellBox { kind: CellKind::Mine, state };
        let ghost g1 = self@.grid;
        proof {
            assert(g1 == g0.with_cell(x as int, y as int, CellBox { kind: CellKind::Mine, state }));
            lemma_with_cell(g0, x as int, y as int, CellBox { kind: CellKind::Mine, state });
            lemma_change_start(g1, x as int, y as int, |c: CellBox| bumped(c));
        }
        let mut k: usize = 0;
        while k < 8
            invariant
                k <= 8,
                0 <= x < isize::MAX,
                0 <= y < isize::MAX,
                g0.wf(),
                g0.counts_consistent(),
                g0.contains(x as int, y as int),
                g1 == g0.with_cell(x as int, y as int, CellBox { kind: CellKind::Mine, state }),
                g1.wf(),
                self@.shaped(),
                self@.mines_total == old(self)@.mines_total,
                self@.mines_placed == old(self)@.mines_placed,
                self@.timer == old(self)@.timer,
                raised_around(g1, self@.grid, x as int, y as int, k as int),
            decreases 8 - k,
        {
            let ghost cur = self@.grid;
            let (nx, ny) = neighbor(x, y, k);
            proof {
                lemma_change_step(g1, cur, x as int, y as int, k as int, |c: CellBox| bumped(c));
                lemma_around(x as int, y as int);
                assert(around(x as int, y as int).contains((nx as int, ny as int)));
            }
            match self.cell_index(nx, ny) {
                Some(j) => {
                    let cell = self.grid[j];
                    proof {
                        lemma_with_cell(
                            g0,
                            x as int,
                            y as int,
                            CellBox { kind: CellKind::Mine, state },
                        );
                        assert(cell == g0.cell(nx as int, ny as int));
                        lemma_mines_around_bound(g0, nx as int, ny as int);
                    }
                    match cell.kind {
                        CellKind::Number(n) => {
                            self.grid[j] = CellBox {
                                kind: CellKind::Number(n + 1),
                                state: cell.state,
                            };
                        },
                        CellKind::Mine => {},
                    }
                    assert(self@.grid.cells =~= cur.with_cell(
                        nx as int,
                        ny as int,
                        bumped(cell),
                    ).cells);
                },
                None => {},
            }
            k += 1;
        }
        proof {
            lemma_mine_laid(g0, self@.grid, x as int, y as int);
        }
    }

    /// Lays the mines of a board that has none yet, and starts the
    /// stopwatch.
    ///
    /// `order` lists the places of all cells in the order in which they are
    /// tried. The first cells of `order`, as many as the board has mines,
    /// get a mine each; should the cell at `(avoid_x, avoid_y)` be one of
    /// them, the cell that follows them in `order` gets its mine. Every
    /// other cell then shows the number of mines around it.
    pub fn place_mines(&mut self, order: &Vec<usize>, avoid_x: isize, avoid_y: isize)
        requires
            old(self).wf(),
            !old(self)@.mines_placed,
            is_shuffle(order@, old(self)@.grid.cells.len()),
        ensures
            final(self).wf(),
            final(self)@.mines_placed,
            final(self)@.mines_total == old(self)@.mines_total,
            timer_started(old(self)@.timer, final(self)@.timer),
            final(self)@.remaining_mines() == old(self)@.remaining_mines(),
            old(self)@.grid.mined(
                final(self)@.grid,
                mine_places(
                    order@,
                    old(self)@.mines_total,
                    old(self)@.grid.place_of(avoid_x as int, avoid_y as int),
                ),
            ),
            !final(self)@.grid.mine_at(avoid_x as int, avoid_y as int),
    {
        let ghost g0 = self@.grid;
        let ghost cells = g0.cells.len();
        let ghost avoid = g0.place_of(avoid_x as int, avoid_y as int);
        let mines: usize = self.mines_to_place;
        let skip: Option<usize> = self.cell_index(avoid_x, avoid_y);
        proof {
            lemma_blank_is_consistent(g0);
        }
        let mut i: usize = 0;
        while i < mines
            invariant
                i <= mines,
                mines == old(self)@.mines_total,
                mines < cells,
                cells == g0.cells.len(),
                g0 == old(self)@.grid,
                g0.wf(),
                self@.grid.cells.len() == cells,
                avoid == g0.place_of(avoid_x as int, avoid_y as int),
                match skip {
                    Some(a) => a == avoid,
                    None => avoid == -1,
                },
                is_shuffle(order@, cells),
                self@.shaped(),
                self@.mines_total == old(self)@.mines_total,
                self@.mines_placed == old(self)@.mines_placed,
                self@.timer == old(self)@.timer,
                self@.grid.width == g0.width,
                self@.grid.height == g0.height,
                self@.grid.counts_consistent(),
                self@.grid.mine_count() == i,
                forall|j: int|
                    0 <= j < cells ==> (#[trigger] self@.grid.cells[j]).state == g0.cells[j].state,
                forall|j: int|
                    0 <= j < cells ==> ((#[trigger] self@.grid.cells[j]).kind == CellKind::Mine
                        <==> laid_places(order@, mines as nat, avoid, i as nat).contains(j)),
            decreases mines - i,
        {
            let ghost cur = self@.grid;
            let mut idx: usize = order[i];
            match skip {
                Some(a) => {
                    if idx == a {
                        idx = order[mines];
                    }
                },
                None => {},
            }
            proof {
                assert(idx == mine_pick(order@, mines as nat, avoid, i as int));
                lemma_picks_distinct(order@, cells, mines as nat, avoid, i as int, i as int);
                if laid_places(order@, mines as nat, avoid, i as nat).contains(idx as int) {
                    let k = choose|k: int|
                        0 <= k < i && #[trigger] mine_pick(order@, mines as nat, avoid, k)
                            == idx as int;
                    lemma_picks_distinct(order@, cells, mines as nat, avoid, i as int, k);
                }
            }
            self.lay_mine(idx);
            proof {
                assert forall|j: int| 0 <= j < cells implies ((#[trigger] self@.grid.cells[j]).kind
                    == CellKind::Mine <==> laid_places(
                    order@,
                    mines as nat,
                    avoid,
                    (i + 1) as nat,
                ).contains(j)) by {
                    assert(cur.cells[j].kind == CellKind::Mine <==> laid_places(
                        order@,
                        mines as nat,
                        avoid,
                        i as nat,
                    ).contains(j));
                    if laid_places(order@, mines as nat, avoid, i as nat).contains(j) {
                        let k = choose|k: int|
                            0 <= k < i && #[trigger] mine_pick(order@, mines as nat, avoid, k) == j;
                        assert(0 <= k < i + 1);
                    }
                    if laid_places(order@, mines as nat, avoid, (i + 1) as nat).contains(j) {
                        let k = choose|k: int|
                            0 <= k < i + 1 && #[trigger] mine_pick(order@, mines as nat, avoid, k)
                                == j;
                        if k < i {
                            assert(laid_places(order@, mines as nat, avoid, i as nat).contains(j));
                        }
                    }
                    if j == idx {
                        assert(mine_pick(order@, mines as nat, avoid, i as int) == j);
                    }
                }
            }
            i += 1;
        }
        self.mines_placed = true;
        self.timer.start();
        proof {
            lemma_same_flags_counted(g0.cells, self@.grid.cells);
            let places = mine_places(order@, mines as nat, avoid);
            if g0.contains(avoid_x as int, avoid_y as int) {
                lemma_index_of_position(g0, avoid_x as int, avoid_y as int);
                if places.contains(avoid) {
                    let k = choose|k: int|
                        0 <= k < mines && #[trigger] mine_pick(order@, mines as nat, avoid, k)
                            == avoid;
                    lemma_picks_distinct(order@, cells, mines as nat, avoid, k, k);
                }
            }
        }
    }

    /// Lays the mines at random, keeping the cell at `(x, y)` free of them,
    /// and starts the stopwatch.
    ///
    /// The order in which the cells are tried comes from a random shuffle;
    /// `place_mines` is the same step for a given order.
    pub fn initialize_board(&mut self, initial_click_x: isize, initial_click_y: isize)
        requires
            old(self).wf(),
            !old(self)@.mines_placed,
        ensures
            final(self).wf(),
            final(self)@.mines_placed,
            final(self)@.mines_total == old(self)@.mines_total,
            timer_started(old(self)@.timer, final(self)@.timer),
            final(self)@.remaining_mines() == old(self)@.remaining_mines(),
            exists|order: Seq<usize>|
                is_shuffle(order, old(self)@.grid.cells.len()) && #[trigger] old(self)@.grid.mined(
                    final(self)@.grid,
                    mine_places(
                        order,
                        old(self)@.mines_total,
                        old(self)@.grid.place_of(initial_click_x as int, initial_click_y as int),
                    ),
                ),
            !final(self)@.grid.mine_at(initial_click_x as int, initial_click_y as int),
    {
        let order = shuffled_places(self.grid.len());
        self.place_mines(&order, initial_click_x, initial_click_y);
        assert(old(self)@.grid.mined(
            final(self)@.grid,
            mine_places(
                order@,
                old(self)@.mines_total,
                old(self)@.grid.place_of(initial_click_x as int, initial_click_y as int),
            ),
        ));
    }

    /// Sets what the player sees of the cell stored at `i`.
    fn set_state(&mut self, i: usize, state: CellState)
        requires
            i < old(self)@.grid.cells.len(),
        ensures
            final(self)@ == (BoardView {
                grid: Grid {
                    cells: old(self)@.grid.cells.update(
                        i as int,
                        CellBox { kind: old(self)@.grid.cells[i as int].kind, state },
                    ),
                    ..old(self)@.grid
                },
                ..old(self)@
            }),
    {
        let kind = self.grid[i].kind;
        self.grid[i] = CellBox { kind, state };
    }

    /// Reveals the hidden cell at `(x, y)` and, from every cell revealed
    /// that shows zero, the hidden cells around it. A position off the
    /// board, or a cell that is not hidden, leaves the cells as they are.
    ///
    /// The game is lost if the cell at `(x, y)` was a hidden mine; it is
    /// won if no cell is left to reveal afterwards.
    pub fn reveal_adjacent_empty(&mut self, x: isize, y: isize) -> (signal: Option<GameState>)
        requires
            old(self)@.shaped(),
            old(self)@.grid.counts_consistent(),
        ensures
            old(self)@.keeps_form(final(self)@),
            old(self)@.played(
                final(self)@,
                old(self)@.grid.flood_revealed(x as int, y as int),
                signal,
            ),
            signal == old(self)@.grid.flood_signal(x as int, y as int),
    {
        let ghost g0 = self@.grid;
        let ghost ox = x as int;
        let ghost oy = y as int;
        let mut to_reveal: Vec<(isize, isize)> = Vec::new();
        to_reveal.push((x, y));
        proof {
            lemma_flood_start(g0, ox, oy);
            assert(positions(to_reveal@) =~= seq![(ox, oy)]);
        }
        while to_reveal.len() > 0
            invariant
                g0 == old(self)@.grid,
                old(self)@.shaped(),
                g0.counts_consistent(),
                ox == x as int,
                oy == y as int,
                self@.shaped(),
                self@.mines_total == old(self)@.mines_total,
                self@.mines_placed == old(self)@.mines_placed,
                self@.timer == old(self)@.timer,
                flood_progress(g0, self@.grid, ox, oy, positions(to_reveal@)),
                g0.hidden_at(ox, oy) && g0.mine_at(ox, oy) ==> self@.grid.hidden_at(ox, oy),
            decreases count_state(self@.grid.cells, CellState::Hidden), to_reveal.len(),
        {
            let ghost pending = positions(to_reveal@);
            let ghost cur = self@.grid;
            let (cx, cy) = to_reveal.pop().unwrap();
            assert(positions(to_reveal@) =~= pending.drop_last());
            assert(pending.last() == (cx as int, cy as int));
            let hidden: Option<usize> = match self.cell_index(cx, cy) {
                Some(i) => if self.grid[i].state == CellState::Hidden {
                    Some(i)
                } else {
                    None
                },
                None => None,
            };
            match hidden {
                Some(i) => {
                    let cell = self.grid[i];
                    proof {
                        lemma_flood_visit(g0, cur, ox, oy, pending);
                        lemma_count_state_update(
                            cur.cells,
                            i as int,
                            revealed(cell),
                            CellState::Hidden,
                        );
                    }
                    self.set_state(i, CellState::Revealed);
                    assert(self@.grid == cur.with_cell(cx as int, cy as int, revealed(cell)));
                    if cell.kind == CellKind::Mine {
                        proof {
                            lemma_reached_mine_is_origin(g0, ox, oy, cx as int, cy as int);
                            lemma_flood_of_mine(g0, ox, oy);
                            assert(cur == g0);
                            lemma_flood_keeps_layout(g0, ox, oy);
                            lemma_same_layout(g0, g0.flood_revealed(ox, oy));
                            lemma_flood_keeps_flags(g0, ox, oy);
                        }
                        self.timer.stop();
                        return Some(GameState::Lost);
                    }
                    if cell.kind == CellKind::Number(0) {
                        proof {
                            lemma_sides_fit(cur);
                        }
                        push_around(&mut to_reveal, cx, cy);
                    }
                },
                None => {
                    proof {
                        lemma_flood_skip(g0, cur, ox, oy, pending);
                    }
                },
            }
        }
        proof {
            assert(positions(to_reveal@) =~= Seq::<(int, int)>::empty());
            lemma_flood_done(g0, self@.grid, ox, oy);
            lemma_flood_keeps_layout(g0, ox, oy);
            lemma_same_layout(g0, g0.flood_revealed(ox, oy));
            lemma_flood_keeps_flags(g0, ox, oy);
        }
        self.check_win_condition()
    }

    /// Reveals every cell around `(x, y)` that bears no flag, as a click on
    /// a revealed number does. The cells revealed do not spread the reveal.
    ///
    /// The game is lost if one of those cells is a mine; it is won if no
    /// cell is left to reveal afterwards.
    pub fn reveal_non_flagged(&mut self, x: isize, y: isize) -> (signal: Option<GameState>)
        requires
            old(self)@.shaped(),
            isize::MIN < x < isize::MAX,
            isize::MIN < y < isize::MAX,
        ensures
            old(self)@.keeps_form(final(self)@),
            old(self)@.played(
                final(self)@,
                old(self)@.grid.chord_revealed(x as int, y as int),
                signal,
            ),
            signal == old(self)@.grid.chord_signal(x as int, y as int),
    {
        let ghost g0 = self@.grid;
        let ghost change = |c: CellBox| chord_opened(c);
        let mut hit = false;
        proof {
            lemma_change_start(g0, x as int, y as int, change);
        }
        let mut k: usize = 0;
        while k < 8
            invariant
                k <= 8,
                isize::MIN < x < isize::MAX,
                isize::MIN < y < isize::MAX,
                g0 == old(self)@.grid,
                g0.wf(),
                change == |c: CellBox| chord_opened(c),
                self@.shaped(),
                self@.mines_total == old(self)@.mines_total,
                self@.mines_placed == old(self)@.mines_placed,
                self@.timer == old(self)@.timer,
                changed_around(g0, self@.grid, x as int, y as int, k as int, change),
                hit <==> exists|j: int|
                    0 <= j < k && #[trigger] g0.chord_opens(
                        x as int,
                        y as int,
                        around(x as int, y as int)[j].0,
                        around(x as int, y as int)[j].1,
                    ) && g0.mine_at(
                        around(x as int, y as int)[j].0,
                        around(x as int, y as int)[j].1,
                    ),
            decreases 8 - k,
        {
            let ghost cur = self@.grid;
            let ghost a = around(x as int, y as int);
            let (nx, ny) = neighbor(x, y, k);
            proof {
                lemma_change_step(g0, cur, x as int, y as int, k as int, change);
                lemma_around(x as int, y as int);
                assert(a.contains(a[k as int]));
            }
            match self.cell_index(nx, ny) {
                Some(j) => {
                    let cell = self.grid[j];
                    if cell.state != CellState::Flagged {
                        self.set_state(j, CellState::Revealed);
                        if cell.kind == CellKind::Mine {
                            hit = true;
                        }
                    }
                    assert(self@.grid.cells =~= cur.with_cell(
                        nx as int,
                        ny as int,
                        chord_opened(cell),
                    ).cells);
                    assert(g0.chord_opens(x as int, y as int, a[k as int].0, a[k as int].1)
                        <==> cell.state != CellState::Flagged);
                },
                None => {
                    assert(!g0.chord_opens(x as int, y as int, a[k as int].0, a[k as int].1));
                },
            }
            k += 1;
        }
        proof {
            lemma_chord_done(g0, self@.grid, x as int, y as int);
            lemma_chord_hit(g0, x as int, y as int, hit);
            lemma_same_layout(g0, self@.grid);
            lemma_chord_keeps_flags(g0, x as int, y as int);
        }
        if hit {
            self.timer.stop();
            Some(GameState::Lost)
        } else {
            self.check_win_condition()
        }
    }

    /// Puts a flag on the hidden cell at `(x, y)`, or takes the flag off
    /// it. A revealed cell, or a position off the board, is left alone.
    pub fn toggle_flag(&mut self, x: isize, y: isize)
        requires
            old(self)@.shaped(),
        ensures
            old(self)@.keeps_form(final(self)@),
            final(self)@ == (BoardView {
                grid: old(self)@.grid.toggled(x as int, y as int),
                ..old(self)@
            }),
    {
        let ghost g0 = self@.grid;
        match self.cell_index(x, y) {
            Some(i) => {
                let state = match self.grid[i].state {
                    CellState::Hidden => CellState::Flagged,
                    CellState::Flagged => CellState::Hidden,
                    CellState::Revealed => CellState::Revealed,
                };
                self.set_state(i, state);
                proof {
                    assert(self@.grid.cells =~= g0.toggled(x as int, y as int).cells);
                    assert(g0.same_layout(self@.grid));
                    lemma_same_layout(g0, self@.grid);
                }
            },
            None => {},
        }
    }

    /// What a click at `(x, y)` does once the mines are where they are: see
    /// `Grid::clicked`.
    fn open_cell(&mut self, x: isize, y: isize) -> (signal: Option<GameState>)
        requires
            old(self).wf(),
        ensures
            final(self).wf(),
            old(self)@.played(final(self)@, old(self)@.grid.clicked(x as int, y as int), signal),
            signal == old(self)@.grid.click_signal(x as int, y as int),
    {
        proof {
            lemma_sides_fit(self@.grid);
        }
        match self.cell_index(x, y) {
            Some(i) => {
                let cell = self.grid[i];
                match cell.state {
                    CellState::Hidden => self.reveal_adjacent_empty(x, y),
                    CellState::Revealed => {
                        match cell.kind {
                            CellKind::Number(n) => {
                                if n > 0 {
                                    self.reveal_non_flagged(x, y)
                                } else {
                                    None
                                }
                            },
                            CellKind::Mine => None,
                        }
                    },
                    CellState::Flagged => None,
                }
            },
            None => None,
        }
    }

    /// A click at `(x, y)`. The first click on the board lays the mines,
    /// keeping them off the cell clicked, and starts the stopwatch. Then a
    /// hidden cell is revealed, and the reveal spreads from cells that show
    /// zero; a revealed number above zero has the cells around it revealed
    /// that bear no flag; a flagged cell, a revealed zero or mine, and a
    /// position off the board change nothing.
    ///
    /// Where the mines are laid at the first click is a matter of chance,
    /// so the contract then speaks of some order of the cells.
    pub fn reveal_cell(&mut self, x: isize, y: isize) -> (signal: Option<GameState>)
        requires
            old(self).wf(),
        ensures
            final(self).wf(),
            old(self)@.clicked_at(final(self)@, x as int, y as int, signal),
    {
        if self.cell_index(x, y).is_none() {
            return None;
        }
        if !self.mines_placed {
            self.initialize_board(x, y);
            let ghost laid = self@.grid;
            let signal = self.open_cell(x, y);
            proof {
                let g0 = old(self)@.grid;
                let avoid = g0.place_of(x as int, y as int);
                let order = choose|order: Seq<usize>|
                    is_shuffle(order, g0.cells.len()) && #[trigger] g0.mined(
                        laid,
                        mine_places(order, old(self)@.mines_total, avoid),
                    );
                assert(g0.mined(laid, mine_places(order, old(self)@.mines_total, avoid)));
                lemma_index_of_position(g0, x as int, y as int);
                assert(laid.cell(x as int, y as int).state == g0.cell(x as int, y as int).state);
                lemma_click_keeps_layout(laid, x as int, y as int);
                lemma_same_layout(laid, self@.grid);
                assert(self@.grid.mine_weight(x as int, y as int) == laid.mine_weight(
                    x as int,
                    y as int,
                ));
            }
            signal
        } else {
            self.open_cell(x, y)
        }
    }

    /// Where the drawing of the board starts on a terminal of `cols`
    /// columns and `rows` rows, as column and row. A board that does not
    /// fit starts at 0.
    pub fn get_board_start_pos(&self, cols: u16, rows: u16) -> (start: (u16, u16))
        requires
            self@.shaped(),
        ensures
            (start.0 as int, start.1 as int) == self@.start_pos(cols as int, rows as int),
    {
        proof {
            lemma_sides_fit(self@.grid);
        }
        let half: usize = (cols / 2) as usize;
        let board_start_x: u16 = if half > self.width {
            (half - self.width - 1) as u16
        } else {
            0
        };
        let board_start_y: u16 = if rows as usize >= self.height {
            ((rows as usize - self.height) / 2) as u16
        } else {
            0
        };
        (board_start_x, board_start_y)
    }

    /// Tells whether a terminal of `cols` columns and `rows` rows has room
    /// for the board with its border.
    pub fn fits_terminal(&self, cols: u16, rows: u16) -> (fits: bool)
        ensures
            fits == self@.fits(cols as int, rows as int),
    {
        (cols / 2) as usize > self.width && rows >= 2 && (rows - 2) as usize >= self.height
    }

    /// The cell that a click at a column and row of the terminal falls on,
    /// if it falls on one. On a terminal so small that the centred board
    /// would start left of it or above it, no click falls on a cell.
    pub fn cell_coords_from_mouse(&self, column: u16, row: u16, cols: u16, rows: u16) -> (found:
        Option<(isize, isize)>)
        requires
            self@.shaped(),
        ensures
            match self@.clicked_cell(column as int, row as int, cols as int, rows as int) {
                Some((x, y)) => found == Some((x as isize, y as isize)),
                None => found.is_none(),
            },
    {
        proof {
            lemma_sides_fit(self@.grid);
        }
        if ((cols as u32 + 1) / 2) as usize <= self.width || rows as usize + 1 < self.height {
            return None;
        }
        let (board_start_x, board_start_y) = self.get_board_start_pos(cols, rows);
        let dx: i32 = column as i32 - board_start_x as i32 - 2;
        let dy: i32 = row as i32 - board_start_y as i32 - 1;
        let cell_x: isize = if dx < 0 {
            0
        } else {
            (dx / 2) as isize
        };
        let cell_y: isize = if dy < 0 {
            0
        } else {
            dy as isize
        };
        match self.cell_index(cell_x, cell_y) {
            Some(_) => Some((cell_x, cell_y)),
            None => None,
        }
    }

    /// A click of the left button at a column and row of the terminal: a
    /// click on the cell that it falls on, see `reveal_cell`. Where it falls
    /// on none it does nothing.
    pub fn handle_mouse_left(&mut self, column: u16, row: u16, cols: u16, rows: u16) -> (signal:
        Option<GameState>)
        requires
            old(self).wf(),
        ensures
            final(self).wf(),
            old(self)@.left_clicked(
                final(self)@,
                column as int,
                row as int,
                cols as int,
                rows as int,
                signal,
            ),
    {
        match self.cell_coords_from_mouse(column, row, cols, rows) {
            Some((cell_x, cell_y)) => self.reveal_cell(cell_x, cell_y),
            None => None,
        }
    }

    /// A click of the right button at a column and row of the terminal:
    /// the flag of the cell that it falls on is toggled. Where it falls on
    /// none it does nothing.
    pub fn handle_mouse_right(&mut self, column: u16, row: u16, cols: u16, rows: u16)
        requires
            old(self)@.shaped(),
        ensures
            old(self)@.keeps_form(final(self)@),
            final(self)@ == old(self)@.right_clicked(
                column as int,
                row as int,
                cols as int,
                rows as int,
            ),
    {
        match self.cell_coords_from_mouse(column, row, cols, rows) {
            Some((cell_x, cell_y)) => self.toggle_flag(cell_x, cell_y),
            None => {},
        }
    }

    /// The cell at `(x, y)` for the caller to change, if the position is on
    /// the board. Whoever changes what the cell holds answers for the
    /// numbers on the board.
    pub fn get_cell_mut(&mut self, x: isize, y: isize) -> (found: Option<&mut CellBox>)
        requires
            old(self)@.shaped(),
        ensures
            match found {
                Some(cell) => {
                    &&& old(self)@.grid.contains(x as int, y as int)
                    &&& *cell == old(self)@.grid.cell(x as int, y as int)
                    &&& final(self)@ == (BoardView {
                        grid: old(self)@.grid.with_cell(x as int, y as int, *final(cell)),
                        ..old(self)@
                    })
                },
                None => !old(self)@.grid.contains(x as int, y as int) && final(self)@ == old(self)@,
            },
    {
        match self.cell_index(x, y) {
            Some(i) => Some(&mut self.grid[i]),
            None => None,
        }
    }

    /// Restores every cell to hidden and empty, forgets that mines were
    /// laid, and resets the stopwatch. Size and number of mines stay.
    pub fn reset(&mut self)
        requires
            old(self)@.shaped(),
        ensures
            final(self).wf(),
            final(self)@ == (BoardView {
                grid: Grid::blank_of(old(self)@.grid.width, old(self)@.grid.height),
                mines_total: old(self)@.mines_total,
                mines_placed: false,
                timer: TimerView::idle(),
            }),
    {
        let n: usize = self.grid.len();
        let mut i: usize = 0;
        while i < n
            invariant
                i <= n,
                n == self.grid@.len(),
                self.width == old(self).width,
                self.height == old(self).height,
                self.mines_to_place == old(self).mines_to_place,
                forall|k: int|
                    0 <= k < i ==> #[trigger] self.grid@[k] == (CellBox {
                        kind: CellKind::Number(0),
                        state: CellState::Hidden,
                    }),
            decreases n - i,
        {
            self.grid[i] = CellBox { kind: CellKind::Number(0), state: CellState::Hidden };
            i += 1;
        }
        self.mines_placed = false;
        self.timer.reset();
        proof {
            assert(self@.grid.cells =~= Grid::blank_of(
                old(self)@.grid.width,
                old(self)@.grid.height,
            ).cells);
            lemma_blank_is_consistent(self@.grid);
        }
    }

    /// Reveals every mine, for the display at the end of a game.
    pub fn reveal_all_mines(&mut self)
        ensures
            old(self)@.keeps_form(final(self)@),
            final(self)@ == (BoardView { grid: old(self)@.grid.mines_shown(), ..old(self)@ }),
    {
        let ghost g0 = self@.grid;
        let n: usize = self.grid.len();
        let mut i: usize = 0;
        while i < n
            invariant
                i <= n,
                n == self.grid@.len(),
                n == g0.cells.len(),
                g0 == old(self)@.grid,
                self@.grid.width == g0.width,
                self@.grid.height == g0.height,
                self@.mines_total == old(self)@.mines_total,
                self@.mines_placed == old(self)@.mines_placed,
                self@.timer == old(self)@.timer,
                forall|k: int| 0 <= k < i ==> #[trigger] self.grid@[k] == g0.mines_shown().cells[k],
                forall|k: int| i <= k < n ==> #[trigger] self.grid@[k] == g0.cells[k],
            decreases n - i,
        {
            if self.grid[i].kind == CellKind::Mine {
                self.set_state(i, CellState::Revealed);
            }
            i += 1;
        }
        proof {
            assert(self@.grid.cells =~= g0.mines_shown().cells);
            assert(g0.same_layout(self@.grid));
            if g0.wf() {
                lemma_same_layout(g0, self@.grid);
            }
        }
    }

    /// The number of cells that bear a flag.
    pub fn get_flags_count(&self) -> (flags: usize)
        ensures
            flags == self@.grid.flag_count(),
    {
        let n: usize = self.grid.len();
        let mut flags: usize = 0;
        let mut i: usize = 0;
        while i < n
            invariant
                i <= n,
                n == self.grid@.len(),
                flags == count_state(self.grid@.take(i as int), CellState::Flagged),
                flags <= i,
            decreases n - i,
        {
            proof {
                assert(self.grid@.take(i + 1).drop_last() =~= self.grid@.take(i as int));
            }
            if self.grid[i].state == CellState::Flagged {
                flags += 1;
            }
            i += 1;
        }
        proof {
            assert(self.grid@.take(n as int) =~= self.grid@);
        }
        flags
    }

    /// The number of mines less the number of flags: how many mines the
    /// player has yet to mark. It is negative when there are more flags
    /// than mines.
    pub fn get_remaining_mines(&self) -> (remaining: isize)
        requires
            self@.shaped(),
        ensures
            remaining == self@.remaining_mines(),
    {
        proof {
            lemma_count_state_bound(self@.grid.cells, CellState::Flagged);
        }
        let flags = self.get_flags_count();
        self.mines_to_place as isize - flags as isize
    }

    /// Brings a wish for a board within the limits: width and height
    /// between their minimum and maximum, and at least one mine but fewer
    /// mines than cells.
    pub fn clamp_config(width: usize, height: usize, mines: usize) -> (config: GameConfig)
        ensures
            config == clamped_config(width, height, mines),
            config.within_limits(),
            config.playable(),
            (GameConfig { width, height, mines }).within_limits() ==> config == (GameConfig {
                width,
                height,
                mines,
            }),
    {
        let clamped_width = clamp(width, MIN_WIDTH, MAX_WIDTH);
        let clamped_height = clamp(height, MIN_HEIGHT, MAX_HEIGHT);
        assert(25 <= clamped_width * clamped_height <= 2500) by (nonlinear_arith)
            requires
                5 <= clamped_width <= 50,
                5 <= clamped_height <= 50,
        ;
        let max_mines = clamped_width * clamped_height - 1;
        let clamped_mines = clamp(mines, MIN_MINES, max_mines);
        GameConfig { width: clamped_width, height: clamped_height, mines: clamped_mines }
    }
}

/// Where something that takes `need` starts when it is centred in `space`;
/// at 0 when it does not fit.
pub open spec fn centered(space: int, need: int) -> int {
    if space >= need {
        (space - need) / 2
    } else {
        0
    }
}

/// `value` held between `low` and `high`.
pub open spec fn clamped(value: int, low: int, high: int) -> int {
    if value < low {
        low
    } else if value > high {
        high
    } else {
        value
    }
}

/// The configuration that `clamp_config` makes of a wish.
pub open spec fn clamped_config(width: usize, height: usize, mines: usize) -> GameConfig {
    let w = clamped(width as int, MIN_WIDTH as int, MAX_WIDTH as int);
    let h = clamped(height as int, MIN_HEIGHT as int, MAX_HEIGHT as int);
    GameConfig {
        width: w as usize,
        height: h as usize,
        mines: clamped(mines as int, MIN_MINES as int, w * h - 1) as usize,
    }
}

/// Holds `value` between `low` and `high`.
fn clamp(value: usize, low: usize, high: usize) -> (held: usize)
    requires
        low <= high,
    ensures
        held == clamped(value as int, low as int, high as int),
{
    if value < low {
        low
    } else if value > high {
        high
    } else {
        value
    }
}

/// The positions that a work list holds.
pub open spec fn positions(work: Seq<(isize, isize)>) -> Seq<(int, int)> {
    Seq::new(work.len(), |k: int| (work[k].0 as int, work[k].1 as int))
}

/// The `k`-th of the eight positions around `(x, y)`, row by row.
fn neighbor(x: isize, y: isize, k: usize) -> (p: (isize, isize))
    requires
        k < 8,
        isize::MIN < x < isize::MAX,
        isize::MIN < y < isize::MAX,
    ensures
        (p.0 as int, p.1 as int) == around(x as int, y as int)[k as int],
{
    match k {
        0 => (x - 1, y - 1),
        1 => (x, y - 1),
        2 => (x + 1, y - 1),
        3 => (x - 1, y),
        4 => (x + 1, y),
        5 => (x - 1, y + 1),
        6 => (x, y + 1),
        _ => (x + 1, y + 1),
    }
}

/// Appends the eight positions around `(x, y)` to a work list, row by row.
fn push_around(work: &mut Vec<(isize, isize)>, x: isize, y: isize)
    requires
        0 <= x < isize::MAX,
        0 <= y < isize::MAX,
    ensures
        positions(final(work)@) == positions(old(work)@) + around(x as int, y as int),
{
    let mut k: usize = 0;
    while k < 8
        invariant
            k <= 8,
            0 <= x < isize::MAX,
            0 <= y < isize::MAX,
            positions(work@) == positions(old(work)@) + around(x as int, y as int).take(k as int),
        decreases 8 - k,
    {
        let ghost before = work@;
        let p = neighbor(x, y, k);
        work.push(p);
        proof {
            let a = around(x as int, y as int);
            assert(a.len() == 8);
            assert(a.take(k + 1) =~= a.take(k as int).push(a[k as int]));
            assert(positions(work@) =~= positions(before).push(a[k as int]));
        }
        k += 1;
    }
    assert(around(x as int, y as int).take(8) =~= around(x as int, y as int));
}

} // verus!
