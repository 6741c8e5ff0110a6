//! What a click does to a grid: a reveal that spreads from a hidden cell,
//! the reveal of the cells around a revealed number, and what either tells
//! the player.

use crate::grid::{
    adjacent, around, changed_around, lemma_around, lemma_change_done, lemma_index_of_position,
    lemma_mine_is_counted, lemma_position_of_index, lemma_same_flags_counted, lemma_with_cell,
    revealed, Grid,
};
use crate::types::{CellBox, CellKind, CellState, GameState};
use vstd::prelude::*;

verus! {

/// The cell `c` revealed unless it bears a flag.
pub open spec fn chord_opened(c: CellBox) -> CellBox {
    if c.state == CellState::Flagged {
        c
    } else {
        revealed(c)
    }
}

impl Grid {
    /// Step `i` of a path: the cell there shows zero, and the next position
    /// touches it.
    pub open spec fn flood_step(self, path: Seq<(int, int)>, i: int) -> bool {
        &&& self.zero_at(path[i].0, path[i].1)
        &&& adjacent(path[i].0, path[i].1, path[i + 1].0, path[i + 1].1)
    }

    /// A way for a reveal at `(ox, oy)` to spread: a path of hidden cells
    /// that starts there, each touching the next, and all but the last
    /// showing zero.
    pub open spec fn is_flood_path(self, ox: int, oy: int, path: Seq<(int, int)>) -> bool {
        &&& path.len() > 0
        &&& path[0] == (ox, oy)
        &&& forall|i: int|
            0 <= i < path.len() ==> self.hidden_at((#[trigger] path[i]).0, path[i].1)
        &&& forall|i: int| 0 <= i < path.len() - 1 ==> #[trigger] self.flood_step(path, i)
    }

    /// A reveal at `(ox, oy)` spreads to `(x, y)`.
    pub open spec fn flood_reaches(self, ox: int, oy: int, x: int, y: int) -> bool {
        exists|path: Seq<(int, int)>| #[trigger]
            self.is_flood_path(ox, oy, path) && path.last() == (x, y)
    }

    /// The grid after a reveal at `(ox, oy)`: every cell that the reveal
    /// spreads to is revealed, and nothing else has changed.
    pub open spec fn flood_revealed(self, ox: int, oy: int) -> Grid {
        Grid {
            cells: Seq::new(
                self.cells.len(),
                |i: int|
                    if self.flood_reaches(ox, oy, self.col(i), self.row(i)) {
                        revealed(self.cells[i])
                    } else {
                        self.cells[i]
                    },
            ),
            ..self
        }
    }

    /// What a reveal at `(ox, oy)` tells the player: the game is lost if a
    /// hidden mine was hit, won if no cell is left to reveal, and goes on
    /// otherwise.
    pub open spec fn flood_signal(self, ox: int, oy: int) -> Option<GameState> {
        if self.hidden_at(ox, oy) && self.mine_at(ox, oy) {
            Some(GameState::Lost)
        } else if self.flood_revealed(ox, oy).cleared() {
            Some(GameState::Won)
        } else {
            None
        }
    }

    /// A click on the revealed number at `(x, y)` would reveal the cell at
    /// `(nx, ny)`: it lies on the grid next to `(x, y)` and bears no flag.
    pub open spec fn chord_opens(self, x: int, y: int, nx: int, ny: int) -> bool {
        &&& self.contains(nx, ny)
        &&& adjacent(x, y, nx, ny)
        &&& self.cell(nx, ny).state != CellState::Flagged
    }

    /// The grid after a click on the revealed number at `(x, y)`: every
    /// cell around it that bears no flag is revealed, and nothing else has
    /// changed.
    pub open spec fn chord_revealed(self, x: int, y: int) -> Grid {
        Grid {
            cells: Seq::new(
                self.cells.len(),
                |i: int|
                    if adjacent(x, y, self.col(i), self.row(i)) {
                        chord_opened(self.cells[i])
                    } else {
                        self.cells[i]
                    },
            ),
            ..self
        }
    }

    /// A click on the revealed number at `(x, y)` reveals a mine.
    pub open spec fn chord_hits_mine(self, x: int, y: int) -> bool {
        exists|nx: int, ny: int| #[trigger]
            self.chord_opens(x, y, nx, ny) && self.mine_at(nx, ny)
    }

    /// What a click on the revealed number at `(x, y)` tells the player.
    pub open spec fn chord_signal(self, x: int, y: int) -> Option<GameState> {
        if self.chord_hits_mine(x, y) {
            Some(GameState::Lost)
        } else if self.chord_revealed(x, y).cleared() {
            Some(GameState::Won)
        } else {
            None
        }
    }

    /// The cell at `(x, y)` is a number above zero.
    pub open spec fn chords_at(self, x: int, y: int) -> bool {
        match self.cell(x, y).kind {
            CellKind::Number(n) => n > 0,
            CellKind::Mine => false,
        }
    }

    /// The grid after a click at `(x, y)`: a hidden cell is revealed, and
    /// the reveal spreads; a revealed number above zero has the cells around
    /// it revealed; anything else changes nothing.
    pub open spec fn clicked(self, x: int, y: int) -> Grid {
        if !self.contains(x, y) {
            self
        } else {
            match self.cell(x, y).state {
                CellState::Hidden => self.flood_revealed(x, y),
                CellState::Revealed => if self.chords_at(x, y) {
                    self.chord_revealed(x, y)
                } else {
                    self
                },
                CellState::Flagged => self,
            }
        }
    }

    /// What a click at `(x, y)` tells the player.
    pub open spec fn click_signal(self, x: int, y: int) -> Option<GameState> {
        if !self.contains(x, y) {
            None
        } else {
            match self.cell(x, y).state {
                CellState::Hidden => self.flood_signal(x, y),
                CellState::Revealed => if self.chords_at(x, y) {
                    self.chord_signal(x, y)
                } else {
                    None
                },
                CellState::Flagged => None,
            }
        }
    }
}

/// A reveal at a hidden cell reaches that cell.
pub proof fn lemma_flood_origin(g: Grid, ox: int, oy: int)
    requires
        g.hidden_at(ox, oy),
    ensures
        g.flood_reaches(ox, oy, ox, oy),
{
    let path = seq![(ox, oy)];
    assert(g.is_flood_path(ox, oy, path));
    assert(path.last() == (ox, oy));
}

/// Whatever a reveal reaches was hidden, and the reveal started at a hidden
/// cell.
pub proof fn lemma_flood_reached_hidden(g: Grid, ox: int, oy: int, x: int, y: int)
    requires
        g.flood_reaches(ox, oy, x, y),
    ensures
        g.hidden_at(x, y),
        g.hidden_at(ox, oy),
{
    let path = choose|path: Seq<(int, int)>| #[trigger]
        g.is_flood_path(ox, oy, path) && path.last() == (x, y);
    assert(g.hidden_at(path[path.len() - 1].0, path[path.len() - 1].1));
    assert(g.hidden_at(path[0].0, path[0].1));
}

/// A reveal that reaches a cell showing zero goes on to every hidden cell
/// that touches it.
pub proof fn lemma_flood_extend(g: Grid, ox: int, oy: int, x: int, y: int, nx: int, ny: int)
    requires
        g.flood_reaches(ox, oy, x, y),
        g.zero_at(x, y),
        adjacent(x, y, nx, ny),
        g.hidden_at(nx, ny),
    ensures
        g.flood_reaches(ox, oy, nx, ny),
{
    let path = choose|path: Seq<(int, int)>| #[trigger]
        g.is_flood_path(ox, oy, path) && path.last() == (x, y);
    let longer = path.push((nx, ny));
    assert forall|i: int| 0 <= i < longer.len() implies g.hidden_at(
        (#[trigger] longer[i]).0,
        longer[i].1,
    ) by {
        if i < path.len() {
            assert(longer[i] == path[i]);
        }
    }
    assert forall|i: int| 0 <= i < longer.len() - 1 implies #[trigger] g.flood_step(longer, i) by {
        if i < path.len() - 1 {
            assert(g.flood_step(path, i));
            assert(longer[i] == path[i]);
            assert(longer[i + 1] == path[i + 1]);
        } else {
            assert(longer[i] == path.last());
        }
    }
    assert(g.is_flood_path(ox, oy, longer));
    assert(longer.last() == (nx, ny));
}

/// Where the numbers are right, a reveal reaches no mine but one it
/// started at.
pub proof fn lemma_reached_mine_is_origin(g: Grid, ox: int, oy: int, x: int, y: int)
    requires
        g.wf(),
        g.counts_consistent(),
        g.flood_reaches(ox, oy, x, y),
        g.mine_at(x, y),
    ensures
        x == ox,
        y == oy,
{
    let path = choose|path: Seq<(int, int)>| #[trigger]
        g.is_flood_path(ox, oy, path) && path.last() == (x, y);
    if path.len() > 1 {
        let i = path.len() - 2;
        assert(g.flood_step(path, i));
        let (px, py) = path[i];
        assert(g.cell(px, py).kind == CellKind::Number(0));
        lemma_mine_is_counted(g, px, py, x, y);
    }
}

/// A reveal that starts at a mine goes no further.
pub proof fn lemma_flood_stops_at_mine(g: Grid, ox: int, oy: int, x: int, y: int)
    requires
        g.mine_at(ox, oy),
        g.flood_reaches(ox, oy, x, y),
    ensures
        x == ox,
        y == oy,
{
    let path = choose|path: Seq<(int, int)>| #[trigger]
        g.is_flood_path(ox, oy, path) && path.last() == (x, y);
    if path.len() > 1 {
        assert(g.flood_step(path, 0));
    }
}

/// The cell at `(x, y)` is as a reveal at `(ox, oy)` may have left it at any
/// moment: untouched, or reached and revealed.
pub open spec fn flood_cell_ok(g0: Grid, cur: Grid, ox: int, oy: int, x: int, y: int) -> bool {
    ||| cur.cell(x, y) == g0.cell(x, y)
    ||| (g0.flood_reaches(ox, oy, x, y) && cur.cell(x, y) == revealed(g0.cell(x, y)))
}

/// The reveal has opened the zero at `(x, y)`, and `(nx, ny)` next to it
/// is still hidden.
pub open spec fn flood_front(g0: Grid, cur: Grid, x: int, y: int, nx: int, ny: int) -> bool {
    &&& g0.hidden_at(x, y)
    &&& g0.zero_at(x, y)
    &&& cur.cell(x, y).state == CellState::Revealed
    &&& adjacent(x, y, nx, ny)
    &&& cur.hidden_at(nx, ny)
}

/// What holds of a reveal at `(ox, oy)` while it spreads from the grid `g0`:
/// `cur` is the grid so far and `pending` the positions still to visit.
pub open spec fn flood_progress(
    g0: Grid,
    cur: Grid,
    ox: int,
    oy: int,
    pending: Seq<(int, int)>,
) -> bool {
    &&& g0.wf()
    &&& cur.wf()
    &&& cur.width == g0.width
    &&& cur.height == g0.height
    &&& forall|x: int, y: int| g0.contains(x, y) ==> #[trigger] flood_cell_ok(g0, cur, ox, oy, x, y)
    &&& forall|k: int|
        0 <= k < pending.len() && g0.hidden_at((#[trigger] pending[k]).0, pending[k].1)
            ==> g0.flood_reaches(ox, oy, pending[k].0, pending[k].1)
    &&& g0.hidden_at(ox, oy) ==> pending.contains((ox, oy)) || cur.cell(ox, oy).state
        == CellState::Revealed
    &&& forall|x: int, y: int, nx: int, ny: int| #[trigger]
        flood_front(g0, cur, x, y, nx, ny) ==> pending.contains((nx, ny))
    &&& cur.hidden_at(ox, oy) ==> cur.cells == g0.cells && forall|k: int|
        0 <= k < pending.len() ==> #[trigger] pending[k] == (ox, oy)
}

/// A reveal starts with the grid untouched and its own position to visit.
pub proof fn lemma_flood_start(g0: Grid, ox: int, oy: int)
    requires
        g0.wf(),
    ensures
        flood_progress(g0, g0, ox, oy, seq![(ox, oy)]),
{
    let pending = seq![(ox, oy)];
    assert(pending[0] == (ox, oy));
    if g0.hidden_at(ox, oy) {
        lemma_flood_origin(g0, ox, oy);
    }
}

/// Dropping a position that needs no visit, because it lies off the grid
/// or its cell is not hidden, keeps the reveal on course.
pub proof fn lemma_flood_skip(g0: Grid, cur: Grid, ox: int, oy: int, pending: Seq<(int, int)>)
    requires
        flood_progress(g0, cur, ox, oy, pending),
        pending.len() > 0,
        !cur.hidden_at(pending.last().0, pending.last().1),
    ensures
        flood_progress(g0, cur, ox, oy, pending.drop_last()),
{
    let rest = pending.drop_last();
    let (cx, cy) = pending.last();
    assert forall|k: int|
        0 <= k < rest.len() && g0.hidden_at((#[trigger] rest[k]).0, rest[k].1)
        implies g0.flood_reaches(ox, oy, rest[k].0, rest[k].1) by {
        assert(rest[k] == pending[k]);
    }
    if g0.hidden_at(ox, oy) && cur.cell(ox, oy).state != CellState::Revealed {
        assert(flood_cell_ok(g0, cur, ox, oy, ox, oy));
        let k = choose|k: int| 0 <= k < pending.len() && pending[k] == (ox, oy);
        assert(rest[k] == (ox, oy));
    }
    assert forall|x: int, y: int, nx: int, ny: int| #[trigger]
        flood_front(g0, cur, x, y, nx, ny) implies rest.contains((nx, ny)) by {
        let k = choose|k: int| 0 <= k < pending.len() && pending[k] == (nx, ny);
        assert(rest[k] == (nx, ny));
    }
    if cur.hidden_at(ox, oy) {
        assert forall|k: int| 0 <= k < rest.len() implies #[trigger] rest[k] == (ox, oy) by {
            assert(rest[k] == pending[k]);
        }
    }
}

/// Revealing the hidden cell at the position visited, and queueing the
/// positions around it if it shows zero, keeps the reveal on course.
pub proof fn lemma_flood_visit(g0: Grid, cur: Grid, ox: int, oy: int, pending: Seq<(int, int)>)
    requires
        flood_progress(g0, cur, ox, oy, pending),
        pending.len() > 0,
        cur.hidden_at(pending.last().0, pending.last().1),
    ensures
        ({
            let (cx, cy) = pending.last();
            let next = cur.with_cell(cx, cy, revealed(cur.cell(cx, cy)));
            &&& g0.flood_reaches(ox, oy, cx, cy)
            &&& cur.cell(cx, cy) == g0.cell(cx, cy)
            &&& cur.zero_at(cx, cy) ==> flood_progress(
                g0,
                next,
                ox,
                oy,
                pending.drop_last() + around(cx, cy),
            )
            &&& !cur.zero_at(cx, cy) ==> flood_progress(g0, next, ox, oy, pending.drop_last())
        }),
{
    let (cx, cy) = pending.last();
    let shown = revealed(cur.cell(cx, cy));
    let next = cur.with_cell(cx, cy, shown);
    let rest = pending.drop_last();
    let queue = if cur.zero_at(cx, cy) {
        rest + around(cx, cy)
    } else {
        rest
    };
    lemma_with_cell(cur, cx, cy, shown);
    lemma_around(cx, cy);
    assert(flood_cell_ok(g0, cur, ox, oy, cx, cy));
    assert(pending[pending.len() - 1] == (cx, cy));
    assert(g0.hidden_at(cx, cy));
    assert(g0.flood_reaches(ox, oy, cx, cy));
    assert forall|k: int| 0 <= k < rest.len() implies #[trigger] queue[k] == pending[k] by {
        assert(rest[k] == pending[k]);
    }
    assert forall|x: int, y: int| g0.contains(x, y) implies #[trigger] flood_cell_ok(
        g0,
        next,
        ox,
        oy,
        x,
        y,
    ) by {
        assert(flood_cell_ok(g0, cur, ox, oy, x, y));
    }
    assert forall|k: int|
        0 <= k < queue.len() && g0.hidden_at((#[trigger] queue[k]).0, queue[k].1)
        implies g0.flood_reaches(ox, oy, queue[k].0, queue[k].1) by {
        if k < rest.len() {
            assert(queue[k] == pending[k]);
        } else {
            let j = k - rest.len();
            assert(queue[k] == around(cx, cy)[j]);
            assert(around(cx, cy).contains(queue[k]));
            lemma_flood_extend(g0, ox, oy, cx, cy, queue[k].0, queue[k].1);
        }
    }
    if g0.hidden_at(ox, oy) && next.cell(ox, oy).state != CellState::Revealed {
        assert(flood_cell_ok(g0, cur, ox, oy, ox, oy));
        let k = choose|k: int| 0 <= k < pending.len() && pending[k] == (ox, oy);
        assert(queue[k] == (ox, oy));
    }
    assert forall|x: int, y: int, nx: int, ny: int| #[trigger]
        flood_front(g0, next, x, y, nx, ny) implies queue.contains((nx, ny)) by {
        if x == cx && y == cy {
            assert(around(cx, cy).contains((nx, ny)));
            let j = choose|j: int| 0 <= j < around(cx, cy).len() && around(cx, cy)[j] == (nx, ny);
            assert(queue[rest.len() + j] == (nx, ny));
        } else {
            assert(flood_front(g0, cur, x, y, nx, ny));
            let k = choose|k: int| 0 <= k < pending.len() && pending[k] == (nx, ny);
            assert(queue[k] == (nx, ny));
        }
    }
    if next.hidden_at(ox, oy) {
        assert(cur.hidden_at(ox, oy));
        assert(pending[pending.len() - 1] == (ox, oy));
    }
}

/// When nothing is left to visit, every step of every path of the reveal
/// has been revealed.
pub proof fn lemma_flood_path_done(
    g0: Grid,
    cur: Grid,
    ox: int,
    oy: int,
    path: Seq<(int, int)>,
    i: int,
)
    requires
        flood_progress(g0, cur, ox, oy, Seq::empty()),
        g0.is_flood_path(ox, oy, path),
        0 <= i < path.len(),
    ensures
        cur.cell(path[i].0, path[i].1).state == CellState::Revealed,
    decreases i,
{
    let none = Seq::<(int, int)>::empty();
    assert(g0.hidden_at(path[i].0, path[i].1));
    assert(g0.hidden_at(path[0].0, path[0].1));
    if i == 0 {
        assert(!none.contains((ox, oy)));
    } else {
        lemma_flood_path_done(g0, cur, ox, oy, path, i - 1);
        assert(g0.flood_step(path, i - 1));
        let (px, py) = path[i - 1];
        let (x, y) = path[i];
        assert(flood_cell_ok(g0, cur, ox, oy, x, y));
        if cur.cell(x, y).state != CellState::Revealed {
            assert(flood_front(g0, cur, px, py, x, y));
            assert(none.contains((x, y)));
        }
    }
}

/// When nothing is left to visit, the grid is the one that the reveal is
/// defined to give.
pub proof fn lemma_flood_done(g0: Grid, cur: Grid, ox: int, oy: int)
    requires
        flood_progress(g0, cur, ox, oy, Seq::empty()),
    ensures
        cur == g0.flood_revealed(ox, oy),
{
    let target = g0.flood_revealed(ox, oy);
    assert forall|i: int| 0 <= i < cur.cells.len() implies cur.cells[i] == target.cells[i] by {
        lemma_position_of_index(g0, i);
        let x = g0.col(i);
        let y = g0.row(i);
        assert(flood_cell_ok(g0, cur, ox, oy, x, y));
        if g0.flood_reaches(ox, oy, x, y) {
            let path = choose|path: Seq<(int, int)>| #[trigger]
                g0.is_flood_path(ox, oy, path) && path.last() == (x, y);
            lemma_flood_path_done(g0, cur, ox, oy, path, path.len() - 1);
            lemma_flood_reached_hidden(g0, ox, oy, x, y);
        }
    }
    assert(cur.cells =~= target.cells);
}

/// A reveal changes what the player sees, never what a cell holds.
pub proof fn lemma_flood_keeps_layout(g: Grid, ox: int, oy: int)
    ensures
        g.same_layout(g.flood_revealed(ox, oy)),
{
}

/// A reveal at a hidden mine reveals that cell and nothing else.
pub proof fn lemma_flood_of_mine(g: Grid, ox: int, oy: int)
    requires
        g.wf(),
        g.hidden_at(ox, oy),
        g.mine_at(ox, oy),
    ensures
        g.flood_revealed(ox, oy) == g.with_cell(ox, oy, revealed(g.cell(ox, oy))),
{
    let flooded = g.flood_revealed(ox, oy);
    let single = g.with_cell(ox, oy, revealed(g.cell(ox, oy)));
    lemma_index_of_position(g, ox, oy);
    lemma_flood_origin(g, ox, oy);
    assert forall|i: int| 0 <= i < g.cells.len() implies flooded.cells[i] == single.cells[i] by {
        lemma_position_of_index(g, i);
        if g.flood_reaches(ox, oy, g.col(i), g.row(i)) {
            lemma_flood_stops_at_mine(g, ox, oy, g.col(i), g.row(i));
        }
    }
    assert(flooded.cells =~= single.cells);
}

/// When all eight positions around `(x, y)` have been visited, the grid is
/// the one that a click on a revealed number is defined to give.
pub proof fn lemma_chord_done(g0: Grid, cur: Grid, x: int, y: int)
    requires
        g0.wf(),
        changed_around(g0, cur, x, y, 8, |c: CellBox| chord_opened(c)),
    ensures
        cur == g0.chord_revealed(x, y),
        g0.same_layout(cur),
{
    lemma_change_done(g0, cur, x, y, |c: CellBox| chord_opened(c));
    assert(cur.cells =~= g0.chord_revealed(x, y).cells);
}

/// A click on a revealed number reveals a mine exactly if one of the eight
/// positions around it holds a mine without a flag.
pub proof fn lemma_chord_hit(g: Grid, x: int, y: int, hit: bool)
    requires
        hit <==> exists|k: int|
            0 <= k < 8 && #[trigger] g.chord_opens(x, y, around(x, y)[k].0, around(x, y)[k].1)
                && g.mine_at(around(x, y)[k].0, around(x, y)[k].1),
    ensures
        hit <==> g.chord_hits_mine(x, y),
{
    lemma_around(x, y);
    let a = around(x, y);
    if g.chord_hits_mine(x, y) {
        let (nx, ny) = choose|nx: int, ny: int| #[trigger]
            g.chord_opens(x, y, nx, ny) && g.mine_at(nx, ny);
        assert(a.contains((nx, ny)));
        let k = choose|k: int| 0 <= k < a.len() && a[k] == (nx, ny);
        assert(g.chord_opens(x, y, a[k].0, a[k].1));
    }
}

/// A click changes what the player sees, never what a cell holds.
pub proof fn lemma_click_keeps_layout(g: Grid, x: int, y: int)
    ensures
        g.same_layout(g.clicked(x, y)),
{
}

/// A reveal that spreads from any position takes no flag off and puts none
/// on: it reveals hidden cells only.
pub proof fn lemma_flood_keeps_flags(g: Grid, x: int, y: int)
    requires
        g.wf(),
    ensures
        g.flood_revealed(x, y).flag_count() == g.flag_count(),
{
    let after = g.flood_revealed(x, y);
    assert forall|i: int| 0 <= i < g.cells.len()
        implies ((#[trigger] g.cells[i]).state == CellState::Flagged
        <==> after.cells[i].state == CellState::Flagged) by {
        lemma_position_of_index(g, i);
        if g.flood_reaches(x, y, g.col(i), g.row(i)) {
            lemma_flood_reached_hidden(g, x, y, g.col(i), g.row(i));
        }
    }
    lemma_same_flags_counted(g.cells, after.cells);
}

/// Revealing the cells around any position that bear no flag takes no flag
/// off and puts none on.
pub proof fn lemma_chord_keeps_flags(g: Grid, x: int, y: int)
    ensures
        g.chord_revealed(x, y).flag_count() == g.flag_count(),
{
    let after = g.chord_revealed(x, y);
    assert forall|i: int| 0 <= i < g.cells.len()
        implies ((#[trigger] g.cells[i]).state == CellState::Flagged
        <==> after.cells[i].state == CellState::Flagged) by {
        assert(chord_opened(g.cells[i]).state == CellState::Flagged <==> g.cells[i].state
            == CellState::Flagged);
    }
    lemma_same_flags_counted(g.cells, after.cells);
}

} // verus!
