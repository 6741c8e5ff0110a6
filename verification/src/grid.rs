//! The board as a mathematical object: a rectangle of cells, with the
//! notions that the rules of the game are stated in.

use crate::types::{CellBox, CellKind, CellState};
use vstd::prelude::*;

verus! {

/// Two distinct positions that touch, by a side or by a corner.
pub open spec fn adjacent(x1: int, y1: int, x2: int, y2: int) -> bool {
    &&& -1 <= x2 - x1 <= 1
    &&& -1 <= y2 - y1 <= 1
    &&& !(x1 == x2 && y1 == y2)
}

/// The cell `c` with its state set to `Revealed`.
pub open spec fn revealed(c: CellBox) -> CellBox {
    CellBox { kind: c.kind, state: CellState::Revealed }
}

/// The cell `c` after the player toggled its flag: a hidden cell gets a
/// flag, a flagged one loses it, a revealed one stays as it is.
pub open spec fn flag_toggled(c: CellBox) -> CellBox {
    match c.state {
        CellState::Hidden => CellBox { kind: c.kind, state: CellState::Flagged },
        CellState::Flagged => CellBox { kind: c.kind, state: CellState::Hidden },
        CellState::Revealed => c,
    }
}

/// How many of `cells` are in state `state`.
pub open spec fn count_state(cells: Seq<CellBox>, state: CellState) -> nat
    decreases cells.len(),
{
    if cells.len() == 0 {
        0
    } else {
        count_state(cells.drop_last(), state) + if cells.last().state == state {
            1nat
        } else {
            0nat
        }
    }
}

/// How many of `cells` are mines.
pub open spec fn count_mines(cells: Seq<CellBox>) -> nat
    decreases cells.len(),
{
    if cells.len() == 0 {
        0
    } else {
        count_mines(cells.drop_last()) + if cells.last().kind == CellKind::Mine {
            1nat
        } else {
            0nat
        }
    }
}

/// A rectangle of cells, stored row by row.
pub struct Grid {
    pub width: nat,
    pub height: nat,
    pub cells: Seq<CellBox>,
}

impl Grid {
    /// There is one cell for each position.
    pub open spec fn wf(self) -> bool {
        self.cells.len() == self.width * self.height
    }

    /// The position lies on the grid.
    pub open spec fn contains(self, x: int, y: int) -> bool {
        0 <= x < self.width && 0 <= y < self.height
    }

    /// Where the cell at a position is stored.
    pub open spec fn index(self, x: int, y: int) -> int {
        y * self.width + x
    }

    /// The column of the cell stored at `i`.
    pub open spec fn col(self, i: int) -> int {
        i % (self.width as int)
    }

    /// The row of the cell stored at `i`.
    pub open spec fn row(self, i: int) -> int {
        i / (self.width as int)
    }

    /// The cell at a position on the grid.
    pub open spec fn cell(self, x: int, y: int) -> CellBox {
        self.cells[self.index(x, y)]
    }

    /// The grid with the cell at a position replaced.
    pub open spec fn with_cell(self, x: int, y: int, c: CellBox) -> Grid {
        Grid { cells: self.cells.update(self.index(x, y), c), ..self }
    }

    /// The position lies on the grid and holds a mine.
    pub open spec fn mine_at(self, x: int, y: int) -> bool {
        self.contains(x, y) && self.cell(x, y).kind == CellKind::Mine
    }

    /// The position lies on the grid and its cell is hidden.
    pub open spec fn hidden_at(self, x: int, y: int) -> bool {
        self.contains(x, y) && self.cell(x, y).state == CellState::Hidden
    }

    /// The position lies on the grid and its cell shows that no mine is
    /// around it.
    pub open spec fn zero_at(self, x: int, y: int) -> bool {
        self.contains(x, y) && self.cell(x, y).kind == CellKind::Number(0)
    }

    /// 1 if the position holds a mine, else 0.
    pub open spec fn mine_weight(self, x: int, y: int) -> int {
        if self.mine_at(x, y) {
            1
        } else {
            0
        }
    }

    /// The number of mines on the up to eight positions around `(x, y)`.
    pub open spec fn mines_around(self, x: int, y: int) -> int {
        self.mine_weight(x - 1, y - 1) + self.mine_weight(x, y - 1) + self.mine_weight(
            x + 1,
            y - 1,
        ) + self.mine_weight(x - 1, y) + self.mine_weight(x + 1, y) + self.mine_weight(
            x - 1,
            y + 1,
        ) + self.mine_weight(x, y + 1) + self.mine_weight(x + 1, y + 1)
    }

    /// Every cell that is no mine shows the number of mines around it.
    pub open spec fn counts_consistent(self) -> bool {
        forall|x: int, y: int|
            self.contains(x, y) ==> match (#[trigger] self.cell(x, y)).kind {
                CellKind::Mine => true,
                CellKind::Number(n) => n == self.mines_around(x, y),
            }
    }

    /// No mine has been laid: every cell shows zero.
    pub open spec fn blank(self) -> bool {
        forall|i: int|
            0 <= i < self.cells.len() ==> (#[trigger] self.cells[i]).kind == CellKind::Number(0)
    }

    /// Every cell that is no mine has been revealed: the game is won.
    pub open spec fn cleared(self) -> bool {
        forall|i: int|
            0 <= i < self.cells.len() ==> (#[trigger] self.cells[i]).kind != CellKind::Mine
                ==> self.cells[i].state == CellState::Revealed
    }

    /// The number of mines on the grid.
    pub open spec fn mine_count(self) -> nat {
        count_mines(self.cells)
    }

    /// The number of flags on the grid.
    pub open spec fn flag_count(self) -> nat {
        count_state(self.cells, CellState::Flagged)
    }

    /// The grid after the player toggled the flag at `(x, y)`; a position
    /// off the grid changes nothing.
    pub open spec fn toggled(self, x: int, y: int) -> Grid {
        if self.contains(x, y) {
            self.with_cell(x, y, flag_toggled(self.cell(x, y)))
        } else {
            self
        }
    }

    /// The grid with every mine revealed.
    pub open spec fn mines_shown(self) -> Grid {
        Grid {
            cells: Seq::new(
                self.cells.len(),
                |i: int|
                    if self.cells[i].kind == CellKind::Mine {
                        revealed(self.cells[i])
                    } else {
                        self.cells[i]
                    },
            ),
            ..self
        }
    }

    /// A grid of the given size with every cell hidden and no mine.
    pub open spec fn blank_of(width: nat, height: nat) -> Grid {
        Grid {
            width,
            height,
            cells: Seq::new(
                width * height,
                |i: int| CellBox { kind: CellKind::Number(0), state: CellState::Hidden },
            ),
        }
    }

    /// Two grids of one shape whose cells hold the same: only what the
    /// player sees of them may differ.
    pub open spec fn same_layout(self, other: Grid) -> bool {
        &&& self.width == other.width
        &&& self.height == other.height
        &&& self.cells.len() == other.cells.len()
        &&& forall|i: int|
            0 <= i < self.cells.len() ==> (#[trigger] self.cells[i]).kind == other.cells[i].kind
    }
}

/// A position on a grid has its cell stored inside the grid, and the place
/// gives the position back.
pub proof fn lemma_index_of_position(g: Grid, x: int, y: int)
    requires
        g.contains(x, y),
    ensures
        0 <= g.index(x, y) < g.width * g.height,
        g.col(g.index(x, y)) == x,
        g.row(g.index(x, y)) == y,
{
    let w = g.width as int;
    let h = g.height as int;
    assert(0 <= y * w + x < w * h) by (nonlinear_arith)
        requires
            0 <= x < w,
            0 <= y < h,
    ;
    vstd::arithmetic::div_mod::lemma_fundamental_div_mod_converse(y * w + x, w, y, x);
}

/// Every place inside the grid is that of one position on it.
pub proof fn lemma_position_of_index(g: Grid, i: int)
    requires
        0 <= i < g.width * g.height,
    ensures
        g.contains(g.col(i), g.row(i)),
        g.index(g.col(i), g.row(i)) == i,
{
    let w = g.width as int;
    let h = g.height as int;
    assert(w > 0) by (nonlinear_arith)
        requires
            0 <= i < w * h,
            w >= 0,
    ;
    vstd::arithmetic::div_mod::lemma_fundamental_div_mod(i, w);
    vstd::arithmetic::div_mod::lemma_mod_bound(i, w);
    assert(0 <= i / w < h) by (nonlinear_arith)
        requires
            0 <= i < w * h,
            w > 0,
            i == w * (i / w) + i % w,
            0 <= i % w < w,
    ;
    assert(w * (i / w) == (i / w) * w) by (nonlinear_arith);
}

/// Two positions on a grid whose cells are stored at one place are the
/// same position.
pub proof fn lemma_index_injective(g: Grid, x1: int, y1: int, x2: int, y2: int)
    requires
        g.contains(x1, y1),
        g.contains(x2, y2),
        g.index(x1, y1) == g.index(x2, y2),
    ensures
        x1 == x2,
        y1 == y2,
{
    lemma_index_of_position(g, x1, y1);
    lemma_index_of_position(g, x2, y2);
}

/// Replacing one cell changes the cell at that position and no other.
pub proof fn lemma_with_cell(g: Grid, x: int, y: int, c: CellBox)
    requires
        g.wf(),
        g.contains(x, y),
    ensures
        g.with_cell(x, y, c).wf(),
        g.with_cell(x, y, c).cell(x, y) == c,
        forall|x2: int, y2: int|
            g.contains(x2, y2) && !(x2 == x && y2 == y) ==> #[trigger] g.with_cell(x, y, c).cell(
                x2,
                y2,
            ) == g.cell(x2, y2),
{
    lemma_index_of_position(g, x, y);
    assert forall|x2: int, y2: int| g.contains(x2, y2) && !(x2 == x && y2 == y)
        implies #[trigger] g.with_cell(x, y, c).cell(x2, y2) == g.cell(x2, y2) by {
        lemma_index_of_position(g, x2, y2);
        if g.index(x2, y2) == g.index(x, y) {
            lemma_index_injective(g, x, y, x2, y2);
        }
    }
}

/// Replacing one cell changes each count by what the old and the new cell
/// contribute to it.
pub proof fn lemma_count_state_update(cells: Seq<CellBox>, i: int, c: CellBox, state: CellState)
    requires
        0 <= i < cells.len(),
    ensures
        count_state(cells.update(i, c), state) + (if cells[i].state == state {
            1int
        } else {
            0int
        }) == count_state(cells, state) + (if c.state == state {
            1int
        } else {
            0int
        }),
    decreases cells.len(),
{
    let updated = cells.update(i, c);
    if i == cells.len() - 1 {
        assert(updated.drop_last() =~= cells.drop_last());
    } else {
        assert(updated.drop_last() =~= cells.drop_last().update(i, c));
        lemma_count_state_update(cells.drop_last(), i, c, state);
    }
}

/// Replacing one cell changes the number of mines by what the old and the
/// new cell contribute to it.
pub proof fn lemma_count_mines_update(cells: Seq<CellBox>, i: int, c: CellBox)
    requires
        0 <= i < cells.len(),
    ensures
        count_mines(cells.update(i, c)) + (if cells[i].kind == CellKind::Mine {
            1int
        } else {
            0int
        }) == count_mines(cells) + (if c.kind == CellKind::Mine {
            1int
        } else {
            0int
        }),
    decreases cells.len(),
{
    let updated = cells.update(i, c);
    if i == cells.len() - 1 {
        assert(updated.drop_last() =~= cells.drop_last());
    } else {
        assert(updated.drop_last() =~= cells.drop_last().update(i, c));
        lemma_count_mines_update(cells.drop_last(), i, c);
    }
}

/// No count exceeds the number of cells.
pub proof fn lemma_count_state_bound(cells: Seq<CellBox>, state: CellState)
    ensures
        count_state(cells, state) <= cells.len(),
    decreases cells.len(),
{
    if cells.len() > 0 {
        lemma_count_state_bound(cells.drop_last(), state);
    }
}

/// On a grid that has cells, neither side is longer than the number of
/// cells.
pub proof fn lemma_sides_fit(g: Grid)
    requires
        g.width * g.height > 0,
    ensures
        1 <= g.width <= g.width * g.height,
        1 <= g.height <= g.width * g.height,
{
    let w = g.width as int;
    let h = g.height as int;
    assert(1 <= w <= w * h && 1 <= h <= w * h) by (nonlinear_arith)
        requires
            w * h > 0,
            w >= 0,
            h >= 0,
    ;
}

/// A grid without mines shows the right number everywhere.
pub proof fn lemma_blank_is_consistent(g: Grid)
    requires
        g.wf(),
        g.blank(),
    ensures
        g.counts_consistent(),
        g.mine_count() == 0,
{
    assert forall|x: int, y: int| g.contains(x, y) implies !g.mine_at(x, y) by {
        lemma_index_of_position(g, x, y);
    }
    assert forall|x: int, y: int| g.contains(x, y) implies match (#[trigger] g.cell(x, y)).kind {
        CellKind::Mine => true,
        CellKind::Number(n) => n == g.mines_around(x, y),
    } by {
        lemma_index_of_position(g, x, y);
    }
    lemma_no_mines_counted(g.cells);
}

/// Cells none of which is a mine count no mines.
pub proof fn lemma_no_mines_counted(cells: Seq<CellBox>)
    requires
        forall|i: int| 0 <= i < cells.len() ==> (#[trigger] cells[i]).kind != CellKind::Mine,
    ensures
        count_mines(cells) == 0,
    decreases cells.len(),
{
    if cells.len() > 0 {
        lemma_no_mines_counted(cells.drop_last());
    }
}

/// The eight positions around `(x, y)`, row by row.
pub open spec fn around(x: int, y: int) -> Seq<(int, int)> {
    seq![
        (x - 1, y - 1),
        (x, y - 1),
        (x + 1, y - 1),
        (x - 1, y),
        (x + 1, y),
        (x - 1, y + 1),
        (x, y + 1),
        (x + 1, y + 1),
    ]
}

/// The positions around `(x, y)` are those that touch it.
pub proof fn lemma_around(x: int, y: int)
    ensures
        around(x, y).len() == 8,
        forall|nx: int, ny: int|
            adjacent(x, y, nx, ny) <==> #[trigger] around(x, y).contains((nx, ny)),
{
    let a = around(x, y);
    assert forall|nx: int, ny: int| adjacent(x, y, nx, ny)
        implies #[trigger] a.contains((nx, ny)) by {
        if ny == y - 1 {
            if nx == x - 1 {
                assert(a[0] == (nx, ny));
            } else if nx == x {
                assert(a[1] == (nx, ny));
            } else {
                assert(a[2] == (nx, ny));
            }
        } else if ny == y {
            if nx == x - 1 {
                assert(a[3] == (nx, ny));
            } else {
                assert(a[4] == (nx, ny));
            }
        } else {
            if nx == x - 1 {
                assert(a[5] == (nx, ny));
            } else if nx == x {
                assert(a[6] == (nx, ny));
            } else {
                assert(a[7] == (nx, ny));
            }
        }
    }
    assert forall|nx: int, ny: int| #[trigger] a.contains((nx, ny))
        implies adjacent(x, y, nx, ny) by {
        let k = choose|k: int| 0 <= k < a.len() && a[k] == (nx, ny);
        assert(a[k] == (nx, ny));
    }
}

/// A mine next to a position is counted among the mines around it.
pub proof fn lemma_mine_is_counted(g: Grid, x: int, y: int, mx: int, my: int)
    requires
        adjacent(x, y, mx, my),
        g.mine_at(mx, my),
    ensures
        g.mines_around(x, y) >= 1,
{
}

/// Cells with flags at the same places bear as many flags.
pub proof fn lemma_same_flags_counted(a: Seq<CellBox>, b: Seq<CellBox>)
    requires
        a.len() == b.len(),
        forall|i: int|
            0 <= i < a.len() ==> ((#[trigger] a[i]).state == CellState::Flagged <==> b[i].state
                == CellState::Flagged),
    ensures
        count_state(a, CellState::Flagged) == count_state(b, CellState::Flagged),
    decreases a.len(),
{
    if a.len() > 0 {
        assert(a.last().state == CellState::Flagged <==> b.last().state == CellState::Flagged);
        assert forall|i: int| 0 <= i < a.drop_last().len()
            implies ((#[trigger] a.drop_last()[i]).state == CellState::Flagged
            <==> b.drop_last()[i].state == CellState::Flagged) by {
            assert(a[i].state == CellState::Flagged <==> b[i].state == CellState::Flagged);
        }
        lemma_same_flags_counted(a.drop_last(), b.drop_last());
    }
}

/// Cells with mines at the same places hold as many mines.
pub proof fn lemma_same_mines_counted(a: Seq<CellBox>, b: Seq<CellBox>)
    requires
        a.len() == b.len(),
        forall|i: int|
            0 <= i < a.len() ==> ((#[trigger] a[i]).kind == CellKind::Mine <==> b[i].kind
                == CellKind::Mine),
    ensures
        count_mines(a) == count_mines(b),
    decreases a.len(),
{
    if a.len() > 0 {
        assert(a.last().kind == CellKind::Mine <==> b.last().kind == CellKind::Mine);
        assert forall|i: int| 0 <= i < a.drop_last().len()
            implies ((#[trigger] a.drop_last()[i]).kind == CellKind::Mine
            <==> b.drop_last()[i].kind == CellKind::Mine) by {
            assert(a[i].kind == CellKind::Mine <==> b[i].kind == CellKind::Mine);
        }
        lemma_same_mines_counted(a.drop_last(), b.drop_last());
    }
}

/// Two grids that hold the same have their mines at the same positions,
/// so what is true of the numbers of one is true of the other's.
pub proof fn lemma_same_layout(g1: Grid, g2: Grid)
    requires
        g1.wf(),
        g1.same_layout(g2),
    ensures
        g2.wf(),
        forall|x: int, y: int| #[trigger] g2.mine_weight(x, y) == g1.mine_weight(x, y),
        g1.counts_consistent() ==> g2.counts_consistent(),
        g1.blank() ==> g2.blank(),
        g2.mine_count() == g1.mine_count(),
{
    assert forall|x: int, y: int| #[trigger] g2.mine_weight(x, y) == g1.mine_weight(x, y) by {
        if g1.contains(x, y) {
            lemma_index_of_position(g1, x, y);
            assert(g1.cells[g1.index(x, y)].kind == g2.cells[g1.index(x, y)].kind);
        }
    }
    if g1.counts_consistent() {
        assert forall|x: int, y: int| g2.contains(x, y) implies match (#[trigger] g2.cell(
            x,
            y,
        )).kind {
            CellKind::Mine => true,
            CellKind::Number(n) => n == g2.mines_around(x, y),
        } by {
            lemma_index_of_position(g1, x, y);
            assert(g1.cell(x, y).kind == g2.cell(x, y).kind);
        }
    }
    if g1.blank() {
        assert forall|i: int| 0 <= i < g2.cells.len() implies (#[trigger] g2.cells[i]).kind
            == CellKind::Number(0) by {
            assert(g1.cells[i].kind == g2.cells[i].kind);
        }
    }
    lemma_same_mines_counted(g1.cells, g2.cells);
}

/// `cur` is `g1` with `change` applied to the cells at the first `k` of the
/// positions around `(mx, my)`.
pub open spec fn changed_around(
    g1: Grid,
    cur: Grid,
    mx: int,
    my: int,
    k: int,
    change: spec_fn(CellBox) -> CellBox,
) -> bool {
    &&& cur.wf()
    &&& cur.width == g1.width
    &&& cur.height == g1.height
    &&& forall|x: int, y: int|
        g1.contains(x, y) ==> #[trigger] cur.cell(x, y) == if around(mx, my).take(k).contains(
            (x, y),
        ) {
            change(g1.cell(x, y))
        } else {
            g1.cell(x, y)
        }
}

/// Nothing has been changed before the first of the positions around
/// `(mx, my)` is visited.
pub proof fn lemma_change_start(g1: Grid, mx: int, my: int, change: spec_fn(CellBox) -> CellBox)
    requires
        g1.wf(),
    ensures
        changed_around(g1, g1, mx, my, 0, change),
{
    assert(around(mx, my).take(0) =~= Seq::<(int, int)>::empty());
}

/// Changing the cell at the next position around `(mx, my)`, if it lies on
/// the grid, goes one step on.
pub proof fn lemma_change_step(
    g1: Grid,
    cur: Grid,
    mx: int,
    my: int,
    k: int,
    change: spec_fn(CellBox) -> CellBox,
)
    requires
        g1.wf(),
        changed_around(g1, cur, mx, my, k, change),
        0 <= k < 8,
    ensures
        ({
            let (nx, ny) = around(mx, my)[k];
            &&& cur.contains(nx, ny) ==> cur.cell(nx, ny) == g1.cell(nx, ny) && changed_around(
                g1,
                cur.with_cell(nx, ny, change(cur.cell(nx, ny))),
                mx,
                my,
                k + 1,
                change,
            )
            &&& !cur.contains(nx, ny) ==> changed_around(g1, cur, mx, my, k + 1, change)
        }),
{
    let a = around(mx, my);
    let (nx, ny) = a[k];
    let before = a.take(k);
    let upto = a.take(k + 1);
    assert(upto[k] == (nx, ny));
    assert forall|p: (int, int)| upto.contains(p) <==> before.contains(p) || p == (nx, ny) by {
        if before.contains(p) {
            let j = choose|j: int| 0 <= j < before.len() && before[j] == p;
            assert(upto[j] == p);
        }
        if upto.contains(p) {
            let j = choose|j: int| 0 <= j < upto.len() && upto[j] == p;
            if j < k {
                assert(before[j] == p);
            }
        }
    }
    assert(!before.contains((nx, ny))) by {
        if before.contains((nx, ny)) {
            let j = choose|j: int| 0 <= j < before.len() && before[j] == (nx, ny);
            assert(a[j] == a[k]);
        }
    }
    if cur.contains(nx, ny) {
        let next = cur.with_cell(nx, ny, change(cur.cell(nx, ny)));
        lemma_with_cell(cur, nx, ny, change(cur.cell(nx, ny)));
        assert forall|x: int, y: int| g1.contains(x, y)
            implies #[trigger] next.cell(x, y) == if upto.contains((x, y)) {
            change(g1.cell(x, y))
        } else {
            g1.cell(x, y)
        } by {
            assert(cur.cell(x, y) == if before.contains((x, y)) {
                change(g1.cell(x, y))
            } else {
                g1.cell(x, y)
            });
        }
    } else {
        assert forall|x: int, y: int| g1.contains(x, y)
            implies #[trigger] cur.cell(x, y) == if upto.contains((x, y)) {
            change(g1.cell(x, y))
        } else {
            g1.cell(x, y)
        } by {
            assert(cur.cell(x, y) == if before.contains((x, y)) {
                change(g1.cell(x, y))
            } else {
                g1.cell(x, y)
            });
        }
    }
}

/// When all eight positions around `(mx, my)` have been visited, the
/// cells that touch it are changed and no others.
pub proof fn lemma_change_done(
    g1: Grid,
    cur: Grid,
    mx: int,
    my: int,
    change: spec_fn(CellBox) -> CellBox,
)
    requires
        g1.wf(),
        changed_around(g1, cur, mx, my, 8, change),
    ensures
        cur.cells.len() == g1.cells.len(),
        forall|i: int|
            0 <= i < g1.cells.len() ==> #[trigger] cur.cells[i] == if adjacent(
                mx,
                my,
                g1.col(i),
                g1.row(i),
            ) {
                change(g1.cells[i])
            } else {
                g1.cells[i]
            },
{
    let a = around(mx, my);
    lemma_around(mx, my);
    assert(a.take(8) =~= a);
    assert forall|i: int| 0 <= i < g1.cells.len() implies #[trigger] cur.cells[i] == if adjacent(
        mx,
        my,
        g1.col(i),
        g1.row(i),
    ) {
        change(g1.cells[i])
    } else {
        g1.cells[i]
    } by {
        lemma_position_of_index(g1, i);
        let x = g1.col(i);
        let y = g1.row(i);
        assert(cur.cell(x, y) == if a.contains((x, y)) {
            change(g1.cell(x, y))
        } else {
            g1.cell(x, y)
        });
    }
}

/// No more than eight mines lie around a position.
pub proof fn lemma_mines_around_bound(g: Grid, x: int, y: int)
    ensures
        0 <= g.mines_around(x, y) <= 8,
{
}

} // verus!
