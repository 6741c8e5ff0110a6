//! The laying of mines: which cells get one, and how the numbers around a
//! new mine are raised.

use crate::grid::{
    adjacent, around, changed_around, lemma_around, lemma_count_mines_update,
    lemma_index_injective, lemma_index_of_position, lemma_mines_around_bound,
    lemma_position_of_index, lemma_same_mines_counted, lemma_with_cell, Grid,
};
use crate::types::{CellBox, CellKind};
use vstd::prelude::*;

verus! {

impl Grid {
    /// Where the cell at `(x, y)` is stored, or -1 for a position off the
    /// grid.
    pub open spec fn place_of(self, x: int, y: int) -> int {
        if self.contains(x, y) {
            self.index(x, y)
        } else {
            -1
        }
    }

    /// `after` is this grid with mines laid at `places`, and nowhere else:
    /// what the player sees is unchanged, and every number is right.
    pub open spec fn mined(self, after: Grid, places: Set<int>) -> bool {
        &&& after.width == self.width
        &&& after.height == self.height
        &&& after.cells.len() == self.cells.len()
        &&& forall|i: int|
            0 <= i < self.cells.len() ==> (#[trigger] after.cells[i]).state
                == self.cells[i].state
        &&& forall|i: int|
            0 <= i < self.cells.len() ==> ((#[trigger] after.cells[i]).kind == CellKind::Mine
                <==> places.contains(i))
        &&& after.counts_consistent()
    }
}

/// `order` lists each of the places `0 .. n` once.
pub open spec fn is_shuffle(order: Seq<usize>, n: nat) -> bool {
    &&& order.len() == n
    &&& order.no_duplicates()
    &&& forall|i: int| 0 <= i < order.len() ==> (#[trigger] order[i]) < n
}

/// The place of mine number `i`: the `i`-th of `order`, unless that is the
/// place to avoid: then the one that follows the first `mines` of `order`.
pub open spec fn mine_pick(order: Seq<usize>, mines: nat, avoid: int, i: int) -> int {
    if order[i] == avoid {
        order[mines as int] as int
    } else {
        order[i] as int
    }
}

/// The places of the first `laid` of `mines` mines.
pub open spec fn laid_places(order: Seq<usize>, mines: nat, avoid: int, laid: nat) -> Set<int> {
    Set::new(
        |p: int| exists|i: int| 0 <= i < laid && #[trigger] mine_pick(order, mines, avoid, i) == p,
    )
}

/// The places of the mines.
pub open spec fn mine_places(order: Seq<usize>, mines: nat, avoid: int) -> Set<int> {
    laid_places(order, mines, avoid, mines)
}

/// The picks are places inside the grid, no two of them the same, and none
/// the place to avoid.
pub proof fn lemma_picks_distinct(order: Seq<usize>, n: nat, mines: nat, avoid: int, i: int, j: int)
    requires
        is_shuffle(order, n),
        mines < n,
        0 <= i < mines,
        0 <= j < mines,
    ensures
        0 <= mine_pick(order, mines, avoid, i) < n,
        mine_pick(order, mines, avoid, i) != avoid,
        i != j ==> mine_pick(order, mines, avoid, i) != mine_pick(order, mines, avoid, j),
{
    assert(order[i] < n);
    assert(order[mines as int] < n);
}

/// The cell `c` with its number raised by one; a mine stays a mine.
pub open spec fn bumped(c: CellBox) -> CellBox {
    match c.kind {
        CellKind::Number(n) => CellBox { kind: CellKind::Number((n + 1) as u8), state: c.state },
        CellKind::Mine => c,
    }
}

/// `cur` is `g1` with the numbers raised at the first `k` of the positions
/// around `(mx, my)`.
pub open spec fn raised_around(g1: Grid, cur: Grid, mx: int, my: int, k: int) -> bool {
    changed_around(g1, cur, mx, my, k, |c: CellBox| bumped(c))
}

/// Laying a mine on a cell that held none, and raising the numbers around
/// it, gives a grid with that one mine more and every number right.
pub proof fn lemma_mine_laid(g0: Grid, cur: Grid, mx: int, my: int)
    requires
        g0.wf(),
        g0.counts_consistent(),
        g0.contains(mx, my),
        !g0.mine_at(mx, my),
        raised_around(
            g0.with_cell(mx, my, CellBox { kind: CellKind::Mine, state: g0.cell(mx, my).state }),
            cur,
            mx,
            my,
            8,
        ),
    ensures
        cur.counts_consistent(),
        cur.cells.len() == g0.cells.len(),
        forall|i: int|
            0 <= i < g0.cells.len() ==> (#[trigger] cur.cells[i]).state == g0.cells[i].state,
        forall|i: int|
            0 <= i < g0.cells.len() ==> ((#[trigger] cur.cells[i]).kind == CellKind::Mine <==> (
            g0.cells[i].kind == CellKind::Mine || i == g0.index(mx, my))),
        cur.mine_count() == g0.mine_count() + 1,
{
    let mine = CellBox { kind: CellKind::Mine, state: g0.cell(mx, my).state };
    let g1 = g0.with_cell(mx, my, mine);
    let a = around(mx, my);
    lemma_with_cell(g0, mx, my, mine);
    lemma_around(mx, my);
    lemma_index_of_position(g0, mx, my);
    assert(a.take(8) =~= a);
    // What each cell has become.
    assert forall|x: int, y: int| g0.contains(x, y) implies (#[trigger] cur.cell(x, y)).state
        == g0.cell(x, y).state && (cur.cell(x, y).kind == CellKind::Mine <==> (g0.cell(x, y).kind
        == CellKind::Mine || (x == mx && y == my))) && (cur.cell(x, y).kind == if x == mx && y
        == my {
        CellKind::Mine
    } else if adjacent(mx, my, x, y) {
        bumped(g0.cell(x, y)).kind
    } else {
        g0.cell(x, y).kind
    }) by {
        assert(a.contains((x, y)) <==> adjacent(mx, my, x, y));
        if !(x == mx && y == my) {
            assert(g1.cell(x, y) == g0.cell(x, y));
        }
    }
    assert forall|x: int, y: int| #[trigger]
        cur.mine_weight(x, y) == g0.mine_weight(x, y) + if x == mx && y == my {
            1int
        } else {
            0int
        } by {
        if g0.contains(x, y) {
            assert(cur.cell(x, y).state == g0.cell(x, y).state);
        }
    }
    assert forall|x: int, y: int| cur.contains(x, y)
        implies match (#[trigger] cur.cell(x, y)).kind {
        CellKind::Mine => true,
        CellKind::Number(n) => n == cur.mines_around(x, y),
    } by {
        assert(g0.cell(x, y).state == cur.cell(x, y).state);
        lemma_mines_around_bound(g0, x, y);
        if adjacent(mx, my, x, y) {
            assert(cur.mines_around(x, y) == g0.mines_around(x, y) + 1);
        } else {
            assert(cur.mines_around(x, y) == g0.mines_around(x, y));
        }
    }
    assert forall|i: int| 0 <= i < g0.cells.len() implies (#[trigger] cur.cells[i]).state
        == g0.cells[i].state && (cur.cells[i].kind == CellKind::Mine <==> (g0.cells[i].kind
        == CellKind::Mine || i == g0.index(mx, my))) by {
        lemma_position_of_index(g0, i);
        let x = g0.col(i);
        let y = g0.row(i);
        assert(cur.cell(x, y).state == g0.cell(x, y).state);
        if i == g0.index(mx, my) {
            lemma_index_injective(g0, x, y, mx, my);
        }
    }
    lemma_count_mines_update(g0.cells, g0.index(mx, my), mine);
    assert forall|i: int| 0 <= i < cur.cells.len() implies ((#[trigger] cur.cells[i]).kind
        == CellKind::Mine <==> g1.cells[i].kind == CellKind::Mine) by {
        assert(cur.cells[i].state == g0.cells[i].state);
    }
    lemma_same_mines_counted(cur.cells, g1.cells);
}

} // verus!
