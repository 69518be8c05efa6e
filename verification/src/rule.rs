//! The update rule: what a cell becomes, given the generation before.

use vstd::prelude::*;
use crate::board::{cell_at, get_coord, Board, BOARD_HEIGHT, BOARD_WIDTH, CELL_COUNT};
use crate::cell::Cell;

verus! {

/// 1 if `(x, y)` is on the grid and alive, else 0. A position off the grid
/// does not count at all.
pub open spec fn alive_at(cells: Seq<Cell>, x: int, y: int) -> nat {
    if cell_at(cells, x, y) == Some(Cell::Alive) {
        1
    } else {
        0
    }
}

/// The number of live cells among the up to eight neighbours of `(x, y)`.
pub open spec fn live_neighbors(cells: Seq<Cell>, x: int, y: int) -> nat {
    alive_at(cells, x - 1, y - 1) + alive_at(cells, x, y - 1) + alive_at(cells, x + 1, y - 1)
        + alive_at(cells, x - 1, y) + alive_at(cells, x + 1, y) + alive_at(cells, x - 1, y + 1)
        + alive_at(cells, x, y + 1) + alive_at(cells, x + 1, y + 1)
}

/// The `k`-th neighbour offset, in the order in which neighbours are visited.
spec fn neighbor_offset(k: int) -> (int, int) {
    if k == 0 {
        (-1, -1)
    } else if k == 1 {
        (0, -1)
    } else if k == 2 {
        (1, -1)
    } else if k == 3 {
        (-1, 0)
    } else if k == 4 {
        (1, 0)
    } else if k == 5 {
        (-1, 1)
    } else if k == 6 {
        (0, 1)
    } else {
        (1, 1)
    }
}

/// The number of live cells among the first `k` neighbours of `(x, y)`.
spec fn live_among_first(cells: Seq<Cell>, x: int, y: int, k: nat) -> nat
    decreases k,
{
    if k == 0 {
        0
    } else {
        let offset = neighbor_offset(k - 1);
        live_among_first(cells, x, y, (k - 1) as nat) + alive_at(cells, x + offset.0, y + offset.1)
    }
}

/// The next state of a cell from its present state and the number of its
/// live neighbours.
pub open spec fn rule(current: Cell, count: int) -> Cell {
    match current {
        Cell::Alive => if count < 2 {
            Cell::Dead
        } else if count == 2 || count == 3 {
            Cell::Alive
        } else {
            Cell::Dead
        },
        Cell::Dead => if count == 3 {
            Cell::Alive
        } else {
            Cell::Dead
        },
    }
}

/// The cell at index `i` one generation after `cells`.
pub open spec fn next_cell(cells: Seq<Cell>, i: int) -> Cell {
    rule(cells[i], live_neighbors(cells, i % (BOARD_WIDTH as int), i / (BOARD_WIDTH as int)) as int)
}

/// The generation that follows `cells`: the rule applied to every cell of
/// `cells`, each reading `cells` alone.
pub open spec fn next_generation(cells: Seq<Cell>) -> Seq<Cell> {
    Seq::new(cells.len(), |i: int| next_cell(cells, i))
}

/// Counting the eight neighbours one by one gives their sum.
proof fn lemma_live_among_all(cells: Seq<Cell>, x: int, y: int)
    ensures
        live_among_first(cells, x, y, 8) == live_neighbors(cells, x, y),
{
    reveal_with_fuel(live_among_first, 9);
}

/// A cell never has more than eight live neighbours.
pub proof fn lemma_live_neighbors_bounded(cells: Seq<Cell>, x: int, y: int)
    ensures
        live_neighbors(cells, x, y) <= 8,
{
}

/// An interior cell whose eight neighbours are all alive has a live count of
/// eight.
pub proof fn lemma_interior_all_alive(cells: Seq<Cell>, x: int, y: int)
    requires
        0 < x < BOARD_WIDTH - 1,
        0 < y < BOARD_HEIGHT - 1,
        forall|dx: int, dy: int|
            -1 <= dx <= 1 && -1 <= dy <= 1 && !(dx == 0 && dy == 0) ==> #[trigger] cell_at(
                cells,
                x + dx,
                y + dy,
            ) == Some(Cell::Alive),
    ensures
        live_neighbors(cells, x, y) == 8,
{
    assert(cell_at(cells, x + (-1), y + (-1)) == Some(Cell::Alive));
    assert(cell_at(cells, x + 0, y + (-1)) == Some(Cell::Alive));
    assert(cell_at(cells, x + 1, y + (-1)) == Some(Cell::Alive));
    assert(cell_at(cells, x + (-1), y + 0) == Some(Cell::Alive));
    assert(cell_at(cells, x + 1, y + 0) == Some(Cell::Alive));
    assert(cell_at(cells, x + (-1), y + 1) == Some(Cell::Alive));
    assert(cell_at(cells, x + 0, y + 1) == Some(Cell::Alive));
    assert(cell_at(cells, x + 1, y + 1) == Some(Cell::Alive));
}

/// A corner cell has only three neighbours on the grid, so its live count is
/// at most three, whatever the board holds.
pub proof fn lemma_corner_at_most_three(cells: Seq<Cell>, x: int, y: int)
    requires
        x == 0 || x == BOARD_WIDTH - 1,
        y == 0 || y == BOARD_HEIGHT - 1,
    ensures
        live_neighbors(cells, x, y) <= 3,
{
}

/// A cell on an edge has at most five neighbours on the grid.
pub proof fn lemma_edge_at_most_five(cells: Seq<Cell>, x: int, y: int)
    requires
        x == 0 || x == BOARD_WIDTH - 1 || y == 0 || y == BOARD_HEIGHT - 1,
    ensures
        live_neighbors(cells, x, y) <= 5,
{
}

/// The rule covers every present state and every count from 0 to 8, and a
/// cell is alive afterwards exactly when it has three live neighbours, or is
/// alive and has two.
pub proof fn lemma_rule_table(current: Cell, count: int)
    requires
        0 <= count <= 8,
    ensures
        rule(current, count) == Cell::Alive <==> count == 3 || (current == Cell::Alive && count
            == 2),
        rule(current, count) == Cell::Dead <==> !(count == 3 || (current == Cell::Alive && count
            == 2)),
        current == Cell::Alive && count < 2 ==> rule(current, count) == Cell::Dead,
        current == Cell::Alive && (count == 2 || count == 3) ==> rule(current, count)
            == Cell::Alive,
        current == Cell::Alive && count > 3 ==> rule(current, count) == Cell::Dead,
        current == Cell::Dead && count == 3 ==> rule(current, count) == Cell::Alive,
        current == Cell::Dead && count != 3 ==> rule(current, count) == Cell::Dead,
{
}

/// A generation with no live cell.
pub open spec fn all_dead() -> Seq<Cell> {
    Seq::new(CELL_COUNT as nat, |i: int| Cell::Dead)
}

/// A generation whose only live cell is the one at index `at`.
pub open spec fn lone_cell(at: int) -> Seq<Cell> {
    Seq::new(
        CELL_COUNT as nat,
        |i: int|
            if i == at {
                Cell::Alive
            } else {
                Cell::Dead
            },
    )
}

/// A live cell with no live cell around it dies, and nothing is born beside
/// it: no position sees more than one live neighbour.
pub proof fn lemma_lone_cell_dies(at: int)
    requires
        0 <= at < CELL_COUNT,
    ensures
        next_generation(lone_cell(at)) == all_dead(),
{
    assert forall|i: int| 0 <= i < CELL_COUNT implies next_cell(lone_cell(at), i)
        == Cell::Dead by {
        let x: int = i % 50;
        let y: int = i / 50;
        assert(live_neighbors(lone_cell(at), x, y) <= 1);
    }
    assert(next_generation(lone_cell(at)) =~= all_dead());
}

/// Two computations of the next generation from the same cells agree: the
/// result depends on nothing but the generation before.
pub proof fn lemma_next_generation_deterministic(a: Seq<Cell>, b: Seq<Cell>)
    requires
        a == b,
    ensures
        next_generation(a) == next_generation(b),
        forall|i: int| next_cell(a, i) == next_cell(b, i),
{
}

/// The next state of a cell that is `current` now and has
/// `live_neighbor_count` live neighbours.
pub fn next_state(current: Cell, live_neighbor_count: usize) -> (next: Cell)
    ensures
        next == rule(current, live_neighbor_count as int),
{
    if current.is_alive() {
        if live_neighbor_count < 2 {
            return Cell::Dead;
        } else if live_neighbor_count == 2 || live_neighbor_count == 3 {
            return Cell::Alive;
        } else {
            return Cell::Dead;
        }
    }
    if live_neighbor_count == 3 {
        return Cell::Alive;
    }
    Cell::Dead
}

/// The number of live neighbours of `(x, y)` on `board`. Neighbours off the
/// grid are skipped.
pub fn live_neighbor_count(board: &Board, x: isize, y: isize) -> (count: usize)
    requires
        isize::MIN < x < isize::MAX,
        isize::MIN < y < isize::MAX,
    ensures
        count == live_neighbors(board@, x as int, y as int),
        count <= 8,
{
    let neighbor_offsets: [(isize, isize); 8] = [
        (-1, -1),
        (0, -1),
        (1, -1),
        (-1, 0),
        (1, 0),
        (-1, 1),
        (0, 1),
        (1, 1),
    ];
    let mut count: usize = 0;
    for k in 0..8usize
        invariant
            isize::MIN < x < isize::MAX,
            isize::MIN < y < isize::MAX,
            count == live_among_first(board@, x as int, y as int, k as nat),
            count <= k,
            forall|j: int|
                0 <= j < 8 ==> (#[trigger] neighbor_offsets@[j]).0 == neighbor_offset(j).0
                    && neighbor_offsets@[j].1 == neighbor_offset(j).1,
    {
        let offset: (isize, isize) = neighbor_offsets[k];
        let neighbor = board.get(x + offset.0, y + offset.1);
        match neighbor {
            Some(cell) => {
                if cell.is_alive() {
                    count = count + 1;
                }
            },
            None => {},
        }
    }
    proof {
        lemma_live_among_all(board@, x as int, y as int);
    }
    count
}

/// The state of the cell at `index` in the generation after `last_buf`.
pub fn get_next_cell_state(last_buf: &Board, index: usize) -> (next: Cell)
    requires
        index < CELL_COUNT,
    ensures
        next == next_cell(last_buf@, index as int),
{
    let cur_state: Cell = last_buf.0[index];
    let coord: (isize, isize) = get_coord(index);
    let live_neighbor_count: usize = live_neighbor_count(last_buf, coord.0, coord.1);
    next_state(cur_state, live_neighbor_count)
}

/// Writes into `target` the generation that follows `last`. Every cell is
/// computed from `last`, which is not written, so no cell sees another
/// cell's new value.
pub fn update(last: &Board, target: &mut Board)
    ensures
        final(target)@ == next_generation(last@),
{
    for i in 0..CELL_COUNT
        invariant
            forall|j: int| 0 <= j < i ==> target@[j] == next_cell(last@, j),
    {
        let new_val_for_cell = get_next_cell_state(last, i);
        target.0[i] = new_val_for_cell;
    }
    assert(target@ =~= next_generation(last@));
}

} // verus!
