//! The fixed-size grid of cells, stored row by row.

use vstd::prelude::*;
use crate::cell::Cell;

verus! {

pub const BOARD_HEIGHT: usize = 50;

pub const BOARD_WIDTH: usize = 50;

pub const CELL_COUNT: usize = 2500;

/// Whether `(x, y)` names a position on the grid.
pub open spec fn in_bounds(x: int, y: int) -> bool {
    0 <= x < BOARD_WIDTH && 0 <= y < BOARD_HEIGHT
}

/// The row-major position of `(x, y)` in the cell sequence.
pub open spec fn cell_index(x: int, y: int) -> int {
    y * BOARD_WIDTH + x
}

/// The cell at `(x, y)`, or `None` off the grid. Nothing wraps around.
pub open spec fn cell_at(cells: Seq<Cell>, x: int, y: int) -> Option<Cell> {
    if in_bounds(x, y) {
        Some(cells[cell_index(x, y)])
    } else {
        None
    }
}

/// Whether `(x, y)` lies in the 2 by 2 block at the origin.
pub open spec fn in_seed_block(x: int, y: int) -> bool {
    0 <= x < 2 && 0 <= y < 2
}

/// Generation zero: the 2 by 2 block at the origin alive, all else dead.
pub open spec fn seed() -> Seq<Cell> {
    Seq::new(
        CELL_COUNT as nat,
        |i: int|
            if in_seed_block(i % (BOARD_WIDTH as int), i / (BOARD_WIDTH as int)) {
                Cell::Alive
            } else {
                Cell::Dead
            },
    )
}

/// The pixel buffer of a generation: four bytes per cell, in cell order.
pub open spec fn pixels_of(cells: Seq<Cell>) -> Seq<u8> {
    Seq::new(4 * cells.len(), |k: int| cells[k / 4].pixel()[k % 4])
}

/// A grid of `BOARD_WIDTH` by `BOARD_HEIGHT` cells in row-major order.
pub struct Board(pub [Cell; CELL_COUNT]);

impl View for Board {
    type V = Seq<Cell>;

    open spec fn view(&self) -> Seq<Cell> {
        self.0@
    }
}

impl Board {
    /// A board holding generation zero.
    pub fn new() -> (board: Board)
        ensures
            board@ == seed(),
            forall|x: int, y: int|
                in_bounds(x, y) ==> #[trigger] cell_at(board@, x, y) == Some(
                    if in_seed_block(x, y) {
                        Cell::Alive
                    } else {
                        Cell::Dead
                    },
                ),
    {
        let mut cells = [Cell::Dead;CELL_COUNT];
        cells[0] = Cell::Alive;
        cells[1] = Cell::Alive;
        cells[BOARD_WIDTH] = Cell::Alive;
        cells[BOARD_WIDTH + 1] = Cell::Alive;
        let board = Board(cells);
        assert(board@ =~= seed());
        board
    }

    /// The row-major index of an on-grid position.
    pub fn index(x: isize, y: isize) -> (i: usize)
        requires
            in_bounds(x as int, y as int),
        ensures
            i == cell_index(x as int, y as int),
            i < CELL_COUNT,
    {
        let width: isize = BOARD_WIDTH as isize;
        assert(0 <= y * width <= 2450);
        (y * width + x) as usize
    }

    /// The cell at `(x, y)`; `None` is the only signal for a position off the
    /// grid.
    pub fn get(&self, x: isize, y: isize) -> (cell: Option<Cell>)
        ensures
            cell == cell_at(self@, x as int, y as int),
            cell.is_some() <==> in_bounds(x as int, y as int),
    {
        if x < 0 || y < 0 || x >= BOARD_WIDTH as isize || y >= BOARD_HEIGHT as isize {
            return None;
        }
        let index: usize = Board::index(x, y);
        Some(self.0[index])
    }

    /// The generation as `CELL_COUNT * 4` bytes of row-major RGBA pixels.
    pub fn pixels(&self) -> (bytes: Vec<u8>)
        ensures
            bytes@ == pixels_of(self@),
            bytes@.len() == 4 * CELL_COUNT,
    {
        let mut bytes: Vec<u8> = Vec::with_capacity(CELL_COUNT * 4);
        for i in 0..CELL_COUNT
            invariant
                bytes@.len() == 4 * i,
                forall|k: int| 0 <= k < 4 * i ==> bytes@[k] == self@[k / 4].pixel()[k % 4],
        {
            let px = self.0[i].rgba();
            bytes.push(px[0]);
            bytes.push(px[1]);
            bytes.push(px[2]);
            bytes.push(px[3]);
        }
        assert(bytes@ =~= pixels_of(self@));
        bytes
    }
}

/// The grid position `(x, y)` of a row-major index.
pub fn get_coord(index: usize) -> (coord: (isize, isize))
    ensures
        coord.0 == index % BOARD_WIDTH,
        coord.1 == index / BOARD_WIDTH,
        index < CELL_COUNT ==> in_bounds(coord.0 as int, coord.1 as int) && cell_index(
            coord.0 as int,
            coord.1 as int,
        ) == index,
{
    let x: usize = index % BOARD_WIDTH;
    let y: usize = (index - x) / BOARD_WIDTH;
    (x as isize, y as isize)
}

} // verus!
