//! The two alternating generation buffers and the step that advances them.

use vstd::prelude::*;
use crate::board::{cell_at, cell_index, in_bounds, in_seed_block, pixels_of, seed, Board, CELL_COUNT};
use crate::cell::Cell;
use crate::rule::{next_cell, next_generation, update};

verus! {

/// What a simulation state holds: two generations and the flag that says
/// which of them is current. The other one is written by the next step.
pub struct Buffers {
    pub cur_buf_1: bool,
    pub buf1: Seq<Cell>,
    pub buf2: Seq<Cell>,
}

impl Buffers {
    /// The generation that is read.
    pub open spec fn current(self) -> Seq<Cell> {
        if self.cur_buf_1 {
            self.buf1
        } else {
            self.buf2
        }
    }

    /// The buffer that the next step overwrites.
    pub open spec fn next(self) -> Seq<Cell> {
        if self.cur_buf_1 {
            self.buf2
        } else {
            self.buf1
        }
    }

    /// One step: the next buffer receives the generation after the current
    /// one, the current buffer keeps its cells, and the roles swap.
    pub open spec fn step(self) -> Buffers {
        if self.cur_buf_1 {
            Buffers { cur_buf_1: false, buf1: self.buf1, buf2: next_generation(self.buf1) }
        } else {
            Buffers { cur_buf_1: true, buf1: next_generation(self.buf2), buf2: self.buf2 }
        }
    }

    /// The buffers after `n` steps.
    pub open spec fn after(self, n: nat) -> Buffers
        decreases n,
    {
        if n == 0 {
            self
        } else {
            self.after((n - 1) as nat).step()
        }
    }
}

/// The buffers of a fresh state: both hold generation zero, the first is
/// current.
pub open spec fn initial() -> Buffers {
    Buffers { cur_buf_1: true, buf1: seed(), buf2: seed() }
}

/// The `n`-th generation after `cells`.
pub open spec fn generation(cells: Seq<Cell>, n: nat) -> Seq<Cell>
    decreases n,
{
    if n == 0 {
        cells
    } else {
        next_generation(generation(cells, (n - 1) as nat))
    }
}

/// The simulation state: two boards that take turns as the generation read
/// and the generation written.
pub struct State {
    pub cur_buf_1: bool,
    pub buf1: Board,
    pub buf2: Board,
}

impl View for State {
    type V = Buffers;

    open spec fn view(&self) -> Buffers {
        Buffers { cur_buf_1: self.cur_buf_1, buf1: self.buf1@, buf2: self.buf2@ }
    }
}

impl State {
    /// A state at generation zero, reading from the first buffer.
    pub fn new() -> (state: State)
        ensures
            state@ == initial(),
    {
        State { cur_buf_1: true, buf1: Board::new(), buf2: Board::new() }
    }

    /// The board that holds the current generation.
    pub fn current(&self) -> (board: &Board)
        ensures
            board@ == self@.current(),
            *board == (if self.cur_buf_1 {
                self.buf1
            } else {
                self.buf2
            }),
    {
        if self.cur_buf_1 {
            &self.buf1
        } else {
            &self.buf2
        }
    }
}

/// A fresh simulation state, seeded with generation zero.
pub fn init() -> (state: State)
    ensures
        state@ == initial(),
{
    State::new()
}

/// Advances `state` by one generation and returns the pixels of the new
/// current generation, ready for a renderer.
///
/// The new generation is computed from the current buffer alone and written
/// to the other buffer; the current buffer is left as it was, and the roles
/// swap once every cell is written.
pub fn tick(state: &mut State) -> (frame: Vec<u8>)
    ensures
        final(state)@ == old(state)@.step(),
        final(state).cur_buf_1 == !old(state).cur_buf_1,
        final(state)@.current() == next_generation(old(state)@.current()),
        final(state)@.next() == old(state)@.current(),
        frame@ == pixels_of(final(state)@.current()),
        frame@.len() == 4 * CELL_COUNT,
{
    if state.cur_buf_1 {
        update(&state.buf1, &mut state.buf2);
    } else {
        update(&state.buf2, &mut state.buf1);
    }
    state.cur_buf_1 = !state.cur_buf_1;
    state.current().pixels()
}

/// After `n` steps the current buffer is the one that was current at the
/// start if `n` is even, and the other one if `n` is odd.
pub proof fn lemma_roles_alternate(start: Buffers, n: nat)
    ensures
        start.after(n).cur_buf_1 == (if n % 2 == 0 {
            start.cur_buf_1
        } else {
            !start.cur_buf_1
        }),
    decreases n,
{
    if n > 0 {
        lemma_roles_alternate(start, (n - 1) as nat);
    }
}

/// Starting from a fresh state, the first buffer is current after an even
/// number of steps and the second after an odd number.
pub proof fn lemma_roles_alternate_from_initial(n: nat)
    ensures
        initial().after(n).cur_buf_1 <==> n % 2 == 0,
{
    lemma_roles_alternate(initial(), n);
}

/// A step yields the rule applied to the current buffer, leaves that buffer
/// as it was, and takes nothing from what the written buffer held before.
pub proof fn lemma_step_isolated(a: Buffers, b: Buffers)
    requires
        a.current() == b.current(),
    ensures
        a.step().current() == next_generation(a.current()),
        a.step().next() == a.current(),
        a.step().current() == b.step().current(),
        forall|i: int|
            0 <= i < a.current().len() ==> a.step().current()[i] == next_cell(a.current(), i),
{
}

/// After `n` steps the current buffer holds the `n`-th generation after the
/// one that was current at the start, whatever the other buffer held.
pub proof fn lemma_after_follows_rule(start: Buffers, n: nat)
    ensures
        start.after(n).current() == generation(start.current(), n),
    decreases n,
{
    if n > 0 {
        lemma_after_follows_rule(start, (n - 1) as nat);
    }
}

/// Two runs that start from the same current generation agree on the current
/// generation after any number of steps: nothing else feeds the result.
pub proof fn lemma_steps_deterministic(a: Buffers, b: Buffers, n: nat)
    requires
        a.current() == b.current(),
    ensures
        a.after(n).current() == b.after(n).current(),
{
    lemma_after_follows_rule(a, n);
    lemma_after_follows_rule(b, n);
}

/// On the grid, generation zero is alive exactly in the 2 by 2 block at the
/// origin.
pub proof fn lemma_seed_cells(x: int, y: int)
    requires
        in_bounds(x, y),
    ensures
        cell_at(seed(), x, y) == Some(
            if in_seed_block(x, y) {
                Cell::Alive
            } else {
                Cell::Dead
            },
        ),
{
}

/// Generation zero is a still life: the rule maps it to itself.
pub proof fn lemma_seed_is_still_life()
    ensures
        next_generation(seed()) == seed(),
{
    assert forall|i: int| 0 <= i < CELL_COUNT implies next_cell(seed(), i) == seed()[i] by {
        let x: int = i % 50;
        let y: int = i / 50;
        assert(cell_index(x, y) == i);
    }
    assert(next_generation(seed()) =~= seed());
}

/// Generation zero never changes: after any number of steps from a fresh
/// state the current buffer still holds it.
pub proof fn lemma_seed_stays(n: nat)
    ensures
        generation(seed(), n) == seed(),
        initial().after(n).current() == seed(),
    decreases n,
{
    if n > 0 {
        lemma_seed_stays((n - 1) as nat);
        lemma_seed_is_still_life();
    }
    lemma_after_follows_rule(initial(), n);
}

} // verus!
