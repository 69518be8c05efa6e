//! The state of one grid position and its pixel encoding.

use vstd::prelude::*;

verus! {

/// One grid position: either dead or alive, never anything else.
#[derive(Clone, Copy, PartialEq, Eq, Structural, Debug)]
pub enum Cell {
    Dead,
    Alive,
}

impl Cell {
    /// The four RGBA bytes of this cell: opaque black when dead, opaque white
    /// when alive.
    pub open spec fn pixel(self) -> Seq<u8> {
        match self {
            Cell::Dead => seq![0u8, 0u8, 0u8, 255u8],
            Cell::Alive => seq![255u8, 255u8, 255u8, 255u8],
        }
    }

    pub fn is_alive(&self) -> (alive: bool)
        ensures
            alive == (*self == Cell::Alive),
    {
        *self == Cell::Alive
    }

    /// The RGBA encoding of this cell.
    pub fn rgba(&self) -> (bytes: [u8; 4])
        ensures
            bytes@ == self.pixel(),
    {
        let bytes: [u8; 4] = match self {
            Cell::Dead => [0u8, 0u8, 0u8, 255u8],
            Cell::Alive => [255u8, 255u8, 255u8, 255u8],
        };
        assert(bytes@ =~= self.pixel());
        bytes
    }
}

} // verus!
