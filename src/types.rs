use vstd::prelude::*;

verus! {

/// Width and height of the square board.
pub const BOARD_SIZE: usize = 8;

/// A square on the board, as `(x, y)`: `x` is the column, `y` the row.
pub type Position = (usize, usize);

/// The grid, indexed as `pieces[y][x]`.
pub type BoardPieces = [[Option<Piece>; BOARD_SIZE]; BOARD_SIZE];

/// One of the two teams of a room.
#[derive(Clone, Copy, Debug, PartialEq, Eq, Structural)]
pub enum Side {
    A,
    B,
}

impl Side {
    pub open spec fn opposite(self) -> Side {
        match self {
            Side::A => Side::B,
            Side::B => Side::A,
        }
    }

    /// The other side.
    pub fn reverse(self) -> (r: Self)
        ensures
            r == self.opposite(),
            r != self,
    {
        match self {
            Side::A => Side::B,
            Side::B => Side::A,
        }
    }
}

impl Default for Side {
    fn default() -> (r: Side)
        ensures
            r == Side::A,
    {
        Side::A
    }
}

/// A seat holder as the room sees it; the private id that keys the seat is
/// kept by the board's roster, never here.
#[derive(Debug)]
pub struct Player {
    pub public_id: u128,
    pub name: String,
    pub side: Side,
}

/// A piece on the board: its owner and its strength.
#[derive(Clone, Copy, Debug, PartialEq, Eq, Structural)]
pub struct Piece {
    pub side: Side,
    pub number: u8,
}

} // verus!
