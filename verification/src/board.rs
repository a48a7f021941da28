//! Board squares, the turn marker, and the error taxonomy of the core.

use vstd::prelude::*;

use crate::pieces::PieceColor;
use crate::pieces::sq_on_board;

verus! {

/// A board square, both coordinates in [0,7].
#[derive(Debug, Clone, Copy, PartialEq, Eq, Structural)]
pub struct Square {
    pub x: u8,
    pub y: u8,
}

/// The errors the core reports to its caller.  No condition here is fatal:
/// the caller owns recovery.
#[derive(Debug, Clone, Copy, PartialEq, Eq, Structural)]
pub enum BoardError {
    /// A coordinate outside [0,7] was rejected at construction.
    InvalidSquare,
    /// A move was queried for an empty square.
    NoPieceAtSquare,
    /// A commit was attempted for a move that `is_move_valid` does not
    /// confirm.
    IllegalMove,
}

impl Square {
    /// The square lies on the board.
    pub open spec fn wf(self) -> bool {
        sq_on_board(self.x as int, self.y as int)
    }

    /// Builds a square, rejecting off-board coordinates instead of clamping
    /// them.
    pub fn new(x: u8, y: u8) -> (r: Result<Square, BoardError>)
        ensures
            sq_on_board(x as int, y as int) ==> r == Ok::<Square, BoardError>(Square { x, y }),
            !sq_on_board(x as int, y as int) ==> r == Err::<Square, BoardError>(
                BoardError::InvalidSquare,
            ),
    {
        if x < 8 && y < 8 {
            Ok(Square { x, y })
        } else {
            Err(BoardError::InvalidSquare)
        }
    }

    /// Whether the square is drawn in the light color.
    pub fn is_white(&self) -> (r: bool)
        requires
            self.wf(),
        ensures
            r == ((self.x + self.y + 1) % 2 == 0),
    {
        (self.x + self.y + 1) % 2 == 0
    }
}

/// Whose turn it is to move.
#[derive(Debug, Clone, Copy, PartialEq, Eq, Structural)]
pub struct PlayerTurn(pub PieceColor);

impl Default for PlayerTurn {
    /// White moves first.
    fn default() -> (r: Self)
        ensures
            r.0 == PieceColor::White,
    {
        PlayerTurn(PieceColor::White)
    }
}

impl PlayerTurn {
    /// Hands the turn to the other side.
    pub fn change(&mut self)
        ensures
            final(self).0 == old(self).0.opposite_spec(),
    {
        self.0 = self.0.opposite();
    }
}

} // verus!
