//! Chess rules-and-search core: a board and position model, per-piece move
//! generation, a legality predicate, a static positional evaluator, and a
//! bounded negamax search memoized in a two-generation transposition table.

use vstd::prelude::*;

pub mod board;
pub mod pieces;
pub mod position;
pub mod scorer;
pub mod search;
pub mod tables;
pub mod tt;

pub use board::BoardError;
pub use board::PlayerTurn;
pub use board::Square;
pub use pieces::Piece;
pub use pieces::PieceColor;
pub use pieces::PieceType;
pub use position::Move;
pub use position::Position;
pub use search::Searcher;

verus! {

} // verus!
