//! The static evaluator: material values, piece-square lookups, and the
//! signed centipawn score of a position from the side to move's view.  Also
//! the tuning constants of the search.

use vstd::prelude::*;

use crate::pieces::Piece;
use crate::pieces::mirror_board;
use crate::pieces::PieceColor;
use crate::pieces::PieceType;
use crate::position::Position;
use crate::position::lemma_board_len;
use crate::tables::lemma_table_bounded;
use crate::tables::table_at;
use crate::tables::table_lookup;

verus! {

/// A score at or below the negation of this value means a king has been
/// captured on the path to the position.
pub const MATE_LOWER: i64 = 60000 - 9260;

/// The ceiling of mate scores.
pub const MATE_UPPER: i64 = 60000 + 9260;

/// Quiescence margin.
pub const QS_A: i64 = 250;

/// Quiescence margin.
pub const QS_B: i64 = 50;

/// The window width below which the outer score search stops narrowing.
pub const EVAL_ROUGHNESS: i64 = 17;

/// Null moves are considered only above this depth.
pub const NULL_LIMIT: i64 = 2;

/// Internal iterative deepening triggers only above this depth.
pub const IID_LIMIT: i64 = 2;

/// Depth reduction used by internal iterative deepening.
pub const IID_REDUCE: i64 = 3;

/// No static evaluation leaves (-SCORE_LIMIT, SCORE_LIMIT): at most 64
/// pieces contribute at most 60107 centipawns each.
pub const SCORE_LIMIT: i64 = 4000000;

/// The fixed material table.  The king's value is a sentinel, not a tradeable
/// material value.
pub open spec fn piece_score_spec(t: PieceType) -> u16 {
    match t {
        PieceType::Pawn => 100,
        PieceType::Rook => 479,
        PieceType::Knight => 280,
        PieceType::Bishop => 320,
        PieceType::Queen => 929,
        PieceType::King => 60000,
    }
}

impl Piece {
    /// The material value of this piece.
    pub fn piece_score(&self) -> (r: u16)
        ensures
            r == piece_score_spec(self.piece_type),
    {
        match self.piece_type {
            PieceType::Pawn => 100,
            PieceType::Rook => 479,
            PieceType::Knight => 280,
            PieceType::Bishop => 320,
            PieceType::Queen => 929,
            PieceType::King => 60000,
        }
    }

    /// Reads this piece's kind's piece-square table at (x, y), without the
    /// color mirroring of the evaluator.
    pub fn position_score_unbounded(&self, x: u8, y: u8) -> (r: i64)
        requires
            x < 8,
            y < 8,
        ensures
            r == table_at(self.piece_type, x as int, y as int),
    {
        table_lookup(self.piece_type, x, y)
    }
}

/// The positional value of a piece of color `c` at (x, y).  The tables are
/// authored from White's perspective; Black mirrors the rank index.
pub open spec fn position_value_spec(t: PieceType, c: PieceColor, x: int, y: int) -> i64 {
    if c == PieceColor::White {
        table_at(t, x, y)
    } else {
        table_at(t, 7 - x, y)
    }
}

/// Material plus positional value of a piece standing on its square.
pub open spec fn piece_value_spec(p: Piece) -> int {
    piece_score_spec(p.piece_type) + position_value_spec(
        p.piece_type,
        p.color,
        p.x as int,
        p.y as int,
    )
}

/// The piece's contribution to `side`'s score: positive for `side`'s own
/// pieces, negative for the opponent's.
pub open spec fn signed_value_spec(p: Piece, side: PieceColor) -> int {
    if p.color == side {
        piece_value_spec(p)
    } else {
        -piece_value_spec(p)
    }
}

/// The sum of contributions of a piece list toward `side`.
pub open spec fn score_sum(b: Seq<Piece>, side: PieceColor) -> int
    decreases b.len(),
{
    if b.len() == 0 {
        0
    } else {
        score_sum(b.drop_last(), side) + signed_value_spec(b.last(), side)
    }
}

/// What `evaluate` returns for a position: the score of its piece list from
/// the side to move's perspective.
pub open spec fn evaluate_spec(b: Seq<Piece>, side: PieceColor) -> int {
    score_sum(b, side)
}

/// A single piece contributes at most 60107 centipawns either way.
pub proof fn lemma_signed_value_bounded(p: Piece, side: PieceColor)
    requires
        p.on_board(),
    ensures
        -60107 <= signed_value_spec(p, side) <= 60107,
{
    if p.color == PieceColor::White {
        lemma_table_bounded(p.piece_type, p.x as int, p.y as int);
    } else {
        lemma_table_bounded(p.piece_type, 7 - p.x as int, p.y as int);
    }
}

/// The score of a list of on-board pieces grows at most linearly with its
/// length.
pub proof fn lemma_score_sum_bounded(b: Seq<Piece>, side: PieceColor)
    requires
        forall|i: int| 0 <= i < b.len() ==> (#[trigger] b[i]).on_board(),
    ensures
        -60107 * b.len() <= score_sum(b, side) <= 60107 * b.len(),
    decreases b.len(),
{
    if b.len() > 0 {
        lemma_score_sum_bounded(b.drop_last(), side);
        lemma_signed_value_bounded(b.last(), side);
    }
}

/// Static evaluation: material plus positional value summed over the side to
/// move's pieces, minus the same sum over the opponent's pieces.
pub fn evaluate(pos: &Position) -> (r: i64)
    requires
        pos.wf(),
    ensures
        r == evaluate_spec(pos.pieces@, pos.to_move),
        -SCORE_LIMIT < r < SCORE_LIMIT,
{
    proof {
        lemma_board_len(pos.pieces@);
    }
    let side = pos.to_move;
    let n = pos.pieces.len();
    let mut acc: i64 = 0;
    let mut k: usize = 0;
    while k < n
        invariant
            pos.wf(),
            side == pos.to_move,
            n == pos.pieces@.len() <= 64,
            k <= n,
            acc == score_sum(pos.pieces@.take(k as int), side),
            -60107 * (k as int) <= acc as int <= 60107 * (k as int),
        decreases n - k,
    {
        let p = pos.pieces[k];
        let pv: i64 = if p.color == PieceColor::White {
            table_lookup(p.piece_type, p.x, p.y)
        } else {
            table_lookup(p.piece_type, 7 - p.x, p.y)
        };
        let v: i64 = p.piece_score() as i64 + pv;
        proof {
            assert(pos.pieces@.take(k as int + 1).drop_last() =~= pos.pieces@.take(k as int));
            assert(pos.pieces@.take(k as int + 1).last() == pos.pieces@[k as int]);
            lemma_signed_value_bounded(pos.pieces@[k as int], side);
        }
        if p.color == side {
            acc = acc + v;
        } else {
            acc = acc - v;
        }
        k += 1;
    }
    proof {
        assert(pos.pieces@.take(n as int) =~= pos.pieces@);
    }
    acc
}

/// The evaluation is antisymmetric under a full color-and-rank mirroring:
/// swapping every piece's color and mirroring every rank, with the same side
/// to move, negates the score.  Black's rank mirroring in the table lookup
/// makes each piece's value equal to its mirrored twin's, while the sign of
/// every contribution flips.
pub proof fn lemma_evaluate_mirror_antisymmetric(b: Seq<Piece>, side: PieceColor)
    requires
        forall|i: int| 0 <= i < b.len() ==> (#[trigger] b[i]).on_board(),
    ensures
        evaluate_spec(mirror_board(b), side) == -evaluate_spec(b, side),
    decreases b.len(),
{
    if b.len() == 0 {
        assert(mirror_board(b) =~= Seq::<Piece>::empty());
    } else {
        let rest = b.drop_last();
        let last = b.last();
        assert(mirror_board(b).drop_last() =~= mirror_board(rest));
        assert(mirror_board(b).last() == mirror_board(b)[b.len() - 1]);
        lemma_evaluate_mirror_antisymmetric(rest, side);
        assert(last.on_board());
        assert(signed_value_spec(mirror_board(b).last(), side) == -signed_value_spec(last, side));
    }
}


/// The score of a concatenation is the sum of the scores of its parts.
pub proof fn lemma_score_sum_concat(a: Seq<Piece>, b: Seq<Piece>, side: PieceColor)
    ensures
        score_sum(a + b, side) == score_sum(a, side) + score_sum(b, side),
    decreases b.len(),
{
    if b.len() == 0 {
        assert(a + b =~= a);
    } else {
        lemma_score_sum_concat(a, b.drop_last(), side);
        assert((a + b).drop_last() =~= a + b.drop_last());
        assert((a + b).last() == b.last());
    }
}

/// The starting position is balanced: the standard placement is White's half
/// followed by its color-and-rank mirror image, each mirrored piece's value
/// equals its twin's, the signs cancel, and the static evaluation is exactly
/// zero from either side's perspective.
pub proof fn lemma_starting_position_balanced(side: PieceColor)
    ensures
        evaluate_spec(crate::position::starting_pieces(), side) == 0,
{
    let w = crate::position::starting_white_pieces();
    assert forall|i: int| 0 <= i < w.len() implies (#[trigger] w[i]).on_board() by {}
    lemma_score_sum_concat(w, mirror_board(w), side);
    lemma_evaluate_mirror_antisymmetric(w, side);
}

} // verus!
