use chess_core::{Piece, PieceColor, PieceType, Position};
use chess_core::position::starting_position;
use chess_core::scorer::evaluate;

fn piece(t: PieceType, c: PieceColor, x: u8, y: u8) -> Piece {
    Piece { piece_type: t, color: c, x, y }
}

#[test]
fn material_table_is_fixed() {
    let cases = [
        (PieceType::Pawn, 100u16),
        (PieceType::Knight, 280),
        (PieceType::Bishop, 320),
        (PieceType::Rook, 479),
        (PieceType::Queen, 929),
        (PieceType::King, 60000),
    ];
    for (t, v) in cases {
        let p = piece(t, PieceColor::White, 0, 0);
        assert_eq!(p.piece_score(), v);
    }
}

#[test]
fn position_score_samples() {
    let pawn = piece(PieceType::Pawn, PieceColor::White, 0, 0);
    assert_eq!(pawn.position_score_unbounded(1, 4), 102);
    assert_eq!(pawn.position_score_unbounded(0, 0), 0);
    assert_eq!(pawn.position_score_unbounded(6, 3), -37);
    let queen = piece(PieceType::Queen, PieceColor::White, 0, 0);
    assert_eq!(queen.position_score_unbounded(0, 3), -104);
    let bishop = piece(PieceType::Bishop, PieceColor::White, 0, 0);
    assert_eq!(bishop.position_score_unbounded(0, 5), -107);
    let king = piece(PieceType::King, PieceColor::White, 0, 0);
    assert_eq!(king.position_score_unbounded(0, 0), 4);
    let knight = piece(PieceType::Knight, PieceColor::White, 0, 0);
    assert_eq!(knight.position_score_unbounded(1, 2), 100);
    let rook = piece(PieceType::Rook, PieceColor::White, 0, 0);
    assert_eq!(rook.position_score_unbounded(1, 3), 67);
}

#[test]
fn starting_position_evaluates_to_zero() {
    // The initial placement is mirror-symmetric, so material and position
    // cancel exactly.
    let pos = starting_position();
    assert_eq!(pos.pieces.len(), 32);
    assert_eq!(evaluate(&pos), 0);
}

#[test]
fn starting_position_mirrored_evaluates_to_zero_for_black() {
    let mut pos = starting_position();
    pos.to_move = PieceColor::Black;
    assert_eq!(evaluate(&pos), 0);
}

#[test]
fn evaluate_counts_material_difference() {
    // White to move with an extra rook: the score is the rook's material
    // plus its positional value.
    let pos = Position {
        pieces: vec![
            piece(PieceType::King, PieceColor::White, 0, 4),
            piece(PieceType::King, PieceColor::Black, 7, 4),
            piece(PieceType::Rook, PieceColor::White, 3, 3),
        ],
        to_move: PieceColor::White,
    };
    // The kings cancel: king material is equal and the king table at (0,4)
    // for White equals the mirrored lookup for Black at (7,4).
    let rook = piece(PieceType::Rook, PieceColor::White, 3, 3);
    let expected = 479 + rook.position_score_unbounded(3, 3);
    assert_eq!(evaluate(&pos), expected);
}

#[test]
fn evaluate_negates_for_the_other_side() {
    let pos = Position {
        pieces: vec![
            piece(PieceType::King, PieceColor::White, 0, 4),
            piece(PieceType::King, PieceColor::Black, 7, 4),
            piece(PieceType::Queen, PieceColor::White, 2, 5),
            piece(PieceType::Pawn, PieceColor::Black, 5, 1),
        ],
        to_move: PieceColor::White,
    };
    let mut flipped = pos.clone();
    flipped.to_move = PieceColor::Black;
    assert_eq!(evaluate(&pos), -evaluate(&flipped));
}

#[test]
fn evaluate_is_antisymmetric_under_mirroring() {
    // Swapping every color and mirroring every rank, with the same side to
    // move, negates the score.
    let pos = Position {
        pieces: vec![
            piece(PieceType::King, PieceColor::White, 0, 4),
            piece(PieceType::King, PieceColor::Black, 7, 4),
            piece(PieceType::Rook, PieceColor::White, 2, 2),
            piece(PieceType::Knight, PieceColor::Black, 5, 6),
            piece(PieceType::Pawn, PieceColor::White, 4, 1),
        ],
        to_move: PieceColor::White,
    };
    let mirrored = Position {
        pieces: pos
            .pieces
            .iter()
            .map(|p| Piece {
                piece_type: p.piece_type,
                color: match p.color {
                    PieceColor::White => PieceColor::Black,
                    PieceColor::Black => PieceColor::White,
                },
                x: 7 - p.x,
                y: p.y,
            })
            .collect(),
        to_move: PieceColor::White,
    };
    assert_eq!(evaluate(&mirrored), -evaluate(&pos));
}

#[test]
fn empty_board_evaluates_to_zero() {
    let pos = Position { pieces: vec![], to_move: PieceColor::White };
    assert_eq!(evaluate(&pos), 0);
    let pos = Position { pieces: vec![], to_move: PieceColor::Black };
    assert_eq!(evaluate(&pos), 0);
}

#[test]
fn black_positional_lookup_mirrors_the_rank() {
    // A Black pawn at rank 6 reads the table row that a White pawn at rank
    // 1 reads, so its contribution cancels the mirrored White pawn's.
    let pos = Position {
        pieces: vec![
            piece(PieceType::Pawn, PieceColor::White, 1, 4),
            piece(PieceType::Pawn, PieceColor::Black, 6, 4),
        ],
        to_move: PieceColor::White,
    };
    assert_eq!(evaluate(&pos), 0);
}
