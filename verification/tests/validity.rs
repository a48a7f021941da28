use chess_core::{Piece, PieceColor, PieceType};
use chess_core::pieces::is_path_empty;

fn piece(t: PieceType, c: PieceColor, x: u8, y: u8) -> Piece {
    Piece { piece_type: t, color: c, x, y }
}

#[test]
fn path_empty_straight_lines() {
    let blocker = piece(PieceType::Pawn, PieceColor::White, 3, 4);
    let board = vec![blocker];
    // Same file, blocker strictly between.
    assert!(!is_path_empty((3, 1), (3, 7), &board));
    // Same file, blocker outside the segment.
    assert!(is_path_empty((3, 5), (3, 7), &board));
    // Same rank, blocker strictly between.
    assert!(!is_path_empty((1, 4), (6, 4), &board));
    // Same rank, blocker at an endpoint does not count as between.
    assert!(is_path_empty((3, 4), (6, 4), &board));
}

#[test]
fn path_empty_diagonals() {
    let blocker = piece(PieceType::Pawn, PieceColor::Black, 4, 4);
    let board = vec![blocker];
    assert!(!is_path_empty((2, 2), (6, 6), &board));
    assert!(!is_path_empty((6, 6), (2, 2), &board));
    assert!(!is_path_empty((6, 2), (2, 6), &board));
    assert!(is_path_empty((2, 2), (4, 4), &board));
    assert!(is_path_empty((0, 1), (3, 4), &board));
}

#[test]
fn path_empty_unaligned_squares_pass() {
    let blocker = piece(PieceType::Pawn, PieceColor::Black, 2, 2);
    let board = vec![blocker];
    // A knight-shaped pair shares no line: nothing lies between.
    assert!(is_path_empty((1, 1), (3, 2), &board));
}

#[test]
fn white_pawn_validity() {
    let pawn = piece(PieceType::Pawn, PieceColor::White, 1, 3);
    let enemy = piece(PieceType::Rook, PieceColor::Black, 2, 4);
    let board = vec![pawn, enemy];
    // Single step forward onto an empty square.
    assert!(pawn.is_move_valid((2, 3), board.clone()));
    // Double step from the starting rank.
    assert!(pawn.is_move_valid((3, 3), board.clone()));
    // Diagonal capture onto the enemy.
    assert!(pawn.is_move_valid((2, 4), board.clone()));
    // Diagonal without an enemy is not a move.
    assert!(!pawn.is_move_valid((2, 2), board.clone()));
    // Backward is not a move.
    assert!(!pawn.is_move_valid((0, 3), board.clone()));
    // Sideways is not a move.
    assert!(!pawn.is_move_valid((1, 4), board.clone()));
}

#[test]
fn black_pawn_validity() {
    let pawn = piece(PieceType::Pawn, PieceColor::Black, 6, 3);
    let enemy = piece(PieceType::Rook, PieceColor::White, 5, 2);
    let board = vec![pawn, enemy];
    assert!(pawn.is_move_valid((5, 3), board.clone()));
    assert!(pawn.is_move_valid((4, 3), board.clone()));
    assert!(pawn.is_move_valid((5, 2), board.clone()));
    assert!(!pawn.is_move_valid((7, 3), board.clone()));
}

#[test]
fn pawn_double_step_needs_empty_path() {
    let pawn = piece(PieceType::Pawn, PieceColor::White, 1, 0);
    let blocker = piece(PieceType::Knight, PieceColor::White, 2, 0);
    let board = vec![pawn, blocker];
    assert!(!pawn.is_move_valid((3, 0), board.clone()));
}

#[test]
fn rook_validity() {
    let rook = piece(PieceType::Rook, PieceColor::White, 0, 0);
    let blocker = piece(PieceType::Pawn, PieceColor::Black, 0, 3);
    let board = vec![rook, blocker];
    assert!(rook.is_move_valid((0, 2), board.clone()));
    assert!(rook.is_move_valid((0, 3), board.clone()));
    assert!(!rook.is_move_valid((0, 5), board.clone()));
    assert!(rook.is_move_valid((7, 0), board.clone()));
    assert!(!rook.is_move_valid((1, 1), board.clone()));
}

#[test]
fn knight_validity_ignores_occupancy() {
    let knight = piece(PieceType::Knight, PieceColor::White, 4, 4);
    let friend = piece(PieceType::Pawn, PieceColor::White, 6, 5);
    let board = vec![knight, friend];
    // The knight rule is purely geometric.
    assert!(knight.is_move_valid((6, 5), board.clone()));
    assert!(knight.is_move_valid((2, 3), board.clone()));
    assert!(!knight.is_move_valid((5, 5), board.clone()));
    assert!(!knight.is_move_valid((4, 6), board.clone()));
}

#[test]
fn bishop_validity() {
    let bishop = piece(PieceType::Bishop, PieceColor::Black, 2, 2);
    let blocker = piece(PieceType::Pawn, PieceColor::White, 4, 4);
    let board = vec![bishop, blocker];
    assert!(bishop.is_move_valid((3, 3), board.clone()));
    assert!(bishop.is_move_valid((4, 4), board.clone()));
    assert!(!bishop.is_move_valid((6, 6), board.clone()));
    assert!(bishop.is_move_valid((0, 4), board.clone()));
    assert!(!bishop.is_move_valid((2, 5), board.clone()));
}

#[test]
fn queen_validity() {
    let queen = piece(PieceType::Queen, PieceColor::White, 3, 3);
    let blocker = piece(PieceType::Pawn, PieceColor::Black, 3, 5);
    let board = vec![queen, blocker];
    assert!(queen.is_move_valid((3, 4), board.clone()));
    assert!(!queen.is_move_valid((3, 6), board.clone()));
    assert!(queen.is_move_valid((6, 6), board.clone()));
    assert!(queen.is_move_valid((0, 3), board.clone()));
    assert!(!queen.is_move_valid((5, 4), board.clone()));
}

#[test]
fn king_validity() {
    let king = piece(PieceType::King, PieceColor::Black, 4, 4);
    let board = vec![king];
    assert!(king.is_move_valid((5, 4), board.clone()));
    assert!(king.is_move_valid((3, 3), board.clone()));
    assert!(king.is_move_valid((4, 5), board.clone()));
    assert!(!king.is_move_valid((6, 4), board.clone()));
    assert!(!king.is_move_valid((2, 2), board.clone()));
}

#[test]
fn shape_rules_are_color_blind() {
    // Rook, knight, bishop, queen and king legality does not depend on the
    // mover's color: the same motion on the same board is valid for both.
    let board = vec![piece(PieceType::Pawn, PieceColor::White, 3, 4)];
    let swapped = vec![piece(PieceType::Pawn, PieceColor::Black, 3, 4)];
    for t in [
        PieceType::Rook,
        PieceType::Knight,
        PieceType::Bishop,
        PieceType::Queen,
        PieceType::King,
    ] {
        for dest in [(2u8, 2u8), (2, 4), (4, 4), (5, 6), (0, 2)] {
            let white = piece(t, PieceColor::White, 2, 3);
            let black = piece(t, PieceColor::Black, 2, 3);
            assert_eq!(
                white.is_move_valid(dest, board.clone()),
                black.is_move_valid(dest, swapped.clone())
            );
        }
    }
}

#[test]
fn pawn_direction_is_color_bound() {
    // The pawn rule is directional: the same forward step is valid for
    // White and invalid for Black on an otherwise empty board.
    let white = piece(PieceType::Pawn, PieceColor::White, 3, 3);
    let black = piece(PieceType::Pawn, PieceColor::Black, 3, 3);
    assert!(white.is_move_valid((4, 3), vec![white]));
    assert!(!black.is_move_valid((4, 3), vec![black]));
    assert!(black.is_move_valid((2, 3), vec![black]));
    assert!(!white.is_move_valid((2, 3), vec![white]));
}

#[test]
fn sliding_zero_step_counts_as_diagonal() {
    // The bishop and queen rules compare absolute rank and file offsets, so
    // a zero-step "move" to the piece's own square passes the shape test;
    // the rook rule excludes its own square explicitly.
    let bishop = piece(PieceType::Bishop, PieceColor::White, 3, 3);
    assert!(bishop.is_move_valid((3, 3), vec![bishop]));
    let queen = piece(PieceType::Queen, PieceColor::White, 3, 3);
    assert!(queen.is_move_valid((3, 3), vec![queen]));
    let rook = piece(PieceType::Rook, PieceColor::White, 3, 3);
    assert!(!rook.is_move_valid((3, 3), vec![rook]));
}

#[test]
fn pawn_rule_survives_color_swap_with_rank_mirror() {
    // Swapping the pawn's color alone flips the verdict of a forward step,
    // but swapping every color AND mirroring every rank (piece, destination
    // and board alike) leaves the verdict unchanged.
    let board = vec![
        piece(PieceType::Rook, PieceColor::Black, 3, 2),
        piece(PieceType::Knight, PieceColor::White, 4, 5),
    ];
    let mirrored: Vec<Piece> = board
        .iter()
        .map(|p| Piece {
            piece_type: p.piece_type,
            color: match p.color {
                PieceColor::White => PieceColor::Black,
                PieceColor::Black => PieceColor::White,
            },
            x: 7 - p.x,
            y: p.y,
        })
        .collect();
    for (px, py) in [(1u8, 2u8), (2, 2), (3, 5), (6, 1)] {
        let white = piece(PieceType::Pawn, PieceColor::White, px, py);
        let black = piece(PieceType::Pawn, PieceColor::Black, 7 - px, py);
        for (nx, ny) in [(px + 1, py), (px + 2, py), (px + 1, py + 1), (px.wrapping_sub(1), py)] {
            if nx < 8 && ny < 8 {
                assert_eq!(
                    white.is_move_valid((nx, ny), board.clone()),
                    black.is_move_valid((7 - nx, ny), mirrored.clone())
                );
            }
        }
    }
}
