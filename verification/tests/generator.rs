use chess_core::{Piece, PieceColor, PieceType};

fn piece(t: PieceType, c: PieceColor, x: u8, y: u8) -> Piece {
    Piece { piece_type: t, color: c, x, y }
}

#[test]
fn rook_scan_stops_before_pawn() {
    // Empty board except a White rook at (0,0) and a Black pawn at (0,4):
    // the scan along the rook's file stops at (0,3), the square before the
    // pawn, because the rook generator yields no captures.
    let rook = piece(PieceType::Rook, PieceColor::White, 0, 0);
    let pawn = piece(PieceType::Pawn, PieceColor::Black, 0, 4);
    let board = vec![rook, pawn];
    let moves = rook.possible_moves(&board);
    assert!(moves.contains(&(0, 1)));
    assert!(moves.contains(&(0, 2)));
    assert!(moves.contains(&(0, 3)));
    assert!(!moves.contains(&(0, 4)));
    for x in 1..8u8 {
        assert!(moves.contains(&(x, 0)));
    }
    assert_eq!(moves.len(), 10);
}

#[test]
fn king_alone_has_eight_moves() {
    let king = piece(PieceType::King, PieceColor::White, 4, 4);
    let board = vec![king];
    let moves = king.possible_moves(&board);
    assert_eq!(moves.len(), 8);
    for target in [
        (3, 3),
        (3, 4),
        (3, 5),
        (4, 3),
        (4, 5),
        (5, 3),
        (5, 4),
        (5, 5),
    ] {
        assert!(moves.contains(&target));
    }
}

#[test]
fn king_in_corner_has_three_moves() {
    let king = piece(PieceType::King, PieceColor::Black, 0, 0);
    let board = vec![king];
    let moves = king.possible_moves(&board);
    assert_eq!(moves.len(), 3);
    assert!(moves.contains(&(0, 1)));
    assert!(moves.contains(&(1, 0)));
    assert!(moves.contains(&(1, 1)));
}

#[test]
fn knight_in_corner_has_two_moves() {
    let knight = piece(PieceType::Knight, PieceColor::White, 0, 0);
    let board = vec![knight];
    let moves = knight.possible_moves(&board);
    assert_eq!(moves.len(), 2);
    assert!(moves.contains(&(1, 2)));
    assert!(moves.contains(&(2, 1)));
}

#[test]
fn knight_moves_are_the_eight_offsets_minus_occupied() {
    let knight = piece(PieceType::Knight, PieceColor::White, 4, 4);
    let friend = piece(PieceType::Pawn, PieceColor::White, 6, 5);
    let enemy = piece(PieceType::Pawn, PieceColor::Black, 2, 3);
    let board = vec![knight, friend, enemy];
    let moves = knight.possible_moves(&board);
    // The occupied targets are dropped whatever the occupant's color.
    assert!(!moves.contains(&(6, 5)));
    assert!(!moves.contains(&(2, 3)));
    assert_eq!(moves.len(), 6);
    for target in [(2, 5), (3, 2), (3, 6), (5, 2), (5, 6), (6, 3)] {
        assert!(moves.contains(&target));
    }
}

#[test]
fn knight_never_leaves_the_board() {
    for x in 0..8u8 {
        for y in 0..8u8 {
            let knight = piece(PieceType::Knight, PieceColor::Black, x, y);
            let board = vec![knight];
            for (mx, my) in knight.possible_moves(&board) {
                assert!(mx < 8 && my < 8);
            }
        }
    }
}

#[test]
fn white_pawn_single_and_double_from_start() {
    let pawn = piece(PieceType::Pawn, PieceColor::White, 1, 0);
    let board = vec![pawn];
    let moves = pawn.possible_moves(&board);
    assert_eq!(moves.len(), 2);
    assert!(moves.contains(&(2, 0)));
    assert!(moves.contains(&(3, 0)));
}

#[test]
fn black_pawn_single_and_double_from_start() {
    let pawn = piece(PieceType::Pawn, PieceColor::Black, 6, 7);
    let board = vec![pawn];
    let moves = pawn.possible_moves(&board);
    assert_eq!(moves.len(), 2);
    assert!(moves.contains(&(5, 7)));
    assert!(moves.contains(&(4, 7)));
}

#[test]
fn pawn_forward_blocked_by_friend() {
    let pawn = piece(PieceType::Pawn, PieceColor::White, 2, 0);
    let friend = piece(PieceType::Knight, PieceColor::White, 3, 0);
    let board = vec![pawn, friend];
    let moves = pawn.possible_moves(&board);
    assert!(moves.is_empty());
}

#[test]
fn pawn_forward_onto_enemy_is_generated() {
    // The generator allows the forward step when the square holds an enemy
    // piece: the move counts as a capture there.
    let pawn = piece(PieceType::Pawn, PieceColor::White, 2, 0);
    let enemy = piece(PieceType::Knight, PieceColor::Black, 3, 0);
    let board = vec![pawn, enemy];
    let moves = pawn.possible_moves(&board);
    assert_eq!(moves.len(), 1);
    assert!(moves.contains(&(3, 0)));
}

#[test]
fn pawn_double_move_skips_intermediate_check() {
    // The two-square move examines only its destination, not the square
    // passed over: with a blocker directly ahead the double move is still
    // generated.
    let pawn = piece(PieceType::Pawn, PieceColor::White, 1, 5);
    let blocker = piece(PieceType::Rook, PieceColor::White, 2, 5);
    let board = vec![pawn, blocker];
    let moves = pawn.possible_moves(&board);
    assert_eq!(moves.len(), 1);
    assert!(moves.contains(&(3, 5)));
}

#[test]
fn pawn_double_move_blocked_at_destination() {
    let pawn = piece(PieceType::Pawn, PieceColor::Black, 6, 2);
    let blocker = piece(PieceType::Rook, PieceColor::White, 4, 2);
    let board = vec![pawn, blocker];
    let moves = pawn.possible_moves(&board);
    assert_eq!(moves.len(), 1);
    assert!(moves.contains(&(5, 2)));
}

#[test]
fn bishop_generates_captures_but_stops_at_friends() {
    let bishop = piece(PieceType::Bishop, PieceColor::White, 3, 3);
    let enemy = piece(PieceType::Pawn, PieceColor::Black, 5, 5);
    let friend = piece(PieceType::Pawn, PieceColor::White, 1, 1);
    let board = vec![bishop, enemy, friend];
    let moves = bishop.possible_moves(&board);
    // Toward the enemy: the empty square, then the capture, then stop.
    assert!(moves.contains(&(4, 4)));
    assert!(moves.contains(&(5, 5)));
    assert!(!moves.contains(&(6, 6)));
    // Toward the friend: the empty square only.
    assert!(moves.contains(&(2, 2)));
    assert!(!moves.contains(&(1, 1)));
    // The other two diagonals run to the edge.
    assert!(moves.contains(&(0, 6)));
    assert!(moves.contains(&(6, 0)));
    assert_eq!(moves.len(), 9);
}

#[test]
fn queen_unites_rook_and_bishop_scans() {
    let queen = piece(PieceType::Queen, PieceColor::Black, 3, 3);
    let enemy = piece(PieceType::Pawn, PieceColor::White, 5, 5);
    let friend = piece(PieceType::Pawn, PieceColor::Black, 3, 6);
    let board = vec![queen, enemy, friend];
    let moves = queen.possible_moves(&board);
    // Rook family: stops short of any occupant, no captures.
    assert!(moves.contains(&(3, 4)));
    assert!(moves.contains(&(3, 5)));
    assert!(!moves.contains(&(3, 6)));
    assert!(moves.contains(&(0, 3)));
    assert!(moves.contains(&(7, 3)));
    // Bishop family: captures the enemy, stops there.
    assert!(moves.contains(&(4, 4)));
    assert!(moves.contains(&(5, 5)));
    assert!(!moves.contains(&(6, 6)));
    let expected = 4 + 3 + 2 + 3 + 2 + 3 + 3 + 3;
    assert_eq!(moves.len(), expected);
}

#[test]
fn rook_in_open_board_has_fourteen_moves() {
    let rook = piece(PieceType::Rook, PieceColor::Black, 3, 5);
    let board = vec![rook];
    let moves = rook.possible_moves(&board);
    assert_eq!(moves.len(), 14);
}

#[test]
fn generated_moves_never_duplicate() {
    let queen = piece(PieceType::Queen, PieceColor::White, 4, 4);
    let board = vec![queen];
    let moves = queen.possible_moves(&board);
    for i in 0..moves.len() {
        for j in 0..moves.len() {
            if i != j {
                assert_ne!(moves[i], moves[j]);
            }
        }
    }
    assert_eq!(moves.len(), 14 + 13);
}
