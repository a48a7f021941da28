use chess_core::{BoardError, Move, Piece, PieceColor, PieceType, PlayerTurn, Position, Searcher, Square};
use chess_core::position::starting_position;
use chess_core::scorer::{evaluate, MATE_LOWER, MATE_UPPER};
use chess_core::search::position_key;
use chess_core::tt::{LowerEntry, TranspositionTable, UpperEntry};

fn piece(t: PieceType, c: PieceColor, x: u8, y: u8) -> Piece {
    Piece { piece_type: t, color: c, x, y }
}

#[test]
fn square_construction_rejects_off_board() {
    assert_eq!(Square::new(8, 0), Err(BoardError::InvalidSquare));
    assert_eq!(Square::new(0, 8), Err(BoardError::InvalidSquare));
    assert_eq!(Square::new(255, 255), Err(BoardError::InvalidSquare));
    assert_eq!(Square::new(7, 7), Ok(Square { x: 7, y: 7 }));
}

#[test]
fn square_colors_alternate() {
    let a = Square { x: 0, y: 0 };
    let b = Square { x: 0, y: 1 };
    let c = Square { x: 1, y: 1 };
    assert!(!a.is_white());
    assert!(b.is_white());
    assert!(!c.is_white());
}

#[test]
fn player_turn_starts_white_and_alternates() {
    let mut turn = PlayerTurn::default();
    assert_eq!(turn.0, PieceColor::White);
    turn.change();
    assert_eq!(turn.0, PieceColor::Black);
    turn.change();
    assert_eq!(turn.0, PieceColor::White);
}

#[test]
fn lower_entry_survives_one_rotation() {
    // A lower entry written at depth 3 for a key comes back unchanged from
    // the first lookup after the generations rotate, and its score passes
    // the cutoff test for any threshold at or below it.
    let mut tt = TranspositionTable::new();
    let e = LowerEntry { depth: 3, score: 250, to_move: 0 };
    tt.insert_lower(17, false, e);
    // Lookups read the old generation: the write is not yet visible.
    let (low, up) = tt.lookup(17, false);
    assert_eq!(low, None);
    assert_eq!(up, None);
    tt.rotate();
    let (low, up) = tt.lookup(17, false);
    assert_eq!(low, Some(e));
    assert_eq!(up, None);
    for gamma in [-300i64, 0, 249, 250] {
        assert!(low.unwrap().score >= gamma);
    }
}

#[test]
fn last_write_wins_whatever_the_depths() {
    let mut tt = TranspositionTable::new();
    tt.insert_lower(5, true, LowerEntry { depth: 9, score: 100, to_move: 1 });
    tt.insert_lower(5, true, LowerEntry { depth: 1, score: -40, to_move: 1 });
    tt.rotate();
    let (low, _) = tt.lookup(5, true);
    assert_eq!(low, Some(LowerEntry { depth: 1, score: -40, to_move: 1 }));
}

#[test]
fn root_flag_separates_entries() {
    let mut tt = TranspositionTable::new();
    tt.insert_upper(9, true, UpperEntry { depth: 2, score: 7 });
    tt.rotate();
    assert_eq!(tt.lookup(9, false).1, None);
    assert_eq!(tt.lookup(9, true).1, Some(UpperEntry { depth: 2, score: 7 }));
}

#[test]
fn rotation_discards_the_old_generation() {
    let mut tt = TranspositionTable::new();
    tt.insert_upper(4, false, UpperEntry { depth: 1, score: 3 });
    tt.rotate();
    assert!(tt.lookup(4, false).1.is_some());
    tt.rotate();
    assert_eq!(tt.lookup(4, false).1, None);
}

#[test]
fn bound_returns_mate_floor_after_king_capture() {
    // A White queen captures the Black king; in the resulting position the
    // side to move is a king down and `bound` returns the mate floor at
    // once, whatever gamma, depth or root flag is asked.
    let pos = Position {
        pieces: vec![
            piece(PieceType::King, PieceColor::White, 0, 0),
            piece(PieceType::Queen, PieceColor::White, 6, 4),
            piece(PieceType::King, PieceColor::Black, 7, 4),
            piece(PieceType::Pawn, PieceColor::Black, 5, 6),
        ],
        to_move: PieceColor::White,
    };
    let queen = pos.pieces[1];
    let after = pos.apply_move_unchecked(queen, Square { x: 7, y: 4 });
    assert_eq!(after.to_move, PieceColor::Black);
    assert_eq!(after.pieces.len(), 3);
    assert!(evaluate(&after) <= -MATE_LOWER);
    let mut searcher = Searcher::new();
    let mut calls = 0u64;
    for gamma in [-100000i64, -1, 0, 1, 100000] {
        for depth in [0i64, 1, 3, 7] {
            for root in [false, true] {
                assert_eq!(searcher.bound(&after, gamma, depth, root), -MATE_LOWER);
                calls += 1;
                // The terminal cutoff visits exactly one node and writes no
                // table entry, so a later lookup still misses.
                assert_eq!(searcher.nodes, calls);
            }
        }
    }
    searcher.tt.rotate();
    let key = position_key(&after);
    let (low, up) = searcher.tt.lookup(key, false);
    assert!(low.is_none());
    assert!(up.is_none());
}

#[test]
fn bound_at_depth_zero_returns_static_evaluation() {
    let pos = Position {
        pieces: vec![
            piece(PieceType::King, PieceColor::White, 0, 4),
            piece(PieceType::King, PieceColor::Black, 7, 4),
            piece(PieceType::Rook, PieceColor::White, 3, 3),
        ],
        to_move: PieceColor::White,
    };
    let expected = evaluate(&pos);
    let mut searcher = Searcher::new();
    assert_eq!(searcher.bound(&pos, 0, 0, false), expected);
    // Negative depths are clamped to a leaf as well, on a fresh table.
    let mut searcher2 = Searcher::new();
    assert_eq!(searcher2.bound(&pos, 10, -5, false), expected);
}

#[test]
fn bound_counts_nodes() {
    let pos = starting_position();
    let mut searcher = Searcher::new();
    searcher.bound(&pos, 0, 2, true);
    assert!(searcher.nodes > 0);
}

#[test]
fn search_returns_a_bounded_score() {
    let pos = starting_position();
    let mut searcher = Searcher::new();
    let score = searcher.search(&pos, 2);
    assert!(score >= -MATE_UPPER);
    assert!(score <= MATE_UPPER);
}

#[test]
fn search_best_move_returns_a_generated_move() {
    let pos = starting_position();
    let mut searcher = Searcher::new();
    let (mv, _score) = searcher.search_best_move(&pos, 2).unwrap();
    assert_eq!(mv.piece.color, PieceColor::White);
    assert!(pos.pieces.contains(&mv.piece));
    let gen = mv.piece.possible_moves(&pos.pieces);
    assert!(gen.contains(&(mv.dest.x, mv.dest.y)));
}

#[test]
fn search_best_move_with_no_moves_returns_none() {
    // A White pawn on the last rank has no forward square and no other
    // White piece exists, so the side to move has no reply.
    let pos = Position {
        pieces: vec![
            piece(PieceType::Pawn, PieceColor::White, 7, 0),
            piece(PieceType::Rook, PieceColor::Black, 0, 7),
        ],
        to_move: PieceColor::White,
    };
    let mut searcher = Searcher::new();
    assert!(searcher.search_best_move(&pos, 2).is_none());
}

#[test]
fn apply_move_validates_and_commits() {
    let pos = Position {
        pieces: vec![
            piece(PieceType::Rook, PieceColor::White, 0, 0),
            piece(PieceType::Pawn, PieceColor::Black, 0, 4),
        ],
        to_move: PieceColor::White,
    };
    let rook = pos.pieces[0];

    // An off-board destination is rejected at once.
    let bad = Move { piece: rook, dest: Square { x: 0, y: 9 }, captured: None };
    assert!(matches!(pos.apply_move(&bad), Err(BoardError::InvalidSquare)));

    // A move of a piece that does not stand there is rejected.
    let ghost_piece = piece(PieceType::Queen, PieceColor::White, 3, 3);
    let absent = Move { piece: ghost_piece, dest: Square { x: 3, y: 4 }, captured: None };
    assert!(matches!(pos.apply_move(&absent), Err(BoardError::NoPieceAtSquare)));

    // A motion the legality predicate refuses is rejected.
    let diagonal = Move { piece: rook, dest: Square { x: 1, y: 1 }, captured: None };
    assert!(matches!(pos.apply_move(&diagonal), Err(BoardError::IllegalMove)));

    // A rook capture along the file is legal for `is_move_valid` and
    // commits: the pawn is gone, the rook stands on its square, Black moves.
    let capture = Move {
        piece: rook,
        dest: Square { x: 0, y: 4 },
        captured: Some(pos.pieces[1]),
    };
    let after = pos.apply_move(&capture).unwrap();
    assert_eq!(after.to_move, PieceColor::Black);
    assert_eq!(after.pieces.len(), 1);
    assert_eq!(after.pieces[0], piece(PieceType::Rook, PieceColor::White, 0, 4));
}

#[test]
fn moves_at_reports_caller_errors() {
    let pos = Position {
        pieces: vec![piece(PieceType::Knight, PieceColor::White, 4, 4)],
        to_move: PieceColor::White,
    };
    assert!(matches!(
        pos.moves_at(Square { x: 9, y: 0 }),
        Err(BoardError::InvalidSquare)
    ));
    assert!(matches!(
        pos.moves_at(Square { x: 0, y: 0 }),
        Err(BoardError::NoPieceAtSquare)
    ));
    let moves = pos.moves_at(Square { x: 4, y: 4 }).unwrap();
    assert_eq!(moves.len(), 8);
}

#[test]
fn searcher_moves_lists_only_the_side_to_move() {
    let pos = starting_position();
    let searcher = Searcher::new();
    let moves = searcher.moves(&pos);
    // Eight pawns with two moves each, two knights with two moves each.
    assert_eq!(moves.len(), 20);
    for m in &moves {
        assert_eq!(m.piece.color, PieceColor::White);
        assert_eq!(m.captured, None);
    }
}

#[test]
fn position_keys_separate_the_sides() {
    let pos = starting_position();
    let mut flipped = pos.clone();
    flipped.to_move = PieceColor::Black;
    assert_ne!(position_key(&pos), position_key(&flipped));
    assert_eq!(position_key(&pos), position_key(&starting_position()));
}
