//! Positions as immutable snapshots: the live pieces plus the side to move.
//! A move is committed by building a new position, never by mutating one that
//! another component may still hold.

use vstd::prelude::*;

use crate::board::BoardError;
use crate::board::Square;
use crate::pieces::Piece;
use crate::pieces::PieceColor;
use crate::pieces::PieceType;
use crate::pieces::board_wf;
use crate::pieces::mirror_board;
use crate::pieces::move_valid_spec;
use crate::pieces::occupied;

verus! {

broadcast use vstd::seq_lib::lemma_seq_contains_after_push;

/// A move: the piece that moves, where it goes, and the piece standing on the
/// destination when the move captures.
#[derive(Debug, Clone, Copy, PartialEq, Eq, Structural)]
pub struct Move {
    pub piece: Piece,
    pub dest: Square,
    pub captured: Option<Piece>,
}

/// A snapshot of the game: every live piece and the side to move.
#[derive(Debug, Clone)]
pub struct Position {
    pub pieces: Vec<Piece>,
    pub to_move: PieceColor,
}

/// The piece the move leaves on its destination square.
pub open spec fn moved_piece(p: Piece, nx: int, ny: int) -> Piece {
    Piece { piece_type: p.piece_type, color: p.color, x: nx as u8, y: ny as u8 }
}

/// Membership in the position reached by moving `p` to (nx, ny): the pieces
/// that stood neither on the source nor on the destination square, plus the
/// moved piece.  Any destination occupant is captured, that is, dropped.
pub open spec fn applied_contains(
    b: Seq<Piece>,
    p: Piece,
    nx: int,
    ny: int,
    q: Piece,
) -> bool {
    ||| (b.contains(q) && !(q.x == p.x && q.y == p.y) && !(q.x == nx && q.y == ny))
    ||| q == moved_piece(p, nx, ny)
}

/// The pieces kept when `p` moves to (nx, ny): those standing neither on the
/// source nor on the destination square, in their original order.
pub open spec fn apply_kept(b: Seq<Piece>, p: Piece, nx: int, ny: int) -> Seq<Piece>
    decreases b.len(),
{
    if b.len() == 0 {
        Seq::empty()
    } else {
        let rest = apply_kept(b.drop_last(), p, nx, ny);
        let q = b.last();
        if !(q.x == p.x && q.y == p.y) && !(q.x == nx && q.y == ny) {
            rest.push(q)
        } else {
            rest
        }
    }
}

/// The piece list of the position reached by moving `p` to (nx, ny): the
/// kept pieces followed by the moved piece.
pub open spec fn apply_move_seq(b: Seq<Piece>, p: Piece, nx: int, ny: int) -> Seq<Piece> {
    apply_kept(b, p, nx, ny).push(moved_piece(p, nx, ny))
}

/// Membership in the kept pieces: exactly the pieces off the source and
/// destination squares.
pub proof fn lemma_apply_kept_contains(b: Seq<Piece>, p: Piece, nx: int, ny: int)
    ensures
        forall|q: Piece| #[trigger] apply_kept(b, p, nx, ny).contains(q) <==> (b.contains(q) && !(
        q.x == p.x && q.y == p.y) && !(q.x == nx && q.y == ny)),
    decreases b.len(),
{
    if b.len() > 0 {
        lemma_apply_kept_contains(b.drop_last(), p, nx, ny);
        assert forall|q: Piece| #[trigger] b.contains(q) <==> (b.drop_last().contains(q) || q
            == b.last()) by {
            assert(b == b.drop_last().push(b.last()));
        }
        let rest = apply_kept(b.drop_last(), p, nx, ny);
        let last = b.last();
        assert forall|q: Piece| #[trigger] apply_kept(b, p, nx, ny).contains(q) <==> (b.contains(
            q,
        ) && !(q.x == p.x && q.y == p.y) && !(q.x == nx && q.y == ny)) by {
            if !(last.x == p.x && last.y == p.y) && !(last.x == nx && last.y == ny) {
                assert(apply_kept(b, p, nx, ny) == rest.push(last));
                assert(apply_kept(b, p, nx, ny).contains(q) <==> (rest.contains(q) || q == last));
            } else {
                assert(apply_kept(b, p, nx, ny) == rest);
            }
        }
    }
}

/// The kept pieces of a duplicate-free board are duplicate-free and no more
/// numerous than the board.
pub proof fn lemma_apply_kept_no_dup(b: Seq<Piece>, p: Piece, nx: int, ny: int)
    requires
        b.no_duplicates(),
    ensures
        apply_kept(b, p, nx, ny).no_duplicates(),
        apply_kept(b, p, nx, ny).len() <= b.len(),
    decreases b.len(),
{
    if b.len() > 0 {
        let rest = b.drop_last();
        assert(rest.no_duplicates());
        lemma_apply_kept_no_dup(rest, p, nx, ny);
        let q = b.last();
        if !(q.x == p.x && q.y == p.y) && !(q.x == nx && q.y == ny) {
            lemma_apply_kept_contains(rest, p, nx, ny);
            if apply_kept(rest, p, nx, ny).contains(q) {
                assert(rest.contains(q));
                let t = choose|t: int| 0 <= t < rest.len() && rest[t] == q;
                assert(b[t] == b[b.len() - 1]);
            }
            crate::pieces::lemma_push_no_dup(apply_kept(rest, p, nx, ny), q);
        }
    }
}

/// A well-formed board holds at most 64 pieces: one per square.
pub proof fn lemma_board_len(b: Seq<Piece>)
    requires
        board_wf(b),
    ensures
        b.len() <= 64,
{
    let idx = b.map_values(|p: Piece| p.x as int * 8 + p.y as int);
    assert forall|i: int, j: int|
        0 <= i < idx.len() && 0 <= j < idx.len() && i != j implies idx[i] != idx[j] by {
        assert(b[i].on_board() && b[j].on_board());
        assert(!(b[i].x == b[j].x && b[i].y == b[j].y));
    }
    idx.unique_seq_to_set();
    assert(idx.to_set().subset_of(vstd::set_lib::set_int_range(0, 64))) by {
        assert forall|e: int| idx.to_set().contains(e) implies 0 <= e < 64 by {
            let i = choose|i: int| 0 <= i < idx.len() && idx[i] == e;
            assert(b[i].on_board());
        }
    }
    vstd::set_lib::lemma_int_range(0, 64);
    vstd::set_lib::lemma_len_subset(idx.to_set(), vstd::set_lib::set_int_range(0, 64));
}

/// Pieces of a well-formed board are pairwise distinct values.
pub proof fn lemma_board_no_dup(b: Seq<Piece>)
    requires
        board_wf(b),
    ensures
        b.no_duplicates(),
{
    assert forall|i: int, j: int|
        0 <= i < b.len() && 0 <= j < b.len() && i != j implies b[i] != b[j] by {
        assert(!(b[i].x == b[j].x && b[i].y == b[j].y));
    }
}

impl Position {
    /// The position invariant: every piece on the board, one piece per
    /// square.
    pub open spec fn wf(self) -> bool {
        board_wf(self.pieces@)
    }

    /// The piece standing on (x, y), if any.
    pub fn find_piece(&self, x: u8, y: u8) -> (r: Option<Piece>)
        ensures
            r.is_some() <==> occupied(self.pieces@, x as int, y as int),
            match r {
                Some(p) => self.pieces@.contains(p) && p.x == x && p.y == y,
                None => true,
            },
    {
        let n = self.pieces.len();
        let mut k: usize = 0;
        while k < n
            invariant
                n == self.pieces@.len(),
                k <= n,
                forall|i: int|
                    0 <= i < k ==> !(#[trigger] self.pieces@[i].x == x && self.pieces@[i].y == y),
            decreases n - k,
        {
            let piece = self.pieces[k];
            if piece.x == x && piece.y == y {
                proof {
                    assert(self.pieces@.contains(self.pieces@[k as int]));
                }
                return Some(piece);
            }
            k += 1;
        }
        None
    }

    /// Builds the position after moving `piece` to `dest`, without checking
    /// move legality.  The destination occupant, if any, is captured; the
    /// side to move flips.  The receiver is left untouched.
    pub fn apply_move_unchecked(&self, piece: Piece, dest: Square) -> (r: Position)
        requires
            self.wf(),
            piece.on_board(),
            dest.wf(),
        ensures
            r.wf(),
            r.to_move == self.to_move.opposite_spec(),
            r.pieces@ == apply_move_seq(self.pieces@, piece, dest.x as int, dest.y as int),
            forall|q: Piece| #[trigger] r.pieces@.contains(q) <==> applied_contains(
                self.pieces@,
                piece,
                dest.x as int,
                dest.y as int,
                q,
            ),
            r.pieces@.len() <= self.pieces@.len() + 1,
    {
        proof {
            lemma_board_no_dup(self.pieces@);
        }
        let n = self.pieces.len();
        let mut kept: Vec<Piece> = Vec::new();
        let mut k: usize = 0;
        while k < n
            invariant
                self.wf(),
                piece.on_board(),
                dest.wf(),
                n == self.pieces@.len(),
                k <= n,
                self.pieces@.no_duplicates(),
                kept@ == apply_kept(
                    self.pieces@.take(k as int),
                    piece,
                    dest.x as int,
                    dest.y as int,
                ),
            decreases n - k,
        {
            let q = self.pieces[k];
            proof {
                assert(self.pieces@.take(k as int + 1).drop_last() =~= self.pieces@.take(
                    k as int,
                ));
                assert(self.pieces@.take(k as int + 1).last() == self.pieces@[k as int]);
                assert forall|t: Piece| #[trigger] self.pieces@.take(k as int + 1).contains(t)
                    <==> (self.pieces@.take(k as int).contains(t) || t == self.pieces@[k as int])
                    by {
                    assert(self.pieces@.take(k as int + 1) == self.pieces@.take(
                        k as int,
                    ).push(self.pieces@[k as int]));
                }
            }
            if !(q.x == piece.x && q.y == piece.y) && !(q.x == dest.x && q.y == dest.y) {
                kept.push(q);
            }
            k += 1;
        }
        proof {
            assert(self.pieces@.take(n as int) =~= self.pieces@);
            lemma_apply_kept_contains(self.pieces@, piece, dest.x as int, dest.y as int);
            lemma_apply_kept_no_dup(self.pieces@, piece, dest.x as int, dest.y as int);
        }
        let moved = Piece { piece_type: piece.piece_type, color: piece.color, x: dest.x, y: dest.y };
        proof {
            assert(!kept@.contains(moved));
            crate::pieces::lemma_push_no_dup(kept@, moved);
        }
        let mut out = kept;
        out.push(moved);
        let r = Position { pieces: out, to_move: self.to_move.opposite() };
        proof {
            assert forall|i: int, j: int|
                0 <= i < r.pieces@.len() && 0 <= j < r.pieces@.len() && i != j implies !(
            r.pieces@[i].x == r.pieces@[j].x && r.pieces@[i].y == r.pieces@[j].y) by {
                let qi = r.pieces@[i];
                let qj = r.pieces@[j];
                assert(r.pieces@.contains(qi) && r.pieces@.contains(qj));
                if qi.x == qj.x && qi.y == qj.y {
                    if r.pieces@ == kept@.push(moved) {
                        if qi != moved && qj != moved {
                            let a = choose|a: int|
                                0 <= a < self.pieces@.len() && self.pieces@[a] == qi;
                            let c = choose|c: int|
                                0 <= c < self.pieces@.len() && self.pieces@[c] == qj;
                            assert(qi == qj);
                        } else {
                            assert(qi == qj);
                        }
                        assert(false);
                    }
                }
            }
            assert forall|i: int| 0 <= i < r.pieces@.len() implies (
            #[trigger] r.pieces@[i]).on_board() by {
                let q = r.pieces@[i];
                assert(r.pieces@.contains(q));
                if q != moved {
                    let a = choose|a: int| 0 <= a < self.pieces@.len() && self.pieces@[a] == q;
                    assert(self.pieces@[a].on_board());
                }
            }
        }
        r
    }

    /// Commits a move after validating it: the squares must be on the board,
    /// the moving piece must stand where the move says, and `is_move_valid`
    /// must confirm the motion; otherwise the matching error is returned and
    /// the position is left as it was.
    pub fn apply_move(&self, mv: &Move) -> (r: Result<Position, BoardError>)
        requires
            self.wf(),
        ensures
            !(mv.piece.on_board() && mv.dest.wf()) ==> r == Err::<Position, BoardError>(
                BoardError::InvalidSquare,
            ),
            mv.piece.on_board() && mv.dest.wf() && !self.pieces@.contains(mv.piece) ==> r
                == Err::<Position, BoardError>(BoardError::NoPieceAtSquare),
            mv.piece.on_board() && mv.dest.wf() && self.pieces@.contains(mv.piece)
                && !move_valid_spec(mv.piece, mv.dest.x as int, mv.dest.y as int, self.pieces@)
                ==> r == Err::<Position, BoardError>(BoardError::IllegalMove),
            mv.piece.on_board() && mv.dest.wf() && self.pieces@.contains(mv.piece)
                && move_valid_spec(mv.piece, mv.dest.x as int, mv.dest.y as int, self.pieces@)
                ==> match r {
                Ok(p2) => p2.wf() && p2.to_move == self.to_move.opposite_spec() && (forall|
                    q: Piece,
                |
                    #[trigger] p2.pieces@.contains(q) <==> applied_contains(
                        self.pieces@,
                        mv.piece,
                        mv.dest.x as int,
                        mv.dest.y as int,
                        q,
                    )),
                Err(_) => false,
            },
    {
        if !(mv.piece.x < 8 && mv.piece.y < 8 && mv.dest.x < 8 && mv.dest.y < 8) {
            return Err(BoardError::InvalidSquare);
        }
        match self.find_piece(mv.piece.x, mv.piece.y) {
            None => {
                proof {
                    if self.pieces@.contains(mv.piece) {
                        let i = choose|i: int|
                            0 <= i < self.pieces@.len() && self.pieces@[i] == mv.piece;
                        assert(occupied(self.pieces@, mv.piece.x as int, mv.piece.y as int));
                    }
                }
                return Err(BoardError::NoPieceAtSquare);
            },
            Some(p) => {
                if !(p.piece_type == mv.piece.piece_type && p.color == mv.piece.color) {
                    proof {
                        if self.pieces@.contains(mv.piece) {
                            let i = choose|i: int|
                                0 <= i < self.pieces@.len() && self.pieces@[i] == mv.piece;
                            let j = choose|j: int|
                                0 <= j < self.pieces@.len() && self.pieces@[j] == p;
                            assert(!(i != j && self.pieces@[i].x == self.pieces@[j].x
                                && self.pieces@[i].y == self.pieces@[j].y));
                        }
                    }
                    return Err(BoardError::NoPieceAtSquare);
                }
                proof {
                    assert(p == mv.piece);
                }
            },
        }
        if !mv.piece.is_move_valid((mv.dest.x, mv.dest.y), self.pieces.clone()) {
            return Err(BoardError::IllegalMove);
        }
        Ok(self.apply_move_unchecked(mv.piece, mv.dest))
    }
}


/// White's half of the initial placement: the back rank on rank 0, the
/// pawns on rank 1.
pub open spec fn starting_white_pieces() -> Seq<Piece> {
    seq![
        Piece { piece_type: PieceType::Rook, color: PieceColor::White, x: 0, y: 0 },
        Piece { piece_type: PieceType::Knight, color: PieceColor::White, x: 0, y: 1 },
        Piece { piece_type: PieceType::Bishop, color: PieceColor::White, x: 0, y: 2 },
        Piece { piece_type: PieceType::Queen, color: PieceColor::White, x: 0, y: 3 },
        Piece { piece_type: PieceType::King, color: PieceColor::White, x: 0, y: 4 },
        Piece { piece_type: PieceType::Bishop, color: PieceColor::White, x: 0, y: 5 },
        Piece { piece_type: PieceType::Knight, color: PieceColor::White, x: 0, y: 6 },
        Piece { piece_type: PieceType::Rook, color: PieceColor::White, x: 0, y: 7 },
        Piece { piece_type: PieceType::Pawn, color: PieceColor::White, x: 1, y: 0 },
        Piece { piece_type: PieceType::Pawn, color: PieceColor::White, x: 1, y: 1 },
        Piece { piece_type: PieceType::Pawn, color: PieceColor::White, x: 1, y: 2 },
        Piece { piece_type: PieceType::Pawn, color: PieceColor::White, x: 1, y: 3 },
        Piece { piece_type: PieceType::Pawn, color: PieceColor::White, x: 1, y: 4 },
        Piece { piece_type: PieceType::Pawn, color: PieceColor::White, x: 1, y: 5 },
        Piece { piece_type: PieceType::Pawn, color: PieceColor::White, x: 1, y: 6 },
        Piece { piece_type: PieceType::Pawn, color: PieceColor::White, x: 1, y: 7 },
    ]
}

/// The standard 32-piece initial placement: White's half followed by its
/// color-and-rank mirror image, which puts Black's back rank on rank 7 and
/// Black's pawns on rank 6.
pub open spec fn starting_pieces() -> Seq<Piece> {
    starting_white_pieces() + mirror_board(starting_white_pieces())
}

/// Builds the standard starting position.
#[verifier::rlimit(100)]
pub fn starting_position() -> (r: Position)
    ensures
        r.wf(),
        r.to_move == PieceColor::White,
        r.pieces@ == starting_pieces(),
        r.pieces@.len() == 32,
{
    let mut v: Vec<Piece> = Vec::new();
    v.push(Piece { piece_type: PieceType::Rook, color: PieceColor::White, x: 0, y: 0 });
    v.push(Piece { piece_type: PieceType::Knight, color: PieceColor::White, x: 0, y: 1 });
    v.push(Piece { piece_type: PieceType::Bishop, color: PieceColor::White, x: 0, y: 2 });
    v.push(Piece { piece_type: PieceType::Queen, color: PieceColor::White, x: 0, y: 3 });
    v.push(Piece { piece_type: PieceType::King, color: PieceColor::White, x: 0, y: 4 });
    v.push(Piece { piece_type: PieceType::Bishop, color: PieceColor::White, x: 0, y: 5 });
    v.push(Piece { piece_type: PieceType::Knight, color: PieceColor::White, x: 0, y: 6 });
    v.push(Piece { piece_type: PieceType::Rook, color: PieceColor::White, x: 0, y: 7 });
    v.push(Piece { piece_type: PieceType::Pawn, color: PieceColor::White, x: 1, y: 0 });
    v.push(Piece { piece_type: PieceType::Pawn, color: PieceColor::White, x: 1, y: 1 });
    v.push(Piece { piece_type: PieceType::Pawn, color: PieceColor::White, x: 1, y: 2 });
    v.push(Piece { piece_type: PieceType::Pawn, color: PieceColor::White, x: 1, y: 3 });
    v.push(Piece { piece_type: PieceType::Pawn, color: PieceColor::White, x: 1, y: 4 });
    v.push(Piece { piece_type: PieceType::Pawn, color: PieceColor::White, x: 1, y: 5 });
    v.push(Piece { piece_type: PieceType::Pawn, color: PieceColor::White, x: 1, y: 6 });
    v.push(Piece { piece_type: PieceType::Pawn, color: PieceColor::White, x: 1, y: 7 });
    v.push(Piece { piece_type: PieceType::Rook, color: PieceColor::Black, x: 7, y: 0 });
    v.push(Piece { piece_type: PieceType::Knight, color: PieceColor::Black, x: 7, y: 1 });
    v.push(Piece { piece_type: PieceType::Bishop, color: PieceColor::Black, x: 7, y: 2 });
    v.push(Piece { piece_type: PieceType::Queen, color: PieceColor::Black, x: 7, y: 3 });
    v.push(Piece { piece_type: PieceType::King, color: PieceColor::Black, x: 7, y: 4 });
    v.push(Piece { piece_type: PieceType::Bishop, color: PieceColor::Black, x: 7, y: 5 });
    v.push(Piece { piece_type: PieceType::Knight, color: PieceColor::Black, x: 7, y: 6 });
    v.push(Piece { piece_type: PieceType::Rook, color: PieceColor::Black, x: 7, y: 7 });
    v.push(Piece { piece_type: PieceType::Pawn, color: PieceColor::Black, x: 6, y: 0 });
    v.push(Piece { piece_type: PieceType::Pawn, color: PieceColor::Black, x: 6, y: 1 });
    v.push(Piece { piece_type: PieceType::Pawn, color: PieceColor::Black, x: 6, y: 2 });
    v.push(Piece { piece_type: PieceType::Pawn, color: PieceColor::Black, x: 6, y: 3 });
    v.push(Piece { piece_type: PieceType::Pawn, color: PieceColor::Black, x: 6, y: 4 });
    v.push(Piece { piece_type: PieceType::Pawn, color: PieceColor::Black, x: 6, y: 5 });
    v.push(Piece { piece_type: PieceType::Pawn, color: PieceColor::Black, x: 6, y: 6 });
    v.push(Piece { piece_type: PieceType::Pawn, color: PieceColor::Black, x: 6, y: 7 });
    proof {
        assert(v@ =~= starting_pieces());
        assert forall|i: int, j: int|
            0 <= i < v@.len() && 0 <= j < v@.len() && i != j implies !(#[trigger] v@[i].x
            == #[trigger] v@[j].x && v@[i].y == v@[j].y) by {
            assert(v@[i].x as int * 8 + v@[i].y as int != v@[j].x as int * 8 + v@[j].y as int);
        }
    }
    Position { pieces: v, to_move: PieceColor::White }
}

impl Position {
    /// The generator's destination squares for the piece standing on `sq`:
    /// the move-highlighting query.  Asking about an off-board square or an
    /// empty square is a caller error and is reported, not guessed.
    pub fn moves_at(&self, sq: Square) -> (r: Result<Vec<(u8, u8)>, BoardError>)
        requires
            self.wf(),
        ensures
            !sq.wf() ==> r == Err::<Vec<(u8, u8)>, BoardError>(BoardError::InvalidSquare),
            sq.wf() && !occupied(self.pieces@, sq.x as int, sq.y as int) ==> r == Err::<
                Vec<(u8, u8)>,
                BoardError,
            >(BoardError::NoPieceAtSquare),
            sq.wf() && occupied(self.pieces@, sq.x as int, sq.y as int) ==> match r {
                Ok(v) => forall|s: (u8, u8)| #[trigger] v@.contains(s) <==> (exists|p: Piece|
                    self.pieces@.contains(p) && p.x == sq.x && p.y == sq.y
                        && crate::pieces::possible_move_spec(
                        p,
                        self.pieces@,
                        s.0 as int,
                        s.1 as int,
                    )),
                Err(_) => false,
            },
    {
        if !(sq.x < 8 && sq.y < 8) {
            return Err(BoardError::InvalidSquare);
        }
        match self.find_piece(sq.x, sq.y) {
            None => Err(BoardError::NoPieceAtSquare),
            Some(p) => {
                let ms = p.possible_moves(&self.pieces);
                proof {
                    assert forall|s: (u8, u8)| #[trigger] ms@.contains(s) <==> (exists|q: Piece|
                        self.pieces@.contains(q) && q.x == sq.x && q.y == sq.y
                            && crate::pieces::possible_move_spec(
                            q,
                            self.pieces@,
                            s.0 as int,
                            s.1 as int,
                        )) by {
                        if ms@.contains(s) {
                            assert(self.pieces@.contains(p) && p.x == sq.x && p.y == sq.y
                                && crate::pieces::possible_move_spec(
                                p,
                                self.pieces@,
                                s.0 as int,
                                s.1 as int,
                            ));
                        }
                        if exists|q: Piece|
                            self.pieces@.contains(q) && q.x == sq.x && q.y == sq.y
                                && crate::pieces::possible_move_spec(
                                q,
                                self.pieces@,
                                s.0 as int,
                                s.1 as int,
                            ) {
                            let q = choose|q: Piece|
                                self.pieces@.contains(q) && q.x == sq.x && q.y == sq.y
                                    && crate::pieces::possible_move_spec(
                                    q,
                                    self.pieces@,
                                    s.0 as int,
                                    s.1 as int,
                                );
                            crate::pieces::lemma_occupant_unique(self.pieces@, q, p);
                        }
                    }
                }
                Ok(ms)
            },
        }
    }
}

} // verus!
