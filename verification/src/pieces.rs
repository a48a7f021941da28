//! Piece kinds, colors, board occupancy, and the path-emptiness scan used by
//! the sliding-piece legality rules.

use vstd::prelude::*;

verus! {

broadcast use vstd::seq_lib::lemma_seq_contains_after_push;

/// The six chess piece kinds.
#[derive(Debug, Clone, Copy, PartialEq, Eq, Structural)]
pub enum PieceType {
    Pawn,
    Rook,
    Knight,
    Bishop,
    Queen,
    King,
}

/// The two sides.
#[derive(Debug, Clone, Copy, PartialEq, Eq, Structural)]
pub enum PieceColor {
    White,
    Black,
}

impl PieceColor {
    /// What `opposite` returns.
    pub open spec fn opposite_spec(self) -> PieceColor {
        match self {
            PieceColor::White => PieceColor::Black,
            PieceColor::Black => PieceColor::White,
        }
    }

    /// The color of the opposing side.
    pub fn opposite(self) -> (r: PieceColor)
        ensures
            r == self.opposite_spec(),
    {
        match self {
            PieceColor::White => PieceColor::Black,
            PieceColor::Black => PieceColor::White,
        }
    }
}

/// A piece: its kind, its side, and the square it stands on.
/// `x` is the rank axis (0 is White's back rank, 7 is Black's); `y` is the file.
#[derive(Debug, Clone, Copy, PartialEq, Eq, Structural)]
pub struct Piece {
    pub piece_type: PieceType,
    pub color: PieceColor,
    pub x: u8,
    pub y: u8,
}

/// Both coordinates lie in [0,7].
pub open spec fn sq_on_board(x: int, y: int) -> bool {
    0 <= x < 8 && 0 <= y < 8
}

impl Piece {
    /// The piece stands on the board.
    pub open spec fn on_board(self) -> bool {
        sq_on_board(self.x as int, self.y as int)
    }
}

/// Some piece of the list stands on (x, y).
pub open spec fn occupied(b: Seq<Piece>, x: int, y: int) -> bool {
    exists|i: int| 0 <= i < b.len() && #[trigger] b[i].x == x && b[i].y == y
}

/// Some piece of color `c` stands on (x, y).
pub open spec fn occupied_by(b: Seq<Piece>, x: int, y: int, c: PieceColor) -> bool {
    exists|i: int| 0 <= i < b.len() && #[trigger] b[i].x == x && b[i].y == y && b[i].color == c
}

/// A well-formed board snapshot: every piece on the board, at most one piece
/// per square.
pub open spec fn board_wf(b: Seq<Piece>) -> bool {
    &&& forall|i: int| 0 <= i < b.len() ==> (#[trigger] b[i]).on_board()
    &&& forall|i: int, j: int|
        0 <= i < b.len() && 0 <= j < b.len() && i != j ==> !(#[trigger] b[i].x == #[trigger] b[j].x
            && b[i].y == b[j].y)
}

/// The color of the piece standing on `pos`, if any.
///
/// On a well-formed board the occupant is unique, so the result is pinned down
/// by the two clauses below.
pub fn color_of_square(pos: (u8, u8), pieces: &Vec<Piece>) -> (r: Option<PieceColor>)
    ensures
        r.is_some() <==> occupied(pieces@, pos.0 as int, pos.1 as int),
        match r {
            Some(c) => occupied_by(pieces@, pos.0 as int, pos.1 as int, c),
            None => true,
        },
{
    let n = pieces.len();
    let mut k: usize = 0;
    while k < n
        invariant
            n == pieces@.len(),
            k <= n,
            forall|i: int| 0 <= i < k ==> !(#[trigger] pieces@[i].x == pos.0 && pieces@[i].y == pos.1),
        decreases n - k,
    {
        let piece = pieces[k];
        if piece.x == pos.0 && piece.y == pos.1 {
            return Some(piece.color);
        }
        k += 1;
    }
    None
}

/// Whether any piece stands on (x, y); the occupancy test the generator uses.
pub fn square_occupied(pieces: &Vec<Piece>, x: u8, y: u8) -> (r: bool)
    ensures
        r == occupied(pieces@, x as int, y as int),
{
    let n = pieces.len();
    let mut k: usize = 0;
    while k < n
        invariant
            n == pieces@.len(),
            k <= n,
            forall|i: int| 0 <= i < k ==> !(#[trigger] pieces@[i].x == x && pieces@[i].y == y),
        decreases n - k,
    {
        let piece = pieces[k];
        if piece.x == x && piece.y == y {
            return true;
        }
        k += 1;
    }
    false
}

/// The squares strictly between two aligned squares are all empty.
///
/// The three clauses cover a shared file, a shared rank, and a shared
/// diagonal; for a pair of squares aligned in none of those ways every clause
/// is vacuous and the path counts as empty.
pub open spec fn path_empty_spec(b: Seq<Piece>, x0: int, y0: int, x1: int, y1: int) -> bool {
    &&& (x0 == x1 ==> forall|j: int|
        (y0 < j < y1 || y1 < j < y0) ==> !occupied(b, x0, j))
    &&& (y0 == y1 ==> forall|j: int|
        (x0 < j < x1 || x1 < j < x0) ==> !occupied(b, j, y0))
    &&& diagonal_clear(b, x0, y0, x1, y1)
}

/// The strictly-between squares of a shared diagonal are all empty.
///
/// The first clause handles a shared main diagonal (rank and file grow
/// together), the second a shared anti-diagonal.
pub open spec fn diagonal_clear(b: Seq<Piece>, x0: int, y0: int, x1: int, y1: int) -> bool {
    &&& (x1 - x0 == y1 - y0 ==> forall|u: int, v: int|
        (x0 < u < x1 || x1 < u < x0) && u - x0 == v - y0 ==> !occupied(b, u, v))
    &&& (x1 - x0 == y0 - y1 ==> forall|u: int, v: int|
        (x0 < u < x1 || x1 < u < x0) && u - x0 == y0 - v ==> !occupied(b, u, v))
}

/// Checks that the squares strictly between `begin` and `end` are empty, along
/// a shared file, a shared rank, or a shared diagonal.  Squares aligned in
/// none of those ways have no squares between them and the scan accepts them.
#[verifier::loop_isolation(false)]
pub fn is_path_empty(begin: (u8, u8), end: (u8, u8), pieces: &Vec<Piece>) -> (r: bool)
    requires
        sq_on_board(begin.0 as int, begin.1 as int),
        sq_on_board(end.0 as int, end.1 as int),
    ensures
        r == path_empty_spec(pieces@, begin.0 as int, begin.1 as int, end.0 as int, end.1 as int),
{
    let bx = begin.0;
    let by = begin.1;
    let ex = end.0;
    let ey = end.1;

    if bx == ex && by != ey {
        let lo = if by < ey { by } else { ey };
        let hi = if by < ey { ey } else { by };
        let mut j = lo + 1;
        while j < hi
            invariant
                lo < hi < 8,
                lo < j <= hi,
                bx == ex,
                lo == if by < ey { by } else { ey },
                hi == if by < ey { ey } else { by },
                forall|t: int| lo < t < j ==> !occupied(pieces@, bx as int, t),
            decreases hi - j,
        {
            if square_occupied(pieces, bx, j) {
                proof {
                    assert(occupied(pieces@, begin.0 as int, j as int));
                    assert(((begin.1 as int) < (j as int) && (j as int) < (end.1 as int)) || (
                    (end.1 as int) < (j as int) && (j as int) < (begin.1 as int)));
                }
                return false;
            }
            j += 1;
        }
        return true;
    }

    if by == ey && bx != ex {
        let lo = if bx < ex { bx } else { ex };
        let hi = if bx < ex { ex } else { bx };
        let mut j = lo + 1;
        while j < hi
            invariant
                lo < hi < 8,
                lo < j <= hi,
                by == ey,
                lo == if bx < ex { bx } else { ex },
                hi == if bx < ex { ex } else { bx },
                forall|t: int| lo < t < j ==> !occupied(pieces@, t, by as int),
            decreases hi - j,
        {
            if square_occupied(pieces, j, by) {
                proof {
                    assert(occupied(pieces@, j as int, begin.1 as int));
                    assert(((begin.0 as int) < (j as int) && (j as int) < (end.0 as int)) || (
                    (end.0 as int) < (j as int) && (j as int) < (begin.0 as int)));
                }
                return false;
            }
            j += 1;
        }
        return true;
    }

    if bx == ex && by == ey {
        return true;
    }

    // Neither coordinate is shared; only a diagonal can relate the squares.
    let x_diff = if bx < ex { ex - bx } else { bx - ex };
    let y_diff = if by < ey { ey - by } else { by - ey };
    if x_diff == y_diff {
        let mut j: u8 = 1;
        while j < x_diff
            invariant
                bx != ex,
                by != ey,
                1 <= j <= x_diff,
                x_diff == if bx < ex { ex - bx } else { bx - ex },
                y_diff == if by < ey { ey - by } else { by - ey },
                x_diff == y_diff,
                bx < 8 && by < 8 && ex < 8 && ey < 8,
                forall|u: int, v: int|
                    ((bx < u < bx + j && bx < ex) || (bx - j < u < bx && ex < bx)) && (if (bx < ex)
                        == (by < ey) {
                        u - bx == v - by
                    } else {
                        u - bx == by - v
                    }) ==> !occupied(pieces@, u, v),
            decreases x_diff - j,
        {
            let px = if bx < ex { bx + j } else { bx - j };
            let py = if by < ey { by + j } else { by - j };
            if square_occupied(pieces, px, py) {
                proof {
                    assert(occupied(pieces@, px as int, py as int));
                    if (bx < ex) == (by < ey) {
                        assert(px as int - begin.0 as int == py as int - begin.1 as int);
                        assert(end.0 as int - begin.0 as int == end.1 as int - begin.1 as int);
                    } else {
                        assert(px as int - begin.0 as int == begin.1 as int - py as int);
                        assert(end.0 as int - begin.0 as int == begin.1 as int - end.1 as int);
                    }
                    assert(((begin.0 as int) < (px as int) && (px as int) < (end.0 as int)) || (
                    (end.0 as int) < (px as int) && (px as int) < (begin.0 as int)));
                }
                return false;
            }
            j += 1;
        }
        return true;
    }
    true
}


/// A knight move: one square on one axis and two on the other.
pub open spec fn knight_shape(x: int, y: int, nx: int, ny: int) -> bool {
    ||| (nx - x == 2 && ny - y == 1)
    ||| (nx - x == 2 && ny - y == -1)
    ||| (nx - x == -2 && ny - y == 1)
    ||| (nx - x == -2 && ny - y == -1)
    ||| (nx - x == 1 && ny - y == 2)
    ||| (nx - x == 1 && ny - y == -2)
    ||| (nx - x == -1 && ny - y == 2)
    ||| (nx - x == -1 && ny - y == -2)
}

/// A king move: one step horizontally, vertically or diagonally.
pub open spec fn king_shape(x: int, y: int, nx: int, ny: int) -> bool {
    ||| ((nx - x == 1 || nx - x == -1) && ny == y)
    ||| ((ny - y == 1 || ny - y == -1) && nx == x)
    ||| ((nx - x == 1 || nx - x == -1) && (ny - y == 1 || ny - y == -1))
}

/// Legality of a pawn move: one step forward onto an empty square, two steps
/// from the starting rank over an empty path onto an empty square, or a
/// diagonal step onto an enemy piece.  White moves toward rank 7, Black
/// toward rank 0.
pub open spec fn pawn_valid_spec(p: Piece, nx: int, ny: int, b: Seq<Piece>) -> bool {
    if p.color == PieceColor::White {
        ||| (nx - p.x == 1 && ny == p.y && !occupied(b, nx, ny))
        ||| (p.x == 1 && nx - p.x == 2 && ny == p.y && path_empty_spec(
            b,
            p.x as int,
            p.y as int,
            nx,
            ny,
        ) && !occupied(b, nx, ny))
        ||| (nx - p.x == 1 && (ny - p.y == 1 || ny - p.y == -1) && occupied_by(
            b,
            nx,
            ny,
            PieceColor::Black,
        ))
    } else {
        ||| (nx - p.x == -1 && ny == p.y && !occupied(b, nx, ny))
        ||| (p.x == 6 && nx - p.x == -2 && ny == p.y && path_empty_spec(
            b,
            p.x as int,
            p.y as int,
            nx,
            ny,
        ) && !occupied(b, nx, ny))
        ||| (nx - p.x == -1 && (ny - p.y == 1 || ny - p.y == -1) && occupied_by(
            b,
            nx,
            ny,
            PieceColor::White,
        ))
    }
}

/// What `is_move_valid` returns: full per-piece movement legality against the
/// given board snapshot.
pub open spec fn move_valid_spec(p: Piece, nx: int, ny: int, b: Seq<Piece>) -> bool {
    match p.piece_type {
        PieceType::Pawn => pawn_valid_spec(p, nx, ny, b),
        PieceType::Rook => path_empty_spec(b, p.x as int, p.y as int, nx, ny) && ((nx == p.x && ny
            != p.y) || (ny == p.y && nx != p.x)),
        PieceType::Knight => knight_shape(p.x as int, p.y as int, nx, ny),
        PieceType::Bishop => path_empty_spec(b, p.x as int, p.y as int, nx, ny) && (nx - p.x == ny
            - p.y || nx - p.x == p.y - ny),
        PieceType::Queen => path_empty_spec(b, p.x as int, p.y as int, nx, ny) && ((nx - p.x == ny
            - p.y || nx - p.x == p.y - ny) || ((nx == p.x && ny != p.y) || (ny == p.y && nx
            != p.x))),
        PieceType::King => king_shape(p.x as int, p.y as int, nx, ny),
    }
}

/// On a well-formed board the occupant of a square has one color.
pub proof fn lemma_occupant_color_unique(b: Seq<Piece>, x: int, y: int, c1: PieceColor, c2: PieceColor)
    requires
        board_wf(b),
        occupied_by(b, x, y, c1),
        occupied_by(b, x, y, c2),
    ensures
        c1 == c2,
{
    let i = choose|i: int| 0 <= i < b.len() && #[trigger] b[i].x == x && b[i].y == y && b[i].color == c1;
    let j = choose|j: int| 0 <= j < b.len() && #[trigger] b[j].x == x && b[j].y == y && b[j].color == c2;
    assert(b[i].x == b[j].x && b[i].y == b[j].y);
    if i != j {
        assert(false);
    }
}

impl Piece {
    /// The authoritative legality check for a candidate move: full per-piece
    /// movement rules, with a path-emptiness scan for the sliding pieces.
    pub fn is_move_valid(&self, new_position: (u8, u8), pieces: Vec<Piece>) -> (r: bool)
        requires
            self.on_board(),
            sq_on_board(new_position.0 as int, new_position.1 as int),
            board_wf(pieces@),
        ensures
            r == move_valid_spec(*self, new_position.0 as int, new_position.1 as int, pieces@),
    {
        let x = self.x as i16;
        let y = self.y as i16;
        let nx = new_position.0 as i16;
        let ny = new_position.1 as i16;
        match self.piece_type {
            PieceType::Pawn => {
                if self.color == PieceColor::White {
                    // Normal move
                    if nx - x == 1 && ny == y {
                        if color_of_square(new_position, &pieces).is_none() {
                            return true;
                        }
                    }
                    // Move 2 squares
                    if x == 1 && nx - x == 2 && ny == y && is_path_empty(
                        (self.x, self.y),
                        new_position,
                        &pieces,
                    ) {
                        if color_of_square(new_position, &pieces).is_none() {
                            return true;
                        }
                    }
                    // Take piece
                    if nx - x == 1 && (ny - y == 1 || ny - y == -1) {
                        match color_of_square(new_position, &pieces) {
                            Some(c) => {
                                if c == PieceColor::Black {
                                    return true;
                                }
                                proof {
                                    if occupied_by(
                                        pieces@,
                                        nx as int,
                                        ny as int,
                                        PieceColor::Black,
                                    ) {
                                        lemma_occupant_color_unique(
                                            pieces@,
                                            nx as int,
                                            ny as int,
                                            c,
                                            PieceColor::Black,
                                        );
                                    }
                                }
                            },
                            None => {},
                        }
                    }
                    false
                } else {
                    // Normal move
                    if nx - x == -1 && ny == y {
                        if color_of_square(new_position, &pieces).is_none() {
                            return true;
                        }
                    }
                    // Move 2 squares
                    if x == 6 && nx - x == -2 && ny == y && is_path_empty(
                        (self.x, self.y),
                        new_position,
                        &pieces,
                    ) {
                        if color_of_square(new_position, &pieces).is_none() {
                            return true;
                        }
                    }
                    // Take piece
                    if nx - x == -1 && (ny - y == 1 || ny - y == -1) {
                        match color_of_square(new_position, &pieces) {
                            Some(c) => {
                                if c == PieceColor::White {
                                    return true;
                                }
                                proof {
                                    if occupied_by(
                                        pieces@,
                                        nx as int,
                                        ny as int,
                                        PieceColor::White,
                                    ) {
                                        lemma_occupant_color_unique(
                                            pieces@,
                                            nx as int,
                                            ny as int,
                                            c,
                                            PieceColor::White,
                                        );
                                    }
                                }
                            },
                            None => {},
                        }
                    }
                    false
                }
            },
            PieceType::Rook => {
                is_path_empty((self.x, self.y), new_position, &pieces) && ((nx == x && ny != y) || (
                ny == y && nx != x))
            },
            PieceType::Knight => {
                ((nx - x == 2 || nx - x == -2) && (ny - y == 1 || ny - y == -1)) || ((nx - x == 1
                    || nx - x == -1) && (ny - y == 2 || ny - y == -2))
            },
            PieceType::Bishop => {
                is_path_empty((self.x, self.y), new_position, &pieces) && (nx - x == ny - y || nx
                    - x == y - ny)
            },
            PieceType::Queen => {
                is_path_empty((self.x, self.y), new_position, &pieces) && ((nx - x == ny - y || nx
                    - x == y - ny) || ((nx == x && ny != y) || (ny == y && nx != x)))
            },
            PieceType::King => {
                ((nx - x == 1 || nx - x == -1) && ny == y) || ((ny - y == 1 || ny - y == -1) && nx
                    == x) || ((nx - x == 1 || nx - x == -1) && (ny - y == 1 || ny - y == -1))
            },
        }
    }
}


/// Rook-scan destinations toward larger ranks: the run of empty squares
/// immediately beyond the piece.
pub open spec fn rook_gen_east(p: Piece, b: Seq<Piece>, tx: int, ty: int) -> bool {
    ty == p.y && p.x < tx && tx < 8 && forall|j: int|
        p.x < j <= tx ==> !occupied(b, j, p.y as int)
}

/// Rook-scan destinations toward smaller ranks.
pub open spec fn rook_gen_west(p: Piece, b: Seq<Piece>, tx: int, ty: int) -> bool {
    ty == p.y && 0 <= tx && tx < p.x && forall|j: int|
        tx <= j < p.x ==> !occupied(b, j, p.y as int)
}

/// Rook-scan destinations toward larger files.
pub open spec fn rook_gen_north(p: Piece, b: Seq<Piece>, tx: int, ty: int) -> bool {
    tx == p.x && p.y < ty && ty < 8 && forall|j: int|
        p.y < j <= ty ==> !occupied(b, p.x as int, j)
}

/// Rook-scan destinations toward smaller files.
pub open spec fn rook_gen_south(p: Piece, b: Seq<Piece>, tx: int, ty: int) -> bool {
    tx == p.x && 0 <= ty && ty < p.y && forall|j: int|
        ty <= j < p.y ==> !occupied(b, p.x as int, j)
}

/// Destination squares the generator yields for a rook: scan outward along
/// the four axis directions, adding empty squares, stopping without adding at
/// the first occupied square.  No captures are generated.
pub open spec fn rook_gen(p: Piece, b: Seq<Piece>, tx: int, ty: int) -> bool {
    ||| rook_gen_east(p, b, tx, ty)
    ||| rook_gen_west(p, b, tx, ty)
    ||| rook_gen_north(p, b, tx, ty)
    ||| rook_gen_south(p, b, tx, ty)
}

/// The square is empty or holds an enemy of `p`; the condition under which a
/// diagonal scan may add its stopping square.
pub open spec fn empty_or_enemy(p: Piece, b: Seq<Piece>, tx: int, ty: int) -> bool {
    !occupied(b, tx, ty) || occupied_by(b, tx, ty, p.color.opposite_spec())
}

/// Bishop-scan destinations along the diagonal of growing rank and file.
pub open spec fn bishop_gen_ne(p: Piece, b: Seq<Piece>, tx: int, ty: int) -> bool {
    tx - p.x == ty - p.y && p.x < tx && tx < 8 && ty < 8 && (forall|u: int, v: int|
        p.x < u < tx && u - p.x == v - p.y ==> !occupied(b, u, v)) && empty_or_enemy(p, b, tx, ty)
}

/// Bishop-scan destinations along the diagonal of growing rank, falling file.
pub open spec fn bishop_gen_se(p: Piece, b: Seq<Piece>, tx: int, ty: int) -> bool {
    tx - p.x == p.y - ty && p.x < tx && tx < 8 && 0 <= ty && (forall|u: int, v: int|
        p.x < u < tx && u - p.x == p.y - v ==> !occupied(b, u, v)) && empty_or_enemy(p, b, tx, ty)
}

/// Bishop-scan destinations along the diagonal of falling rank and file.
pub open spec fn bishop_gen_sw(p: Piece, b: Seq<Piece>, tx: int, ty: int) -> bool {
    p.x - tx == p.y - ty && 0 <= tx && tx < p.x && 0 <= ty && (forall|u: int, v: int|
        tx < u < p.x && p.x - u == p.y - v ==> !occupied(b, u, v)) && empty_or_enemy(p, b, tx, ty)
}

/// Bishop-scan destinations along the diagonal of falling rank, growing file.
pub open spec fn bishop_gen_nw(p: Piece, b: Seq<Piece>, tx: int, ty: int) -> bool {
    p.x - tx == ty - p.y && 0 <= tx && tx < p.x && ty < 8 && (forall|u: int, v: int|
        tx < u < p.x && p.x - u == v - p.y ==> !occupied(b, u, v)) && empty_or_enemy(p, b, tx, ty)
}

/// Destination squares the generator yields for a bishop: scan outward along
/// the four diagonals, adding empty squares; the first occupied square stops
/// the scan and is added only when it holds an enemy piece, so this family
/// does generate captures.
pub open spec fn bishop_gen(p: Piece, b: Seq<Piece>, tx: int, ty: int) -> bool {
    ||| bishop_gen_ne(p, b, tx, ty)
    ||| bishop_gen_se(p, b, tx, ty)
    ||| bishop_gen_sw(p, b, tx, ty)
    ||| bishop_gen_nw(p, b, tx, ty)
}

/// Destination squares the generator yields for a pawn: one square forward
/// when the square is empty or holds an enemy piece, and two squares forward
/// from the starting rank when the destination is empty.  The two-square move
/// does not examine the passed-over square.
pub open spec fn pawn_gen(p: Piece, b: Seq<Piece>, tx: int, ty: int) -> bool {
    ty == p.y && if p.color == PieceColor::White {
        ||| (tx == p.x + 1 && tx < 8 && (!occupied(b, tx, ty) || occupied_by(
            b,
            tx,
            ty,
            PieceColor::Black,
        )))
        ||| (p.x == 1 && tx == p.x + 2 && !occupied(b, tx, ty))
    } else {
        ||| (tx == p.x - 1 && 0 <= tx && (!occupied(b, tx, ty) || occupied_by(
            b,
            tx,
            ty,
            PieceColor::White,
        )))
        ||| (p.x == 6 && tx == p.x - 2 && !occupied(b, tx, ty))
    }
}

/// Destination squares the generator yields for a knight: the eight knight
/// offsets, kept when on the board and empty.  No captures are generated.
pub open spec fn knight_gen(p: Piece, b: Seq<Piece>, tx: int, ty: int) -> bool {
    knight_shape(p.x as int, p.y as int, tx, ty) && sq_on_board(tx, ty) && !occupied(b, tx, ty)
}

/// Destination squares the generator yields for a king: the eight adjacent
/// squares, kept when on the board and empty.  No captures are generated.
pub open spec fn king_gen(p: Piece, b: Seq<Piece>, tx: int, ty: int) -> bool {
    king_shape(p.x as int, p.y as int, tx, ty) && sq_on_board(tx, ty) && !occupied(b, tx, ty)
}

/// What `possible_moves` returns: the generator's destination set for the
/// piece, by piece kind.  A queen unites the rook-direction and
/// bishop-direction scans, keeping each family's capture behaviour.
pub open spec fn possible_move_spec(p: Piece, b: Seq<Piece>, tx: int, ty: int) -> bool {
    match p.piece_type {
        PieceType::Pawn => pawn_gen(p, b, tx, ty),
        PieceType::Rook => rook_gen(p, b, tx, ty),
        PieceType::Knight => knight_gen(p, b, tx, ty),
        PieceType::Bishop => bishop_gen(p, b, tx, ty),
        PieceType::Queen => rook_gen(p, b, tx, ty) || bishop_gen(p, b, tx, ty),
        PieceType::King => king_gen(p, b, tx, ty),
    }
}

/// Pushing a fresh element keeps a sequence duplicate-free.
pub proof fn lemma_push_no_dup<A>(s: Seq<A>, v: A)
    requires
        s.no_duplicates(),
        !s.contains(v),
    ensures
        s.push(v).no_duplicates(),
{
    let t = s.push(v);
    assert forall|i: int, j: int| 0 <= i < t.len() && 0 <= j < t.len() && i != j implies t[i]
        != t[j] by {
        if i < s.len() && j < s.len() {
            assert(t[i] == s[i] && t[j] == s[j]);
        } else if i < s.len() {
            assert(t[j] == v && t[i] == s[i]);
            assert(s.contains(s[i]) && !s.contains(v));
        } else {
            assert(t[i] == v && t[j] == s[j]);
            assert(s.contains(s[j]) && !s.contains(v));
        }
    }
}

/// Appends (tx, ty) to `moves` when it is an on-board, empty square.
#[verifier::loop_isolation(false)]
fn push_if_empty(moves: &mut Vec<(u8, u8)>, pieces: &Vec<Piece>, tx: i16, ty: i16)
    requires
        old(moves)@.no_duplicates(),
        !old(moves)@.contains(((tx as u8), (ty as u8))),
    ensures
        final(moves)@ == (if sq_on_board(tx as int, ty as int) && !occupied(
            pieces@,
            tx as int,
            ty as int,
        ) {
            old(moves)@.push(((tx as u8), (ty as u8)))
        } else {
            old(moves)@
        }),
        final(moves)@.no_duplicates(),
{
    if 0 <= tx && tx < 8 && 0 <= ty && ty < 8 {
        if !square_occupied(pieces, tx as u8, ty as u8) {
            proof {
                lemma_push_no_dup(moves@, ((tx as u8), (ty as u8)));
            }
            moves.push((tx as u8, ty as u8));
        }
    }
}


/// Appends the rook-direction scan destinations of `piece` to `moves`.
#[verifier::loop_isolation(false)]
fn rook_scan(piece: &Piece, pieces: &Vec<Piece>, moves: &mut Vec<(u8, u8)>)
    requires
        piece.on_board(),
        old(moves)@.no_duplicates(),
        forall|s: (u8, u8)| old(moves)@.contains(s) ==> !rook_gen(
            *piece,
            pieces@,
            s.0 as int,
            s.1 as int,
        ),
    ensures
        final(moves)@.no_duplicates(),
        forall|s: (u8, u8)| final(moves)@.contains(s) <==> (old(moves)@.contains(s) || rook_gen(
            *piece,
            pieces@,
            s.0 as int,
            s.1 as int,
        )),
{
    let px = piece.x;
    let py = piece.y;
    let ghost m0 = moves@;

    // East: ranks above the piece.
    let mut i = px + 1;
    let mut blocked = false;
    while i < 8 && !blocked
        invariant
            px < i <= 8,
            forall|j: int| px < j < i ==> !occupied(pieces@, j, py as int),
            blocked ==> i < 8 && occupied(pieces@, i as int, py as int),
            moves@.no_duplicates(),
            forall|s: (u8, u8)| #[trigger] moves@.contains(s) <==> (m0.contains(s) || (s.1 == py && px < s.0
                && s.0 < i)),
        decreases 8 - i, (if blocked { 0int } else { 1 }),
    {
        if square_occupied(pieces, i, py) {
            blocked = true;
        } else {
            proof {
                assert(rook_gen_east(*piece, pieces@, i as int, py as int));
                let ghost t = (i, py);
                assert(rook_gen(*piece, pieces@, t.0 as int, t.1 as int));
                assert(!moves@.contains(t));
                lemma_push_no_dup(moves@, (i, py));
            }
            moves.push((i, py));
            i += 1;
        }
    }
    proof {
        assert forall|s: (u8, u8)| rook_gen_east(*piece, pieces@, s.0 as int, s.1 as int)
            implies moves@.contains(s) by {
            if i <= s.0 {
                assert(blocked);
                assert(!occupied(pieces@, i as int, py as int));
            }
            assert(s.1 == py && px < s.0 && s.0 < i);
        }
        assert forall|s: (u8, u8)| moves@.contains(s) && !m0.contains(s)
            implies rook_gen_east(*piece, pieces@, s.0 as int, s.1 as int) by {
            assert(s.1 == py && px < s.0 && s.0 < i);
            assert forall|j: int| px < j <= s.0 as int implies !occupied(
                pieces@,
                j,
                py as int,
            ) by {}
            assert(rook_gen_east(*piece, pieces@, s.0 as int, s.1 as int));
        }
        assert(forall|s: (u8, u8)| #[trigger] moves@.contains(s) <==> (m0.contains(s) || rook_gen_east(
            *piece,
            pieces@,
            s.0 as int,
            s.1 as int,
        )));
    }

    let ghost m1 = moves@;

    // West: ranks below the piece.
    let mut i = px;
    let mut blocked = false;
    while i > 0 && !blocked
        invariant
            0 <= i <= px,
            forall|j: int| i <= j < px ==> !occupied(pieces@, j, py as int),
            blocked ==> i > 0 && occupied(pieces@, i - 1, py as int),
            moves@.no_duplicates(),
            forall|s: (u8, u8)| #[trigger] moves@.contains(s) <==> (m1.contains(s) || (s.1 == py && i <= s.0
                && s.0 < px)),
        decreases i, (if blocked { 0int } else { 1 }),
    {
        let t = i - 1;
        if square_occupied(pieces, t, py) {
            blocked = true;
        } else {
            proof {
                assert(rook_gen_west(*piece, pieces@, t as int, py as int));
                assert(!moves@.contains((t, py)));
                lemma_push_no_dup(moves@, (t, py));
            }
            moves.push((t, py));
            i = t;
        }
    }
    proof {
        assert forall|s: (u8, u8)| #[trigger] moves@.contains(s) <==> (m1.contains(s) || rook_gen_west(
            *piece,
            pieces@,
            s.0 as int,
            s.1 as int,
        )) by {
            if rook_gen_west(*piece, pieces@, s.0 as int, s.1 as int) {
                if s.0 < i {
                    assert(blocked);
                    assert(!occupied(pieces@, i - 1, py as int));
                }
                assert(s.1 == py && i <= s.0 && s.0 < px);
            }
            if moves@.contains(s) && !m1.contains(s) {
                assert(s.1 == py && i <= s.0 && s.0 < px);
                assert forall|j: int| s.0 as int <= j < px as int implies !occupied(
                    pieces@,
                    j,
                    py as int,
                ) by {}
                assert(rook_gen_west(*piece, pieces@, s.0 as int, s.1 as int));
            }
        }
    }

    let ghost m2 = moves@;

    // North: files above the piece.
    let mut i = py + 1;
    let mut blocked = false;
    while i < 8 && !blocked
        invariant
            py < i <= 8,
            forall|j: int| py < j < i ==> !occupied(pieces@, px as int, j),
            blocked ==> i < 8 && occupied(pieces@, px as int, i as int),
            moves@.no_duplicates(),
            forall|s: (u8, u8)| #[trigger] moves@.contains(s) <==> (m2.contains(s) || (s.0 == px && py < s.1
                && s.1 < i)),
        decreases 8 - i, (if blocked { 0int } else { 1 }),
    {
        if square_occupied(pieces, px, i) {
            blocked = true;
        } else {
            proof {
                assert(rook_gen_north(*piece, pieces@, px as int, i as int));
                assert(!moves@.contains((px, i)));
                lemma_push_no_dup(moves@, (px, i));
            }
            moves.push((px, i));
            i += 1;
        }
    }
    proof {
        assert forall|s: (u8, u8)| #[trigger] moves@.contains(s) <==> (m2.contains(s) || rook_gen_north(
            *piece,
            pieces@,
            s.0 as int,
            s.1 as int,
        )) by {
            if rook_gen_north(*piece, pieces@, s.0 as int, s.1 as int) {
                if i <= s.1 {
                    assert(blocked);
                    assert(!occupied(pieces@, px as int, i as int));
                }
                assert(s.0 == px && py < s.1 && s.1 < i);
            }
            if moves@.contains(s) && !m2.contains(s) {
                assert(s.0 == px && py < s.1 && s.1 < i);
                assert forall|j: int| py < j <= s.1 as int implies !occupied(
                    pieces@,
                    px as int,
                    j,
                ) by {}
                assert(rook_gen_north(*piece, pieces@, s.0 as int, s.1 as int));
            }
        }
    }

    let ghost m3 = moves@;

    // South: files below the piece.
    let mut i = py;
    let mut blocked = false;
    while i > 0 && !blocked
        invariant
            0 <= i <= py,
            forall|j: int| i <= j < py ==> !occupied(pieces@, px as int, j),
            blocked ==> i > 0 && occupied(pieces@, px as int, i - 1),
            moves@.no_duplicates(),
            forall|s: (u8, u8)| #[trigger] moves@.contains(s) <==> (m3.contains(s) || (s.0 == px && i <= s.1
                && s.1 < py)),
        decreases i, (if blocked { 0int } else { 1 }),
    {
        let t = i - 1;
        if square_occupied(pieces, px, t) {
            blocked = true;
        } else {
            proof {
                assert(rook_gen_south(*piece, pieces@, px as int, t as int));
                assert(!moves@.contains((px, t)));
                lemma_push_no_dup(moves@, (px, t));
            }
            moves.push((px, t));
            i = t;
        }
    }
    proof {
        assert forall|s: (u8, u8)| #[trigger] moves@.contains(s) <==> (m3.contains(s) || rook_gen_south(
            *piece,
            pieces@,
            s.0 as int,
            s.1 as int,
        )) by {
            if rook_gen_south(*piece, pieces@, s.0 as int, s.1 as int) {
                if s.1 < i {
                    assert(blocked);
                    assert(!occupied(pieces@, px as int, i - 1));
                }
                assert(s.0 == px && i <= s.1 && s.1 < py);
            }
            if moves@.contains(s) && !m3.contains(s) {
                assert(s.0 == px && i <= s.1 && s.1 < py);
                assert forall|j: int| s.1 as int <= j < py as int implies !occupied(
                    pieces@,
                    px as int,
                    j,
                ) by {}
                assert(rook_gen_south(*piece, pieces@, s.0 as int, s.1 as int));
            }
        }
    }
}



/// Appends the NE-diagonal scan destinations of `piece` to `moves`.
#[verifier::loop_isolation(false)]
#[verifier::rlimit(40)]
fn bishop_scan_ne(piece: &Piece, pieces: &Vec<Piece>, moves: &mut Vec<(u8, u8)>)
    requires
        piece.on_board(),
        board_wf(pieces@),
        old(moves)@.no_duplicates(),
        forall|s: (u8, u8)| old(moves)@.contains(s) ==> !bishop_gen_ne(
            *piece,
            pieces@,
            s.0 as int,
            s.1 as int,
        ),
    ensures
        final(moves)@.no_duplicates(),
        forall|s: (u8, u8)| #[trigger] final(moves)@.contains(s) <==> (old(moves)@.contains(s)
            || bishop_gen_ne(*piece, pieces@, s.0 as int, s.1 as int)),
{
    let px = piece.x;
    let py = piece.y;
    let ghost m0 = moves@;
    let mut k: u8 = 1;
    let mut blocked = false;
    while px + k < 8 && py + k < 8 && !blocked
        invariant
            1 <= k <= 8,
            px as int + k as int <= 8 && py as int + k as int <= 8,
            blocked ==> (px + k < 8 && py + k < 8) && occupied(pieces@, px as int + k as int, py as int + k as int),
            forall|u: int, v: int| px < u && u < px as int + k as int && u - px == v - py ==> !occupied(pieces@, u, v),
            moves@.no_duplicates(),
            forall|s: (u8, u8)| #[trigger] moves@.contains(s) <==> (m0.contains(s) || (
                s.0 as int - px as int == s.1 as int - py as int && px < s.0 && (s.0 as int) < px as int + k as int)),
        decreases 16 - k, (if blocked { 0int } else { 1 }),
    {
        let tx = px + k;
        let ty = py + k;
        if square_occupied(pieces, tx, ty) {
            blocked = true;
        } else {
            proof {
                assert(bishop_gen_ne(*piece, pieces@, tx as int, ty as int));
                let ghost t = (tx, ty);
                assert(bishop_gen_ne(*piece, pieces@, t.0 as int, t.1 as int));
                assert(!moves@.contains(t));
                lemma_push_no_dup(moves@, t);
            }
            moves.push((tx, ty));
            k += 1;
        }
    }
    if blocked {
        let tx = px + k;
        let ty = py + k;
        match color_of_square((tx, ty), pieces) {
            Some(c) => {
                if c != piece.color {
                    proof {
                        assert(occupied_by(
                            pieces@,
                            tx as int,
                            ty as int,
                            piece.color.opposite_spec(),
                        ));
                        assert(bishop_gen_ne(*piece, pieces@, tx as int, ty as int));
                        let ghost t = (tx, ty);
                        assert(bishop_gen_ne(*piece, pieces@, t.0 as int, t.1 as int));
                        assert(!moves@.contains(t));
                        lemma_push_no_dup(moves@, t);
                    }
                    moves.push((tx, ty));
                } else {
                    proof {
                        if occupied_by(pieces@, tx as int, ty as int, piece.color.opposite_spec()) {
                            lemma_occupant_color_unique(
                                pieces@,
                                tx as int,
                                ty as int,
                                c,
                                piece.color.opposite_spec(),
                            );
                        }
                    }
                }
            },
            None => {},
        }
    }
    proof {
        assert forall|s: (u8, u8)| #[trigger] moves@.contains(s) <==> (m0.contains(s)
            || bishop_gen_ne(*piece, pieces@, s.0 as int, s.1 as int)) by {
            if bishop_gen_ne(*piece, pieces@, s.0 as int, s.1 as int) {
                if blocked && s.0 == px + k {
                    assert(s.0 == px + k && s.1 == py + k);
                    assert(moves@.contains(s));
                } else {
                    if blocked {
                        assert(occupied(pieces@, px as int + k as int, py as int + k as int));
                    }
                    assert(s.0 as int - px as int == s.1 as int - py as int && px < s.0 && (s.0 as int) < px as int + k as int);
                }
            }
            if moves@.contains(s) && !m0.contains(s) {
                if s.0 as int - px as int == s.1 as int - py as int && px < s.0 && (s.0 as int) < px as int + k as int {
                    assert(!occupied(pieces@, s.0 as int, s.1 as int));
                    assert(bishop_gen_ne(*piece, pieces@, s.0 as int, s.1 as int));
                } else {
                    assert(s.0 == px + k && s.1 == py + k);
                    assert(bishop_gen_ne(*piece, pieces@, s.0 as int, s.1 as int));
                }
            }
        }
    }
}

/// Appends the SE-diagonal scan destinations of `piece` to `moves`.
#[verifier::loop_isolation(false)]
#[verifier::rlimit(40)]
fn bishop_scan_se(piece: &Piece, pieces: &Vec<Piece>, moves: &mut Vec<(u8, u8)>)
    requires
        piece.on_board(),
        board_wf(pieces@),
        old(moves)@.no_duplicates(),
        forall|s: (u8, u8)| old(moves)@.contains(s) ==> !bishop_gen_se(
            *piece,
            pieces@,
            s.0 as int,
            s.1 as int,
        ),
    ensures
        final(moves)@.no_duplicates(),
        forall|s: (u8, u8)| #[trigger] final(moves)@.contains(s) <==> (old(moves)@.contains(s)
            || bishop_gen_se(*piece, pieces@, s.0 as int, s.1 as int)),
{
    let px = piece.x;
    let py = piece.y;
    let ghost m0 = moves@;
    let mut k: u8 = 1;
    let mut blocked = false;
    while px + k < 8 && k <= py && !blocked
        invariant
            1 <= k <= 8,
            px as int + k as int <= 8 && k as int <= py as int + 1,
            blocked ==> (px + k < 8 && k <= py) && occupied(pieces@, px as int + k as int, py as int - k as int),
            forall|u: int, v: int| px < u && u < px as int + k as int && u - px == py - v ==> !occupied(pieces@, u, v),
            moves@.no_duplicates(),
            forall|s: (u8, u8)| #[trigger] moves@.contains(s) <==> (m0.contains(s) || (
                s.0 as int - px as int == py as int - s.1 as int && px < s.0 && (s.0 as int) < px as int + k as int)),
        decreases 16 - k, (if blocked { 0int } else { 1 }),
    {
        let tx = px + k;
        let ty = py - k;
        if square_occupied(pieces, tx, ty) {
            blocked = true;
        } else {
            proof {
                assert(bishop_gen_se(*piece, pieces@, tx as int, ty as int));
                let ghost t = (tx, ty);
                assert(bishop_gen_se(*piece, pieces@, t.0 as int, t.1 as int));
                assert(!moves@.contains(t));
                lemma_push_no_dup(moves@, t);
            }
            moves.push((tx, ty));
            k += 1;
        }
    }
    if blocked {
        let tx = px + k;
        let ty = py - k;
        match color_of_square((tx, ty), pieces) {
            Some(c) => {
                if c != piece.color {
                    proof {
                        assert(occupied_by(
                            pieces@,
                            tx as int,
                            ty as int,
                            piece.color.opposite_spec(),
                        ));
                        assert(bishop_gen_se(*piece, pieces@, tx as int, ty as int));
                        let ghost t = (tx, ty);
                        assert(bishop_gen_se(*piece, pieces@, t.0 as int, t.1 as int));
                        assert(!moves@.contains(t));
                        lemma_push_no_dup(moves@, t);
                    }
                    moves.push((tx, ty));
                } else {
                    proof {
                        if occupied_by(pieces@, tx as int, ty as int, piece.color.opposite_spec()) {
                            lemma_occupant_color_unique(
                                pieces@,
                                tx as int,
                                ty as int,
                                c,
                                piece.color.opposite_spec(),
                            );
                        }
                    }
                }
            },
            None => {},
        }
    }
    proof {
        assert forall|s: (u8, u8)| #[trigger] moves@.contains(s) <==> (m0.contains(s)
            || bishop_gen_se(*piece, pieces@, s.0 as int, s.1 as int)) by {
            if bishop_gen_se(*piece, pieces@, s.0 as int, s.1 as int) {
                if blocked && s.0 == px + k {
                    assert(s.0 == px + k && s.1 == py - k);
                    assert(moves@.contains(s));
                } else {
                    if blocked {
                        assert(occupied(pieces@, px as int + k as int, py as int - k as int));
                    }
                    assert(s.0 as int - px as int == py as int - s.1 as int && px < s.0 && (s.0 as int) < px as int + k as int);
                }
            }
            if moves@.contains(s) && !m0.contains(s) {
                if s.0 as int - px as int == py as int - s.1 as int && px < s.0 && (s.0 as int) < px as int + k as int {
                    assert(!occupied(pieces@, s.0 as int, s.1 as int));
                    assert(bishop_gen_se(*piece, pieces@, s.0 as int, s.1 as int));
                } else {
                    assert(s.0 == px + k && s.1 == py - k);
                    assert(bishop_gen_se(*piece, pieces@, s.0 as int, s.1 as int));
                }
            }
        }
    }
}

/// Appends the SW-diagonal scan destinations of `piece` to `moves`.
#[verifier::loop_isolation(false)]
#[verifier::rlimit(40)]
fn bishop_scan_sw(piece: &Piece, pieces: &Vec<Piece>, moves: &mut Vec<(u8, u8)>)
    requires
        piece.on_board(),
        board_wf(pieces@),
        old(moves)@.no_duplicates(),
        forall|s: (u8, u8)| old(moves)@.contains(s) ==> !bishop_gen_sw(
            *piece,
            pieces@,
            s.0 as int,
            s.1 as int,
        ),
    ensures
        final(moves)@.no_duplicates(),
        forall|s: (u8, u8)| #[trigger] final(moves)@.contains(s) <==> (old(moves)@.contains(s)
            || bishop_gen_sw(*piece, pieces@, s.0 as int, s.1 as int)),
{
    let px = piece.x;
    let py = piece.y;
    let ghost m0 = moves@;
    let mut k: u8 = 1;
    let mut blocked = false;
    while k <= px && k <= py && !blocked
        invariant
            1 <= k <= 8,
            k as int <= px as int + 1 && k as int <= py as int + 1,
            blocked ==> (k <= px && k <= py) && occupied(pieces@, px as int - k as int, py as int - k as int),
            forall|u: int, v: int| (px as int - k as int) < u && u < px && px - u == py - v ==> !occupied(pieces@, u, v),
            moves@.no_duplicates(),
            forall|s: (u8, u8)| #[trigger] moves@.contains(s) <==> (m0.contains(s) || (
                px as int - s.0 as int == py as int - s.1 as int && (px as int - k as int) < s.0 as int && s.0 < px)),
        decreases 16 - k, (if blocked { 0int } else { 1 }),
    {
        let tx = px - k;
        let ty = py - k;
        if square_occupied(pieces, tx, ty) {
            blocked = true;
        } else {
            proof {
                assert(bishop_gen_sw(*piece, pieces@, tx as int, ty as int));
                let ghost t = (tx, ty);
                assert(bishop_gen_sw(*piece, pieces@, t.0 as int, t.1 as int));
                assert(!moves@.contains(t));
                lemma_push_no_dup(moves@, t);
            }
            moves.push((tx, ty));
            k += 1;
        }
    }
    if blocked {
        let tx = px - k;
        let ty = py - k;
        match color_of_square((tx, ty), pieces) {
            Some(c) => {
                if c != piece.color {
                    proof {
                        assert(occupied_by(
                            pieces@,
                            tx as int,
                            ty as int,
                            piece.color.opposite_spec(),
                        ));
                        assert(bishop_gen_sw(*piece, pieces@, tx as int, ty as int));
                        let ghost t = (tx, ty);
                        assert(bishop_gen_sw(*piece, pieces@, t.0 as int, t.1 as int));
                        assert(!moves@.contains(t));
                        lemma_push_no_dup(moves@, t);
                    }
                    moves.push((tx, ty));
                } else {
                    proof {
                        if occupied_by(pieces@, tx as int, ty as int, piece.color.opposite_spec()) {
                            lemma_occupant_color_unique(
                                pieces@,
                                tx as int,
                                ty as int,
                                c,
                                piece.color.opposite_spec(),
                            );
                        }
                    }
                }
            },
            None => {},
        }
    }
    proof {
        assert forall|s: (u8, u8)| #[trigger] moves@.contains(s) <==> (m0.contains(s)
            || bishop_gen_sw(*piece, pieces@, s.0 as int, s.1 as int)) by {
            if bishop_gen_sw(*piece, pieces@, s.0 as int, s.1 as int) {
                if blocked && s.0 as int == px as int - k as int {
                    assert(s.0 == px - k && s.1 == py - k);
                    assert(moves@.contains(s));
                } else {
                    if blocked {
                        assert(occupied(pieces@, px as int - k as int, py as int - k as int));
                    }
                    assert(px as int - s.0 as int == py as int - s.1 as int && (px as int - k as int) < s.0 as int && s.0 < px);
                }
            }
            if moves@.contains(s) && !m0.contains(s) {
                if px as int - s.0 as int == py as int - s.1 as int && (px as int - k as int) < s.0 as int && s.0 < px {
                    assert(!occupied(pieces@, s.0 as int, s.1 as int));
                    assert(bishop_gen_sw(*piece, pieces@, s.0 as int, s.1 as int));
                } else {
                    assert(s.0 == px - k && s.1 == py - k);
                    assert(bishop_gen_sw(*piece, pieces@, s.0 as int, s.1 as int));
                }
            }
        }
    }
}

/// Appends the NW-diagonal scan destinations of `piece` to `moves`.
#[verifier::loop_isolation(false)]
#[verifier::rlimit(40)]
fn bishop_scan_nw(piece: &Piece, pieces: &Vec<Piece>, moves: &mut Vec<(u8, u8)>)
    requires
        piece.on_board(),
        board_wf(pieces@),
        old(moves)@.no_duplicates(),
        forall|s: (u8, u8)| old(moves)@.contains(s) ==> !bishop_gen_nw(
            *piece,
            pieces@,
            s.0 as int,
            s.1 as int,
        ),
    ensures
        final(moves)@.no_duplicates(),
        forall|s: (u8, u8)| #[trigger] final(moves)@.contains(s) <==> (old(moves)@.contains(s)
            || bishop_gen_nw(*piece, pieces@, s.0 as int, s.1 as int)),
{
    let px = piece.x;
    let py = piece.y;
    let ghost m0 = moves@;
    let mut k: u8 = 1;
    let mut blocked = false;
    while k <= px && py + k < 8 && !blocked
        invariant
            1 <= k <= 8,
            k as int <= px as int + 1 && py as int + k as int <= 8,
            blocked ==> (k <= px && py + k < 8) && occupied(pieces@, px as int - k as int, py as int + k as int),
            forall|u: int, v: int| (px as int - k as int) < u && u < px && px - u == v - py ==> !occupied(pieces@, u, v),
            moves@.no_duplicates(),
            forall|s: (u8, u8)| #[trigger] moves@.contains(s) <==> (m0.contains(s) || (
                px as int - s.0 as int == s.1 as int - py as int && (px as int - k as int) < s.0 as int && s.0 < px)),
        decreases 16 - k, (if blocked { 0int } else { 1 }),
    {
        let tx = px - k;
        let ty = py + k;
        if square_occupied(pieces, tx, ty) {
            blocked = true;
        } else {
            proof {
                assert(bishop_gen_nw(*piece, pieces@, tx as int, ty as int));
                let ghost t = (tx, ty);
                assert(bishop_gen_nw(*piece, pieces@, t.0 as int, t.1 as int));
                assert(!moves@.contains(t));
                lemma_push_no_dup(moves@, t);
            }
            moves.push((tx, ty));
            k += 1;
        }
    }
    if blocked {
        let tx = px - k;
        let ty = py + k;
        match color_of_square((tx, ty), pieces) {
            Some(c) => {
                if c != piece.color {
                    proof {
                        assert(occupied_by(
                            pieces@,
                            tx as int,
                            ty as int,
                            piece.color.opposite_spec(),
                        ));
                        assert(bishop_gen_nw(*piece, pieces@, tx as int, ty as int));
                        let ghost t = (tx, ty);
                        assert(bishop_gen_nw(*piece, pieces@, t.0 as int, t.1 as int));
                        assert(!moves@.contains(t));
                        lemma_push_no_dup(moves@, t);
                    }
                    moves.push((tx, ty));
                } else {
                    proof {
                        if occupied_by(pieces@, tx as int, ty as int, piece.color.opposite_spec()) {
                            lemma_occupant_color_unique(
                                pieces@,
                                tx as int,
                                ty as int,
                                c,
                                piece.color.opposite_spec(),
                            );
                        }
                    }
                }
            },
            None => {},
        }
    }
    proof {
        assert forall|s: (u8, u8)| #[trigger] moves@.contains(s) <==> (m0.contains(s)
            || bishop_gen_nw(*piece, pieces@, s.0 as int, s.1 as int)) by {
            if bishop_gen_nw(*piece, pieces@, s.0 as int, s.1 as int) {
                if blocked && s.0 as int == px as int - k as int {
                    assert(s.0 == px - k && s.1 == py + k);
                    assert(moves@.contains(s));
                } else {
                    if blocked {
                        assert(occupied(pieces@, px as int - k as int, py as int + k as int));
                    }
                    assert(px as int - s.0 as int == s.1 as int - py as int && (px as int - k as int) < s.0 as int && s.0 < px);
                }
            }
            if moves@.contains(s) && !m0.contains(s) {
                if px as int - s.0 as int == s.1 as int - py as int && (px as int - k as int) < s.0 as int && s.0 < px {
                    assert(!occupied(pieces@, s.0 as int, s.1 as int));
                    assert(bishop_gen_nw(*piece, pieces@, s.0 as int, s.1 as int));
                } else {
                    assert(s.0 == px - k && s.1 == py + k);
                    assert(bishop_gen_nw(*piece, pieces@, s.0 as int, s.1 as int));
                }
            }
        }
    }
}

/// Appends the four diagonal scans of `piece` to `moves`.
fn bishop_scan(piece: &Piece, pieces: &Vec<Piece>, moves: &mut Vec<(u8, u8)>)
    requires
        piece.on_board(),
        board_wf(pieces@),
        old(moves)@.no_duplicates(),
        forall|s: (u8, u8)| old(moves)@.contains(s) ==> !bishop_gen(
            *piece,
            pieces@,
            s.0 as int,
            s.1 as int,
        ),
    ensures
        final(moves)@.no_duplicates(),
        forall|s: (u8, u8)| #[trigger] final(moves)@.contains(s) <==> (old(moves)@.contains(s)
            || bishop_gen(*piece, pieces@, s.0 as int, s.1 as int)),
{
    let ghost m0 = moves@;
    bishop_scan_ne(piece, pieces, moves);
    proof {
        assert forall|s: (u8, u8)| moves@.contains(s) implies !bishop_gen_se(
            *piece,
            pieces@,
            s.0 as int,
            s.1 as int,
        ) by {
            if m0.contains(s) {
                assert(!bishop_gen(*piece, pieces@, s.0 as int, s.1 as int));
            }
        }
    }
    let ghost m1 = moves@;
    bishop_scan_se(piece, pieces, moves);
    proof {
        assert forall|s: (u8, u8)| moves@.contains(s) implies !bishop_gen_sw(
            *piece,
            pieces@,
            s.0 as int,
            s.1 as int,
        ) by {
            if m0.contains(s) {
                assert(!bishop_gen(*piece, pieces@, s.0 as int, s.1 as int));
            }
        }
    }
    let ghost m2 = moves@;
    bishop_scan_sw(piece, pieces, moves);
    proof {
        assert forall|s: (u8, u8)| moves@.contains(s) implies !bishop_gen_nw(
            *piece,
            pieces@,
            s.0 as int,
            s.1 as int,
        ) by {
            if m0.contains(s) {
                assert(!bishop_gen(*piece, pieces@, s.0 as int, s.1 as int));
            }
        }
    }
    bishop_scan_nw(piece, pieces, moves);
}


/// Every square the generator yields lies on the board.
pub proof fn lemma_generated_move_on_board(p: Piece, b: Seq<Piece>, tx: int, ty: int)
    requires
        p.on_board(),
        possible_move_spec(p, b, tx, ty),
    ensures
        sq_on_board(tx, ty),
{
}

impl Piece {
    /// The move-highlighting generator: the set of destination squares for
    /// this piece against the given board snapshot, ignoring whether a move
    /// exposes the mover's own king.  The result never holds a duplicate and
    /// never holds an off-board square.
    #[verifier::rlimit(60)]
    pub fn possible_moves(&self, pieces: &Vec<Piece>) -> (moves: Vec<(u8, u8)>)
        requires
            self.on_board(),
            board_wf(pieces@),
        ensures
            moves@.no_duplicates(),
            forall|s: (u8, u8)| #[trigger] moves@.contains(s) <==> possible_move_spec(
                *self,
                pieces@,
                s.0 as int,
                s.1 as int,
            ),
            forall|i: int| 0 <= i < moves@.len() ==> sq_on_board(
                moves@[i].0 as int,
                moves@[i].1 as int,
            ),
    {
        let mut moves: Vec<(u8, u8)> = Vec::new();
        match self.piece_type {
            PieceType::Pawn => {
                if self.color == PieceColor::White {
                    let fx = self.x + 1;
                    if fx < 8 {
                        match color_of_square((fx, self.y), pieces) {
                            None => {
                                moves.push((fx, self.y));
                            },
                            Some(c) => {
                                if c != PieceColor::White {
                                    moves.push((fx, self.y));
                                } else {
                                    proof {
                                        if occupied_by(
                                            pieces@,
                                            fx as int,
                                            self.y as int,
                                            PieceColor::Black,
                                        ) {
                                            lemma_occupant_color_unique(
                                                pieces@,
                                                fx as int,
                                                self.y as int,
                                                c,
                                                PieceColor::Black,
                                            );
                                        }
                                    }
                                }
                            },
                        }
                    }
                    if self.x == 1 {
                        if !square_occupied(pieces, 3, self.y) {
                            proof {
                                lemma_push_no_dup(moves@, (3u8, self.y));
                            }
                            moves.push((3, self.y));
                        }
                    }
                } else {
                    if self.x >= 1 {
                        let fx = self.x - 1;
                        match color_of_square((fx, self.y), pieces) {
                            None => {
                                moves.push((fx, self.y));
                            },
                            Some(c) => {
                                if c != PieceColor::Black {
                                    moves.push((fx, self.y));
                                } else {
                                    proof {
                                        if occupied_by(
                                            pieces@,
                                            fx as int,
                                            self.y as int,
                                            PieceColor::White,
                                        ) {
                                            lemma_occupant_color_unique(
                                                pieces@,
                                                fx as int,
                                                self.y as int,
                                                c,
                                                PieceColor::White,
                                            );
                                        }
                                    }
                                }
                            },
                        }
                    }
                    if self.x == 6 {
                        if !square_occupied(pieces, 4, self.y) {
                            proof {
                                lemma_push_no_dup(moves@, (4u8, self.y));
                            }
                            moves.push((4, self.y));
                        }
                    }
                }
            },
            PieceType::Rook => {
                rook_scan(self, pieces, &mut moves);
            },
            PieceType::Knight => {
                let x = self.x as i16;
                let y = self.y as i16;
                push_if_empty(&mut moves, pieces, x - 2, y - 1);
                push_if_empty(&mut moves, pieces, x - 2, y + 1);
                push_if_empty(&mut moves, pieces, x - 1, y - 2);
                push_if_empty(&mut moves, pieces, x - 1, y + 2);
                push_if_empty(&mut moves, pieces, x + 1, y - 2);
                push_if_empty(&mut moves, pieces, x + 1, y + 2);
                push_if_empty(&mut moves, pieces, x + 2, y - 1);
                push_if_empty(&mut moves, pieces, x + 2, y + 1);
            },
            PieceType::Bishop => {
                bishop_scan(self, pieces, &mut moves);
            },
            PieceType::Queen => {
                rook_scan(self, pieces, &mut moves);
                proof {
                    assert forall|s: (u8, u8)| moves@.contains(s) implies !bishop_gen(
                        *self,
                        pieces@,
                        s.0 as int,
                        s.1 as int,
                    ) by {
                        assert(rook_gen(*self, pieces@, s.0 as int, s.1 as int));
                    }
                }
                bishop_scan(self, pieces, &mut moves);
            },
            PieceType::King => {
                let x = self.x as i16;
                let y = self.y as i16;
                push_if_empty(&mut moves, pieces, x - 1, y - 1);
                push_if_empty(&mut moves, pieces, x - 1, y);
                push_if_empty(&mut moves, pieces, x - 1, y + 1);
                push_if_empty(&mut moves, pieces, x, y - 1);
                push_if_empty(&mut moves, pieces, x, y + 1);
                push_if_empty(&mut moves, pieces, x + 1, y - 1);
                push_if_empty(&mut moves, pieces, x + 1, y);
                push_if_empty(&mut moves, pieces, x + 1, y + 1);
            },
        }
        proof {
            assert forall|i: int| 0 <= i < moves@.len() implies sq_on_board(
                moves@[i].0 as int,
                moves@[i].1 as int,
            ) by {
                let s = moves@[i];
                assert(moves@.contains(s));
                lemma_generated_move_on_board(*self, pieces@, s.0 as int, s.1 as int);
            }
        }
        moves
    }
}


/// (ux, uy) lies strictly between (x0, y0) and (x1, y1) on a shared file,
/// rank, or diagonal.
pub open spec fn strictly_between(x0: int, y0: int, ux: int, uy: int, x1: int, y1: int) -> bool {
    ||| (x0 == x1 && ux == x0 && (y0 < uy < y1 || y1 < uy < y0))
    ||| (y0 == y1 && uy == y0 && (x0 < ux < x1 || x1 < ux < x0))
    ||| (x1 - x0 == y1 - y0 && ux - x0 == uy - y0 && (x0 < ux < x1 || x1 < ux < x0))
    ||| (x1 - x0 == y0 - y1 && ux - x0 == y0 - uy && (x0 < ux < x1 || x1 < ux < x0))
}

/// Sliding scans never jump: when the generator yields a destination for a
/// rook, bishop or queen, it also yields every square strictly between the
/// piece and that destination on the scanned line.
pub proof fn lemma_sliding_no_jump(p: Piece, b: Seq<Piece>, tx: int, ty: int, ux: int, uy: int)
    requires
        p.on_board(),
        p.piece_type == PieceType::Rook || p.piece_type == PieceType::Queen || p.piece_type
            == PieceType::Bishop,
        possible_move_spec(p, b, tx, ty),
        strictly_between(p.x as int, p.y as int, ux, uy, tx, ty),
    ensures
        possible_move_spec(p, b, ux, uy),
{
    if rook_gen(p, b, tx, ty) && (p.piece_type == PieceType::Rook || p.piece_type
        == PieceType::Queen) {
        if rook_gen_east(p, b, tx, ty) {
            assert(rook_gen_east(p, b, ux, uy) || rook_gen_west(p, b, ux, uy) || rook_gen_north(
                p,
                b,
                ux,
                uy,
            ) || rook_gen_south(p, b, ux, uy));
        } else if rook_gen_west(p, b, tx, ty) {
            assert(rook_gen_west(p, b, ux, uy));
        } else if rook_gen_north(p, b, tx, ty) {
            assert(rook_gen_north(p, b, ux, uy));
        } else {
            assert(rook_gen_south(p, b, ux, uy));
        }
    } else {
        assert(bishop_gen(p, b, tx, ty));
        if bishop_gen_ne(p, b, tx, ty) {
            assert(!occupied(b, ux, uy));
            assert(bishop_gen_ne(p, b, ux, uy));
        } else if bishop_gen_se(p, b, tx, ty) {
            assert(!occupied(b, ux, uy));
            assert(bishop_gen_se(p, b, ux, uy));
        } else if bishop_gen_sw(p, b, tx, ty) {
            assert(!occupied(b, ux, uy));
            assert(bishop_gen_sw(p, b, ux, uy));
        } else {
            assert(bishop_gen_nw(p, b, tx, ty));
            assert(!occupied(b, ux, uy));
            assert(bishop_gen_nw(p, b, ux, uy));
        }
    }
}

/// The board with every piece's color replaced by the opposite color.
pub open spec fn swap_colors(b: Seq<Piece>) -> Seq<Piece> {
    b.map_values(
        |q: Piece| Piece { piece_type: q.piece_type, color: q.color.opposite_spec(), x: q.x, y: q.y },
    )
}

/// Swapping colors moves no piece.
pub proof fn lemma_swap_colors_occupancy(b: Seq<Piece>, x: int, y: int)
    ensures
        occupied(swap_colors(b), x, y) == occupied(b, x, y),
{
    if occupied(b, x, y) {
        let i = choose|i: int| 0 <= i < b.len() && #[trigger] b[i].x == x && b[i].y == y;
        assert(swap_colors(b)[i].x == x && swap_colors(b)[i].y == y);
        assert(occupied(swap_colors(b), x, y));
    }
    if occupied(swap_colors(b), x, y) {
        let i = choose|i: int|
            0 <= i < swap_colors(b).len() && #[trigger] swap_colors(b)[i].x == x && swap_colors(
                b,
            )[i].y == y;
        assert(b[i].x == x && b[i].y == y);
        assert(occupied(b, x, y));
    }
}

/// The path-emptiness scan reads occupancy only, so it is unchanged by a
/// color swap.
pub proof fn lemma_swap_colors_path_empty(b: Seq<Piece>, x0: int, y0: int, x1: int, y1: int)
    ensures
        path_empty_spec(swap_colors(b), x0, y0, x1, y1) == path_empty_spec(b, x0, y0, x1, y1),
{
    assert forall|x: int, y: int|
        #![trigger occupied(swap_colors(b), x, y)]
        #![trigger occupied(b, x, y)]
        occupied(swap_colors(b), x, y) == occupied(b, x, y) by {
        lemma_swap_colors_occupancy(b, x, y);
    }
}

/// The move-legality rules of the rook, knight, bishop, queen and king are
/// geometric: they do not depend on the mover's color nor on the colors of
/// the other pieces, so they are unchanged when every color on the board is
/// swapped.  (The pawn's rule is directional and has no such symmetry.)
pub proof fn lemma_is_move_valid_color_swap(p: Piece, nx: int, ny: int, b: Seq<Piece>)
    requires
        p.piece_type != PieceType::Pawn,
    ensures
        move_valid_spec(p, nx, ny, b) == move_valid_spec(
            Piece { piece_type: p.piece_type, color: p.color.opposite_spec(), x: p.x, y: p.y },
            nx,
            ny,
            swap_colors(b),
        ),
{
    lemma_swap_colors_path_empty(b, p.x as int, p.y as int, nx, ny);
}

/// Two pieces of a well-formed board on the same square are the same piece.
pub proof fn lemma_occupant_unique(b: Seq<Piece>, q1: Piece, q2: Piece)
    requires
        board_wf(b),
        b.contains(q1),
        b.contains(q2),
        q1.x == q2.x,
        q1.y == q2.y,
    ensures
        q1 == q2,
{
    let i = choose|i: int| 0 <= i < b.len() && b[i] == q1;
    let j = choose|j: int| 0 <= j < b.len() && b[j] == q2;
    if i != j {
        assert(!(b[i].x == b[j].x && b[i].y == b[j].y));
    }
}


/// The knight's generated destinations are exactly the eight canonical
/// (1,2)-shaped offsets, kept when they land on the board on an unoccupied
/// square.
pub proof fn lemma_knight_moves_characterized(p: Piece, b: Seq<Piece>, tx: int, ty: int)
    requires
        p.piece_type == PieceType::Knight,
    ensures
        possible_move_spec(p, b, tx, ty) <==> (knight_shape(p.x as int, p.y as int, tx, ty)
            && sq_on_board(tx, ty) && !occupied(b, tx, ty)),
{
}


/// The board with every color swapped and every rank mirrored, files kept.
pub open spec fn mirror_board(b: Seq<Piece>) -> Seq<Piece> {
    b.map_values(
        |p: Piece| Piece {
            piece_type: p.piece_type,
            color: p.color.opposite_spec(),
            x: (7 - p.x) as u8,
            y: p.y,
        },
    )
}



/// Mirroring moves each piece to the mirrored rank: a square of the mirrored
/// board is occupied exactly when its mirror image was.
pub proof fn lemma_mirror_occupancy(b: Seq<Piece>, x: int, y: int)
    requires
        forall|i: int| 0 <= i < b.len() ==> (#[trigger] b[i]).on_board(),
    ensures
        occupied(mirror_board(b), x, y) == occupied(b, 7 - x, y),
{
    if occupied(b, 7 - x, y) {
        let i = choose|i: int| 0 <= i < b.len() && #[trigger] b[i].x == 7 - x && b[i].y == y;
        assert(mirror_board(b)[i].x == x && mirror_board(b)[i].y == y);
        assert(occupied(mirror_board(b), x, y));
    }
    if occupied(mirror_board(b), x, y) {
        let i = choose|i: int|
            0 <= i < mirror_board(b).len() && #[trigger] mirror_board(b)[i].x == x
                && mirror_board(b)[i].y == y;
        assert(b[i].x == 7 - x && b[i].y == y);
        assert(occupied(b, 7 - x, y));
    }
}

/// The occupant of a mirrored square carries the swapped color.
pub proof fn lemma_mirror_occupancy_color(b: Seq<Piece>, x: int, y: int, c: PieceColor)
    requires
        forall|i: int| 0 <= i < b.len() ==> (#[trigger] b[i]).on_board(),
    ensures
        occupied_by(mirror_board(b), x, y, c) == occupied_by(b, 7 - x, y, c.opposite_spec()),
{
    if occupied_by(b, 7 - x, y, c.opposite_spec()) {
        let i = choose|i: int|
            0 <= i < b.len() && #[trigger] b[i].x == 7 - x && b[i].y == y && b[i].color
                == c.opposite_spec();
        assert(mirror_board(b)[i].x == x && mirror_board(b)[i].y == y && mirror_board(b)[i].color
            == c);
        assert(occupied_by(mirror_board(b), x, y, c));
    }
    if occupied_by(mirror_board(b), x, y, c) {
        let i = choose|i: int|
            0 <= i < mirror_board(b).len() && #[trigger] mirror_board(b)[i].x == x
                && mirror_board(b)[i].y == y && mirror_board(b)[i].color == c;
        assert(b[i].x == 7 - x && b[i].y == y && b[i].color == c.opposite_spec());
        assert(occupied_by(b, 7 - x, y, c.opposite_spec()));
    }
}

/// The pawn's rule is symmetric only under a color swap combined with a rank
/// mirroring: swapping the mover's color, mirroring its rank, the
/// destination's rank and the whole board leaves the verdict unchanged.
/// (A color swap alone reverses the pawn's direction, as `pawn_valid_spec`
/// shows: White moves to larger ranks, Black to smaller ones.)
pub proof fn lemma_pawn_valid_color_mirror(p: Piece, nx: int, ny: int, b: Seq<Piece>)
    requires
        p.piece_type == PieceType::Pawn,
        p.on_board(),
        0 <= nx < 8,
        0 <= ny < 8,
        forall|i: int| 0 <= i < b.len() ==> (#[trigger] b[i]).on_board(),
    ensures
        move_valid_spec(p, nx, ny, b) == move_valid_spec(
            Piece {
                piece_type: PieceType::Pawn,
                color: p.color.opposite_spec(),
                x: (7 - p.x) as u8,
                y: p.y,
            },
            7 - nx,
            ny,
            mirror_board(b),
        ),
{
    let m = mirror_board(b);
    let py = p.y as int;
    assert forall|x: int, y: int| #[trigger] occupied(m, x, y) == occupied(b, 7 - x, y) by {
        lemma_mirror_occupancy(b, x, y);
    }
    assert forall|x: int, y: int, c: PieceColor| #[trigger] occupied_by(m, x, y, c) == occupied_by(
        b,
        7 - x,
        y,
        c.opposite_spec(),
    ) by {
        lemma_mirror_occupancy_color(b, x, y, c);
    }
    if p.color == PieceColor::White {
        if p.x == 1 && nx == p.x + 2 && ny == py {
            assert(path_empty_spec(b, 1, py, 3, py) == path_empty_spec(m, 6, py, 4, py)) by {
                if path_empty_spec(b, 1, py, 3, py) {
                    assert forall|j: int| (6 < j < 4 || 4 < j < 6) implies !occupied(
                        m,
                        j,
                        py,
                    ) by {
                        assert(!occupied(b, 7 - j, py));
                    }
                }
                if path_empty_spec(m, 6, py, 4, py) {
                    assert forall|j: int| (1 < j < 3 || 3 < j < 1) implies !occupied(
                        b,
                        j,
                        py,
                    ) by {
                        assert(!occupied(m, 7 - j, py));
                        assert(occupied(m, 7 - j, py) == occupied(b, j, py));
                    }
                }
            }
        }
    } else {
        if p.x == 6 && nx == p.x - 2 && ny == py {
            assert(path_empty_spec(b, 6, py, 4, py) == path_empty_spec(m, 1, py, 3, py)) by {
                if path_empty_spec(b, 6, py, 4, py) {
                    assert forall|j: int| (1 < j < 3 || 3 < j < 1) implies !occupied(
                        m,
                        j,
                        py,
                    ) by {
                        assert(!occupied(b, 7 - j, py));
                    }
                }
                if path_empty_spec(m, 1, py, 3, py) {
                    assert forall|j: int| (6 < j < 4 || 4 < j < 6) implies !occupied(
                        b,
                        j,
                        py,
                    ) by {
                        assert(!occupied(m, 7 - j, py));
                        assert(occupied(m, 7 - j, py) == occupied(b, j, py));
                    }
                }
            }
        }
    }
}

} // verus!
