//! The per-piece-kind 8 by 8 piece-square tables of the evaluator,
//! authored from White's perspective.

use vstd::prelude::*;

use crate::pieces::PieceType;

verus! {

/// The pawn piece-square table, indexed by (rank, file) from White's
/// perspective.
pub open spec fn pawn_table_at(r: int, f: int) -> i64 {
    if r == 0 {
        if f == 0 { 0i64 }
        else if f == 1 { 0i64 }
        else if f == 2 { 0i64 }
        else if f == 3 { 0i64 }
        else if f == 4 { 0i64 }
        else if f == 5 { 0i64 }
        else if f == 6 { 0i64 }
        else { 0i64 }
    } else if r == 1 {
        if f == 0 { 78i64 }
        else if f == 1 { 83i64 }
        else if f == 2 { 86i64 }
        else if f == 3 { 73i64 }
        else if f == 4 { 102i64 }
        else if f == 5 { 82i64 }
        else if f == 6 { 85i64 }
        else { 90i64 }
    } else if r == 2 {
        if f == 0 { 7i64 }
        else if f == 1 { 29i64 }
        else if f == 2 { 21i64 }
        else if f == 3 { 44i64 }
        else if f == 4 { 40i64 }
        else if f == 5 { 31i64 }
        else if f == 6 { 44i64 }
        else { 7i64 }
    } else if r == 3 {
        if f == 0 { -17i64 }
        else if f == 1 { 16i64 }
        else if f == 2 { -2i64 }
        else if f == 3 { 15i64 }
        else if f == 4 { 14i64 }
        else if f == 5 { 0i64 }
        else if f == 6 { 15i64 }
        else { -13i64 }
    } else if r == 4 {
        if f == 0 { -26i64 }
        else if f == 1 { 3i64 }
        else if f == 2 { 10i64 }
        else if f == 3 { 9i64 }
        else if f == 4 { 6i64 }
        else if f == 5 { 1i64 }
        else if f == 6 { 0i64 }
        else { -23i64 }
    } else if r == 5 {
        if f == 0 { -22i64 }
        else if f == 1 { 9i64 }
        else if f == 2 { 5i64 }
        else if f == 3 { -11i64 }
        else if f == 4 { -10i64 }
        else if f == 5 { -2i64 }
        else if f == 6 { 3i64 }
        else { -19i64 }
    } else if r == 6 {
        if f == 0 { -31i64 }
        else if f == 1 { 8i64 }
        else if f == 2 { -7i64 }
        else if f == 3 { -37i64 }
        else if f == 4 { -36i64 }
        else if f == 5 { -14i64 }
        else if f == 6 { 3i64 }
        else { -31i64 }
    } else if r == 7 {
        if f == 0 { 0i64 }
        else if f == 1 { 0i64 }
        else if f == 2 { 0i64 }
        else if f == 3 { 0i64 }
        else if f == 4 { 0i64 }
        else if f == 5 { 0i64 }
        else if f == 6 { 0i64 }
        else { 0i64 }
    } else { 0i64 }
}

/// Reads the pawn table.
pub fn pawn_table(r: u8, f: u8) -> (v: i64)
    requires
        r < 8,
        f < 8,
    ensures
        v == pawn_table_at(r as int, f as int),
{
    if r == 0 {
        if f == 0 { 0i64 }
        else if f == 1 { 0i64 }
        else if f == 2 { 0i64 }
        else if f == 3 { 0i64 }
        else if f == 4 { 0i64 }
        else if f == 5 { 0i64 }
        else if f == 6 { 0i64 }
        else { 0i64 }
    } else if r == 1 {
        if f == 0 { 78i64 }
        else if f == 1 { 83i64 }
        else if f == 2 { 86i64 }
        else if f == 3 { 73i64 }
        else if f == 4 { 102i64 }
        else if f == 5 { 82i64 }
        else if f == 6 { 85i64 }
        else { 90i64 }
    } else if r == 2 {
        if f == 0 { 7i64 }
        else if f == 1 { 29i64 }
        else if f == 2 { 21i64 }
        else if f == 3 { 44i64 }
        else if f == 4 { 40i64 }
        else if f == 5 { 31i64 }
        else if f == 6 { 44i64 }
        else { 7i64 }
    } else if r == 3 {
        if f == 0 { -17i64 }
        else if f == 1 { 16i64 }
        else if f == 2 { -2i64 }
        else if f == 3 { 15i64 }
        else if f == 4 { 14i64 }
        else if f == 5 { 0i64 }
        else if f == 6 { 15i64 }
        else { -13i64 }
    } else if r == 4 {
        if f == 0 { -26i64 }
        else if f == 1 { 3i64 }
        else if f == 2 { 10i64 }
        else if f == 3 { 9i64 }
        else if f == 4 { 6i64 }
        else if f == 5 { 1i64 }
        else if f == 6 { 0i64 }
        else { -23i64 }
    } else if r == 5 {
        if f == 0 { -22i64 }
        else if f == 1 { 9i64 }
        else if f == 2 { 5i64 }
        else if f == 3 { -11i64 }
        else if f == 4 { -10i64 }
        else if f == 5 { -2i64 }
        else if f == 6 { 3i64 }
        else { -19i64 }
    } else if r == 6 {
        if f == 0 { -31i64 }
        else if f == 1 { 8i64 }
        else if f == 2 { -7i64 }
        else if f == 3 { -37i64 }
        else if f == 4 { -36i64 }
        else if f == 5 { -14i64 }
        else if f == 6 { 3i64 }
        else { -31i64 }
    } else if r == 7 {
        if f == 0 { 0i64 }
        else if f == 1 { 0i64 }
        else if f == 2 { 0i64 }
        else if f == 3 { 0i64 }
        else if f == 4 { 0i64 }
        else if f == 5 { 0i64 }
        else if f == 6 { 0i64 }
        else { 0i64 }
    } else { 0i64 }
}

/// The knight piece-square table, indexed by (rank, file) from White's
/// perspective.
pub open spec fn knight_table_at(r: int, f: int) -> i64 {
    if r == 0 {
        if f == 0 { -66i64 }
        else if f == 1 { -53i64 }
        else if f == 2 { -75i64 }
        else if f == 3 { -75i64 }
        else if f == 4 { -10i64 }
        else if f == 5 { -55i64 }
        else if f == 6 { -58i64 }
        else { -70i64 }
    } else if r == 1 {
        if f == 0 { -3i64 }
        else if f == 1 { -6i64 }
        else if f == 2 { 100i64 }
        else if f == 3 { -36i64 }
        else if f == 4 { 4i64 }
        else if f == 5 { 62i64 }
        else if f == 6 { -4i64 }
        else { -14i64 }
    } else if r == 2 {
        if f == 0 { 10i64 }
        else if f == 1 { 67i64 }
        else if f == 2 { 1i64 }
        else if f == 3 { 74i64 }
        else if f == 4 { 73i64 }
        else if f == 5 { 27i64 }
        else if f == 6 { 62i64 }
        else { -2i64 }
    } else if r == 3 {
        if f == 0 { 24i64 }
        else if f == 1 { 24i64 }
        else if f == 2 { 45i64 }
        else if f == 3 { 37i64 }
        else if f == 4 { 33i64 }
        else if f == 5 { 41i64 }
        else if f == 6 { 25i64 }
        else { 17i64 }
    } else if r == 4 {
        if f == 0 { -1i64 }
        else if f == 1 { 5i64 }
        else if f == 2 { 31i64 }
        else if f == 3 { 21i64 }
        else if f == 4 { 22i64 }
        else if f == 5 { 35i64 }
        else if f == 6 { 2i64 }
        else { 0i64 }
    } else if r == 5 {
        if f == 0 { -18i64 }
        else if f == 1 { 10i64 }
        else if f == 2 { 13i64 }
        else if f == 3 { 22i64 }
        else if f == 4 { 18i64 }
        else if f == 5 { 15i64 }
        else if f == 6 { 11i64 }
        else { -14i64 }
    } else if r == 6 {
        if f == 0 { -23i64 }
        else if f == 1 { -15i64 }
        else if f == 2 { 2i64 }
        else if f == 3 { 0i64 }
        else if f == 4 { 2i64 }
        else if f == 5 { 0i64 }
        else if f == 6 { -23i64 }
        else { -20i64 }
    } else if r == 7 {
        if f == 0 { -74i64 }
        else if f == 1 { -23i64 }
        else if f == 2 { -26i64 }
        else if f == 3 { -24i64 }
        else if f == 4 { -19i64 }
        else if f == 5 { -35i64 }
        else if f == 6 { -22i64 }
        else { -69i64 }
    } else { 0i64 }
}

/// Reads the knight table.
pub fn knight_table(r: u8, f: u8) -> (v: i64)
    requires
        r < 8,
        f < 8,
    ensures
        v == knight_table_at(r as int, f as int),
{
    if r == 0 {
        if f == 0 { -66i64 }
        else if f == 1 { -53i64 }
        else if f == 2 { -75i64 }
        else if f == 3 { -75i64 }
        else if f == 4 { -10i64 }
        else if f == 5 { -55i64 }
        else if f == 6 { -58i64 }
        else { -70i64 }
    } else if r == 1 {
        if f == 0 { -3i64 }
        else if f == 1 { -6i64 }
        else if f == 2 { 100i64 }
        else if f == 3 { -36i64 }
        else if f == 4 { 4i64 }
        else if f == 5 { 62i64 }
        else if f == 6 { -4i64 }
        else { -14i64 }
    } else if r == 2 {
        if f == 0 { 10i64 }
        else if f == 1 { 67i64 }
        else if f == 2 { 1i64 }
        else if f == 3 { 74i64 }
        else if f == 4 { 73i64 }
        else if f == 5 { 27i64 }
        else if f == 6 { 62i64 }
        else { -2i64 }
    } else if r == 3 {
        if f == 0 { 24i64 }
        else if f == 1 { 24i64 }
        else if f == 2 { 45i64 }
        else if f == 3 { 37i64 }
        else if f == 4 { 33i64 }
        else if f == 5 { 41i64 }
        else if f == 6 { 25i64 }
        else { 17i64 }
    } else if r == 4 {
        if f == 0 { -1i64 }
        else if f == 1 { 5i64 }
        else if f == 2 { 31i64 }
        else if f == 3 { 21i64 }
        else if f == 4 { 22i64 }
        else if f == 5 { 35i64 }
        else if f == 6 { 2i64 }
        else { 0i64 }
    } else if r == 5 {
        if f == 0 { -18i64 }
        else if f == 1 { 10i64 }
        else if f == 2 { 13i64 }
        else if f == 3 { 22i64 }
        else if f == 4 { 18i64 }
        else if f == 5 { 15i64 }
        else if f == 6 { 11i64 }
        else { -14i64 }
    } else if r == 6 {
        if f == 0 { -23i64 }
        else if f == 1 { -15i64 }
        else if f == 2 { 2i64 }
        else if f == 3 { 0i64 }
        else if f == 4 { 2i64 }
        else if f == 5 { 0i64 }
        else if f == 6 { -23i64 }
        else { -20i64 }
    } else if r == 7 {
        if f == 0 { -74i64 }
        else if f == 1 { -23i64 }
        else if f == 2 { -26i64 }
        else if f == 3 { -24i64 }
        else if f == 4 { -19i64 }
        else if f == 5 { -35i64 }
        else if f == 6 { -22i64 }
        else { -69i64 }
    } else { 0i64 }
}

/// The bishop piece-square table, indexed by (rank, file) from White's
/// perspective.
pub open spec fn bishop_table_at(r: int, f: int) -> i64 {
    if r == 0 {
        if f == 0 { -59i64 }
        else if f == 1 { -78i64 }
        else if f == 2 { -82i64 }
        else if f == 3 { -76i64 }
        else if f == 4 { -23i64 }
        else if f == 5 { -107i64 }
        else if f == 6 { -37i64 }
        else { -50i64 }
    } else if r == 1 {
        if f == 0 { -11i64 }
        else if f == 1 { 20i64 }
        else if f == 2 { 35i64 }
        else if f == 3 { -42i64 }
        else if f == 4 { -39i64 }
        else if f == 5 { 31i64 }
        else if f == 6 { 2i64 }
        else { -22i64 }
    } else if r == 2 {
        if f == 0 { -9i64 }
        else if f == 1 { 39i64 }
        else if f == 2 { -32i64 }
        else if f == 3 { 41i64 }
        else if f == 4 { 52i64 }
        else if f == 5 { -10i64 }
        else if f == 6 { 28i64 }
        else { -14i64 }
    } else if r == 3 {
        if f == 0 { 25i64 }
        else if f == 1 { 17i64 }
        else if f == 2 { 20i64 }
        else if f == 3 { 34i64 }
        else if f == 4 { 26i64 }
        else if f == 5 { 25i64 }
        else if f == 6 { 15i64 }
        else { 10i64 }
    } else if r == 4 {
        if f == 0 { 13i64 }
        else if f == 1 { 10i64 }
        else if f == 2 { 17i64 }
        else if f == 3 { 23i64 }
        else if f == 4 { 17i64 }
        else if f == 5 { 16i64 }
        else if f == 6 { 0i64 }
        else { 7i64 }
    } else if r == 5 {
        if f == 0 { 14i64 }
        else if f == 1 { 25i64 }
        else if f == 2 { 24i64 }
        else if f == 3 { 15i64 }
        else if f == 4 { 8i64 }
        else if f == 5 { 25i64 }
        else if f == 6 { 20i64 }
        else { 15i64 }
    } else if r == 6 {
        if f == 0 { 19i64 }
        else if f == 1 { 20i64 }
        else if f == 2 { 11i64 }
        else if f == 3 { 6i64 }
        else if f == 4 { 7i64 }
        else if f == 5 { 6i64 }
        else if f == 6 { 20i64 }
        else { 16i64 }
    } else if r == 7 {
        if f == 0 { -7i64 }
        else if f == 1 { 2i64 }
        else if f == 2 { -15i64 }
        else if f == 3 { -12i64 }
        else if f == 4 { -14i64 }
        else if f == 5 { -15i64 }
        else if f == 6 { -10i64 }
        else { -10i64 }
    } else { 0i64 }
}

/// Reads the bishop table.
pub fn bishop_table(r: u8, f: u8) -> (v: i64)
    requires
        r < 8,
        f < 8,
    ensures
        v == bishop_table_at(r as int, f as int),
{
    if r == 0 {
        if f == 0 { -59i64 }
        else if f == 1 { -78i64 }
        else if f == 2 { -82i64 }
        else if f == 3 { -76i64 }
        else if f == 4 { -23i64 }
        else if f == 5 { -107i64 }
        else if f == 6 { -37i64 }
        else { -50i64 }
    } else if r == 1 {
        if f == 0 { -11i64 }
        else if f == 1 { 20i64 }
        else if f == 2 { 35i64 }
        else if f == 3 { -42i64 }
        else if f == 4 { -39i64 }
        else if f == 5 { 31i64 }
        else if f == 6 { 2i64 }
        else { -22i64 }
    } else if r == 2 {
        if f == 0 { -9i64 }
        else if f == 1 { 39i64 }
        else if f == 2 { -32i64 }
        else if f == 3 { 41i64 }
        else if f == 4 { 52i64 }
        else if f == 5 { -10i64 }
        else if f == 6 { 28i64 }
        else { -14i64 }
    } else if r == 3 {
        if f == 0 { 25i64 }
        else if f == 1 { 17i64 }
        else if f == 2 { 20i64 }
        else if f == 3 { 34i64 }
        else if f == 4 { 26i64 }
        else if f == 5 { 25i64 }
        else if f == 6 { 15i64 }
        else { 10i64 }
    } else if r == 4 {
        if f == 0 { 13i64 }
        else if f == 1 { 10i64 }
        else if f == 2 { 17i64 }
        else if f == 3 { 23i64 }
        else if f == 4 { 17i64 }
        else if f == 5 { 16i64 }
        else if f == 6 { 0i64 }
        else { 7i64 }
    } else if r == 5 {
        if f == 0 { 14i64 }
        else if f == 1 { 25i64 }
        else if f == 2 { 24i64 }
        else if f == 3 { 15i64 }
        else if f == 4 { 8i64 }
        else if f == 5 { 25i64 }
        else if f == 6 { 20i64 }
        else { 15i64 }
    } else if r == 6 {
        if f == 0 { 19i64 }
        else if f == 1 { 20i64 }
        else if f == 2 { 11i64 }
        else if f == 3 { 6i64 }
        else if f == 4 { 7i64 }
        else if f == 5 { 6i64 }
        else if f == 6 { 20i64 }
        else { 16i64 }
    } else if r == 7 {
        if f == 0 { -7i64 }
        else if f == 1 { 2i64 }
        else if f == 2 { -15i64 }
        else if f == 3 { -12i64 }
        else if f == 4 { -14i64 }
        else if f == 5 { -15i64 }
        else if f == 6 { -10i64 }
        else { -10i64 }
    } else { 0i64 }
}

/// The rook piece-square table, indexed by (rank, file) from White's
/// perspective.
pub open spec fn rook_table_at(r: int, f: int) -> i64 {
    if r == 0 {
        if f == 0 { 35i64 }
        else if f == 1 { 29i64 }
        else if f == 2 { 33i64 }
        else if f == 3 { 4i64 }
        else if f == 4 { 37i64 }
        else if f == 5 { 33i64 }
        else if f == 6 { 56i64 }
        else { 50i64 }
    } else if r == 1 {
        if f == 0 { 55i64 }
        else if f == 1 { 29i64 }
        else if f == 2 { 56i64 }
        else if f == 3 { 67i64 }
        else if f == 4 { 55i64 }
        else if f == 5 { 62i64 }
        else if f == 6 { 34i64 }
        else { 60i64 }
    } else if r == 2 {
        if f == 0 { 19i64 }
        else if f == 1 { 35i64 }
        else if f == 2 { 28i64 }
        else if f == 3 { 33i64 }
        else if f == 4 { 45i64 }
        else if f == 5 { 27i64 }
        else if f == 6 { 25i64 }
        else { 15i64 }
    } else if r == 3 {
        if f == 0 { 0i64 }
        else if f == 1 { 5i64 }
        else if f == 2 { 16i64 }
        else if f == 3 { 13i64 }
        else if f == 4 { 18i64 }
        else if f == 5 { -4i64 }
        else if f == 6 { -9i64 }
        else { -6i64 }
    } else if r == 4 {
        if f == 0 { -28i64 }
        else if f == 1 { -35i64 }
        else if f == 2 { -16i64 }
        else if f == 3 { -21i64 }
        else if f == 4 { -13i64 }
        else if f == 5 { -29i64 }
        else if f == 6 { -46i64 }
        else { -30i64 }
    } else if r == 5 {
        if f == 0 { -42i64 }
        else if f == 1 { -28i64 }
        else if f == 2 { -42i64 }
        else if f == 3 { -25i64 }
        else if f == 4 { -25i64 }
        else if f == 5 { -35i64 }
        else if f == 6 { -26i64 }
        else { -46i64 }
    } else if r == 6 {
        if f == 0 { -53i64 }
        else if f == 1 { -38i64 }
        else if f == 2 { -31i64 }
        else if f == 3 { -26i64 }
        else if f == 4 { -29i64 }
        else if f == 5 { -43i64 }
        else if f == 6 { -44i64 }
        else { -53i64 }
    } else if r == 7 {
        if f == 0 { -30i64 }
        else if f == 1 { -24i64 }
        else if f == 2 { -18i64 }
        else if f == 3 { 5i64 }
        else if f == 4 { -2i64 }
        else if f == 5 { -18i64 }
        else if f == 6 { -31i64 }
        else { -32i64 }
    } else { 0i64 }
}

/// Reads the rook table.
pub fn rook_table(r: u8, f: u8) -> (v: i64)
    requires
        r < 8,
        f < 8,
    ensures
        v == rook_table_at(r as int, f as int),
{
    if r == 0 {
        if f == 0 { 35i64 }
        else if f == 1 { 29i64 }
        else if f == 2 { 33i64 }
        else if f == 3 { 4i64 }
        else if f == 4 { 37i64 }
        else if f == 5 { 33i64 }
        else if f == 6 { 56i64 }
        else { 50i64 }
    } else if r == 1 {
        if f == 0 { 55i64 }
        else if f == 1 { 29i64 }
        else if f == 2 { 56i64 }
        else if f == 3 { 67i64 }
        else if f == 4 { 55i64 }
        else if f == 5 { 62i64 }
        else if f == 6 { 34i64 }
        else { 60i64 }
    } else if r == 2 {
        if f == 0 { 19i64 }
        else if f == 1 { 35i64 }
        else if f == 2 { 28i64 }
        else if f == 3 { 33i64 }
        else if f == 4 { 45i64 }
        else if f == 5 { 27i64 }
        else if f == 6 { 25i64 }
        else { 15i64 }
    } else if r == 3 {
        if f == 0 { 0i64 }
        else if f == 1 { 5i64 }
        else if f == 2 { 16i64 }
        else if f == 3 { 13i64 }
        else if f == 4 { 18i64 }
        else if f == 5 { -4i64 }
        else if f == 6 { -9i64 }
        else { -6i64 }
    } else if r == 4 {
        if f == 0 { -28i64 }
        else if f == 1 { -35i64 }
        else if f == 2 { -16i64 }
        else if f == 3 { -21i64 }
        else if f == 4 { -13i64 }
        else if f == 5 { -29i64 }
        else if f == 6 { -46i64 }
        else { -30i64 }
    } else if r == 5 {
        if f == 0 { -42i64 }
        else if f == 1 { -28i64 }
        else if f == 2 { -42i64 }
        else if f == 3 { -25i64 }
        else if f == 4 { -25i64 }
        else if f == 5 { -35i64 }
        else if f == 6 { -26i64 }
        else { -46i64 }
    } else if r == 6 {
        if f == 0 { -53i64 }
        else if f == 1 { -38i64 }
        else if f == 2 { -31i64 }
        else if f == 3 { -26i64 }
        else if f == 4 { -29i64 }
        else if f == 5 { -43i64 }
        else if f == 6 { -44i64 }
        else { -53i64 }
    } else if r == 7 {
        if f == 0 { -30i64 }
        else if f == 1 { -24i64 }
        else if f == 2 { -18i64 }
        else if f == 3 { 5i64 }
        else if f == 4 { -2i64 }
        else if f == 5 { -18i64 }
        else if f == 6 { -31i64 }
        else { -32i64 }
    } else { 0i64 }
}

/// The queen piece-square table, indexed by (rank, file) from White's
/// perspective.
pub open spec fn queen_table_at(r: int, f: int) -> i64 {
    if r == 0 {
        if f == 0 { 6i64 }
        else if f == 1 { 1i64 }
        else if f == 2 { -8i64 }
        else if f == 3 { -104i64 }
        else if f == 4 { 69i64 }
        else if f == 5 { 24i64 }
        else if f == 6 { 88i64 }
        else { 26i64 }
    } else if r == 1 {
        if f == 0 { 14i64 }
        else if f == 1 { 32i64 }
        else if f == 2 { 60i64 }
        else if f == 3 { -10i64 }
        else if f == 4 { 20i64 }
        else if f == 5 { 76i64 }
        else if f == 6 { 57i64 }
        else { 24i64 }
    } else if r == 2 {
        if f == 0 { -2i64 }
        else if f == 1 { 43i64 }
        else if f == 2 { 32i64 }
        else if f == 3 { 60i64 }
        else if f == 4 { 72i64 }
        else if f == 5 { 63i64 }
        else if f == 6 { 43i64 }
        else { 2i64 }
    } else if r == 3 {
        if f == 0 { 1i64 }
        else if f == 1 { -16i64 }
        else if f == 2 { 22i64 }
        else if f == 3 { 17i64 }
        else if f == 4 { 25i64 }
        else if f == 5 { 20i64 }
        else if f == 6 { -13i64 }
        else { -6i64 }
    } else if r == 4 {
        if f == 0 { -14i64 }
        else if f == 1 { -15i64 }
        else if f == 2 { -2i64 }
        else if f == 3 { -5i64 }
        else if f == 4 { -1i64 }
        else if f == 5 { -10i64 }
        else if f == 6 { -20i64 }
        else { -22i64 }
    } else if r == 5 {
        if f == 0 { -30i64 }
        else if f == 1 { -6i64 }
        else if f == 2 { -13i64 }
        else if f == 3 { -11i64 }
        else if f == 4 { -16i64 }
        else if f == 5 { -11i64 }
        else if f == 6 { -16i64 }
        else { -27i64 }
    } else if r == 6 {
        if f == 0 { -36i64 }
        else if f == 1 { -18i64 }
        else if f == 2 { 0i64 }
        else if f == 3 { -19i64 }
        else if f == 4 { -15i64 }
        else if f == 5 { -15i64 }
        else if f == 6 { -21i64 }
        else { -38i64 }
    } else if r == 7 {
        if f == 0 { -39i64 }
        else if f == 1 { -30i64 }
        else if f == 2 { -31i64 }
        else if f == 3 { -13i64 }
        else if f == 4 { -31i64 }
        else if f == 5 { -36i64 }
        else if f == 6 { -46i64 }
        else { -28i64 }
    } else { 0i64 }
}

/// Reads the queen table.
pub fn queen_table(r: u8, f: u8) -> (v: i64)
    requires
        r < 8,
        f < 8,
    ensures
        v == queen_table_at(r as int, f as int),
{
    if r == 0 {
        if f == 0 { 6i64 }
        else if f == 1 { 1i64 }
        else if f == 2 { -8i64 }
        else if f == 3 { -104i64 }
        else if f == 4 { 69i64 }
        else if f == 5 { 24i64 }
        else if f == 6 { 88i64 }
        else { 26i64 }
    } else if r == 1 {
        if f == 0 { 14i64 }
        else if f == 1 { 32i64 }
        else if f == 2 { 60i64 }
        else if f == 3 { -10i64 }
        else if f == 4 { 20i64 }
        else if f == 5 { 76i64 }
        else if f == 6 { 57i64 }
        else { 24i64 }
    } else if r == 2 {
        if f == 0 { -2i64 }
        else if f == 1 { 43i64 }
        else if f == 2 { 32i64 }
        else if f == 3 { 60i64 }
        else if f == 4 { 72i64 }
        else if f == 5 { 63i64 }
        else if f == 6 { 43i64 }
        else { 2i64 }
    } else if r == 3 {
        if f == 0 { 1i64 }
        else if f == 1 { -16i64 }
        else if f == 2 { 22i64 }
        else if f == 3 { 17i64 }
        else if f == 4 { 25i64 }
        else if f == 5 { 20i64 }
        else if f == 6 { -13i64 }
        else { -6i64 }
    } else if r == 4 {
        if f == 0 { -14i64 }
        else if f == 1 { -15i64 }
        else if f == 2 { -2i64 }
        else if f == 3 { -5i64 }
        else if f == 4 { -1i64 }
        else if f == 5 { -10i64 }
        else if f == 6 { -20i64 }
        else { -22i64 }
    } else if r == 5 {
        if f == 0 { -30i64 }
        else if f == 1 { -6i64 }
        else if f == 2 { -13i64 }
        else if f == 3 { -11i64 }
        else if f == 4 { -16i64 }
        else if f == 5 { -11i64 }
        else if f == 6 { -16i64 }
        else { -27i64 }
    } else if r == 6 {
        if f == 0 { -36i64 }
        else if f == 1 { -18i64 }
        else if f == 2 { 0i64 }
        else if f == 3 { -19i64 }
        else if f == 4 { -15i64 }
        else if f == 5 { -15i64 }
        else if f == 6 { -21i64 }
        else { -38i64 }
    } else if r == 7 {
        if f == 0 { -39i64 }
        else if f == 1 { -30i64 }
        else if f == 2 { -31i64 }
        else if f == 3 { -13i64 }
        else if f == 4 { -31i64 }
        else if f == 5 { -36i64 }
        else if f == 6 { -46i64 }
        else { -28i64 }
    } else { 0i64 }
}

/// The king piece-square table, indexed by (rank, file) from White's
/// perspective.
pub open spec fn king_table_at(r: int, f: int) -> i64 {
    if r == 0 {
        if f == 0 { 4i64 }
        else if f == 1 { 54i64 }
        else if f == 2 { 47i64 }
        else if f == 3 { -99i64 }
        else if f == 4 { -99i64 }
        else if f == 5 { 60i64 }
        else if f == 6 { 83i64 }
        else { -62i64 }
    } else if r == 1 {
        if f == 0 { -32i64 }
        else if f == 1 { 10i64 }
        else if f == 2 { 55i64 }
        else if f == 3 { 56i64 }
        else if f == 4 { 56i64 }
        else if f == 5 { 55i64 }
        else if f == 6 { 10i64 }
        else { 3i64 }
    } else if r == 2 {
        if f == 0 { -62i64 }
        else if f == 1 { 12i64 }
        else if f == 2 { -57i64 }
        else if f == 3 { 44i64 }
        else if f == 4 { -67i64 }
        else if f == 5 { 28i64 }
        else if f == 6 { 37i64 }
        else { -31i64 }
    } else if r == 3 {
        if f == 0 { -55i64 }
        else if f == 1 { 50i64 }
        else if f == 2 { 11i64 }
        else if f == 3 { -4i64 }
        else if f == 4 { -19i64 }
        else if f == 5 { 13i64 }
        else if f == 6 { 0i64 }
        else { -49i64 }
    } else if r == 4 {
        if f == 0 { -55i64 }
        else if f == 1 { -43i64 }
        else if f == 2 { -52i64 }
        else if f == 3 { -28i64 }
        else if f == 4 { -51i64 }
        else if f == 5 { -47i64 }
        else if f == 6 { -8i64 }
        else { -50i64 }
    } else if r == 5 {
        if f == 0 { -47i64 }
        else if f == 1 { -42i64 }
        else if f == 2 { -43i64 }
        else if f == 3 { -79i64 }
        else if f == 4 { -64i64 }
        else if f == 5 { -32i64 }
        else if f == 6 { -29i64 }
        else { -32i64 }
    } else if r == 6 {
        if f == 0 { -4i64 }
        else if f == 1 { 3i64 }
        else if f == 2 { -14i64 }
        else if f == 3 { -50i64 }
        else if f == 4 { -57i64 }
        else if f == 5 { -18i64 }
        else if f == 6 { 13i64 }
        else { 4i64 }
    } else if r == 7 {
        if f == 0 { 17i64 }
        else if f == 1 { 30i64 }
        else if f == 2 { -3i64 }
        else if f == 3 { -14i64 }
        else if f == 4 { 6i64 }
        else if f == 5 { -1i64 }
        else if f == 6 { 40i64 }
        else { 18i64 }
    } else { 0i64 }
}

/// Reads the king table.
pub fn king_table(r: u8, f: u8) -> (v: i64)
    requires
        r < 8,
        f < 8,
    ensures
        v == king_table_at(r as int, f as int),
{
    if r == 0 {
        if f == 0 { 4i64 }
        else if f == 1 { 54i64 }
        else if f == 2 { 47i64 }
        else if f == 3 { -99i64 }
        else if f == 4 { -99i64 }
        else if f == 5 { 60i64 }
        else if f == 6 { 83i64 }
        else { -62i64 }
    } else if r == 1 {
        if f == 0 { -32i64 }
        else if f == 1 { 10i64 }
        else if f == 2 { 55i64 }
        else if f == 3 { 56i64 }
        else if f == 4 { 56i64 }
        else if f == 5 { 55i64 }
        else if f == 6 { 10i64 }
        else { 3i64 }
    } else if r == 2 {
        if f == 0 { -62i64 }
        else if f == 1 { 12i64 }
        else if f == 2 { -57i64 }
        else if f == 3 { 44i64 }
        else if f == 4 { -67i64 }
        else if f == 5 { 28i64 }
        else if f == 6 { 37i64 }
        else { -31i64 }
    } else if r == 3 {
        if f == 0 { -55i64 }
        else if f == 1 { 50i64 }
        else if f == 2 { 11i64 }
        else if f == 3 { -4i64 }
        else if f == 4 { -19i64 }
        else if f == 5 { 13i64 }
        else if f == 6 { 0i64 }
        else { -49i64 }
    } else if r == 4 {
        if f == 0 { -55i64 }
        else if f == 1 { -43i64 }
        else if f == 2 { -52i64 }
        else if f == 3 { -28i64 }
        else if f == 4 { -51i64 }
        else if f == 5 { -47i64 }
        else if f == 6 { -8i64 }
        else { -50i64 }
    } else if r == 5 {
        if f == 0 { -47i64 }
        else if f == 1 { -42i64 }
        else if f == 2 { -43i64 }
        else if f == 3 { -79i64 }
        else if f == 4 { -64i64 }
        else if f == 5 { -32i64 }
        else if f == 6 { -29i64 }
        else { -32i64 }
    } else if r == 6 {
        if f == 0 { -4i64 }
        else if f == 1 { 3i64 }
        else if f == 2 { -14i64 }
        else if f == 3 { -50i64 }
        else if f == 4 { -57i64 }
        else if f == 5 { -18i64 }
        else if f == 6 { 13i64 }
        else { 4i64 }
    } else if r == 7 {
        if f == 0 { 17i64 }
        else if f == 1 { 30i64 }
        else if f == 2 { -3i64 }
        else if f == 3 { -14i64 }
        else if f == 4 { 6i64 }
        else if f == 5 { -1i64 }
        else if f == 6 { 40i64 }
        else { 18i64 }
    } else { 0i64 }
}

/// The piece-square table entry for a piece kind, indexed by (rank, file)
/// from White's perspective.
pub open spec fn table_at(t: PieceType, r: int, f: int) -> i64 {
    match t {
        PieceType::Pawn => pawn_table_at(r, f),
        PieceType::Rook => rook_table_at(r, f),
        PieceType::Knight => knight_table_at(r, f),
        PieceType::Bishop => bishop_table_at(r, f),
        PieceType::Queen => queen_table_at(r, f),
        PieceType::King => king_table_at(r, f),
    }
}

/// Reads the piece-square table of a piece kind.
pub fn table_lookup(t: PieceType, r: u8, f: u8) -> (v: i64)
    requires
        r < 8,
        f < 8,
    ensures
        v == table_at(t, r as int, f as int),
{
    match t {
        PieceType::Pawn => pawn_table(r, f),
        PieceType::Rook => rook_table(r, f),
        PieceType::Knight => knight_table(r, f),
        PieceType::Bishop => bishop_table(r, f),
        PieceType::Queen => queen_table(r, f),
        PieceType::King => king_table(r, f),
    }
}

/// Every table entry lies within [-107, 107].
pub proof fn lemma_table_bounded(t: PieceType, r: int, f: int)
    requires
        0 <= r < 8,
        0 <= f < 8,
    ensures
        -107 <= table_at(t, r, f) <= 107,
{
}

} // verus!
