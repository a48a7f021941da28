//! The bound search: a fail-soft negamax with alpha-beta answering "is the
//! true score of this position at least gamma?", memoized in the
//! two-generation transposition table, with an outer window-narrowing driver.

use vstd::prelude::*;

use crate::pieces::Piece;
use crate::pieces::PieceColor;
use crate::pieces::PieceType;
use crate::pieces::board_wf;
use crate::pieces::lemma_occupant_unique;
use crate::pieces::occupied;
use crate::pieces::possible_move_spec;
use crate::board::Square;
use crate::position::Move;
use crate::position::Position;
use crate::position::apply_move_seq;
use crate::scorer::MATE_LOWER;
use crate::scorer::MATE_UPPER;
use crate::scorer::EVAL_ROUGHNESS;
use crate::scorer::SCORE_LIMIT;
use crate::scorer::evaluate;
use crate::scorer::evaluate_spec;
use crate::tt::KEY_LIMIT;
use crate::tt::LowerEntry;
use crate::tt::TranspositionTable;
use crate::tt::UpperEntry;
use crate::tt::lower_cutoff_spec;
use crate::tt::lower_lookup_spec;
use crate::tt::upper_cutoff_spec;
use crate::tt::upper_lookup_spec;

verus! {

broadcast use vstd::seq_lib::lemma_seq_contains_after_push;

/// A small index for each piece kind, used only to build position keys.
pub open spec fn type_code(t: PieceType) -> u64 {
    match t {
        PieceType::Pawn => 0,
        PieceType::Rook => 1,
        PieceType::Knight => 2,
        PieceType::Bishop => 3,
        PieceType::Queen => 4,
        PieceType::King => 5,
    }
}

/// A code below 768 identifying a piece's kind, color and square.
pub open spec fn piece_code_spec(p: Piece) -> u64 {
    if p.on_board() {
        (2 * type_code(p.piece_type) + (if p.color == PieceColor::White {
            0u64
        } else {
            1u64
        }) + 12 * (8 * (p.x as u64) + (p.y as u64))) as u64
    } else {
        0
    }
}

/// The code spread over the word, so that the codes of different pieces
/// overlap little.
pub open spec fn spread_spec(c: u64) -> u64 {
    ((c << (c % 53)) ^ c) as u64
}

/// The running combination of the piece codes seen so far.
pub open spec fn key_fold(b: Seq<Piece>) -> u64
    decreases b.len(),
{
    if b.len() == 0 {
        0
    } else {
        (key_fold(b.drop_last()) ^ spread_spec(piece_code_spec(b.last()))) as u64
    }
}

/// The identity key of a position: the folded piece codes mixed with the
/// side to move, masked below `KEY_LIMIT`.  Distinct positions may share a
/// key; nothing in the table protocol relies on injectivity.
pub open spec fn position_key_spec(b: Seq<Piece>, side: PieceColor) -> u64 {
    ((key_fold(b) ^ (if side == PieceColor::White {
        0x55u64
    } else {
        0xAAu64
    })) & 0x7FFFFFFFFFFFFFFFu64) as u64
}

/// Computes the identity key of a position.
#[verifier::loop_isolation(false)]
pub fn position_key(pos: &Position) -> (r: u64)
    requires
        pos.wf(),
    ensures
        r == position_key_spec(pos.pieces@, pos.to_move),
        r < KEY_LIMIT,
{
    let n = pos.pieces.len();
    let mut acc: u64 = 0;
    let mut k: usize = 0;
    while k < n
        invariant
            n == pos.pieces@.len(),
            k <= n,
            acc == key_fold(pos.pieces@.take(k as int)),
        decreases n - k,
    {
        let p = pos.pieces[k];
        proof {
            assert(pos.pieces@.take(k as int + 1).drop_last() =~= pos.pieces@.take(k as int));
            assert(pos.pieces@.take(k as int + 1).last() == pos.pieces@[k as int]);
            assert(pos.pieces@[k as int].on_board());
        }
        let code: u64 = 2 * (match p.piece_type {
            PieceType::Pawn => 0u64,
            PieceType::Rook => 1,
            PieceType::Knight => 2,
            PieceType::Bishop => 3,
            PieceType::Queen => 4,
            PieceType::King => 5,
        }) + (if p.color == PieceColor::White {
            0
        } else {
            1
        }) + 12 * (8 * (p.x as u64) + (p.y as u64));
        let spread = (code << (code % 53)) ^ code;
        acc = acc ^ spread;
        k += 1;
    }
    proof {
        assert(pos.pieces@.take(n as int) =~= pos.pieces@);
    }
    let mixed = acc ^ (if pos.to_move == PieceColor::White {
        0x55u64
    } else {
        0xAAu64
    });
    let r = mixed & 0x7FFFFFFFFFFFFFFF;
    proof {
        assert(mixed & 0x7FFFFFFFFFFFFFFFu64 < 0x8000000000000000u64) by (bit_vector);
    }
    r
}

/// The piece recorded as captured agrees with the board: the destination's
/// occupant when there is one, nothing when the destination is empty.
pub open spec fn captured_matches(b: Seq<Piece>, m: Move) -> bool {
    match m.captured {
        Some(q) => b.contains(q) && q.x == m.dest.x && q.y == m.dest.y,
        None => !occupied(b, m.dest.x as int, m.dest.y as int),
    }
}

/// A pseudo-legal reply in a position: a move of a piece of the side to
/// move, to a destination its generator yields, with the captured piece
/// recorded faithfully.
pub open spec fn pseudo_legal(b: Seq<Piece>, side: PieceColor, m: Move) -> bool {
    &&& b.contains(m.piece)
    &&& m.piece.color == side
    &&& possible_move_spec(m.piece, b, m.dest.x as int, m.dest.y as int)
    &&& captured_matches(b, m)
}

/// Some pseudo-legal reply exists.
pub open spec fn has_move(b: Seq<Piece>, side: PieceColor) -> bool {
    exists|m: Move| pseudo_legal(b, side, m)
}

/// The search session: the table generations it owns and a node counter.
/// Each concurrent search must own its own `Searcher`.
pub struct Searcher {
    pub tt: TranspositionTable,
    pub nodes: u64,
}

impl Searcher {
    /// Every score cached in either generation lies within the score band.
    pub open spec fn wf(self) -> bool {
        &&& forall|k: u64| self.tt.old_lower_view().contains_key(k)
            ==> -SCORE_LIMIT <= (#[trigger] self.tt.old_lower_view()[k]).score <= SCORE_LIMIT
        &&& forall|k: u64| self.tt.old_upper_view().contains_key(k)
            ==> -SCORE_LIMIT <= (#[trigger] self.tt.old_upper_view()[k]).score <= SCORE_LIMIT
        &&& forall|k: u64| self.tt.new_lower_view().contains_key(k)
            ==> -SCORE_LIMIT <= (#[trigger] self.tt.new_lower_view()[k]).score <= SCORE_LIMIT
        &&& forall|k: u64| self.tt.new_upper_view().contains_key(k)
            ==> -SCORE_LIMIT <= (#[trigger] self.tt.new_upper_view()[k]).score <= SCORE_LIMIT
    }

    /// A fresh session: empty table generations, no nodes visited.
    pub fn new() -> (s: Self)
        ensures
            s.wf(),
            s.nodes == 0,
            s.tt.old_lower_view() == Map::<u64, LowerEntry>::empty(),
            s.tt.old_upper_view() == Map::<u64, UpperEntry>::empty(),
            s.tt.new_lower_view() == Map::<u64, LowerEntry>::empty(),
            s.tt.new_upper_view() == Map::<u64, UpperEntry>::empty(),
    {
        Searcher { tt: TranspositionTable::new(), nodes: 0 }
    }

    /// Enumerates every pseudo-legal reply of the side to move: each piece of
    /// that side contributes its generator's destinations, with any
    /// destination occupant recorded as captured.
    #[verifier::loop_isolation(false)]
    #[verifier::rlimit(60)]
    pub fn moves(&self, pos: &Position) -> (r: Vec<Move>)
        requires
            pos.wf(),
        ensures
            forall|m: Move| #[trigger] r@.contains(m) <==> pseudo_legal(
                pos.pieces@,
                pos.to_move,
                m,
            ),
            r@.no_duplicates(),
    {
        proof {
            crate::position::lemma_board_no_dup(pos.pieces@);
        }
        let b = &pos.pieces;
        let n = b.len();
        let mut out: Vec<Move> = Vec::new();
        let mut k: usize = 0;
        while k < n
            invariant
                pos.wf(),
                n == b@.len(),
                b == pos.pieces,
                k <= n,
                out@.no_duplicates(),
                forall|m: Move| #[trigger] out@.contains(m) <==> (b@.take(k as int).contains(
                    m.piece,
                ) && m.piece.color == pos.to_move && possible_move_spec(
                    m.piece,
                    b@,
                    m.dest.x as int,
                    m.dest.y as int,
                ) && captured_matches(b@, m)),
            decreases n - k,
        {
            let p = b[k];
            proof {
                assert(b@.take(k as int + 1).drop_last() =~= b@.take(k as int));
                assert(b@.take(k as int + 1).last() == b@[k as int]);
                assert forall|t: Piece| #[trigger] b@.take(k as int + 1).contains(t) <==> (b@.take(
                    k as int,
                ).contains(t) || t == b@[k as int]) by {
                    assert(b@.take(k as int + 1) == b@.take(k as int).push(b@[k as int]));
                }
                assert(b@[k as int].on_board());
            }
            if p.color == pos.to_move {
                let ms = p.possible_moves(b);
                let mn = ms.len();
                let mut j: usize = 0;
                while j < mn
                    invariant
                        pos.wf(),
                        n == b@.len(),
                        b == pos.pieces,
                        k < n,
                        p == b@[k as int],
                        p.color == pos.to_move,
                        p.on_board(),
                        mn == ms@.len(),
                        j <= mn,
                        out@.no_duplicates(),
                        ms@.no_duplicates(),
                        forall|s: (u8, u8)| #[trigger] ms@.contains(s) <==> possible_move_spec(
                            p,
                            b@,
                            s.0 as int,
                            s.1 as int,
                        ),
                        forall|i: int| 0 <= i < ms@.len() ==> crate::pieces::sq_on_board(
                            ms@[i].0 as int,
                            ms@[i].1 as int,
                        ),
                        forall|m: Move| #[trigger] out@.contains(m) <==> ((b@.take(
                            k as int,
                        ).contains(m.piece) && m.piece.color == pos.to_move && possible_move_spec(
                            m.piece,
                            b@,
                            m.dest.x as int,
                            m.dest.y as int,
                        ) && captured_matches(b@, m)) || (m.piece == p && ms@.take(
                            j as int,
                        ).contains((m.dest.x, m.dest.y)) && captured_matches(b@, m))),
                    decreases mn - j,
                {
                    let s = ms[j];
                    let captured = pos.find_piece(s.0, s.1);
                    let mv = Move { piece: p, dest: Square { x: s.0, y: s.1 }, captured };
                    proof {
                        assert(ms@.take(j as int + 1).drop_last() =~= ms@.take(j as int));
                        assert(ms@.take(j as int + 1).last() == ms@[j as int]);
                        assert forall|t: (u8, u8)| #[trigger] ms@.take(j as int + 1).contains(t)
                            <==> (ms@.take(j as int).contains(t) || t == ms@[j as int]) by {
                            assert(ms@.take(j as int + 1) == ms@.take(j as int).push(
                                ms@[j as int],
                            ));
                        }
                        assert(captured_matches(b@, mv));
                        if out@.contains(mv) {
                            if b@.take(k as int).contains(mv.piece) {
                                let t = choose|t: int|
                                    0 <= t < b@.take(k as int).len() && b@.take(k as int)[t]
                                        == mv.piece;
                                assert(b@[t] == b@[k as int]);
                            } else {
                                let t = choose|t: int|
                                    0 <= t < ms@.take(j as int).len() && ms@.take(j as int)[t]
                                        == (mv.dest.x, mv.dest.y);
                                assert(ms@[t] == ms@[j as int]);
                            }
                            assert(false);
                        }
                        crate::pieces::lemma_push_no_dup(out@, mv);
                    }
                    out.push(mv);
                    proof {
                        assert forall|m: Move| #[trigger] out@.contains(m) <==> ((b@.take(
                            k as int,
                        ).contains(m.piece) && m.piece.color == pos.to_move && possible_move_spec(
                            m.piece,
                            b@,
                            m.dest.x as int,
                            m.dest.y as int,
                        ) && captured_matches(b@, m)) || (m.piece == p && ms@.take(
                            j as int + 1,
                        ).contains((m.dest.x, m.dest.y)) && captured_matches(b@, m))) by {
                            if m.piece == p && ms@.take(j as int + 1).contains(
                                (m.dest.x, m.dest.y),
                            ) && captured_matches(b@, m) && !(ms@.take(j as int).contains(
                                (m.dest.x, m.dest.y),
                            )) {
                                assert(m.dest.x == s.0 && m.dest.y == s.1);
                                assert(m.dest == mv.dest);
                                match (m.captured, mv.captured) {
                                    (Some(q1), Some(q2)) => {
                                        lemma_occupant_unique(b@, q1, q2);
                                        assert(m == mv);
                                    },
                                    (None, None) => {
                                        assert(m == mv);
                                    },
                                    (Some(q1), None) => {
                                        assert(occupied(b@, s.0 as int, s.1 as int)) by {
                                            let i = choose|i: int|
                                                0 <= i < b@.len() && b@[i] == q1;
                                            assert(b@[i].x == s.0 && b@[i].y == s.1);
                                        }
                                        assert(false);
                                    },
                                    (None, Some(q2)) => {
                                        assert(occupied(b@, s.0 as int, s.1 as int)) by {
                                            let i = choose|i: int|
                                                0 <= i < b@.len() && b@[i] == q2;
                                            assert(b@[i].x == s.0 && b@[i].y == s.1);
                                        }
                                        assert(false);
                                    },
                                }
                            }
                        }
                    }
                    j += 1;
                }
                proof {
                    assert(ms@.take(mn as int) =~= ms@);
                }
            }
            k += 1;
        }
        proof {
            assert(b@.take(n as int) =~= b@);
        }
        out
    }
}


/// The depth actually searched: negative requested depths count as zero.
pub open spec fn clamp_depth(depth: int) -> int {
    if depth < 0 {
        0
    } else {
        depth
    }
}

/// The upper entry short-circuits: one was found, deep enough, at or below
/// the threshold.
pub open spec fn upper_cut(up: Option<UpperEntry>, gamma: int, d: int) -> bool {
    match up {
        Some(u) => upper_cutoff_spec(u, gamma, d),
        None => false,
    }
}

/// The lower entry short-circuits: one was found, deep enough, reaching the
/// threshold.
pub open spec fn lower_cut(low: Option<LowerEntry>, gamma: int, d: int) -> bool {
    match low {
        Some(l) => lower_cutoff_spec(l, gamma, d),
        None => false,
    }
}

/// The score of the upper entry, where one exists.
pub open spec fn upper_score(up: Option<UpperEntry>) -> i64 {
    match up {
        Some(u) => u.score,
        None => 0,
    }
}

/// The score of the lower entry, where one exists.
pub open spec fn lower_score(low: Option<LowerEntry>) -> i64 {
    match low {
        Some(l) => l.score,
        None => 0,
    }
}

/// The depth a node is searched to once the probe is done: a missing lower
/// entry costs one ply of depth.
pub open spec fn effective_depth(low: Option<LowerEntry>, depth: int) -> int {
    if low is Some {
        clamp_depth(depth)
    } else {
        clamp_depth(depth) - 1
    }
}

/// The side-to-move marker recorded in a stored lower entry.
pub open spec fn side_code_spec(c: PieceColor) -> i64 {
    if c == PieceColor::White {
        0
    } else {
        1
    }
}

/// The board after playing `m`: the move's piece lands on its destination,
/// any occupant there is captured.
pub open spec fn child_board(b: Seq<Piece>, m: Move) -> Seq<Piece> {
    apply_move_seq(b, m.piece, m.dest.x as int, m.dest.y as int)
}

/// The side to move can force a score of at least `v` in the depth-limited
/// pseudo-legal game tree that `bound` explores on a table miss: a position
/// with a captured king is worth the mate floor, a node at the depth floor
/// (one ply is lost to the table-miss depth discount) or without a reply is
/// worth its static evaluation, and otherwise some reply leads to a position
/// the opponent cannot push above `-v`.
pub open spec fn forces_at_least(b: Seq<Piece>, side: PieceColor, depth: int, v: int) -> bool
    decreases clamp_depth(depth),
{
    let ev = evaluate_spec(b, side);
    if ev <= -MATE_LOWER {
        -MATE_LOWER >= v
    } else {
        let d = clamp_depth(depth) - 1;
        if d <= 0 || !has_move(b, side) {
            ev >= v
        } else {
            exists|m: Move|
                pseudo_legal(b, side, m) && forces_at_most(
                    child_board(b, m),
                    side.opposite_spec(),
                    d - 1,
                    -v,
                )
        }
    }
}

/// The side to move cannot force a score above `v` in the same tree: every
/// reply leads to a position the opponent can hold at or above `-v`.
pub open spec fn forces_at_most(b: Seq<Piece>, side: PieceColor, depth: int, v: int) -> bool
    decreases clamp_depth(depth),
{
    let ev = evaluate_spec(b, side);
    if ev <= -MATE_LOWER {
        -MATE_LOWER <= v
    } else {
        let d = clamp_depth(depth) - 1;
        if d <= 0 || !has_move(b, side) {
            ev <= v
        } else {
            forall|m: Move|
                #[trigger] pseudo_legal(b, side, m) ==> forces_at_least(
                    child_board(b, m),
                    side.opposite_spec(),
                    d - 1,
                    -v,
                )
        }
    }
}

/// A score the side can force at least of is also forced at least of every
/// lower threshold.
pub proof fn lemma_forces_at_least_mono(b: Seq<Piece>, side: PieceColor, depth: int, v: int, w: int)
    requires
        forces_at_least(b, side, depth, v),
        w <= v,
    ensures
        forces_at_least(b, side, depth, w),
    decreases clamp_depth(depth),
{
    let ev = evaluate_spec(b, side);
    if ev > -MATE_LOWER {
        let d = clamp_depth(depth) - 1;
        if d <= 0 || !has_move(b, side) {
        } else {
            let m = choose|m: Move|
                pseudo_legal(b, side, m) && forces_at_most(
                    child_board(b, m),
                    side.opposite_spec(),
                    d - 1,
                    -v,
                );
            lemma_forces_at_most_mono(child_board(b, m), side.opposite_spec(), d - 1, -v, -w);
            assert(pseudo_legal(b, side, m) && forces_at_most(
                child_board(b, m),
                side.opposite_spec(),
                d - 1,
                -w,
            ));
        }
    }
}

/// A ceiling on the forced score is also a ceiling at every higher
/// threshold.
pub proof fn lemma_forces_at_most_mono(b: Seq<Piece>, side: PieceColor, depth: int, v: int, w: int)
    requires
        forces_at_most(b, side, depth, v),
        v <= w,
    ensures
        forces_at_most(b, side, depth, w),
    decreases clamp_depth(depth),
{
    let ev = evaluate_spec(b, side);
    if ev > -MATE_LOWER {
        let d = clamp_depth(depth) - 1;
        if d <= 0 || !has_move(b, side) {
        } else {
            assert forall|m: Move| #[trigger] pseudo_legal(b, side, m) implies forces_at_least(
                child_board(b, m),
                side.opposite_spec(),
                d - 1,
                -w,
            ) by {
                lemma_forces_at_least_mono(child_board(b, m), side.opposite_spec(), d - 1, -v, -w);
            }
        }
    }
}

impl Searcher {
    /// Fail-soft negamax with alpha-beta: answers "is the true score of
    /// `pos` at least `gamma`?", returning a score that may overshoot or
    /// undershoot the threshold.  In order: the node counter advances; the
    /// depth is clamped at zero; a position whose static score shows a
    /// captured king returns the mate floor at once; the old table
    /// generation is probed, an upper entry first, then a lower entry, and a
    /// missing lower entry costs one ply of depth; a leaf returns the static
    /// evaluation; otherwise every pseudo-legal reply is searched with the
    /// negated window and the best value is stored into the new generation,
    /// as a lower bound when it reaches `gamma`, as an upper bound
    /// otherwise.  The old generation is never written; every other path
    /// (mate cutoff, table cutoffs, leaf, no reply) leaves the new
    /// generation untouched and counts exactly one node.  When the old
    /// generation is empty, so that every node of the recursion misses the
    /// table, the result is a proven fail-soft bound on the value of the
    /// depth-limited pseudo-legal game tree for any threshold inside the
    /// mate window: a lower bound when it reaches `gamma`, an upper bound
    /// otherwise.  A probe that hits trusts the cached entry, as the table
    /// protocol prescribes: distinct positions may share a key, so a cached
    /// score carries no tree-value guarantee of its own.
    #[verifier::loop_isolation(false)]
    #[verifier::rlimit(60)]
    pub fn bound(&mut self, pos: &Position, gamma: i64, depth: i64, root: bool) -> (score: i64)
        requires
            old(self).wf(),
            pos.wf(),
            -(SCORE_LIMIT + 1) <= gamma <= SCORE_LIMIT + 2,
        ensures
            final(self).wf(),
            final(self).tt.old_lower_view() == old(self).tt.old_lower_view(),
            final(self).tt.old_upper_view() == old(self).tt.old_upper_view(),
            final(self).nodes >= old(self).nodes,
            old(self).nodes < u64::MAX ==> final(self).nodes > old(self).nodes,
            -SCORE_LIMIT <= score <= SCORE_LIMIT,
            evaluate_spec(pos.pieces@, pos.to_move) <= -MATE_LOWER ==> score == -MATE_LOWER,
            ({
                let key = position_key_spec(pos.pieces@, pos.to_move);
                let d0 = clamp_depth(depth as int);
                let up = upper_lookup_spec(old(self).tt.old_upper_view(), key, root);
                let low = lower_lookup_spec(old(self).tt.old_lower_view(), key, root);
                let ev = evaluate_spec(pos.pieces@, pos.to_move);
                &&& (ev > -MATE_LOWER && upper_cut(up, gamma as int, d0) ==> score == upper_score(
                    up,
                ))
                &&& (ev > -MATE_LOWER && !upper_cut(up, gamma as int, d0) && lower_cut(
                    low,
                    gamma as int,
                    d0,
                ) ==> score == lower_score(low))
                &&& (ev > -MATE_LOWER && up is None && low is None && d0 <= 1 ==> score == ev)
                &&& ((ev <= -MATE_LOWER || upper_cut(up, gamma as int, d0) || lower_cut(
                    low,
                    gamma as int,
                    d0,
                ) || effective_depth(low, depth as int) <= 0 || !has_move(
                    pos.pieces@,
                    pos.to_move,
                )) ==> (if old(self).nodes < u64::MAX {
                    final(self).nodes == old(self).nodes + 1
                } else {
                    final(self).nodes == old(self).nodes
                }))
                &&& (ev <= -MATE_LOWER ==> final(self).tt.new_lower_view() == old(self).tt.new_lower_view() && final(self).tt.new_upper_view() == old(self).tt.new_upper_view())
                &&& (ev > -MATE_LOWER && (upper_cut(up, gamma as int, d0) || lower_cut(
                    low,
                    gamma as int,
                    d0,
                )) ==> final(self).tt.new_lower_view() == old(self).tt.new_lower_view() && final(self).tt.new_upper_view() == old(self).tt.new_upper_view())
                &&& (ev > -MATE_LOWER && !upper_cut(up, gamma as int, d0) && !lower_cut(
                    low,
                    gamma as int,
                    d0,
                ) && (effective_depth(low, depth as int) <= 0 || !has_move(
                    pos.pieces@,
                    pos.to_move,
                )) ==> final(self).tt.new_lower_view() == old(self).tt.new_lower_view() && final(self).tt.new_upper_view() == old(self).tt.new_upper_view())
                &&& (ev > -MATE_LOWER && !upper_cut(up, gamma as int, d0) && !lower_cut(
                    low,
                    gamma as int,
                    d0,
                ) && effective_depth(low, depth as int) >= 1 && has_move(pos.pieces@, pos.to_move)
                    && score >= gamma ==> final(self).tt.new_lower_view().contains_key(
                    crate::tt::tt_key_spec(key, root),
                ) && final(self).tt.new_lower_view()[crate::tt::tt_key_spec(key, root)]
                    == (LowerEntry {
                    depth: effective_depth(low, depth as int) as i64,
                    score: score,
                    to_move: side_code_spec(pos.to_move),
                }))
                &&& (ev > -MATE_LOWER && !upper_cut(up, gamma as int, d0) && !lower_cut(
                    low,
                    gamma as int,
                    d0,
                ) && effective_depth(low, depth as int) >= 1 && has_move(pos.pieces@, pos.to_move)
                    && score < gamma ==> final(self).tt.new_upper_view().contains_key(
                    crate::tt::tt_key_spec(key, root),
                ) && final(self).tt.new_upper_view()[crate::tt::tt_key_spec(key, root)]
                    == (UpperEntry {
                    depth: effective_depth(low, depth as int) as i64,
                    score: score,
                }))
                &&& (old(self).tt.old_lower_view() == Map::<u64, LowerEntry>::empty() && old(self).tt.old_upper_view()
                    == Map::<u64, UpperEntry>::empty() && -MATE_UPPER < gamma
                    && gamma <= MATE_UPPER ==> (score >= gamma ==> forces_at_least(
                    pos.pieces@,
                    pos.to_move,
                    depth as int,
                    score as int,
                )) && (score < gamma ==> forces_at_most(
                    pos.pieces@,
                    pos.to_move,
                    depth as int,
                    score as int,
                )))
            }),
        decreases clamp_depth(depth as int),
    {
        if self.nodes < u64::MAX {
            self.nodes = self.nodes + 1;
        }
        let mut d: i64 = if depth < 0 {
            0
        } else {
            depth
        };
        let eval = evaluate(pos);
        if eval <= -MATE_LOWER {
            return -MATE_LOWER;
        }
        let key = position_key(pos);
        let probe = self.tt.lookup(key, root);
        match probe.1 {
            Some(u) => {
                if u.depth >= d && u.score <= gamma {
                    return u.score;
                }
            },
            None => {},
        }
        match probe.0 {
            Some(l) => {
                if l.depth >= d && l.score >= gamma {
                    return l.score;
                }
            },
            None => {
                d = d - 1;
            },
        }
        if d <= 0 {
            return eval;
        }
        let ghost hyp = old(self).tt.old_lower_view() == Map::<u64, LowerEntry>::empty() && old(self).tt.old_upper_view() == Map::<u64, UpperEntry>::empty() && -MATE_UPPER < gamma && gamma
            <= MATE_UPPER;
        let ghost b_g = pos.pieces@;
        let ghost side = pos.to_move;
        proof {
            assert(d as int == effective_depth(
                lower_lookup_spec(old(self).tt.old_lower_view(), key, root),
                depth as int,
            ));
            if hyp {
                assert(!old(self).tt.old_lower_view().contains_key(crate::tt::tt_key_spec(
                    key,
                    root,
                )));
                assert(d as int == clamp_depth(depth as int) - 1);
            }
        }
        let mvs = self.moves(pos);
        let n = mvs.len();
        if n == 0 {
            proof {
                if has_move(pos.pieces@, pos.to_move) {
                    let m = choose|m: Move| pseudo_legal(pos.pieces@, pos.to_move, m);
                    assert(mvs@.contains(m));
                }
            }
            return eval;
        }
        proof {
            assert(mvs@.contains(mvs@[0]));
            assert(has_move(pos.pieces@, pos.to_move));
        }
        let mut best: i64 = -MATE_UPPER;
        let mut i: usize = 0;
        let mut cut = false;
        while i < n && !cut
            invariant
                self.wf(),
                self.tt.old_lower_view() == old(self).tt.old_lower_view(),
                self.tt.old_upper_view() == old(self).tt.old_upper_view(),
                self.nodes >= old(self).nodes,
                old(self).nodes < u64::MAX ==> self.nodes > old(self).nodes,
                -SCORE_LIMIT <= best <= SCORE_LIMIT,
                i <= n,
                1 <= d,
                n == mvs@.len(),
                hyp ==> d as int == clamp_depth(depth as int) - 1,
                hyp && cut ==> best >= gamma && (exists|m: Move|
                    pseudo_legal(b_g, side, m) && forces_at_most(
                        child_board(b_g, m),
                        side.opposite_spec(),
                        d as int - 1,
                        -(best as int),
                    )),
                hyp && !cut ==> best < gamma && (forall|t: int|
                    0 <= t < i ==> forces_at_least(
                        child_board(b_g, #[trigger] mvs@[t]),
                        side.opposite_spec(),
                        d as int - 1,
                        -(best as int),
                    )),
            decreases n - i, (if cut { 0int } else { 1 }),
        {
            let mv = mvs[i];
            proof {
                assert(mvs@.contains(mvs@[i as int]));
                assert(pseudo_legal(pos.pieces@, pos.to_move, mv));
                let t = choose|t: int| 0 <= t < pos.pieces@.len() && pos.pieces@[t] == mv.piece;
                assert(pos.pieces@[t].on_board());
                crate::pieces::lemma_generated_move_on_board(
                    mv.piece,
                    pos.pieces@,
                    mv.dest.x as int,
                    mv.dest.y as int,
                );
            }
            let child = pos.apply_move_unchecked(mv.piece, mv.dest);
            let v0 = self.bound(&child, 1 - gamma, d - 1, false);
            let v = -v0;
            let ghost prev_best = best;
            if v > best {
                best = v;
            }
            if best >= gamma {
                cut = true;
            }
            proof {
                if hyp {
                    assert(child.pieces@ == child_board(b_g, mv));
                    if cut {
                        assert(prev_best < gamma);
                        assert(best == v);
                        assert(v0 < 1 - gamma);
                        assert(forces_at_most(
                            child.pieces@,
                            side.opposite_spec(),
                            (d - 1) as int,
                            v0 as int,
                        ));
                        assert(forces_at_most(
                            child_board(b_g, mv),
                            side.opposite_spec(),
                            d as int - 1,
                            -(best as int),
                        ));
                        assert(pseudo_legal(b_g, side, mv));
                    } else {
                        assert forall|t: int| 0 <= t < i + 1 implies forces_at_least(
                            child_board(b_g, #[trigger] mvs@[t]),
                            side.opposite_spec(),
                            d as int - 1,
                            -(best as int),
                        ) by {
                            if t < i {
                                lemma_forces_at_least_mono(
                                    child_board(b_g, mvs@[t]),
                                    side.opposite_spec(),
                                    d as int - 1,
                                    -(prev_best as int),
                                    -(best as int),
                                );
                            } else {
                                assert(mvs@[t] == mv);
                                if v0 >= 1 - gamma {
                                    assert(forces_at_least(
                                        child.pieces@,
                                        side.opposite_spec(),
                                        (d - 1) as int,
                                        v0 as int,
                                    ));
                                    lemma_forces_at_least_mono(
                                        child_board(b_g, mv),
                                        side.opposite_spec(),
                                        d as int - 1,
                                        v0 as int,
                                        -(best as int),
                                    );
                                } else {
                                    assert(v >= gamma);
                                    assert(false);
                                }
                            }
                        }
                    }
                }
            }
            i += 1;
        }
        proof {
            if hyp {
                if best >= gamma {
                    assert(cut);
                    assert(forces_at_least(pos.pieces@, pos.to_move, depth as int, best as int));
                } else {
                    assert(!cut);
                    assert(i == n);
                    assert forall|m: Move| #[trigger] pseudo_legal(
                        pos.pieces@,
                        pos.to_move,
                        m,
                    ) implies forces_at_least(
                        child_board(pos.pieces@, m),
                        pos.to_move.opposite_spec(),
                        d as int - 1,
                        -(best as int),
                    ) by {
                        assert(mvs@.contains(m));
                        let t = choose|t: int| 0 <= t < mvs@.len() && mvs@[t] == m;
                        assert(forces_at_least(
                            child_board(b_g, mvs@[t]),
                            side.opposite_spec(),
                            d as int - 1,
                            -(best as int),
                        ));
                    }
                    assert(forces_at_most(pos.pieces@, pos.to_move, depth as int, best as int));
                }
            }
        }
        let side_code: i64 = if pos.to_move == PieceColor::White {
            0
        } else {
            1
        };
        if best >= gamma {
            self.tt.insert_lower(
                key,
                root,
                LowerEntry { depth: d, score: best, to_move: side_code },
            );
        } else {
            self.tt.insert_upper(key, root, UpperEntry { depth: d, score: best });
        }
        best
    }
}


/// Picks the probe result with the greatest score: the returned pair is an
/// element of the list, no element scores higher, and among equal scores the
/// earliest wins.
fn best_of(scored: &Vec<(Move, i64)>) -> (r: (Move, i64))
    requires
        scored@.len() > 0,
    ensures
        scored@.contains(r),
        exists|i: int|
            0 <= i < scored@.len() && scored@[i] == r && (forall|j: int|
                0 <= j < i ==> (#[trigger] scored@[j]).1 < r.1) && (forall|j: int|
                i <= j < scored@.len() ==> (#[trigger] scored@[j]).1 <= r.1),
{
    let n = scored.len();
    let mut bi: usize = 0;
    let mut k: usize = 1;
    while k < n
        invariant
            n == scored@.len(),
            0 <= bi < k <= n,
            forall|j: int| 0 <= j < bi ==> (#[trigger] scored@[j]).1 < scored@[bi as int].1,
            forall|j: int| bi <= j < k ==> (#[trigger] scored@[j]).1 <= scored@[bi as int].1,
        decreases n - k,
    {
        if scored[k].1 > scored[bi].1 {
            bi = k;
        }
        k += 1;
    }
    proof {
        assert(scored@.contains(scored@[bi as int]));
    }
    scored[bi]
}

impl Searcher {
    /// One full fixed-depth pass: rotates the table generations exactly
    /// once, resets the node counter, and narrows a score window around the
    /// true score with repeated `bound` probes until it is at most
    /// `EVAL_ROUGHNESS` wide, in the style of a binary search.  Returns the
    /// best proven lower bound.
    #[verifier::loop_isolation(false)]
    pub fn search(&mut self, pos: &Position, depth: i64) -> (score: i64)
        requires
            old(self).wf(),
            pos.wf(),
        ensures
            final(self).wf(),
            final(self).tt.old_lower_view() == old(self).tt.new_lower_view(),
            final(self).tt.old_upper_view() == old(self).tt.new_upper_view(),
            -SCORE_LIMIT <= score <= SCORE_LIMIT,
    {
        self.tt.rotate();
        self.nodes = 0;
        let ghost rotated_lower = self.tt.old_lower_view();
        let ghost rotated_upper = self.tt.old_upper_view();
        let mut lower: i64 = -MATE_UPPER;
        let mut upper: i64 = MATE_UPPER;
        while lower < upper - EVAL_ROUGHNESS
            invariant
                self.wf(),
                self.tt.old_lower_view() == rotated_lower,
                self.tt.old_upper_view() == rotated_upper,
                -SCORE_LIMIT <= lower <= SCORE_LIMIT,
                -SCORE_LIMIT <= upper <= SCORE_LIMIT,
            decreases (if upper - lower < 0 { 0int } else { upper - lower }),
        {
            let gamma = lower + (upper - lower + 1) / 2;
            let score = self.bound(pos, gamma, depth, true);
            if score >= gamma {
                lower = score;
            } else {
                upper = score;
            }
        }
        lower
    }

    /// The top-level entry point a driver calls once per turn: runs a
    /// fixed-depth pass and picks a best pseudo-legal reply by probing each
    /// one.  Returns nothing when the side to move has no pseudo-legal
    /// reply.
    #[verifier::loop_isolation(false)]
    pub fn search_best_move(&mut self, pos: &Position, depth: i64) -> (r: Option<(Move, i64)>)
        requires
            old(self).wf(),
            pos.wf(),
            0 <= depth,
        ensures
            final(self).wf(),
            r is Some <==> has_move(pos.pieces@, pos.to_move),
            match r {
                Some(pair) => pseudo_legal(pos.pieces@, pos.to_move, pair.0) && -SCORE_LIMIT
                    <= pair.1 <= SCORE_LIMIT,
                None => true,
            },
    {
        let mvs = self.moves(pos);
        let n = mvs.len();
        if n == 0 {
            proof {
                if has_move(pos.pieces@, pos.to_move) {
                    let m = choose|m: Move| pseudo_legal(pos.pieces@, pos.to_move, m);
                    assert(mvs@.contains(m));
                }
            }
            return None;
        }
        proof {
            assert(mvs@.contains(mvs@[0]));
        }
        let target = self.search(pos, depth);
        let mut scored: Vec<(Move, i64)> = Vec::new();
        let mut i: usize = 0;
        while i < n
            invariant
                self.wf(),
                pos.wf(),
                n == mvs@.len(),
                0 < n,
                i <= n,
                -SCORE_LIMIT <= target <= SCORE_LIMIT,
                scored@.len() == i,
                forall|t: int|
                    0 <= t < i ==> pseudo_legal(
                        pos.pieces@,
                        pos.to_move,
                        (#[trigger] scored@[t]).0,
                    ) && -SCORE_LIMIT <= scored@[t].1 <= SCORE_LIMIT,
            decreases n - i,
        {
            let mv = mvs[i];
            proof {
                assert(mvs@.contains(mvs@[i as int]));
                let t = choose|t: int| 0 <= t < pos.pieces@.len() && pos.pieces@[t] == mv.piece;
                assert(pos.pieces@[t].on_board());
                crate::pieces::lemma_generated_move_on_board(
                    mv.piece,
                    pos.pieces@,
                    mv.dest.x as int,
                    mv.dest.y as int,
                );
            }
            let child = pos.apply_move_unchecked(mv.piece, mv.dest);
            let v0 = self.bound(&child, 1 - target, depth - 1, false);
            scored.push((mv, -v0));
            i += 1;
        }
        let pair = best_of(&scored);
        proof {
            let t = choose|t: int| 0 <= t < scored@.len() && scored@[t] == pair;
            assert(pseudo_legal(pos.pieces@, pos.to_move, scored@[t].0));
        }
        Some(pair)
    }
}


} // verus!
