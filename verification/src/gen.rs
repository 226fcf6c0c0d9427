//! Pseudo-legal move generation, one generator per piece type and
//! colour. Each generator is proved sound (every emitted move satisfies
//! the piece's movement predicate) and complete (every move the
//! predicate admits is emitted).

use vstd::prelude::*;
use crate::bitboard::BitBoard;
use crate::bitboard::bb_has;
use crate::board::ChessBoard;
use crate::board::Color;
use crate::board::Move;
use crate::board::PieceKind;
use crate::rules::bishop_move;
use crate::rules::castle_kingside_open;
use crate::rules::castle_queenside_open;
use crate::rules::king_home;
use crate::rules::king_move;
use crate::rules::knight_move;
use crate::rules::occupied;
use crate::rules::opponent;
use crate::rules::pawn_move;
use crate::rules::pawn_threat;
use crate::rules::pawn_threat_from;
use crate::rules::piece_board;
use crate::rules::path_clear;
use crate::rules::queen_move;
use crate::rules::rc_index;
use crate::rules::rook_move;
use crate::rules::side_occ;
use crate::rules::slide_to;
use crate::square::Square;
use crate::square::lemma_index_injective;

verus! {

/// The sequence holds this move at some position.
pub open spec fn contains_move(s: Seq<Move>, m: Move) -> bool {
    exists|k: int| 0 <= k < s.len() && s[k] == m
}

/// The sequence holds this coordinate at some position.
pub open spec fn contains_square(s: Seq<Square>, t: Square) -> bool {
    exists|k: int| 0 <= k < s.len() && s[k] == t
}

pub broadcast proof fn lemma_contains_move_push(s: Seq<Move>, x: Move, m: Move)
    requires
        contains_move(s, m),
    ensures
        #[trigger] contains_move(s.push(x), m),
{
    let k0 = choose|k: int| 0 <= k < s.len() && s[k] == m;
    assert(s.push(x)[k0] == m);
}

pub broadcast proof fn lemma_contains_move_last(s: Seq<Move>, m: Move)
    ensures
        #[trigger] contains_move(s.push(m), m),
{
    assert(s.push(m)[s.len() as int] == m);
}

pub broadcast proof fn lemma_contains_square_push(s: Seq<Square>, x: Square, t: Square)
    requires
        contains_square(s, t),
    ensures
        #[trigger] contains_square(s.push(x), t),
{
    let k0 = choose|k: int| 0 <= k < s.len() && s[k] == t;
    assert(s.push(x)[k0] == t);
}

pub broadcast proof fn lemma_contains_square_last(s: Seq<Square>, t: Square)
    ensures
        #[trigger] contains_square(s.push(t), t),
{
    assert(s.push(t)[s.len() as int] == t);
}

/// Both axes lie on the board.
spec fn on_board(r: int, c: int) -> bool {
    0 <= r <= 7 && 0 <= c <= 7
}

/// The coordinate `m` steps from `from` along direction (sr, sc).
spec fn ray_square(from: Square, sr: int, sc: int, m: int) -> Square {
    Square { row: (from.row + m * sr) as i32, column: (from.column + m * sc) as i32 }
}

/// Multiplying by a unit step factor keeps, clears or negates.
proof fn lemma_step_mul(n: int, s: int)
    by (nonlinear_arith)
    requires
        -1 <= s <= 1,
    ensures
        s == 1 ==> n * s == n,
        s == 0 ==> n * s == 0,
        s == -1 ==> n * s == -n,
{
}

/// Once a ray has left the board it does not come back.
proof fn lemma_ray_monotone(from: Square, sr: int, sc: int, n: int, m: int)
    requires
        from.valid(),
        -1 <= sr <= 1,
        -1 <= sc <= 1,
        1 <= n <= m,
        !on_board(from.row + n * sr, from.column + n * sc),
    ensures
        !on_board(from.row + m * sr, from.column + m * sc),
{
    lemma_step_mul(n, sr);
    lemma_step_mul(m, sr);
    lemma_step_mul(n, sc);
    lemma_step_mul(m, sc);
}

impl ChessBoard {
    /// The occupancy union of one side.
    fn side_pieces(&self, c: Color) -> (bb: BitBoard)
        ensures
            forall|j: int| 0 <= j < 64 ==> #[trigger] bb_has(bb.value, j) == side_occ(*self, c, j),
    {
        match c {
            Color::White => self.white_pieces(),
            Color::Black => self.black_pieces(),
        }
    }

    #[verifier::loop_isolation(false)]
    pub(crate) fn gen_pawn_moves(&self, c: Color) -> (r: Vec<Move>)
        ensures
            forall|k: int|
                #![trigger r@[k]]
                0 <= k < r@.len() ==> pawn_move(*self, c, r@[k].from, r@[k].to),
            forall|from: Square, to: Square|
                #[trigger] pawn_move(*self, c, from, to) ==> contains_move(r@, (Move { from, to })),
    {
        broadcast use lemma_contains_move_push;
        broadcast use lemma_contains_move_last;

        let pawn_board: BitBoard = match c {
            Color::White => self.white_pawn,
            Color::Black => self.black_pawn,
        };
        let opp_pawn_board: BitBoard = match c {
            Color::White => self.black_pawn,
            Color::Black => self.white_pawn,
        };
        let enemy: BitBoard = self.side_pieces(match c {
            Color::White => Color::Black,
            Color::Black => Color::White,
        });
        let empty: BitBoard = self.empty_squares();
        let d: i32 = match c {
            Color::White => 1,
            Color::Black => -1,
        };
        let home: i32 = match c {
            Color::White => 1,
            Color::Black => 6,
        };
        let fifth: i32 = match c {
            Color::White => 4,
            Color::Black => 3,
        };
        let opp_home: i32 = match c {
            Color::White => 6,
            Color::Black => 1,
        };
        let pawns: Vec<Square> = pawn_board.to_squares();
        let mut out: Vec<Move> = Vec::new();
        for idx in 0..pawns.len()
            invariant
                forall|k: int|
                    #![trigger out@[k]]
                    0 <= k < out@.len() ==> pawn_move(*self, c, out@[k].from, out@[k].to),
                forall|j: int, to: Square|
                    0 <= j < idx && #[trigger] pawn_move(*self, c, pawns@[j], to)
                        ==> contains_move(out@, (Move { from: pawns@[j], to })),
        {
            let from: Square = pawns[idx];
            // diagonal candidates: capture, or en passant onto an empty square
            let to_right = Square::new(from.row + d, from.column + 1);
            if to_right.is_valid() {
                if enemy.get_square(to_right) {
                    out.push(Move::new(from, to_right));
                } else if from.row == fifth && empty.get_square(to_right) && opp_pawn_board
                    .get_square(Square::new(from.row, to_right.column)) && self.departed.get_square(
                    Square::new(opp_home, to_right.column),
                ) {
                    out.push(Move::new(from, to_right));
                }
            }
            let to_left = Square::new(from.row + d, from.column - 1);
            if to_left.is_valid() {
                if enemy.get_square(to_left) {
                    out.push(Move::new(from, to_left));
                } else if from.row == fifth && empty.get_square(to_left) && opp_pawn_board
                    .get_square(Square::new(from.row, to_left.column)) && self.departed.get_square(
                    Square::new(opp_home, to_left.column),
                ) {
                    out.push(Move::new(from, to_left));
                }
            }
            // single push, and the double push behind it
            let to_one = Square::new(from.row + d, from.column);
            if to_one.is_valid() && empty.get_square(to_one) {
                out.push(Move::new(from, to_one));
                if from.row == home {
                    let to_two = Square::new(from.row + d + d, from.column);
                    if to_two.is_valid() && empty.get_square(to_two) {
                        out.push(Move::new(from, to_two));
                    }
                }
            }
            proof {
                assert forall|to: Square| #[trigger] pawn_move(*self, c, from, to) implies
                    contains_move(out@, (Move { from, to })) by {
                    if to.column == from.column + 1 {
                        assert(to == (Square { row: (from.row + d) as i32, column: (from.column + 1) as i32 }));
                    } else if to.column == from.column - 1 {
                        assert(to == (Square { row: (from.row + d) as i32, column: (from.column - 1) as i32 }));
                    } else {
                        assert(to.column == from.column);
                        if to.row == from.row + d {
                            assert(to == (Square { row: (from.row + d) as i32, column: from.column }));
                        } else {
                            assert(to.row == from.row + d + d);
                            assert(to == (Square { row: (from.row + d + d) as i32, column: from.column }));
                        }
                    }
                }
            }
        }
        proof {
            assert forall|from: Square, to: Square| #[trigger] pawn_move(*self, c, from, to)
                implies contains_move(out@, (Move { from, to })) by {
                let k0 = choose|k: int|
                    0 <= k < pawns@.len() && (#[trigger] pawns@[k]).index() == from.index();
                lemma_index_injective(pawns@[k0], from);
            }
        }
        out
    }

    /// Appends the knight moves from one origin square.
    #[verifier::rlimit(100)]
    fn knight_from(&self, c: Color, friendly: &BitBoard, from: Square, out: &mut Vec<Move>)
        requires
            from.valid(),
            bb_has(piece_board(*self, c, PieceKind::Knight), from.index()),
            forall|j: int|
                0 <= j < 64 ==> #[trigger] bb_has(friendly.value, j) == side_occ(*self, c, j),
        ensures
            old(out)@.len() <= final(out)@.len(),
            forall|k: int| 0 <= k < old(out)@.len() ==> final(out)@[k] == old(out)@[k],
            forall|k: int|
                #![trigger final(out)@[k]]
                old(out)@.len() <= k < final(out)@.len() ==> final(out)@[k].from == from
                    && knight_move(*self, c, from, final(out)@[k].to),
            forall|mm: Move|
                contains_move(old(out)@, mm) ==> #[trigger] contains_move(final(out)@, mm),
            forall|to: Square|
                #[trigger] knight_move(*self, c, from, to) ==> contains_move(
                    final(out)@,
                    (Move { from, to }),
                ),
    {
        broadcast use lemma_contains_move_push;
        broadcast use lemma_contains_move_last;

        let ghost g0: Seq<Move> = out@;
        let t1 = Square::new(from.row + 2, from.column + 1);
        if t1.is_valid() && !friendly.get_square(t1) {
            out.push(Move::new(from, t1));
        }
        let ghost g1: Seq<Move> = out@;
        let t2 = Square::new(from.row + 2, from.column - 1);
        if t2.is_valid() && !friendly.get_square(t2) {
            out.push(Move::new(from, t2));
        }
        let ghost g2: Seq<Move> = out@;
        let t3 = Square::new(from.row + 1, from.column + 2);
        if t3.is_valid() && !friendly.get_square(t3) {
            out.push(Move::new(from, t3));
        }
        let ghost g3: Seq<Move> = out@;
        let t4 = Square::new(from.row + 1, from.column - 2);
        if t4.is_valid() && !friendly.get_square(t4) {
            out.push(Move::new(from, t4));
        }
        let ghost g4: Seq<Move> = out@;
        let t5 = Square::new(from.row - 1, from.column + 2);
        if t5.is_valid() && !friendly.get_square(t5) {
            out.push(Move::new(from, t5));
        }
        let ghost g5: Seq<Move> = out@;
        let t6 = Square::new(from.row - 1, from.column - 2);
        if t6.is_valid() && !friendly.get_square(t6) {
            out.push(Move::new(from, t6));
        }
        let ghost g6: Seq<Move> = out@;
        let t7 = Square::new(from.row - 2, from.column + 1);
        if t7.is_valid() && !friendly.get_square(t7) {
            out.push(Move::new(from, t7));
        }
        let ghost g7: Seq<Move> = out@;
        let t8 = Square::new(from.row - 2, from.column - 1);
        if t8.is_valid() && !friendly.get_square(t8) {
            out.push(Move::new(from, t8));
        }
        proof {
            assert forall|mm: Move| contains_move(g0, mm) implies #[trigger] contains_move(
                out@,
                mm,
            ) by {
                assert(contains_move(g1, mm));
                assert(contains_move(g2, mm));
                assert(contains_move(g3, mm));
                assert(contains_move(g4, mm));
                assert(contains_move(g5, mm));
                assert(contains_move(g6, mm));
                assert(contains_move(g7, mm));
            }
            assert forall|to: Square| #[trigger] knight_move(*self, c, from, to) implies
                contains_move(out@, (Move { from, to })) by {
                let dr = to.row - from.row;
                let dc = to.column - from.column;
                if dr == 2 && dc == 1 {
                    assert(to == (Square {
                        row: (from.row + 2) as i32,
                        column: (from.column + 1) as i32,
                    }));
                    assert(contains_move(g1, (Move { from, to })));
                    assert(contains_move(g2, (Move { from, to })));
                    assert(contains_move(g3, (Move { from, to })));
                    assert(contains_move(g4, (Move { from, to })));
                    assert(contains_move(g5, (Move { from, to })));
                    assert(contains_move(g6, (Move { from, to })));
                    assert(contains_move(g7, (Move { from, to })));
                } else if dr == 2 && dc == -1 {
                    assert(to == (Square {
                        row: (from.row + 2) as i32,
                        column: (from.column + -1) as i32,
                    }));
                    assert(contains_move(g2, (Move { from, to })));
                    assert(contains_move(g3, (Move { from, to })));
                    assert(contains_move(g4, (Move { from, to })));
                    assert(contains_move(g5, (Move { from, to })));
                    assert(contains_move(g6, (Move { from, to })));
                    assert(contains_move(g7, (Move { from, to })));
                } else if dr == 1 && dc == 2 {
                    assert(to == (Square {
                        row: (from.row + 1) as i32,
                        column: (from.column + 2) as i32,
                    }));
                    assert(contains_move(g3, (Move { from, to })));
                    assert(contains_move(g4, (Move { from, to })));
                    assert(contains_move(g5, (Move { from, to })));
                    assert(contains_move(g6, (Move { from, to })));
                    assert(contains_move(g7, (Move { from, to })));
                } else if dr == 1 && dc == -2 {
                    assert(to == (Square {
                        row: (from.row + 1) as i32,
                        column: (from.column + -2) as i32,
                    }));
                    assert(contains_move(g4, (Move { from, to })));
                    assert(contains_move(g5, (Move { from, to })));
                    assert(contains_move(g6, (Move { from, to })));
                    assert(contains_move(g7, (Move { from, to })));
                } else if dr == -1 && dc == 2 {
                    assert(to == (Square {
                        row: (from.row + -1) as i32,
                        column: (from.column + 2) as i32,
                    }));
                    assert(contains_move(g5, (Move { from, to })));
                    assert(contains_move(g6, (Move { from, to })));
                    assert(contains_move(g7, (Move { from, to })));
                } else if dr == -1 && dc == -2 {
                    assert(to == (Square {
                        row: (from.row + -1) as i32,
                        column: (from.column + -2) as i32,
                    }));
                    assert(contains_move(g6, (Move { from, to })));
                    assert(contains_move(g7, (Move { from, to })));
                } else if dr == -2 && dc == 1 {
                    assert(to == (Square {
                        row: (from.row + -2) as i32,
                        column: (from.column + 1) as i32,
                    }));
                    assert(contains_move(g7, (Move { from, to })));
                } else {
                    assert(dr == -2 && dc == -1);
                    assert(to == (Square {
                        row: (from.row + -2) as i32,
                        column: (from.column + -1) as i32,
                    }));
                }
                assert(contains_move(out@, (Move { from, to })));
            }
        }
    }

    #[verifier::loop_isolation(false)]
    #[verifier::rlimit(100)]
    pub(crate) fn gen_knight_moves(&self, c: Color) -> (r: Vec<Move>)
        ensures
            forall|k: int|
                #![trigger r@[k]]
                0 <= k < r@.len() ==> knight_move(*self, c, r@[k].from, r@[k].to),
            forall|from: Square, to: Square|
                #[trigger] knight_move(*self, c, from, to) ==> contains_move(
                    r@,
                    (Move { from, to }),
                ),
    {
        let knight_board: BitBoard = match c {
            Color::White => self.white_knight,
            Color::Black => self.black_knight,
        };
        let friendly: BitBoard = self.side_pieces(c);
        let knights: Vec<Square> = knight_board.to_squares();
        let mut out: Vec<Move> = Vec::new();
        for idx in 0..knights.len()
            invariant
                forall|k: int|
                    #![trigger out@[k]]
                    0 <= k < out@.len() ==> knight_move(*self, c, out@[k].from, out@[k].to),
                forall|j: int, to: Square|
                    0 <= j < idx && #[trigger] knight_move(*self, c, knights@[j], to)
                        ==> contains_move(out@, (Move { from: knights@[j], to })),
        {
            let from: Square = knights[idx];
            self.knight_from(c, &friendly, from, &mut out);
        }
        proof {
            assert forall|from: Square, to: Square| #[trigger] knight_move(*self, c, from, to)
                implies contains_move(out@, (Move { from, to })) by {
                let k0 = choose|k: int|
                    0 <= k < knights@.len() && (#[trigger] knights@[k]).index() == from.index();
                lemma_index_injective(knights@[k0], from);
            }
        }
        out
    }

    /// Casts one ray from `from` along (sr, sc), appending a move for
    /// every square reached: it stops in front of a friendly piece, on
    /// an opponent's piece (that square included), or at the board
    /// edge. Complete for `slide_to` in this direction.
    #[verifier::rlimit(100)]
    fn slide_dir(
        &self,
        c: Color,
        from: Square,
        sr: i32,
        sc: i32,
        friendly: &BitBoard,
        enemy: &BitBoard,
        out: &mut Vec<Move>,
    )
        requires
            from.valid(),
            -1 <= sr <= 1,
            -1 <= sc <= 1,
            !(sr == 0 && sc == 0),
            forall|j: int|
                0 <= j < 64 ==> #[trigger] bb_has(friendly.value, j) == side_occ(*self, c, j),
            forall|j: int|
                0 <= j < 64 ==> #[trigger] bb_has(enemy.value, j) == side_occ(*self, opponent(c), j),
        ensures
            old(out)@.len() <= final(out)@.len(),
            forall|k: int| 0 <= k < old(out)@.len() ==> final(out)@[k] == old(out)@[k],
            forall|k: int|
                #![trigger final(out)@[k]]
                old(out)@.len() <= k < final(out)@.len() ==> final(out)@[k].from == from
                    && slide_to(*self, c, from, sr as int, sc as int, final(out)@[k].to),
            forall|m: Move| contains_move(old(out)@, m) ==> #[trigger] contains_move(final(out)@, m),
            forall|to: Square|
                #[trigger] slide_to(*self, c, from, sr as int, sc as int, to) ==> contains_move(
                    final(out)@,
                    (Move { from, to }),
                ),
    {
        broadcast use lemma_contains_move_push;
        broadcast use lemma_contains_move_last;

        let ghost base: Seq<Move> = out@;
        let mut n: i32 = 1;
        loop
            invariant
                from.valid(),
                -1 <= sr <= 1,
                -1 <= sc <= 1,
                !(sr == 0 && sc == 0),
                forall|j: int|
                    0 <= j < 64 ==> #[trigger] bb_has(friendly.value, j) == side_occ(*self, c, j),
                forall|j: int|
                    0 <= j < 64 ==> #[trigger] bb_has(enemy.value, j) == side_occ(
                        *self,
                        opponent(c),
                        j,
                    ),
                1 <= n <= 8,
                base.len() <= out@.len(),
                forall|k: int| 0 <= k < base.len() ==> out@[k] == base[k],
                forall|k: int|
                    #![trigger out@[k]]
                    base.len() <= k < out@.len() ==> out@[k].from == from && slide_to(
                        *self,
                        c,
                        from,
                        sr as int,
                        sc as int,
                        out@[k].to,
                    ),
                path_clear(*self, from, sr as int, sc as int, n as int),
                forall|m: int|
                    1 <= m < n ==> contains_move(
                        out@,
                        (Move { from, to: #[trigger] ray_square(from, sr as int, sc as int, m) }),
                    ),
            ensures
                base.len() <= out@.len(),
                forall|k: int| 0 <= k < base.len() ==> out@[k] == base[k],
                forall|k: int|
                    #![trigger out@[k]]
                    base.len() <= k < out@.len() ==> out@[k].from == from && slide_to(
                        *self,
                        c,
                        from,
                        sr as int,
                        sc as int,
                        out@[k].to,
                    ),
                forall|to: Square|
                    #[trigger] slide_to(*self, c, from, sr as int, sc as int, to) ==> contains_move(
                        out@,
                        (Move { from, to }),
                    ),
            decreases 8 - n,
        {
            proof {
                lemma_step_mul(n as int, sr as int);
                lemma_step_mul(n as int, sc as int);
            }
            if n >= 8 {
                proof {
                    assert forall|to: Square|
                        #[trigger] slide_to(*self, c, from, sr as int, sc as int, to) implies
                        contains_move(out@, (Move { from, to })) by {
                        let m = choose|nn: int|
                            1 <= nn < 8 && to.row == from.row + nn * (sr as int) && to.column
                                == from.column + nn * (sc as int) && #[trigger] path_clear(
                                *self,
                                from,
                                sr as int,
                                sc as int,
                                nn,
                            );
                        assert(m < n);
                        assert(to == ray_square(from, sr as int, sc as int, m));
                        assert(contains_move(out@, (Move { from, to })));
                    }
                }
                break;
            }
            let cur = Square::new(from.row + n * sr, from.column + n * sc);
            if !cur.is_valid() {
                proof {
                    assert forall|to: Square|
                        #[trigger] slide_to(*self, c, from, sr as int, sc as int, to) implies
                        contains_move(out@, (Move { from, to })) by {
                        let m = choose|nn: int|
                            1 <= nn < 8 && to.row == from.row + nn * (sr as int) && to.column
                                == from.column + nn * (sc as int) && #[trigger] path_clear(
                                *self,
                                from,
                                sr as int,
                                sc as int,
                                nn,
                            );
                        if m < n {
                            assert(to == ray_square(from, sr as int, sc as int, m));
                        } else {
                            lemma_ray_monotone(from, sr as int, sc as int, n as int, m);
                            assert(!on_board(to.row as int, to.column as int));
                            assert(false);
                        }
                    }
                }
                break;
            }
            if friendly.get_square(cur) {
                proof {
                    assert forall|to: Square|
                        #[trigger] slide_to(*self, c, from, sr as int, sc as int, to) implies
                        contains_move(out@, (Move { from, to })) by {
                        let m = choose|nn: int|
                            1 <= nn < 8 && to.row == from.row + nn * (sr as int) && to.column
                                == from.column + nn * (sc as int) && #[trigger] path_clear(
                                *self,
                                from,
                                sr as int,
                                sc as int,
                                nn,
                            );
                        if m < n {
                            assert(to == ray_square(from, sr as int, sc as int, m));
                        } else if m == n {
                            assert(to == cur);
                            assert(side_occ(*self, c, to.index()));
                            assert(false);
                        } else {
                            assert(!occupied(
                                *self,
                                rc_index(
                                    from.row + n * (sr as int),
                                    from.column + n * (sc as int),
                                ),
                            ));
                            assert(cur.index() == rc_index(
                                from.row + n * (sr as int),
                                from.column + n * (sc as int),
                            ));
                            assert(side_occ(*self, c, cur.index()));
                            assert(false);
                        }
                    }
                }
                break;
            }
            let ghost prev: Seq<Move> = out@;
            out.push(Move::new(from, cur));
            proof {
                assert(1 <= (n as int) && (n as int) < 8 && cur.row == from.row + (n as int) * (
                sr as int)
                    && cur.column == from.column + (n as int) * (sc as int) && path_clear(
                    *self,
                    from,
                    sr as int,
                    sc as int,
                    n as int,
                ));
                assert(slide_to(*self, c, from, sr as int, sc as int, cur));
                assert(cur == ray_square(from, sr as int, sc as int, n as int));
                assert forall|m: int| 1 <= m < n + 1 implies contains_move(
                    out@,
                    (Move { from, to: ray_square(from, sr as int, sc as int, m) }),
                ) by {
                    if m == n {
                        lemma_contains_move_last(prev, (Move { from, to: cur }));
                    } else {
                        lemma_contains_move_push(
                            prev,
                            (Move { from, to: cur }),
                            (Move { from, to: ray_square(from, sr as int, sc as int, m) }),
                        );
                    }
                }
            }
            if enemy.get_square(cur) {
                proof {
                    assert forall|to: Square|
                        #[trigger] slide_to(*self, c, from, sr as int, sc as int, to) implies
                        contains_move(out@, (Move { from, to })) by {
                        let m = choose|nn: int|
                            1 <= nn < 8 && to.row == from.row + nn * (sr as int) && to.column
                                == from.column + nn * (sc as int) && #[trigger] path_clear(
                                *self,
                                from,
                                sr as int,
                                sc as int,
                                nn,
                            );
                        if m < n {
                            assert(to == ray_square(from, sr as int, sc as int, m));
                        } else if m == n {
                            assert(to == cur);
                        } else {
                            assert(!occupied(
                                *self,
                                rc_index(
                                    from.row + n * (sr as int),
                                    from.column + n * (sc as int),
                                ),
                            ));
                            assert(cur.index() == rc_index(
                                from.row + n * (sr as int),
                                from.column + n * (sc as int),
                            ));
                            assert(side_occ(*self, opponent(c), cur.index()));
                            assert(false);
                        }
                    }
                }
                break;
            }
            proof {
                assert(!side_occ(*self, c, cur.index()));
                assert(!side_occ(*self, opponent(c), cur.index()));
                assert forall|k: int|
                    1 <= k < n + 1 implies !occupied(
                    *self,
                    #[trigger] rc_index(from.row + k * (sr as int), from.column + k * (sc as int)),
                ) by {
                    if k == n {
                        assert(rc_index(from.row + k * (sr as int), from.column + k * (sc as int))
                            == cur.index());
                        assert(!occupied(*self, cur.index()));
                    }
                }
                assert(path_clear(*self, from, sr as int, sc as int, (n + 1) as int));
            }
            n = n + 1;
        }
        proof {
            assert forall|m: Move| contains_move(base, m) implies #[trigger] contains_move(
                out@,
                m,
            ) by {
                let k0 = choose|k: int| 0 <= k < base.len() && base[k] == m;
                assert(out@[k0] == m);
            }
        }
    }

    #[verifier::loop_isolation(false)]
    #[verifier::rlimit(100)]
    pub(crate) fn gen_rook_moves(&self, c: Color) -> (r: Vec<Move>)
        ensures
            forall|k: int|
                #![trigger r@[k]]
                0 <= k < r@.len() ==> rook_move(*self, c, r@[k].from, r@[k].to),
            forall|from: Square, to: Square|
                #[trigger] rook_move(*self, c, from, to) ==> contains_move(r@, (Move { from, to })),
    {
        let rook_board: BitBoard = match c {
            Color::White => self.white_rook,
            Color::Black => self.black_rook,
        };
        let friendly: BitBoard = self.side_pieces(c);
        let other: Color = match c {
            Color::White => Color::Black,
            Color::Black => Color::White,
        };
        let enemy: BitBoard = self.side_pieces(other);
        proof {
            assert(other == opponent(c));
        }
        let rooks: Vec<Square> = rook_board.to_squares();
        let mut out: Vec<Move> = Vec::new();
        for idx in 0..rooks.len()
            invariant
                forall|k: int|
                    #![trigger out@[k]]
                    0 <= k < out@.len() ==> rook_move(*self, c, out@[k].from, out@[k].to),
                forall|j: int, to: Square|
                    0 <= j < idx && #[trigger] rook_move(*self, c, rooks@[j], to)
                        ==> contains_move(out@, (Move { from: rooks@[j], to })),
        {
            let from: Square = rooks[idx];
            self.slide_dir(c, from, 1, 0, &friendly, &enemy, &mut out);
            let ghost s1: Seq<Move> = out@;
            self.slide_dir(c, from, -1, 0, &friendly, &enemy, &mut out);
            let ghost s2: Seq<Move> = out@;
            self.slide_dir(c, from, 0, 1, &friendly, &enemy, &mut out);
            let ghost s3: Seq<Move> = out@;
            self.slide_dir(c, from, 0, -1, &friendly, &enemy, &mut out);
            proof {
                assert forall|to: Square| #[trigger] rook_move(*self, c, from, to) implies
                    contains_move(out@, (Move { from, to })) by {
                    let m = Move { from, to };
                    if slide_to(*self, c, from, 1, 0, to) {
                        assert(contains_move(s1, m));
                        assert(contains_move(s2, m));
                        assert(contains_move(s3, m));
                    } else if slide_to(*self, c, from, -1, 0, to) {
                        assert(contains_move(s2, m));
                        assert(contains_move(s3, m));
                    } else if slide_to(*self, c, from, 0, 1, to) {
                        assert(contains_move(s3, m));
                    } else {
                        assert(slide_to(*self, c, from, 0, -1, to));
                    }
                    assert(contains_move(out@, m));
                }
            }
        }
        proof {
            assert forall|from: Square, to: Square| #[trigger] rook_move(*self, c, from, to)
                implies contains_move(out@, (Move { from, to })) by {
                let k0 = choose|k: int|
                    0 <= k < rooks@.len() && (#[trigger] rooks@[k]).index() == from.index();
                lemma_index_injective(rooks@[k0], from);
            }
        }
        out
    }

    #[verifier::loop_isolation(false)]
    #[verifier::rlimit(100)]
    pub(crate) fn gen_bishop_moves(&self, c: Color) -> (r: Vec<Move>)
        ensures
            forall|k: int|
                #![trigger r@[k]]
                0 <= k < r@.len() ==> bishop_move(*self, c, r@[k].from, r@[k].to),
            forall|from: Square, to: Square|
                #[trigger] bishop_move(*self, c, from, to) ==> contains_move(
                    r@,
                    (Move { from, to }),
                ),
    {
        let bishop_board: BitBoard = match c {
            Color::White => self.white_bishop,
            Color::Black => self.black_bishop,
        };
        let friendly: BitBoard = self.side_pieces(c);
        let other: Color = match c {
            Color::White => Color::Black,
            Color::Black => Color::White,
        };
        let enemy: BitBoard = self.side_pieces(other);
        proof {
            assert(other == opponent(c));
        }
        let bishops: Vec<Square> = bishop_board.to_squares();
        let mut out: Vec<Move> = Vec::new();
        for idx in 0..bishops.len()
            invariant
                forall|k: int|
                    #![trigger out@[k]]
                    0 <= k < out@.len() ==> bishop_move(*self, c, out@[k].from, out@[k].to),
                forall|j: int, to: Square|
                    0 <= j < idx && #[trigger] bishop_move(*self, c, bishops@[j], to)
                        ==> contains_move(out@, (Move { from: bishops@[j], to })),
        {
            let from: Square = bishops[idx];
            self.slide_dir(c, from, 1, 1, &friendly, &enemy, &mut out);
            let ghost s1: Seq<Move> = out@;
            self.slide_dir(c, from, 1, -1, &friendly, &enemy, &mut out);
            let ghost s2: Seq<Move> = out@;
            self.slide_dir(c, from, -1, 1, &friendly, &enemy, &mut out);
            let ghost s3: Seq<Move> = out@;
            self.slide_dir(c, from, -1, -1, &friendly, &enemy, &mut out);
            proof {
                assert forall|to: Square| #[trigger] bishop_move(*self, c, from, to) implies
                    contains_move(out@, (Move { from, to })) by {
                    let m = Move { from, to };
                    if slide_to(*self, c, from, 1, 1, to) {
                        assert(contains_move(s1, m));
                        assert(contains_move(s2, m));
                        assert(contains_move(s3, m));
                    } else if slide_to(*self, c, from, 1, -1, to) {
                        assert(contains_move(s2, m));
                        assert(contains_move(s3, m));
                    } else if slide_to(*self, c, from, -1, 1, to) {
                        assert(contains_move(s3, m));
                    } else {
                        assert(slide_to(*self, c, from, -1, -1, to));
                    }
                    assert(contains_move(out@, m));
                }
            }
        }
        proof {
            assert forall|from: Square, to: Square| #[trigger] bishop_move(*self, c, from, to)
                implies contains_move(out@, (Move { from, to })) by {
                let k0 = choose|k: int|
                    0 <= k < bishops@.len() && (#[trigger] bishops@[k]).index() == from.index();
                lemma_index_injective(bishops@[k0], from);
            }
        }
        out
    }

    #[verifier::loop_isolation(false)]
    #[verifier::rlimit(100)]
    pub(crate) fn gen_queen_moves(&self, c: Color) -> (r: Vec<Move>)
        ensures
            forall|k: int|
                #![trigger r@[k]]
                0 <= k < r@.len() ==> queen_move(*self, c, r@[k].from, r@[k].to),
            forall|from: Square, to: Square|
                #[trigger] queen_move(*self, c, from, to) ==> contains_move(r@, (Move { from, to })),
    {
        let queen_board: BitBoard = match c {
            Color::White => self.white_queen,
            Color::Black => self.black_queen,
        };
        let friendly: BitBoard = self.side_pieces(c);
        let other: Color = match c {
            Color::White => Color::Black,
            Color::Black => Color::White,
        };
        let enemy: BitBoard = self.side_pieces(other);
        proof {
            assert(other == opponent(c));
        }
        let queens: Vec<Square> = queen_board.to_squares();
        let mut out: Vec<Move> = Vec::new();
        for idx in 0..queens.len()
            invariant
                forall|k: int|
                    #![trigger out@[k]]
                    0 <= k < out@.len() ==> queen_move(*self, c, out@[k].from, out@[k].to),
                forall|j: int, to: Square|
                    0 <= j < idx && #[trigger] queen_move(*self, c, queens@[j], to)
                        ==> contains_move(out@, (Move { from: queens@[j], to })),
        {
            let from: Square = queens[idx];
            self.slide_dir(c, from, 1, 0, &friendly, &enemy, &mut out);
            let ghost s1: Seq<Move> = out@;
            self.slide_dir(c, from, -1, 0, &friendly, &enemy, &mut out);
            let ghost s2: Seq<Move> = out@;
            self.slide_dir(c, from, 0, 1, &friendly, &enemy, &mut out);
            let ghost s3: Seq<Move> = out@;
            self.slide_dir(c, from, 0, -1, &friendly, &enemy, &mut out);
            let ghost s4: Seq<Move> = out@;
            self.slide_dir(c, from, 1, 1, &friendly, &enemy, &mut out);
            let ghost s5: Seq<Move> = out@;
            self.slide_dir(c, from, 1, -1, &friendly, &enemy, &mut out);
            let ghost s6: Seq<Move> = out@;
            self.slide_dir(c, from, -1, 1, &friendly, &enemy, &mut out);
            let ghost s7: Seq<Move> = out@;
            self.slide_dir(c, from, -1, -1, &friendly, &enemy, &mut out);
            proof {
                assert forall|to: Square| #[trigger] queen_move(*self, c, from, to) implies
                    contains_move(out@, (Move { from, to })) by {
                    let m = Move { from, to };
                    if slide_to(*self, c, from, 1, 0, to) {
                        assert(contains_move(s1, m));
                        assert(contains_move(s2, m));
                        assert(contains_move(s3, m));
                        assert(contains_move(s4, m));
                        assert(contains_move(s5, m));
                        assert(contains_move(s6, m));
                        assert(contains_move(s7, m));
                    } else if slide_to(*self, c, from, -1, 0, to) {
                        assert(contains_move(s2, m));
                        assert(contains_move(s3, m));
                        assert(contains_move(s4, m));
                        assert(contains_move(s5, m));
                        assert(contains_move(s6, m));
                        assert(contains_move(s7, m));
                    } else if slide_to(*self, c, from, 0, 1, to) {
                        assert(contains_move(s3, m));
                        assert(contains_move(s4, m));
                        assert(contains_move(s5, m));
                        assert(contains_move(s6, m));
                        assert(contains_move(s7, m));
                    } else if slide_to(*self, c, from, 0, -1, to) {
                        assert(contains_move(s4, m));
                        assert(contains_move(s5, m));
                        assert(contains_move(s6, m));
                        assert(contains_move(s7, m));
                    } else if slide_to(*self, c, from, 1, 1, to) {
                        assert(contains_move(s5, m));
                        assert(contains_move(s6, m));
                        assert(contains_move(s7, m));
                    } else if slide_to(*self, c, from, 1, -1, to) {
                        assert(contains_move(s6, m));
                        assert(contains_move(s7, m));
                    } else if slide_to(*self, c, from, -1, 1, to) {
                        assert(contains_move(s7, m));
                    } else {
                        assert(slide_to(*self, c, from, -1, -1, to));
                    }
                    assert(contains_move(out@, m));
                }
            }
        }
        proof {
            assert forall|from: Square, to: Square| #[trigger] queen_move(*self, c, from, to)
                implies contains_move(out@, (Move { from, to })) by {
                let k0 = choose|k: int|
                    0 <= k < queens@.len() && (#[trigger] queens@[k]).index() == from.index();
                lemma_index_injective(queens@[k0], from);
            }
        }
        out
    }

    #[verifier::loop_isolation(false)]
    #[verifier::rlimit(100)]
    pub(crate) fn gen_king_moves(&self, c: Color) -> (r: Vec<Move>)
        ensures
            forall|k: int|
                #![trigger r@[k]]
                0 <= k < r@.len() ==> king_move(*self, c, r@[k].from, r@[k].to),
            forall|from: Square, to: Square|
                #[trigger] king_move(*self, c, from, to) ==> contains_move(r@, (Move { from, to })),
    {
        broadcast use lemma_contains_move_push;
        broadcast use lemma_contains_move_last;

        let king_board: BitBoard = match c {
            Color::White => self.white_king,
            Color::Black => self.black_king,
        };
        let friendly: BitBoard = self.side_pieces(c);
        let empty: BitBoard = self.empty_squares();
        let hr: i32 = match c {
            Color::White => 0,
            Color::Black => 7,
        };
        let kings: Vec<Square> = king_board.to_squares();
        let mut out: Vec<Move> = Vec::new();
        for idx in 0..kings.len()
            invariant
                forall|k: int|
                    #![trigger out@[k]]
                    0 <= k < out@.len() ==> king_move(*self, c, out@[k].from, out@[k].to),
                forall|j: int, to: Square|
                    0 <= j < idx && #[trigger] king_move(*self, c, kings@[j], to)
                        ==> contains_move(out@, (Move { from: kings@[j], to })),
        {
            let from: Square = kings[idx];
            let ghost g0: Seq<Move> = out@;
            let t1 = Square::new(from.row + 1, from.column + 1);
            if t1.is_valid() && !friendly.get_square(t1) {
                out.push(Move::new(from, t1));
            }
            let ghost g1: Seq<Move> = out@;
            let t2 = Square::new(from.row + 1, from.column);
            if t2.is_valid() && !friendly.get_square(t2) {
                out.push(Move::new(from, t2));
            }
            let ghost g2: Seq<Move> = out@;
            let t3 = Square::new(from.row + 1, from.column - 1);
            if t3.is_valid() && !friendly.get_square(t3) {
                out.push(Move::new(from, t3));
            }
            let ghost g3: Seq<Move> = out@;
            let t4 = Square::new(from.row, from.column + 1);
            if t4.is_valid() && !friendly.get_square(t4) {
                out.push(Move::new(from, t4));
            }
            let ghost g4: Seq<Move> = out@;
            let t5 = Square::new(from.row, from.column - 1);
            if t5.is_valid() && !friendly.get_square(t5) {
                out.push(Move::new(from, t5));
            }
            let ghost g5: Seq<Move> = out@;
            let t6 = Square::new(from.row - 1, from.column + 1);
            if t6.is_valid() && !friendly.get_square(t6) {
                out.push(Move::new(from, t6));
            }
            let ghost g6: Seq<Move> = out@;
            let t7 = Square::new(from.row - 1, from.column);
            if t7.is_valid() && !friendly.get_square(t7) {
                out.push(Move::new(from, t7));
            }
            let ghost g7: Seq<Move> = out@;
            let t8 = Square::new(from.row - 1, from.column - 1);
            if t8.is_valid() && !friendly.get_square(t8) {
                out.push(Move::new(from, t8));
            }
            let ghost g8: Seq<Move> = out@;
            // the two conditional castling moves, from the king's origin
            if from.row == hr && from.column == 4 {
                if !self.departed.get_square(Square::new(hr, 4)) && !self.departed.get_square(
                    Square::new(hr, 7),
                ) && empty.get_square(Square::new(hr, 5)) && empty.get_square(Square::new(hr, 6)) {
                    out.push(Move::new(from, Square::new(hr, 6)));
                    proof {
                        assert(castle_kingside_open(*self, c));
                        assert(from == king_home(c));
                    }
                }
                if !self.departed.get_square(Square::new(hr, 4)) && !self.departed.get_square(
                    Square::new(hr, 0),
                ) && empty.get_square(Square::new(hr, 1)) && empty.get_square(Square::new(hr, 2))
                    && empty.get_square(Square::new(hr, 3)) {
                    out.push(Move::new(from, Square::new(hr, 2)));
                    proof {
                        assert(castle_queenside_open(*self, c));
                        assert(from == king_home(c));
                    }
                }
            }
            proof {
                assert forall|mm: Move| contains_move(g0, mm) implies #[trigger] contains_move(
                    out@,
                    mm,
                ) by {
                    assert(contains_move(g1, mm));
                    assert(contains_move(g2, mm));
                    assert(contains_move(g3, mm));
                    assert(contains_move(g4, mm));
                    assert(contains_move(g5, mm));
                    assert(contains_move(g6, mm));
                    assert(contains_move(g7, mm));
                    assert(contains_move(g8, mm));
                }
                assert forall|to: Square| #[trigger] king_move(*self, c, from, to) implies
                    contains_move(out@, (Move { from, to })) by {
                    let dr = to.row - from.row;
                    let dc = to.column - from.column;
                    if -1 <= dr <= 1 && -1 <= dc <= 1 && !(dr == 0 && dc == 0) && !side_occ(
                        *self,
                        c,
                        to.index(),
                    ) {
                        assert(to == (Square {
                            row: (from.row + dr) as i32,
                            column: (from.column + dc) as i32,
                        }));
                    } else if to == (Square { row: hr, column: 6 }) {
                        assert(castle_kingside_open(*self, c));
                    } else {
                        assert(to == (Square { row: hr, column: 2 }));
                        assert(castle_queenside_open(*self, c));
                    }
                }
            }
        }
        proof {
            assert forall|from: Square, to: Square| #[trigger] king_move(*self, c, from, to)
                implies contains_move(out@, (Move { from, to })) by {
                let k0 = choose|k: int|
                    0 <= k < kings@.len() && (#[trigger] kings@[k]).index() == from.index();
                lemma_index_injective(kings@[k0], from);
            }
        }
        out
    }

    #[verifier::loop_isolation(false)]
    pub(crate) fn gen_pawn_threats(&self, c: Color) -> (r: Vec<Square>)
        ensures
            forall|k: int| #![trigger r@[k]] 0 <= k < r@.len() ==> pawn_threat(*self, c, r@[k]),
            forall|t: Square| #[trigger] pawn_threat(*self, c, t) ==> contains_square(r@, t),
    {
        broadcast use lemma_contains_square_push;
        broadcast use lemma_contains_square_last;

        let pawn_board: BitBoard = match c {
            Color::White => self.white_pawn,
            Color::Black => self.black_pawn,
        };
        let d: i32 = match c {
            Color::White => 1,
            Color::Black => -1,
        };
        let pawns: Vec<Square> = pawn_board.to_squares();
        let mut out: Vec<Square> = Vec::new();
        for idx in 0..pawns.len()
            invariant
                forall|k: int| #![trigger out@[k]] 0 <= k < out@.len() ==> pawn_threat(*self, c, out@[k]),
                forall|j: int, t: Square|
                    0 <= j < idx && #[trigger] pawn_threat_from(*self, c, pawns@[j], t)
                        ==> contains_square(out@, t),
        {
            let from: Square = pawns[idx];
            let t_right = Square::new(from.row + d, from.column + 1);
            if t_right.is_valid() {
                out.push(t_right);
                proof {
                    assert(pawn_threat_from(*self, c, from, t_right));
                }
            }
            let t_left = Square::new(from.row + d, from.column - 1);
            if t_left.is_valid() {
                out.push(t_left);
                proof {
                    assert(pawn_threat_from(*self, c, from, t_left));
                }
            }
            proof {
                assert forall|t: Square| #[trigger] pawn_threat_from(*self, c, from, t) implies
                    contains_square(out@, t) by {
                    if t.column == from.column + 1 {
                        assert(t == (Square {
                            row: (from.row + d) as i32,
                            column: (from.column + 1) as i32,
                        }));
                    } else {
                        assert(t == (Square {
                            row: (from.row + d) as i32,
                            column: (from.column - 1) as i32,
                        }));
                    }
                }
            }
        }
        proof {
            assert forall|t: Square| #[trigger] pawn_threat(*self, c, t) implies contains_square(
                out@,
                t,
            ) by {
                let f0 = choose|from: Square| pawn_threat_from(*self, c, from, t);
                let k0 = choose|k: int|
                    0 <= k < pawns@.len() && (#[trigger] pawns@[k]).index() == f0.index();
                lemma_index_injective(pawns@[k0], f0);
            }
        }
        out
    }

    /// Pseudo-legal white pawn moves: pushes, double pushes, captures
    /// and en passant.
    pub fn generate_white_pawn_moves(&self) -> (r: Vec<Move>)
        ensures
            forall|k: int|
                #![trigger r@[k]]
                0 <= k < r@.len() ==> pawn_move(*self, Color::White, r@[k].from, r@[k].to),
            forall|from: Square, to: Square|
                #[trigger] pawn_move(*self, Color::White, from, to) ==> contains_move(
                    r@,
                    (Move { from, to }),
                ),
    {
        self.gen_pawn_moves(Color::White)
    }

    /// Pseudo-legal black pawn moves.
    pub fn generate_black_pawn_moves(&self) -> (r: Vec<Move>)
        ensures
            forall|k: int|
                #![trigger r@[k]]
                0 <= k < r@.len() ==> pawn_move(*self, Color::Black, r@[k].from, r@[k].to),
            forall|from: Square, to: Square|
                #[trigger] pawn_move(*self, Color::Black, from, to) ==> contains_move(
                    r@,
                    (Move { from, to }),
                ),
    {
        self.gen_pawn_moves(Color::Black)
    }

    /// Pseudo-legal white knight moves: the eight L-shaped offsets.
    pub fn generate_white_knight_moves(&self) -> (r: Vec<Move>)
        ensures
            forall|k: int|
                #![trigger r@[k]]
                0 <= k < r@.len() ==> knight_move(*self, Color::White, r@[k].from, r@[k].to),
            forall|from: Square, to: Square|
                #[trigger] knight_move(*self, Color::White, from, to) ==> contains_move(
                    r@,
                    (Move { from, to }),
                ),
    {
        self.gen_knight_moves(Color::White)
    }

    /// Pseudo-legal black knight moves.
    pub fn generate_black_knight_moves(&self) -> (r: Vec<Move>)
        ensures
            forall|k: int|
                #![trigger r@[k]]
                0 <= k < r@.len() ==> knight_move(*self, Color::Black, r@[k].from, r@[k].to),
            forall|from: Square, to: Square|
                #[trigger] knight_move(*self, Color::Black, from, to) ==> contains_move(
                    r@,
                    (Move { from, to }),
                ),
    {
        self.gen_knight_moves(Color::Black)
    }

    /// Pseudo-legal white rook moves: the four orthogonal rays.
    pub fn generate_white_rook_moves(&self) -> (r: Vec<Move>)
        ensures
            forall|k: int|
                #![trigger r@[k]]
                0 <= k < r@.len() ==> rook_move(*self, Color::White, r@[k].from, r@[k].to),
            forall|from: Square, to: Square|
                #[trigger] rook_move(*self, Color::White, from, to) ==> contains_move(
                    r@,
                    (Move { from, to }),
                ),
    {
        self.gen_rook_moves(Color::White)
    }

    /// Pseudo-legal black rook moves.
    pub fn generate_black_rook_moves(&self) -> (r: Vec<Move>)
        ensures
            forall|k: int|
                #![trigger r@[k]]
                0 <= k < r@.len() ==> rook_move(*self, Color::Black, r@[k].from, r@[k].to),
            forall|from: Square, to: Square|
                #[trigger] rook_move(*self, Color::Black, from, to) ==> contains_move(
                    r@,
                    (Move { from, to }),
                ),
    {
        self.gen_rook_moves(Color::Black)
    }

    /// Pseudo-legal white bishop moves: the four diagonal rays.
    pub fn generate_white_bishop_moves(&self) -> (r: Vec<Move>)
        ensures
            forall|k: int|
                #![trigger r@[k]]
                0 <= k < r@.len() ==> bishop_move(*self, Color::White, r@[k].from, r@[k].to),
            forall|from: Square, to: Square|
                #[trigger] bishop_move(*self, Color::White, from, to) ==> contains_move(
                    r@,
                    (Move { from, to }),
                ),
    {
        self.gen_bishop_moves(Color::White)
    }

    /// Pseudo-legal black bishop moves.
    pub fn generate_black_bishop_moves(&self) -> (r: Vec<Move>)
        ensures
            forall|k: int|
                #![trigger r@[k]]
                0 <= k < r@.len() ==> bishop_move(*self, Color::Black, r@[k].from, r@[k].to),
            forall|from: Square, to: Square|
                #[trigger] bishop_move(*self, Color::Black, from, to) ==> contains_move(
                    r@,
                    (Move { from, to }),
                ),
    {
        self.gen_bishop_moves(Color::Black)
    }

    /// Pseudo-legal white queen moves: all eight rays.
    pub fn generate_white_queen_moves(&self) -> (r: Vec<Move>)
        ensures
            forall|k: int|
                #![trigger r@[k]]
                0 <= k < r@.len() ==> queen_move(*self, Color::White, r@[k].from, r@[k].to),
            forall|from: Square, to: Square|
                #[trigger] queen_move(*self, Color::White, from, to) ==> contains_move(
                    r@,
                    (Move { from, to }),
                ),
    {
        self.gen_queen_moves(Color::White)
    }

    /// Pseudo-legal black queen moves.
    pub fn generate_black_queen_moves(&self) -> (r: Vec<Move>)
        ensures
            forall|k: int|
                #![trigger r@[k]]
                0 <= k < r@.len() ==> queen_move(*self, Color::Black, r@[k].from, r@[k].to),
            forall|from: Square, to: Square|
                #[trigger] queen_move(*self, Color::Black, from, to) ==> contains_move(
                    r@,
                    (Move { from, to }),
                ),
    {
        self.gen_queen_moves(Color::Black)
    }

    /// Pseudo-legal white king moves: the eight adjacent steps plus
    /// the two conditional castling moves.
    pub fn generate_white_king_moves(&self) -> (r: Vec<Move>)
        ensures
            forall|k: int|
                #![trigger r@[k]]
                0 <= k < r@.len() ==> king_move(*self, Color::White, r@[k].from, r@[k].to),
            forall|from: Square, to: Square|
                #[trigger] king_move(*self, Color::White, from, to) ==> contains_move(
                    r@,
                    (Move { from, to }),
                ),
    {
        self.gen_king_moves(Color::White)
    }

    /// Pseudo-legal black king moves.
    pub fn generate_black_king_moves(&self) -> (r: Vec<Move>)
        ensures
            forall|k: int|
                #![trigger r@[k]]
                0 <= k < r@.len() ==> king_move(*self, Color::Black, r@[k].from, r@[k].to),
            forall|from: Square, to: Square|
                #[trigger] king_move(*self, Color::Black, from, to) ==> contains_move(
                    r@,
                    (Move { from, to }),
                ),
    {
        self.gen_king_moves(Color::Black)
    }

    /// The squares white pawns threaten: both forward diagonals of
    /// every white pawn, whether or not they are occupied.
    pub fn generate_white_pawn_threats(&self) -> (r: Vec<Square>)
        ensures
            forall|k: int|
                #![trigger r@[k]]
                0 <= k < r@.len() ==> pawn_threat(*self, Color::White, r@[k]),
            forall|t: Square|
                #[trigger] pawn_threat(*self, Color::White, t) ==> contains_square(r@, t),
    {
        self.gen_pawn_threats(Color::White)
    }

    /// The squares black pawns threaten.
    pub fn generate_black_pawn_threats(&self) -> (r: Vec<Square>)
        ensures
            forall|k: int|
                #![trigger r@[k]]
                0 <= k < r@.len() ==> pawn_threat(*self, Color::Black, r@[k]),
            forall|t: Square|
                #[trigger] pawn_threat(*self, Color::Black, t) ==> contains_square(r@, t),
    {
        self.gen_pawn_threats(Color::Black)
    }
}

} // verus!
