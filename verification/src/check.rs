//! Check detection, the simulate-then-validate legality filter, legal
//! move enumeration, validated move application, and the terminal
//! state queries (checkmate and stalemate).

use vstd::prelude::*;
use crate::apply::apply_move_spec;
use crate::apply::castle_kingside_move;
use crate::apply::castle_queenside_move;
use crate::bitboard::bb_has;
use crate::board::ChessBoard;
use crate::board::Color;
use crate::board::Move;
use crate::board::PieceKind;
use crate::gen::contains_move;
use crate::rules::attacks_from;
use crate::rules::bishop_move;
use crate::rules::home_rank;
use crate::rules::in_check;
use crate::rules::king_move;
use crate::rules::knight_move;
use crate::rules::opponent;
use crate::rules::pawn_move;
use crate::rules::pawn_threat;
use crate::rules::pawn_threat_from;
use crate::rules::piece_at_spec;
use crate::rules::piece_board;
use crate::rules::pseudo_legal;
use crate::rules::queen_move;
use crate::rules::rook_move;
use crate::rules::side_to_move;
use crate::rules::square_attacked;
use crate::square::ChessError;
use crate::square::Square;
use crate::square::lemma_index_injective;

verus! {

/// The general legality rule: simulate the move and require that the
/// side that just moved does not leave its own king in the opponent's
/// attack map.
pub open spec fn base_allowed(b: ChessBoard, m: Move) -> bool {
    let after = apply_move_spec(b, m);
    if after.white_turn {
        !in_check(after, Color::Black)
    } else {
        !in_check(after, Color::White)
    }
}

/// The legality filter. For a king move recognized as a castle it adds
/// two explicit checks to the general rule: the king is not currently
/// attacked, and the single square the king crosses is not attacked.
pub open spec fn move_allowed(b: ChessBoard, m: Move) -> bool {
    match piece_at_spec(b, m.from.index()) {
        Some((c, PieceKind::King)) => {
            if castle_kingside_move(b, c, m.from, m.to) {
                &&& !in_check(b, c)
                &&& !square_attacked(
                    b,
                    opponent(c),
                    (Square { row: home_rank(c) as i32, column: 5 }),
                )
                &&& base_allowed(b, m)
            } else if castle_queenside_move(b, c, m.from, m.to) {
                &&& !in_check(b, c)
                &&& !square_attacked(
                    b,
                    opponent(c),
                    (Square { row: home_rank(c) as i32, column: 3 }),
                )
                &&& base_allowed(b, m)
            } else {
                base_allowed(b, m)
            }
        },
        _ => base_allowed(b, m),
    }
}

/// A legal move: pseudo-legal for the side to move, and accepted by
/// the legality filter.
pub open spec fn legal_move(b: ChessBoard, m: Move) -> bool {
    pseudo_legal(b, m.from, m.to) && move_allowed(b, m)
}

pub open spec fn no_legal_moves(b: ChessBoard) -> bool {
    forall|m: Move| !legal_move(b, m)
}

/// Checkmate: it is this colour's turn, its king is in check, and no
/// legal move exists.
pub open spec fn checkmated(b: ChessBoard, c: Color) -> bool {
    side_to_move(b) == c && in_check(b, c) && no_legal_moves(b)
}

/// Stalemate: it is this colour's turn, its king is not in check, and
/// no legal move exists.
pub open spec fn stalemated(b: ChessBoard, c: Color) -> bool {
    side_to_move(b) == c && !in_check(b, c) && no_legal_moves(b)
}

#[verifier::loop_isolation(false)]
fn any_move_to(moves: &Vec<Move>, t: Square) -> (r: bool)
    ensures
        r == exists|k: int| 0 <= k < moves@.len() && (#[trigger] moves@[k]).to == t,
{
    for i in 0..moves.len()
        invariant
            forall|k: int| 0 <= k < i ==> (#[trigger] moves@[k]).to != t,
    {
        if moves[i].to == t {
            return true;
        }
    }
    false
}

#[verifier::loop_isolation(false)]
fn contains_move_exec(moves: &Vec<Move>, m: Move) -> (r: bool)
    ensures
        r == contains_move(moves@, m),
{
    for i in 0..moves.len()
        invariant
            forall|k: int| 0 <= k < i ==> moves@[k] != m,
    {
        if moves[i] == m {
            return true;
        }
    }
    proof {
        if contains_move(moves@, m) {
            let k0 = choose|k: int| 0 <= k < moves@.len() && moves@[k] == m;
            assert(false);
        }
    }
    false
}

#[verifier::loop_isolation(false)]
fn any_square_eq(squares: &Vec<Square>, t: Square) -> (r: bool)
    ensures
        r == exists|k: int| 0 <= k < squares@.len() && (#[trigger] squares@[k]) == t,
{
    for i in 0..squares.len()
        invariant
            forall|k: int| 0 <= k < i ==> (#[trigger] squares@[k]) != t,
    {
        if squares[i] == t {
            return true;
        }
    }
    false
}

impl ChessBoard {
    /// Whether any piece of colour `by` threatens the coordinate `t`:
    /// rook, knight, bishop and queen destinations, plus pawn threat
    /// squares. King adjacency is deliberately not part of the map.
    fn attacked_square(&self, by: Color, t: Square) -> (r: bool)
        ensures
            r == square_attacked(*self, by, t),
    {
        let rooks = self.gen_rook_moves(by);
        if any_move_to(&rooks, t) {
            proof {
                let k0 = choose|k: int| 0 <= k < rooks@.len() && (#[trigger] rooks@[k]).to == t;
                assert(attacks_from(*self, by, rooks@[k0].from, t));
            }
            return true;
        }
        let knights = self.gen_knight_moves(by);
        if any_move_to(&knights, t) {
            proof {
                let k0 = choose|k: int| 0 <= k < knights@.len() && (#[trigger] knights@[k]).to == t;
                assert(attacks_from(*self, by, knights@[k0].from, t));
            }
            return true;
        }
        let bishops = self.gen_bishop_moves(by);
        if any_move_to(&bishops, t) {
            proof {
                let k0 = choose|k: int| 0 <= k < bishops@.len() && (#[trigger] bishops@[k]).to == t;
                assert(attacks_from(*self, by, bishops@[k0].from, t));
            }
            return true;
        }
        let queens = self.gen_queen_moves(by);
        if any_move_to(&queens, t) {
            proof {
                let k0 = choose|k: int| 0 <= k < queens@.len() && (#[trigger] queens@[k]).to == t;
                assert(attacks_from(*self, by, queens@[k0].from, t));
            }
            return true;
        }
        let threats = self.gen_pawn_threats(by);
        if any_square_eq(&threats, t) {
            proof {
                let k0 = choose|k: int|
                    0 <= k < threats@.len() && (#[trigger] threats@[k]) == t;
                assert(pawn_threat(*self, by, t));
                let f0 = choose|from: Square| pawn_threat_from(*self, by, from, t);
                assert(attacks_from(*self, by, f0, t));
            }
            return true;
        }
        proof {
            if square_attacked(*self, by, t) {
                let f0 = choose|from: Square| attacks_from(*self, by, from, t);
                if rook_move(*self, by, f0, t) {
                    let k1 = choose|k: int|
                        0 <= k < rooks@.len() && rooks@[k] == (Move { from: f0, to: t });
                    assert(rooks@[k1].to == t);
                } else if knight_move(*self, by, f0, t) {
                    let k1 = choose|k: int|
                        0 <= k < knights@.len() && knights@[k] == (Move { from: f0, to: t });
                    assert(knights@[k1].to == t);
                } else if bishop_move(*self, by, f0, t) {
                    let k1 = choose|k: int|
                        0 <= k < bishops@.len() && bishops@[k] == (Move { from: f0, to: t });
                    assert(bishops@[k1].to == t);
                } else if queen_move(*self, by, f0, t) {
                    let k1 = choose|k: int|
                        0 <= k < queens@.len() && queens@[k] == (Move { from: f0, to: t });
                    assert(queens@[k1].to == t);
                } else {
                    assert(pawn_threat_from(*self, by, f0, t));
                    assert(pawn_threat(*self, by, t));
                    let k1 = choose|k: int|
                        0 <= k < threats@.len() && (#[trigger] threats@[k]) == t;
                    assert(false);
                }
            }
        }
        false
    }

    /// Whether the white king stands in black's attack map.
    #[verifier::loop_isolation(false)]
    pub fn is_white_checked(&self) -> (r: bool)
        ensures
            r == in_check(*self, Color::White),
    {
        let kings = self.white_king.to_squares();
        for i in 0..kings.len()
            invariant
                forall|k: int|
                    0 <= k < i ==> !square_attacked(*self, Color::Black, #[trigger] kings@[k]),
        {
            if self.attacked_square(Color::Black, kings[i]) {
                proof {
                    assert(kings@[i as int].valid() && bb_has(
                        piece_board(*self, Color::White, PieceKind::King),
                        kings@[i as int].index(),
                    ) && square_attacked(*self, opponent(Color::White), kings@[i as int]));
                }
                return true;
            }
        }
        proof {
            if in_check(*self, Color::White) {
                let k0 = choose|k: Square|
                    k.valid() && bb_has(
                        piece_board(*self, Color::White, PieceKind::King),
                        (#[trigger] k.index()),
                    ) && square_attacked(*self, opponent(Color::White), k);
                let k1 = choose|k: int|
                    0 <= k < kings@.len() && (#[trigger] kings@[k]).index() == k0.index();
                lemma_index_injective(kings@[k1], k0);
                assert(false);
            }
        }
        false
    }

    /// Whether the black king stands in white's attack map.
    #[verifier::loop_isolation(false)]
    pub fn is_black_checked(&self) -> (r: bool)
        ensures
            r == in_check(*self, Color::Black),
    {
        let kings = self.black_king.to_squares();
        for i in 0..kings.len()
            invariant
                forall|k: int|
                    0 <= k < i ==> !square_attacked(*self, Color::White, #[trigger] kings@[k]),
        {
            if self.attacked_square(Color::White, kings[i]) {
                proof {
                    assert(kings@[i as int].valid() && bb_has(
                        piece_board(*self, Color::Black, PieceKind::King),
                        kings@[i as int].index(),
                    ) && square_attacked(*self, opponent(Color::Black), kings@[i as int]));
                }
                return true;
            }
        }
        proof {
            if in_check(*self, Color::Black) {
                let k0 = choose|k: Square|
                    k.valid() && bb_has(
                        piece_board(*self, Color::Black, PieceKind::King),
                        (#[trigger] k.index()),
                    ) && square_attacked(*self, opponent(Color::Black), k);
                let k1 = choose|k: int|
                    0 <= k < kings@.len() && (#[trigger] kings@[k]).index() == k0.index();
                lemma_index_injective(kings@[k1], k0);
                assert(false);
            }
        }
        false
    }

    /// The general rule alone: simulate on a clone and test the mover's
    /// king.
    fn base_valid(&self, m: &Move) -> (r: bool)
        requires
            m.from.valid(),
            m.to.valid(),
        ensures
            r == base_allowed(*self, *m),
    {
        let mut sim: ChessBoard = *self;
        sim.make_move(*m);
        if sim.white_turn {
            !sim.is_black_checked()
        } else {
            !sim.is_white_checked()
        }
    }

    /// The legality filter: the general simulate-then-test rule, with
    /// the castling additions (king not currently attacked, transit
    /// square not attacked).
    pub fn is_move_valid(&self, m: &Move) -> (r: bool)
        requires
            m.from.valid(),
            m.to.valid(),
        ensures
            r == move_allowed(*self, *m),
    {
        let mover: Option<(Color, PieceKind)> = self.occupant(m.from);
        match mover {
            Some((c, PieceKind::King)) => {
                let hr: i32 = match c {
                    Color::White => 0,
                    Color::Black => 7,
                };
                let other: Color = match c {
                    Color::White => Color::Black,
                    Color::Black => Color::White,
                };
                if self.is_castle_kingside(c, m.from, m.to) {
                    let safe_now: bool = match c {
                        Color::White => !self.is_white_checked(),
                        Color::Black => !self.is_black_checked(),
                    };
                    safe_now && !self.attacked_square(other, Square::new(hr, 5)) && self.base_valid(
                        m,
                    )
                } else if self.is_castle_queenside(c, m.from, m.to) {
                    let safe_now: bool = match c {
                        Color::White => !self.is_white_checked(),
                        Color::Black => !self.is_black_checked(),
                    };
                    safe_now && !self.attacked_square(other, Square::new(hr, 3)) && self.base_valid(
                        m,
                    )
                } else {
                    self.base_valid(m)
                }
            },
            _ => self.base_valid(m),
        }
    }

    /// Applies the move only if the legality filter accepts it;
    /// reports rejection instead of silently doing nothing.
    pub fn make_move_checked(&mut self, m: Move) -> (r: Result<(), ChessError>)
        requires
            m.from.valid(),
            m.to.valid(),
        ensures
            match r {
                Ok(()) => move_allowed(*old(self), m) && *final(self) == apply_move_spec(
                    *old(self),
                    m,
                ),
                Err(e) => !move_allowed(*old(self), m) && *final(self) == *old(self) && e
                    == ChessError::IllegalMove,
            },
    {
        if self.is_move_valid(&m) {
            self.make_move(m);
            Ok(())
        } else {
            Err(ChessError::IllegalMove)
        }
    }

    /// Appends the moves of `src` that pass the legality filter,
    /// skipping any move already present so that no move is listed
    /// twice.
    #[verifier::loop_isolation(false)]
    fn filter_valid_into(&self, src: &Vec<Move>, out: &mut Vec<Move>)
        requires
            forall|k: int|
                0 <= k < src@.len() ==> (#[trigger] src@[k]).from.valid() && src@[k].to.valid(),
        ensures
            old(out)@.len() <= final(out)@.len(),
            forall|k: int| 0 <= k < old(out)@.len() ==> final(out)@[k] == old(out)@[k],
            forall|k: int|
                #![trigger final(out)@[k]]
                old(out)@.len() <= k < final(out)@.len() ==> contains_move(src@, final(out)@[k])
                    && move_allowed(*self, final(out)@[k]),
            forall|mm: Move|
                contains_move(old(out)@, mm) ==> #[trigger] contains_move(final(out)@, mm),
            forall|mm: Move|
                #![trigger contains_move(src@, mm)]
                contains_move(src@, mm) && move_allowed(*self, mm) ==> contains_move(
                    final(out)@,
                    mm,
                ),
            old(out)@.no_duplicates() ==> final(out)@.no_duplicates(),
    {
        let ghost base: Seq<Move> = out@;
        for i in 0..src.len()
            invariant
                base.len() <= out@.len(),
                forall|k: int| 0 <= k < base.len() ==> out@[k] == base[k],
                forall|k: int|
                    #![trigger out@[k]]
                    base.len() <= k < out@.len() ==> contains_move(src@, out@[k]) && move_allowed(
                        *self,
                        out@[k],
                    ),
                forall|k: int|
                    0 <= k < i && move_allowed(*self, #[trigger] src@[k]) ==> contains_move(
                        out@,
                        src@[k],
                    ),
                base.no_duplicates() ==> out@.no_duplicates(),
        {
            let m: Move = src[i];
            if self.is_move_valid(&m) {
                if !contains_move_exec(out, m) {
                    let ghost prev: Seq<Move> = out@;
                    out.push(m);
                    proof {
                        assert(contains_move(src@, m)) by {
                            assert(src@[i as int] == m);
                        }
                        crate::gen::lemma_contains_move_last(prev, m);
                        assert forall|k: int|
                            0 <= k < i + 1 && move_allowed(*self, #[trigger] src@[k]) implies
                            contains_move(out@, src@[k]) by {
                            if k < i {
                                crate::gen::lemma_contains_move_push(prev, m, src@[k]);
                            }
                        }
                        if prev.no_duplicates() {
                            assert forall|k1: int, k2: int|
                                0 <= k1 < out@.len() && 0 <= k2 < out@.len() && k1 != k2 implies
                                out@[k1] != out@[k2] by {
                                if k1 < prev.len() && k2 < prev.len() {
                                    assert(out@[k1] == prev[k1] && out@[k2] == prev[k2]);
                                } else if k1 < prev.len() {
                                    assert(out@[k2] == m && out@[k1] == prev[k1]);
                                    assert(!contains_move(prev, m));
                                } else {
                                    assert(out@[k1] == m && out@[k2] == prev[k2]);
                                    assert(!contains_move(prev, m));
                                }
                            }
                            assert(out@.no_duplicates());
                        }
                    }
                } else {
                    proof {
                        assert(src@[i as int] == m);
                        assert forall|k: int|
                            0 <= k < i + 1 && move_allowed(*self, #[trigger] src@[k]) implies
                            contains_move(out@, src@[k]) by {}
                    }
                }
            }
        }
        proof {
            assert forall|mm: Move| contains_move(base, mm) implies #[trigger] contains_move(
                out@,
                mm,
            ) by {
                let k0 = choose|k: int| 0 <= k < base.len() && base[k] == mm;
                assert(out@[k0] == mm);
            }
            assert forall|mm: Move|
                contains_move(src@, mm) && move_allowed(*self, mm) implies contains_move(
                out@,
                mm,
            ) by {
                let k0 = choose|k: int| 0 <= k < src@.len() && src@[k] == mm;
                assert(contains_move(out@, src@[k0]));
            }
        }
    }

    /// All legal moves for the side to move: the six pseudo-legal
    /// generators, filtered through the legality filter.
    pub fn generate_moves(&self) -> (r: Vec<Move>)
        ensures
            forall|k: int| #![trigger r@[k]] 0 <= k < r@.len() ==> legal_move(*self, r@[k]),
            forall|m: Move| #[trigger] legal_move(*self, m) ==> contains_move(r@, m),
            r@.no_duplicates(),
    {
        let side: Color = if self.white_turn {
            Color::White
        } else {
            Color::Black
        };
        let mut out: Vec<Move> = Vec::new();
        let pawns = self.gen_pawn_moves(side);
        self.filter_valid_into(&pawns, &mut out);
        let ghost s1: Seq<Move> = out@;
        let rooks = self.gen_rook_moves(side);
        self.filter_valid_into(&rooks, &mut out);
        let ghost s2: Seq<Move> = out@;
        let knights = self.gen_knight_moves(side);
        self.filter_valid_into(&knights, &mut out);
        let ghost s3: Seq<Move> = out@;
        let bishops = self.gen_bishop_moves(side);
        self.filter_valid_into(&bishops, &mut out);
        let ghost s4: Seq<Move> = out@;
        let queens = self.gen_queen_moves(side);
        self.filter_valid_into(&queens, &mut out);
        let ghost s5: Seq<Move> = out@;
        let kings = self.gen_king_moves(side);
        self.filter_valid_into(&kings, &mut out);
        proof {
            assert(Seq::<Move>::empty().no_duplicates());
            assert(out@.no_duplicates());
            assert forall|k: int| 0 <= k < out@.len() implies legal_move(
                *self,
                #[trigger] out@[k],
            ) by {
                let mv = out@[k];
                if k < s1.len() {
                    assert(out@[k] == s1[k]);
                    assert(contains_move(pawns@, mv));
                    let k0 = choose|kk: int| 0 <= kk < pawns@.len() && pawns@[kk] == mv;
                    assert(pawn_move(*self, side, pawns@[k0].from, pawns@[k0].to));
                } else if k < s2.len() {
                    assert(out@[k] == s2[k]);
                    assert(contains_move(rooks@, mv));
                    let k0 = choose|kk: int| 0 <= kk < rooks@.len() && rooks@[kk] == mv;
                    assert(rook_move(*self, side, rooks@[k0].from, rooks@[k0].to));
                } else if k < s3.len() {
                    assert(out@[k] == s3[k]);
                    assert(contains_move(knights@, mv));
                    let k0 = choose|kk: int| 0 <= kk < knights@.len() && knights@[kk] == mv;
                    assert(knight_move(*self, side, knights@[k0].from, knights@[k0].to));
                } else if k < s4.len() {
                    assert(out@[k] == s4[k]);
                    assert(contains_move(bishops@, mv));
                    let k0 = choose|kk: int| 0 <= kk < bishops@.len() && bishops@[kk] == mv;
                    assert(bishop_move(*self, side, bishops@[k0].from, bishops@[k0].to));
                } else if k < s5.len() {
                    assert(out@[k] == s5[k]);
                    assert(contains_move(queens@, mv));
                    let k0 = choose|kk: int| 0 <= kk < queens@.len() && queens@[kk] == mv;
                    assert(queen_move(*self, side, queens@[k0].from, queens@[k0].to));
                } else {
                    assert(contains_move(kings@, mv));
                    let k0 = choose|kk: int| 0 <= kk < kings@.len() && kings@[kk] == mv;
                    assert(king_move(*self, side, kings@[k0].from, kings@[k0].to));
                }
            }
            assert forall|m: Move| #[trigger] legal_move(*self, m) implies contains_move(
                out@,
                m,
            ) by {
                assert(m == (Move { from: m.from, to: m.to }));
                if pawn_move(*self, side, m.from, m.to) {
                    assert(contains_move(pawns@, m));
                    assert(contains_move(s1, m));
                    assert(contains_move(s2, m));
                    assert(contains_move(s3, m));
                    assert(contains_move(s4, m));
                    assert(contains_move(s5, m));
                } else if rook_move(*self, side, m.from, m.to) {
                    assert(contains_move(rooks@, m));
                    assert(contains_move(s2, m));
                    assert(contains_move(s3, m));
                    assert(contains_move(s4, m));
                    assert(contains_move(s5, m));
                } else if knight_move(*self, side, m.from, m.to) {
                    assert(contains_move(knights@, m));
                    assert(contains_move(s3, m));
                    assert(contains_move(s4, m));
                    assert(contains_move(s5, m));
                } else if bishop_move(*self, side, m.from, m.to) {
                    assert(contains_move(bishops@, m));
                    assert(contains_move(s4, m));
                    assert(contains_move(s5, m));
                } else if queen_move(*self, side, m.from, m.to) {
                    assert(contains_move(queens@, m));
                    assert(contains_move(s5, m));
                } else {
                    assert(king_move(*self, side, m.from, m.to));
                    assert(contains_move(kings@, m));
                }
                assert(contains_move(out@, m));
            }
        }
        out
    }

    /// Checkmate for white: white to move, in check, and without a
    /// legal move.
    pub fn is_white_mated(&self) -> (r: bool)
        ensures
            r == checkmated(*self, Color::White),
    {
        if !self.white_turn {
            return false;
        }
        if !self.is_white_checked() {
            return false;
        }
        let moves = self.generate_moves();
        let empty: bool = moves.len() == 0;
        proof {
            if empty {
                assert forall|m: Move| !legal_move(*self, m) by {
                    if legal_move(*self, m) {
                        let k0 = choose|k: int| 0 <= k < moves@.len() && moves@[k] == m;
                        assert(false);
                    }
                }
            } else {
                assert(legal_move(*self, moves@[0]));
            }
        }
        empty
    }

    /// Checkmate for black.
    pub fn is_black_mated(&self) -> (r: bool)
        ensures
            r == checkmated(*self, Color::Black),
    {
        if self.white_turn {
            return false;
        }
        if !self.is_black_checked() {
            return false;
        }
        let moves = self.generate_moves();
        let empty: bool = moves.len() == 0;
        proof {
            if empty {
                assert forall|m: Move| !legal_move(*self, m) by {
                    if legal_move(*self, m) {
                        let k0 = choose|k: int| 0 <= k < moves@.len() && moves@[k] == m;
                        assert(false);
                    }
                }
            } else {
                assert(legal_move(*self, moves@[0]));
            }
        }
        empty
    }

    /// Stalemate for white: white to move, not in check, and without a
    /// legal move.
    pub fn is_white_stalemated(&self) -> (r: bool)
        ensures
            r == stalemated(*self, Color::White),
    {
        if !self.white_turn {
            return false;
        }
        if self.is_white_checked() {
            return false;
        }
        let moves = self.generate_moves();
        let empty: bool = moves.len() == 0;
        proof {
            if empty {
                assert forall|m: Move| !legal_move(*self, m) by {
                    if legal_move(*self, m) {
                        let k0 = choose|k: int| 0 <= k < moves@.len() && moves@[k] == m;
                        assert(false);
                    }
                }
            } else {
                assert(legal_move(*self, moves@[0]));
            }
        }
        empty
    }

    /// Stalemate for black.
    pub fn is_black_stalemated(&self) -> (r: bool)
        ensures
            r == stalemated(*self, Color::Black),
    {
        if self.white_turn {
            return false;
        }
        if self.is_black_checked() {
            return false;
        }
        let moves = self.generate_moves();
        let empty: bool = moves.len() == 0;
        proof {
            if empty {
                assert forall|m: Move| !legal_move(*self, m) by {
                    if legal_move(*self, m) {
                        let k0 = choose|k: int| 0 <= k < moves@.len() && moves@[k] == m;
                        assert(false);
                    }
                }
            } else {
                assert(legal_move(*self, moves@[0]));
            }
        }
        empty
    }
}

} // verus!
