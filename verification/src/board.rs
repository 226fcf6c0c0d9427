//! The aggregate board state: twelve piece bitboards, the auxiliary
//! departed-from bitboard (castling / en-passant proxy), and the side
//! to move; with constructors and the read-only query surface.

use vstd::prelude::*;
use crate::bitboard::BitBoard;
use crate::bitboard::bb_has;
use crate::bitboard::lemma_bb_set;
use crate::bitboard::lemma_bb_zero;
use crate::rules::occupant_spec;
use crate::rules::piece_board;
use crate::rules::rc_index;
use crate::rules::occupied;
use crate::rules::piece_count_at;
use crate::rules::piece_sets_exclusive;
use crate::rules::side_occ;
use crate::square::Square;

verus! {

#[derive(Copy, Clone, PartialEq, Eq, Structural, Debug)]
pub enum Color {
    White,
    Black,
}

#[derive(Copy, Clone, PartialEq, Eq, Structural, Debug)]
pub enum PieceKind {
    Pawn,
    Rook,
    Knight,
    Bishop,
    Queen,
    King,
}

/// An ordered (from, to) coordinate pair; no payload for the captured
/// piece or a promotion choice.
#[derive(Copy, Clone, PartialEq, Eq, Structural, Debug)]
pub struct Move {
    pub from: Square,
    pub to: Square,
}

impl Move {
    pub fn new(from: Square, to: Square) -> (m: Move)
        ensures
            m == (Move { from, to }),
    {
        Move { from, to }
    }
}

#[derive(Copy, Clone, PartialEq, Eq, Structural, Debug)]
pub struct ChessBoard {
    pub white_pawn: BitBoard,
    pub white_rook: BitBoard,
    pub white_knight: BitBoard,
    pub white_bishop: BitBoard,
    pub white_queen: BitBoard,
    pub white_king: BitBoard,
    pub black_pawn: BitBoard,
    pub black_rook: BitBoard,
    pub black_knight: BitBoard,
    pub black_bishop: BitBoard,
    pub black_queen: BitBoard,
    pub black_king: BitBoard,
    /// Origin squares of pawns, rooks and kings that have moved; gates
    /// castling rights and the en-passant window.
    pub departed: BitBoard,
    pub white_turn: bool,
}

/// The standard starting layout: pawns on the second and seventh
/// ranks, the mirrored back ranks, white to move, nothing departed.
pub open spec fn initial_board() -> ChessBoard {
    ChessBoard {
        white_pawn: BitBoard { value: 0xff00u64 },
        white_rook: BitBoard { value: 0x81u64 },
        white_knight: BitBoard { value: 0x42u64 },
        white_bishop: BitBoard { value: 0x24u64 },
        white_queen: BitBoard { value: 0x8u64 },
        white_king: BitBoard { value: 0x10u64 },
        black_pawn: BitBoard { value: 0x00ff_0000_0000_0000u64 },
        black_rook: BitBoard { value: 0x8100_0000_0000_0000u64 },
        black_knight: BitBoard { value: 0x4200_0000_0000_0000u64 },
        black_bishop: BitBoard { value: 0x2400_0000_0000_0000u64 },
        black_queen: BitBoard { value: 0x0800_0000_0000_0000u64 },
        black_king: BitBoard { value: 0x1000_0000_0000_0000u64 },
        departed: BitBoard { value: 0u64 },
        white_turn: true,
    }
}

impl ChessBoard {
    pub fn new() -> (board: ChessBoard)
        ensures
            board == initial_board(),
    {
        ChessBoard {
            white_pawn: BitBoard::new(0xff00u64),
            white_rook: BitBoard::new(0x81u64),
            white_knight: BitBoard::new(0x42u64),
            white_bishop: BitBoard::new(0x24u64),
            white_queen: BitBoard::new(0x8u64),
            white_king: BitBoard::new(0x10u64),
            black_pawn: BitBoard::new(0x00ff_0000_0000_0000u64),
            black_rook: BitBoard::new(0x8100_0000_0000_0000u64),
            black_knight: BitBoard::new(0x4200_0000_0000_0000u64),
            black_bishop: BitBoard::new(0x2400_0000_0000_0000u64),
            black_queen: BitBoard::new(0x0800_0000_0000_0000u64),
            black_king: BitBoard::new(0x1000_0000_0000_0000u64),
            departed: BitBoard::new(0u64),
            white_turn: true,
        }
    }

    /// The union of the six white piece sets.
    pub fn white_pieces(&self) -> (bb: BitBoard)
        ensures
            forall|j: int|
                0 <= j < 64 ==> #[trigger] bb_has(bb.value, j) == side_occ(
                    *self,
                    Color::White,
                    j,
                ),
    {
        let v: u64 = self.white_pawn.value | self.white_rook.value | self.white_knight.value
            | self.white_bishop.value | self.white_queen.value | self.white_king.value;
        proof {
            let a1 = self.white_pawn.value;
            let a2 = self.white_rook.value;
            let a3 = self.white_knight.value;
            let a4 = self.white_bishop.value;
            let a5 = self.white_queen.value;
            let a6 = self.white_king.value;
            assert forall|j: int| 0 <= j < 64 implies #[trigger] bb_has(v, j) == side_occ(
                *self,
                Color::White,
                j,
            ) by {
                let ju = j as u64;
                assert((((a1 | a2 | a3 | a4 | a5 | a6) >> ju) & 1u64 == 1u64) == (((a1 >> ju) & 1u64
                    == 1u64) || ((a2 >> ju) & 1u64 == 1u64) || ((a3 >> ju) & 1u64 == 1u64) || ((a4
                    >> ju) & 1u64 == 1u64) || ((a5 >> ju) & 1u64 == 1u64) || ((a6 >> ju) & 1u64
                    == 1u64))) by (bit_vector)
                    requires
                        ju < 64,
                ;
            }
        }
        BitBoard::new(v)
    }

    /// The union of the six black piece sets.
    pub fn black_pieces(&self) -> (bb: BitBoard)
        ensures
            forall|j: int|
                0 <= j < 64 ==> #[trigger] bb_has(bb.value, j) == side_occ(
                    *self,
                    Color::Black,
                    j,
                ),
    {
        let v: u64 = self.black_pawn.value | self.black_rook.value | self.black_knight.value
            | self.black_bishop.value | self.black_queen.value | self.black_king.value;
        proof {
            let a1 = self.black_pawn.value;
            let a2 = self.black_rook.value;
            let a3 = self.black_knight.value;
            let a4 = self.black_bishop.value;
            let a5 = self.black_queen.value;
            let a6 = self.black_king.value;
            assert forall|j: int| 0 <= j < 64 implies #[trigger] bb_has(v, j) == side_occ(
                *self,
                Color::Black,
                j,
            ) by {
                let ju = j as u64;
                assert((((a1 | a2 | a3 | a4 | a5 | a6) >> ju) & 1u64 == 1u64) == (((a1 >> ju) & 1u64
                    == 1u64) || ((a2 >> ju) & 1u64 == 1u64) || ((a3 >> ju) & 1u64 == 1u64) || ((a4
                    >> ju) & 1u64 == 1u64) || ((a5 >> ju) & 1u64 == 1u64) || ((a6 >> ju) & 1u64
                    == 1u64))) by (bit_vector)
                    requires
                        ju < 64,
                ;
            }
        }
        BitBoard::new(v)
    }

    /// The complement of both occupancy unions.
    pub fn empty_squares(&self) -> (bb: BitBoard)
        ensures
            forall|j: int|
                0 <= j < 64 ==> #[trigger] bb_has(bb.value, j) == !occupied(*self, j),
    {
        let w: BitBoard = self.white_pieces();
        let bl: BitBoard = self.black_pieces();
        let v: u64 = !(w.value | bl.value);
        proof {
            let a1 = w.value;
            let a2 = bl.value;
            assert forall|j: int| 0 <= j < 64 implies #[trigger] bb_has(v, j) == !occupied(
                *self,
                j,
            ) by {
                let ju = j as u64;
                assert(bb_has(w.value, j) == side_occ(*self, Color::White, j));
                assert(bb_has(bl.value, j) == side_occ(*self, Color::Black, j));
                assert(((!(a1 | a2) >> ju) & 1u64 == 1u64) == (!((a1 >> ju) & 1u64 == 1u64) && !((
                a2 >> ju) & 1u64 == 1u64))) by (bit_vector)
                    requires
                        ju < 64,
                ;
            }
        }
        BitBoard::new(v)
    }

    /// The occupant of a coordinate: colour and piece kind, scanning
    /// the twelve sets in a fixed order; None for an empty or
    /// off-board coordinate.
    pub fn occupant(&self, square: Square) -> (r: Option<(Color, PieceKind)>)
        ensures
            r == occupant_spec(*self, square),
    {
        if self.white_pawn.get_square(square) {
            Some((Color::White, PieceKind::Pawn))
        } else if self.white_rook.get_square(square) {
            Some((Color::White, PieceKind::Rook))
        } else if self.white_knight.get_square(square) {
            Some((Color::White, PieceKind::Knight))
        } else if self.white_bishop.get_square(square) {
            Some((Color::White, PieceKind::Bishop))
        } else if self.white_queen.get_square(square) {
            Some((Color::White, PieceKind::Queen))
        } else if self.white_king.get_square(square) {
            Some((Color::White, PieceKind::King))
        } else if self.black_pawn.get_square(square) {
            Some((Color::Black, PieceKind::Pawn))
        } else if self.black_rook.get_square(square) {
            Some((Color::Black, PieceKind::Rook))
        } else if self.black_knight.get_square(square) {
            Some((Color::Black, PieceKind::Knight))
        } else if self.black_bishop.get_square(square) {
            Some((Color::Black, PieceKind::Bishop))
        } else if self.black_queen.get_square(square) {
            Some((Color::Black, PieceKind::Queen))
        } else if self.black_king.get_square(square) {
            Some((Color::Black, PieceKind::King))
        } else {
            None
        }
    }

    /// The piece kind standing on a coordinate, if any.
    pub fn piece_at(&self, square: Square) -> (r: Option<PieceKind>)
        ensures
            r == match occupant_spec(*self, square) {
                Some((c, p)) => Some(p),
                None => None::<PieceKind>,
            },
    {
        match self.occupant(square) {
            Some((_, p)) => Some(p),
            None => None,
        }
    }

    /// The colour of the piece standing on a coordinate, if any.
    pub fn color_at(&self, square: Square) -> (r: Option<Color>)
        ensures
            r == match occupant_spec(*self, square) {
                Some((c, p)) => Some(c),
                None => None::<Color>,
            },
    {
        match self.occupant(square) {
            Some((c, _)) => Some(c),
            None => None,
        }
    }
}

/// The departed-from content that encodes a decoded position record:
/// a missing castling right flags the corresponding rook's origin, and
/// an en-passant target flags the origin of the pawn that just
/// double-stepped past it.
pub open spec fn setup_departed(
    white_kingside: bool,
    white_queenside: bool,
    black_kingside: bool,
    black_queenside: bool,
    en_passant_target: Option<Square>,
    j: int,
) -> bool {
    ||| (!white_kingside && j == rc_index(0, 7))
    ||| (!white_queenside && j == rc_index(0, 0))
    ||| (!black_kingside && j == rc_index(7, 7))
    ||| (!black_queenside && j == rc_index(7, 0))
    ||| (match en_passant_target {
        Some(t) => (t.row == 2 && j == rc_index(1, t.column as int)) || (t.row == 5 && j
            == rc_index(6, t.column as int)),
        None => false,
    })
}

impl ChessBoard {
    /// Places the decoded pieces on an otherwise empty board.
    #[verifier::loop_isolation(false)]
    #[verifier::rlimit(100)]
    fn place_all(placement: &Vec<Option<(Color, PieceKind)>>, white_turn: bool) -> (board:
        ChessBoard)
        requires
            placement@.len() == 64,
        ensures
            forall|i: int, c: Color, p: PieceKind|
                0 <= i < 64 ==> (#[trigger] bb_has(piece_board(board, c, p), i) == (placement@[i]
                    == Some((c, p)))),
            board.white_turn == white_turn,
            board.departed.value == 0u64,
    {
        proof {
            lemma_bb_zero();
        }
        let mut board = ChessBoard {
            white_pawn: BitBoard::new(0),
            white_rook: BitBoard::new(0),
            white_knight: BitBoard::new(0),
            white_bishop: BitBoard::new(0),
            white_queen: BitBoard::new(0),
            white_king: BitBoard::new(0),
            black_pawn: BitBoard::new(0),
            black_rook: BitBoard::new(0),
            black_knight: BitBoard::new(0),
            black_bishop: BitBoard::new(0),
            black_queen: BitBoard::new(0),
            black_king: BitBoard::new(0),
            departed: BitBoard::new(0),
            white_turn,
        };
        for i in 0..64usize
            invariant
                forall|ii: int, c: Color, p: PieceKind|
                    0 <= ii < 64 ==> (#[trigger] bb_has(piece_board(board, c, p), ii) == (ii < i
                        && placement@[ii] == Some((c, p)))),
                board.white_turn == white_turn,
                board.departed.value == 0u64,
        {
            match placement[i] {
                Option::None => {},
                Option::Some((c0, p0)) => {
                    let sq = crate::square::square_from_i32(i as i32);
                    let ghost prev: ChessBoard = board;
                    board.place_piece(c0, p0, sq);
                    proof {
                        lemma_bb_set(prev.white_pawn.value, i as int);
                        lemma_bb_set(prev.white_rook.value, i as int);
                        lemma_bb_set(prev.white_knight.value, i as int);
                        lemma_bb_set(prev.white_bishop.value, i as int);
                        lemma_bb_set(prev.white_queen.value, i as int);
                        lemma_bb_set(prev.white_king.value, i as int);
                        lemma_bb_set(prev.black_pawn.value, i as int);
                        lemma_bb_set(prev.black_rook.value, i as int);
                        lemma_bb_set(prev.black_knight.value, i as int);
                        lemma_bb_set(prev.black_bishop.value, i as int);
                        lemma_bb_set(prev.black_queen.value, i as int);
                        lemma_bb_set(prev.black_king.value, i as int);
                        assert forall|ii: int, c: Color, p: PieceKind| 0 <= ii < 64 implies (
                        #[trigger] bb_has(piece_board(board, c, p), ii) == (ii < i + 1
                            && placement@[ii] == Some((c, p)))) by {
                            if c == c0 && p == p0 {
                                assert(piece_board(board, c, p) == crate::bitboard::bb_set(
                                    piece_board(prev, c, p),
                                    i as int,
                                ));
                            } else {
                                assert(piece_board(board, c, p) == piece_board(prev, c, p));
                            }
                        }
                    }
                },
            }
        }
        board
    }

    /// Builds a Position from the decoded fields of a full
    /// game-position record: a piece placement per square (indexed by
    /// `Square::to_i32`), the side to move, the four castling rights,
    /// and an optional en-passant target square (the square the
    /// double-stepping pawn skipped, on the third or sixth rank).
    #[verifier::rlimit(100)]
    pub fn from_setup(
        placement: &Vec<Option<(Color, PieceKind)>>,
        white_turn: bool,
        white_kingside: bool,
        white_queenside: bool,
        black_kingside: bool,
        black_queenside: bool,
        en_passant_target: Option<Square>,
    ) -> (board: ChessBoard)
        requires
            placement@.len() == 64,
            match en_passant_target {
                Some(t) => t.valid() && (t.row == 2 || t.row == 5),
                None => true,
            },
        ensures
            forall|i: int, c: Color, p: PieceKind|
                0 <= i < 64 ==> (#[trigger] bb_has(piece_board(board, c, p), i) == (placement@[i]
                    == Some((c, p)))),
            board.white_turn == white_turn,
            forall|j: int|
                0 <= j < 64 ==> (#[trigger] bb_has(board.departed.value, j) == setup_departed(
                    white_kingside,
                    white_queenside,
                    black_kingside,
                    black_queenside,
                    en_passant_target,
                    j,
                )),
            piece_sets_exclusive(board),
    {
        let mut board = Self::place_all(placement, white_turn);
        proof {
            lemma_bb_zero();
        }
        let ghost placed: ChessBoard = board;
        if !white_kingside {
            board.departed.set_square(Square { row: 0, column: 7 });
        }
        if !white_queenside {
            board.departed.set_square(Square { row: 0, column: 0 });
        }
        if !black_kingside {
            board.departed.set_square(Square { row: 7, column: 7 });
        }
        if !black_queenside {
            board.departed.set_square(Square { row: 7, column: 0 });
        }
        match en_passant_target {
            Option::Some(t) => {
                if t.row == 2 {
                    board.departed.set_square(Square { row: 1, column: t.column });
                } else {
                    board.departed.set_square(Square { row: 6, column: t.column });
                }
            },
            Option::None => {},
        }
        proof {
            assert forall|i: int, c: Color, p: PieceKind| 0 <= i < 64 implies (#[trigger] bb_has(
                piece_board(board, c, p),
                i,
            ) == (placement@[i] == Some((c, p)))) by {
                assert(piece_board(board, c, p) == piece_board(placed, c, p));
                assert(bb_has(piece_board(placed, c, p), i) == (placement@[i] == Some((c, p))));
            }
            assert forall|j: int| 0 <= j < 64 implies (#[trigger] bb_has(board.departed.value, j)
                == setup_departed(
                white_kingside,
                white_queenside,
                black_kingside,
                black_queenside,
                en_passant_target,
                j,
            )) by {}
            assert forall|ii: int| 0 <= ii < 64 implies piece_count_at(board, ii) <= 1 by {
                assert(piece_count_at(board, ii) == piece_count_at(placed, ii));
                assert(bb_has(piece_board(placed, Color::White, PieceKind::Pawn), ii) == (
                placement@[ii] == Some((Color::White, PieceKind::Pawn))));
                assert(bb_has(piece_board(placed, Color::White, PieceKind::Rook), ii) == (
                placement@[ii] == Some((Color::White, PieceKind::Rook))));
                assert(bb_has(piece_board(placed, Color::White, PieceKind::Knight), ii) == (
                placement@[ii] == Some((Color::White, PieceKind::Knight))));
                assert(bb_has(piece_board(placed, Color::White, PieceKind::Bishop), ii) == (
                placement@[ii] == Some((Color::White, PieceKind::Bishop))));
                assert(bb_has(piece_board(placed, Color::White, PieceKind::Queen), ii) == (
                placement@[ii] == Some((Color::White, PieceKind::Queen))));
                assert(bb_has(piece_board(placed, Color::White, PieceKind::King), ii) == (
                placement@[ii] == Some((Color::White, PieceKind::King))));
                assert(bb_has(piece_board(placed, Color::Black, PieceKind::Pawn), ii) == (
                placement@[ii] == Some((Color::Black, PieceKind::Pawn))));
                assert(bb_has(piece_board(placed, Color::Black, PieceKind::Rook), ii) == (
                placement@[ii] == Some((Color::Black, PieceKind::Rook))));
                assert(bb_has(piece_board(placed, Color::Black, PieceKind::Knight), ii) == (
                placement@[ii] == Some((Color::Black, PieceKind::Knight))));
                assert(bb_has(piece_board(placed, Color::Black, PieceKind::Bishop), ii) == (
                placement@[ii] == Some((Color::Black, PieceKind::Bishop))));
                assert(bb_has(piece_board(placed, Color::Black, PieceKind::Queen), ii) == (
                placement@[ii] == Some((Color::Black, PieceKind::Queen))));
                assert(bb_has(piece_board(placed, Color::Black, PieceKind::King), ii) == (
                placement@[ii] == Some((Color::Black, PieceKind::King))));
            }
        }
        board
    }
}

/// The starting layout satisfies mutual exclusivity: no coordinate is
/// a member of two piece sets.
pub proof fn lemma_initial_exclusive()
    ensures
        piece_sets_exclusive(initial_board()),
{
    let b = initial_board();
    assert forall|i: int| 0 <= i < 64 implies piece_count_at(b, i) <= 1 by {
        let iu = i as u64;
        assert(((0xff00u64 >> iu) & 1u64 == 1u64) == (8 <= iu < 16)) by (bit_vector)
            requires
                iu < 64,
        ;
        assert(((0x81u64 >> iu) & 1u64 == 1u64) == (iu == 0 || iu == 7)) by (bit_vector)
            requires
                iu < 64,
        ;
        assert(((0x42u64 >> iu) & 1u64 == 1u64) == (iu == 1 || iu == 6)) by (bit_vector)
            requires
                iu < 64,
        ;
        assert(((0x24u64 >> iu) & 1u64 == 1u64) == (iu == 2 || iu == 5)) by (bit_vector)
            requires
                iu < 64,
        ;
        assert(((0x8u64 >> iu) & 1u64 == 1u64) == (iu == 3)) by (bit_vector)
            requires
                iu < 64,
        ;
        assert(((0x10u64 >> iu) & 1u64 == 1u64) == (iu == 4)) by (bit_vector)
            requires
                iu < 64,
        ;
        assert(((0x00ff_0000_0000_0000u64 >> iu) & 1u64 == 1u64) == (48 <= iu < 56)) by (bit_vector)
            requires
                iu < 64,
        ;
        assert(((0x8100_0000_0000_0000u64 >> iu) & 1u64 == 1u64) == (iu == 56 || iu
            == 63)) by (bit_vector)
            requires
                iu < 64,
        ;
        assert(((0x4200_0000_0000_0000u64 >> iu) & 1u64 == 1u64) == (iu == 57 || iu
            == 62)) by (bit_vector)
            requires
                iu < 64,
        ;
        assert(((0x2400_0000_0000_0000u64 >> iu) & 1u64 == 1u64) == (iu == 58 || iu
            == 61)) by (bit_vector)
            requires
                iu < 64,
        ;
        assert(((0x0800_0000_0000_0000u64 >> iu) & 1u64 == 1u64) == (iu == 59)) by (bit_vector)
            requires
                iu < 64,
        ;
        assert(((0x1000_0000_0000_0000u64 >> iu) & 1u64 == 1u64) == (iu == 60)) by (bit_vector)
            requires
                iu < 64,
        ;
    }
}

} // verus!
