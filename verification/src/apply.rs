//! Move application: capture at the destination, en-passant removal,
//! auto-promotion to queen, castling rook relocation, recording the
//! origin in the departed-from set, and the turn flip. The executable
//! mutator is proved equal to the spec-level transition function, and
//! the transition is proved to preserve mutual exclusivity.

use vstd::prelude::*;
use crate::bitboard::BitBoard;
use crate::bitboard::bb_clear;
use crate::bitboard::bb_has;
use crate::bitboard::bb_set;
use crate::bitboard::lemma_bb_clear;
use crate::bitboard::lemma_bb_set;
use crate::board::ChessBoard;
use crate::board::Color;
use crate::board::Move;
use crate::board::PieceKind;
use crate::rules::castle_kingside_open;
use crate::rules::castle_queenside_open;
use crate::rules::en_passant_move;
use crate::rules::home_rank;
use crate::rules::king_home;
use crate::rules::last_row;
use crate::rules::occupied;
use crate::rules::opponent;
use crate::rules::piece_at_spec;
use crate::rules::piece_board;
use crate::rules::piece_count_at;
use crate::rules::piece_sets_exclusive;
use crate::rules::rc_index;
use crate::square::Square;
use crate::square::lemma_index_injective;

verus! {

/// The destination of a recognized kingside castle, with its gate.
pub open spec fn castle_kingside_move(b: ChessBoard, c: Color, from: Square, to: Square) -> bool {
    &&& from == king_home(c)
    &&& to == (Square { row: home_rank(c) as i32, column: 6 })
    &&& castle_kingside_open(b, c)
}

/// The destination of a recognized queenside castle, with its gate.
pub open spec fn castle_queenside_move(b: ChessBoard, c: Color, from: Square, to: Square) -> bool {
    &&& from == king_home(c)
    &&& to == (Square { row: home_rank(c) as i32, column: 2 })
    &&& castle_queenside_open(b, c)
}

/// All twelve piece sets with the square at index `i` cleared; the
/// departed-from set and the turn are untouched.
pub open spec fn clear_piece_boards(b: ChessBoard, i: int) -> ChessBoard {
    ChessBoard {
        white_pawn: BitBoard { value: bb_clear(b.white_pawn.value, i) },
        white_rook: BitBoard { value: bb_clear(b.white_rook.value, i) },
        white_knight: BitBoard { value: bb_clear(b.white_knight.value, i) },
        white_bishop: BitBoard { value: bb_clear(b.white_bishop.value, i) },
        white_queen: BitBoard { value: bb_clear(b.white_queen.value, i) },
        white_king: BitBoard { value: bb_clear(b.white_king.value, i) },
        black_pawn: BitBoard { value: bb_clear(b.black_pawn.value, i) },
        black_rook: BitBoard { value: bb_clear(b.black_rook.value, i) },
        black_knight: BitBoard { value: bb_clear(b.black_knight.value, i) },
        black_bishop: BitBoard { value: bb_clear(b.black_bishop.value, i) },
        black_queen: BitBoard { value: bb_clear(b.black_queen.value, i) },
        black_king: BitBoard { value: bb_clear(b.black_king.value, i) },
        ..b
    }
}

/// One piece set gains the square at index `i`.
pub open spec fn place_piece_spec(b: ChessBoard, c: Color, p: PieceKind, i: int) -> ChessBoard {
    match (c, p) {
        (Color::White, PieceKind::Pawn) => ChessBoard {
            white_pawn: BitBoard { value: bb_set(b.white_pawn.value, i) },
            ..b
        },
        (Color::White, PieceKind::Rook) => ChessBoard {
            white_rook: BitBoard { value: bb_set(b.white_rook.value, i) },
            ..b
        },
        (Color::White, PieceKind::Knight) => ChessBoard {
            white_knight: BitBoard { value: bb_set(b.white_knight.value, i) },
            ..b
        },
        (Color::White, PieceKind::Bishop) => ChessBoard {
            white_bishop: BitBoard { value: bb_set(b.white_bishop.value, i) },
            ..b
        },
        (Color::White, PieceKind::Queen) => ChessBoard {
            white_queen: BitBoard { value: bb_set(b.white_queen.value, i) },
            ..b
        },
        (Color::White, PieceKind::King) => ChessBoard {
            white_king: BitBoard { value: bb_set(b.white_king.value, i) },
            ..b
        },
        (Color::Black, PieceKind::Pawn) => ChessBoard {
            black_pawn: BitBoard { value: bb_set(b.black_pawn.value, i) },
            ..b
        },
        (Color::Black, PieceKind::Rook) => ChessBoard {
            black_rook: BitBoard { value: bb_set(b.black_rook.value, i) },
            ..b
        },
        (Color::Black, PieceKind::Knight) => ChessBoard {
            black_knight: BitBoard { value: bb_set(b.black_knight.value, i) },
            ..b
        },
        (Color::Black, PieceKind::Bishop) => ChessBoard {
            black_bishop: BitBoard { value: bb_set(b.black_bishop.value, i) },
            ..b
        },
        (Color::Black, PieceKind::Queen) => ChessBoard {
            black_queen: BitBoard { value: bb_set(b.black_queen.value, i) },
            ..b
        },
        (Color::Black, PieceKind::King) => ChessBoard {
            black_king: BitBoard { value: bb_set(b.black_king.value, i) },
            ..b
        },
    }
}

/// One piece set loses the square at index `i`.
pub open spec fn remove_piece_spec(b: ChessBoard, c: Color, p: PieceKind, i: int) -> ChessBoard {
    match (c, p) {
        (Color::White, PieceKind::Pawn) => ChessBoard {
            white_pawn: BitBoard { value: bb_clear(b.white_pawn.value, i) },
            ..b
        },
        (Color::White, PieceKind::Rook) => ChessBoard {
            white_rook: BitBoard { value: bb_clear(b.white_rook.value, i) },
            ..b
        },
        (Color::White, PieceKind::Knight) => ChessBoard {
            white_knight: BitBoard { value: bb_clear(b.white_knight.value, i) },
            ..b
        },
        (Color::White, PieceKind::Bishop) => ChessBoard {
            white_bishop: BitBoard { value: bb_clear(b.white_bishop.value, i) },
            ..b
        },
        (Color::White, PieceKind::Queen) => ChessBoard {
            white_queen: BitBoard { value: bb_clear(b.white_queen.value, i) },
            ..b
        },
        (Color::White, PieceKind::King) => ChessBoard {
            white_king: BitBoard { value: bb_clear(b.white_king.value, i) },
            ..b
        },
        (Color::Black, PieceKind::Pawn) => ChessBoard {
            black_pawn: BitBoard { value: bb_clear(b.black_pawn.value, i) },
            ..b
        },
        (Color::Black, PieceKind::Rook) => ChessBoard {
            black_rook: BitBoard { value: bb_clear(b.black_rook.value, i) },
            ..b
        },
        (Color::Black, PieceKind::Knight) => ChessBoard {
            black_knight: BitBoard { value: bb_clear(b.black_knight.value, i) },
            ..b
        },
        (Color::Black, PieceKind::Bishop) => ChessBoard {
            black_bishop: BitBoard { value: bb_clear(b.black_bishop.value, i) },
            ..b
        },
        (Color::Black, PieceKind::Queen) => ChessBoard {
            black_queen: BitBoard { value: bb_clear(b.black_queen.value, i) },
            ..b
        },
        (Color::Black, PieceKind::King) => ChessBoard {
            black_king: BitBoard { value: bb_clear(b.black_king.value, i) },
            ..b
        },
    }
}

/// The departed-from set gains the square at index `i`.
pub open spec fn mark_departed_spec(b: ChessBoard, i: int) -> ChessBoard {
    ChessBoard { departed: BitBoard { value: bb_set(b.departed.value, i) }, ..b }
}

pub open spec fn flip_turn_spec(b: ChessBoard) -> ChessBoard {
    ChessBoard { white_turn: !b.white_turn, ..b }
}

/// What applying a move does, step by step: the destination is cleared
/// across all twelve sets (capture); the moving piece, found by the
/// fixed-order scan, is placed at the destination (as a queen when a
/// pawn reaches the farthest row); a recognized en-passant step removes
/// the passed pawn; a recognized castle relocates the rook; a moving
/// pawn, rook or king records its origin as departed; the origin is
/// cleared everywhere and the turn flips.
pub open spec fn apply_move_spec(b: ChessBoard, m: Move) -> ChessBoard {
    let mover = piece_at_spec(b, m.from.index());
    let cleared = clear_piece_boards(b, m.to.index());
    let moved = match mover {
        Option::None => cleared,
        Option::Some((c, p)) => {
            let placed = if p is Pawn && m.to.row == last_row(c) {
                place_piece_spec(cleared, c, PieceKind::Queen, m.to.index())
            } else {
                place_piece_spec(cleared, c, p, m.to.index())
            };
            let after_ep = if p is Pawn && en_passant_move(b, c, m.from, m.to) {
                remove_piece_spec(
                    placed,
                    opponent(c),
                    PieceKind::Pawn,
                    rc_index(m.from.row as int, m.to.column as int),
                )
            } else {
                placed
            };
            let after_castle = if p is King && castle_kingside_move(b, c, m.from, m.to) {
                place_piece_spec(
                    remove_piece_spec(after_ep, c, PieceKind::Rook, rc_index(home_rank(c), 7)),
                    c,
                    PieceKind::Rook,
                    rc_index(home_rank(c), 5),
                )
            } else if p is King && castle_queenside_move(b, c, m.from, m.to) {
                place_piece_spec(
                    remove_piece_spec(after_ep, c, PieceKind::Rook, rc_index(home_rank(c), 0)),
                    c,
                    PieceKind::Rook,
                    rc_index(home_rank(c), 3),
                )
            } else {
                after_ep
            };
            if p is Pawn || p is Rook || p is King {
                mark_departed_spec(after_castle, m.from.index())
            } else {
                after_castle
            }
        },
    };
    flip_turn_spec(clear_piece_boards(moved, m.from.index()))
}

impl ChessBoard {
    /// Whether the move is a pawn step recognized as en passant on
    /// this board (the same heuristic move generation uses).
    fn is_en_passant(&self, c: Color, from: Square, to: Square) -> (r: bool)
        requires
            from.valid(),
            to.valid(),
        ensures
            r == en_passant_move(*self, c, from, to),
    {
        let d: i32 = match c {
            Color::White => 1,
            Color::Black => -1,
        };
        let fifth: i32 = match c {
            Color::White => 4,
            Color::Black => 3,
        };
        let opp_home: i32 = match c {
            Color::White => 6,
            Color::Black => 1,
        };
        let opp_pawns: BitBoard = match c {
            Color::White => self.black_pawn,
            Color::Black => self.white_pawn,
        };
        let empty: BitBoard = self.empty_squares();
        from.row == fifth && to.row == from.row + d && (to.column == from.column + 1 || to.column
            == from.column - 1) && empty.get_square(to) && opp_pawns.get_square(
            Square::new(from.row, to.column),
        ) && self.departed.get_square(Square::new(opp_home, to.column))
    }

    /// Whether the move is a recognized kingside castle on this board.
    pub(crate) fn is_castle_kingside(&self, c: Color, from: Square, to: Square) -> (r: bool)
        ensures
            r == castle_kingside_move(*self, c, from, to),
    {
        let hr: i32 = match c {
            Color::White => 0,
            Color::Black => 7,
        };
        let empty: BitBoard = self.empty_squares();
        from.row == hr && from.column == 4 && to.row == hr && to.column == 6
            && !self.departed.get_square(Square::new(hr, 4)) && !self.departed.get_square(
            Square::new(hr, 7),
        ) && empty.get_square(Square::new(hr, 5)) && empty.get_square(Square::new(hr, 6))
    }

    /// Whether the move is a recognized queenside castle on this board.
    pub(crate) fn is_castle_queenside(&self, c: Color, from: Square, to: Square) -> (r: bool)
        ensures
            r == castle_queenside_move(*self, c, from, to),
    {
        let hr: i32 = match c {
            Color::White => 0,
            Color::Black => 7,
        };
        let empty: BitBoard = self.empty_squares();
        from.row == hr && from.column == 4 && to.row == hr && to.column == 2
            && !self.departed.get_square(Square::new(hr, 4)) && !self.departed.get_square(
            Square::new(hr, 0),
        ) && empty.get_square(Square::new(hr, 1)) && empty.get_square(Square::new(hr, 2))
            && empty.get_square(Square::new(hr, 3))
    }

    pub(crate) fn place_piece(&mut self, c: Color, p: PieceKind, sq: Square)
        requires
            sq.valid(),
        ensures
            *final(self) == place_piece_spec(*old(self), c, p, sq.index()),
    {
        match (c, p) {
            (Color::White, PieceKind::Pawn) => self.white_pawn.set_square(sq),
            (Color::White, PieceKind::Rook) => self.white_rook.set_square(sq),
            (Color::White, PieceKind::Knight) => self.white_knight.set_square(sq),
            (Color::White, PieceKind::Bishop) => self.white_bishop.set_square(sq),
            (Color::White, PieceKind::Queen) => self.white_queen.set_square(sq),
            (Color::White, PieceKind::King) => self.white_king.set_square(sq),
            (Color::Black, PieceKind::Pawn) => self.black_pawn.set_square(sq),
            (Color::Black, PieceKind::Rook) => self.black_rook.set_square(sq),
            (Color::Black, PieceKind::Knight) => self.black_knight.set_square(sq),
            (Color::Black, PieceKind::Bishop) => self.black_bishop.set_square(sq),
            (Color::Black, PieceKind::Queen) => self.black_queen.set_square(sq),
            (Color::Black, PieceKind::King) => self.black_king.set_square(sq),
        }
    }

    fn remove_piece(&mut self, c: Color, p: PieceKind, sq: Square)
        requires
            sq.valid(),
        ensures
            *final(self) == remove_piece_spec(*old(self), c, p, sq.index()),
    {
        match (c, p) {
            (Color::White, PieceKind::Pawn) => self.white_pawn.remove_square(sq),
            (Color::White, PieceKind::Rook) => self.white_rook.remove_square(sq),
            (Color::White, PieceKind::Knight) => self.white_knight.remove_square(sq),
            (Color::White, PieceKind::Bishop) => self.white_bishop.remove_square(sq),
            (Color::White, PieceKind::Queen) => self.white_queen.remove_square(sq),
            (Color::White, PieceKind::King) => self.white_king.remove_square(sq),
            (Color::Black, PieceKind::Pawn) => self.black_pawn.remove_square(sq),
            (Color::Black, PieceKind::Rook) => self.black_rook.remove_square(sq),
            (Color::Black, PieceKind::Knight) => self.black_knight.remove_square(sq),
            (Color::Black, PieceKind::Bishop) => self.black_bishop.remove_square(sq),
            (Color::Black, PieceKind::Queen) => self.black_queen.remove_square(sq),
            (Color::Black, PieceKind::King) => self.black_king.remove_square(sq),
        }
    }

    fn clear_all_at(&mut self, sq: Square)
        requires
            sq.valid(),
        ensures
            *final(self) == clear_piece_boards(*old(self), sq.index()),
    {
        self.white_pawn.remove_square(sq);
        self.white_rook.remove_square(sq);
        self.white_knight.remove_square(sq);
        self.white_bishop.remove_square(sq);
        self.white_queen.remove_square(sq);
        self.white_king.remove_square(sq);
        self.black_pawn.remove_square(sq);
        self.black_rook.remove_square(sq);
        self.black_knight.remove_square(sq);
        self.black_bishop.remove_square(sq);
        self.black_queen.remove_square(sq);
        self.black_king.remove_square(sq);
    }

    /// Applies the move unconditionally: no legality check is made.
    /// Used directly by the legality filter's simulation; callers who
    /// want validation use `make_move_checked`.
    pub fn make_move(&mut self, m: Move)
        requires
            m.from.valid(),
            m.to.valid(),
        ensures
            *final(self) == apply_move_spec(*old(self), m),
    {
        let pre: ChessBoard = *self;
        let mover: Option<(Color, PieceKind)> = pre.occupant(m.from);
        // capture: the destination leaves every piece set
        self.clear_all_at(m.to);
        match mover {
            Option::None => {},
            Option::Some((c, p)) => {
                // promotion: a pawn reaching the farthest row arrives as a queen
                let last: i32 = match c {
                    Color::White => 7,
                    Color::Black => 0,
                };
                let is_pawn: bool = match p {
                    PieceKind::Pawn => true,
                    _ => false,
                };
                let is_king: bool = match p {
                    PieceKind::King => true,
                    _ => false,
                };
                if is_pawn && m.to.row == last {
                    self.place_piece(c, PieceKind::Queen, m.to);
                } else {
                    self.place_piece(c, p, m.to);
                }
                // en passant: the passed pawn is removed from its own square
                if is_pawn && pre.is_en_passant(c, m.from, m.to) {
                    let other: Color = match c {
                        Color::White => Color::Black,
                        Color::Black => Color::White,
                    };
                    self.remove_piece(other, PieceKind::Pawn, Square::new(m.from.row, m.to.column));
                }
                // castling: the rook crosses to the king's other side
                let hr: i32 = match c {
                    Color::White => 0,
                    Color::Black => 7,
                };
                if is_king && pre.is_castle_kingside(c, m.from, m.to) {
                    self.remove_piece(c, PieceKind::Rook, Square::new(hr, 7));
                    self.place_piece(c, PieceKind::Rook, Square::new(hr, 5));
                } else if is_king && pre.is_castle_queenside(c, m.from, m.to) {
                    self.remove_piece(c, PieceKind::Rook, Square::new(hr, 0));
                    self.place_piece(c, PieceKind::Rook, Square::new(hr, 3));
                }
                // pawns, rooks and kings record their origin as departed
                let records: bool = match p {
                    PieceKind::Pawn | PieceKind::Rook | PieceKind::King => true,
                    _ => false,
                };
                if records {
                    self.departed.set_square(m.from);
                }
            },
        }
        self.clear_all_at(m.from);
        self.white_turn = !self.white_turn;
        proof {
            assert(*self == apply_move_spec(pre, m));
        }
    }
}

proof fn lemma_count_clear(b: ChessBoard, i: int)
    requires
        0 <= i < 64,
    ensures
        forall|j: int|
            0 <= j < 64 ==> piece_count_at(clear_piece_boards(b, i), j) == (if j == i {
                0int
            } else {
                piece_count_at(b, j)
            }),
{
    lemma_bb_clear(b.white_pawn.value, i);
    lemma_bb_clear(b.white_rook.value, i);
    lemma_bb_clear(b.white_knight.value, i);
    lemma_bb_clear(b.white_bishop.value, i);
    lemma_bb_clear(b.white_queen.value, i);
    lemma_bb_clear(b.white_king.value, i);
    lemma_bb_clear(b.black_pawn.value, i);
    lemma_bb_clear(b.black_rook.value, i);
    lemma_bb_clear(b.black_knight.value, i);
    lemma_bb_clear(b.black_bishop.value, i);
    lemma_bb_clear(b.black_queen.value, i);
    lemma_bb_clear(b.black_king.value, i);
}

proof fn lemma_count_place(b: ChessBoard, c: Color, p: PieceKind, i: int)
    requires
        0 <= i < 64,
    ensures
        forall|j: int|
            0 <= j < 64 && j != i ==> piece_count_at(place_piece_spec(b, c, p, i), j)
                == piece_count_at(b, j),
        piece_count_at(place_piece_spec(b, c, p, i), i) <= piece_count_at(b, i) + 1,
{
    lemma_bb_set(b.white_pawn.value, i);
    lemma_bb_set(b.white_rook.value, i);
    lemma_bb_set(b.white_knight.value, i);
    lemma_bb_set(b.white_bishop.value, i);
    lemma_bb_set(b.white_queen.value, i);
    lemma_bb_set(b.white_king.value, i);
    lemma_bb_set(b.black_pawn.value, i);
    lemma_bb_set(b.black_rook.value, i);
    lemma_bb_set(b.black_knight.value, i);
    lemma_bb_set(b.black_bishop.value, i);
    lemma_bb_set(b.black_queen.value, i);
    lemma_bb_set(b.black_king.value, i);
}

proof fn lemma_count_remove(b: ChessBoard, c: Color, p: PieceKind, i: int)
    requires
        0 <= i < 64,
    ensures
        forall|j: int|
            0 <= j < 64 ==> piece_count_at(remove_piece_spec(b, c, p, i), j) <= piece_count_at(
                b,
                j,
            ),
        forall|j: int|
            0 <= j < 64 && j != i ==> piece_count_at(remove_piece_spec(b, c, p, i), j)
                == piece_count_at(b, j),
{
    lemma_bb_clear(b.white_pawn.value, i);
    lemma_bb_clear(b.white_rook.value, i);
    lemma_bb_clear(b.white_knight.value, i);
    lemma_bb_clear(b.white_bishop.value, i);
    lemma_bb_clear(b.white_queen.value, i);
    lemma_bb_clear(b.white_king.value, i);
    lemma_bb_clear(b.black_pawn.value, i);
    lemma_bb_clear(b.black_rook.value, i);
    lemma_bb_clear(b.black_knight.value, i);
    lemma_bb_clear(b.black_bishop.value, i);
    lemma_bb_clear(b.black_queen.value, i);
    lemma_bb_clear(b.black_king.value, i);
}

/// Mutual exclusivity is preserved by applying any move with on-board
/// coordinates: together with the starting layout's exclusivity, every
/// reachable position keeps each coordinate in at most one piece set.
#[verifier::rlimit(100)]
pub proof fn lemma_apply_preserves_exclusive(b: ChessBoard, m: Move)
    requires
        piece_sets_exclusive(b),
        m.from.valid(),
        m.to.valid(),
    ensures
        piece_sets_exclusive(apply_move_spec(b, m)),
{
    let i_to = m.to.index();
    let i_from = m.from.index();
    let cleared = clear_piece_boards(b, i_to);
    lemma_count_clear(b, i_to);
    match piece_at_spec(b, i_from) {
        Option::None => {
            lemma_count_clear(cleared, i_from);
            assert(apply_move_spec(b, m) == flip_turn_spec(clear_piece_boards(cleared, i_from)));
            assert forall|j: int| 0 <= j < 64 implies piece_count_at(apply_move_spec(b, m), j)
                <= 1 by {
                assert(piece_count_at(flip_turn_spec(clear_piece_boards(cleared, i_from)), j)
                    == piece_count_at(clear_piece_boards(cleared, i_from), j));
                if j != i_from {
                    assert(piece_count_at(clear_piece_boards(cleared, i_from), j)
                        == piece_count_at(cleared, j));
                }
            }
        },
        Option::Some((c, p)) => {
            let placed = if p is Pawn && m.to.row == last_row(c) {
                place_piece_spec(cleared, c, PieceKind::Queen, i_to)
            } else {
                place_piece_spec(cleared, c, p, i_to)
            };
            if p is Pawn && m.to.row == last_row(c) {
                lemma_count_place(cleared, c, PieceKind::Queen, i_to);
            } else {
                lemma_count_place(cleared, c, p, i_to);
            }
            assert forall|j: int| 0 <= j < 64 implies piece_count_at(placed, j) <= 1 by {
                if j != i_to {
                    assert(piece_count_at(placed, j) == piece_count_at(cleared, j));
                    assert(piece_count_at(cleared, j) == piece_count_at(b, j));
                    assert(piece_count_at(b, j) <= 1);
                } else {
                    assert(piece_count_at(cleared, i_to) == 0);
                    assert(piece_count_at(placed, i_to) <= 1);
                }
            }
            let after_ep = if p is Pawn && en_passant_move(b, c, m.from, m.to) {
                remove_piece_spec(
                    placed,
                    opponent(c),
                    PieceKind::Pawn,
                    rc_index(m.from.row as int, m.to.column as int),
                )
            } else {
                placed
            };
            if p is Pawn && en_passant_move(b, c, m.from, m.to) {
                lemma_count_remove(
                    placed,
                    opponent(c),
                    PieceKind::Pawn,
                    rc_index(m.from.row as int, m.to.column as int),
                );
            }
            assert forall|j: int| 0 <= j < 64 implies piece_count_at(after_ep, j) <= 1 by {
                assert(piece_count_at(after_ep, j) <= piece_count_at(placed, j));
            }
            let after_castle = if p is King && castle_kingside_move(b, c, m.from, m.to) {
                place_piece_spec(
                    remove_piece_spec(after_ep, c, PieceKind::Rook, rc_index(home_rank(c), 7)),
                    c,
                    PieceKind::Rook,
                    rc_index(home_rank(c), 5),
                )
            } else if p is King && castle_queenside_move(b, c, m.from, m.to) {
                place_piece_spec(
                    remove_piece_spec(after_ep, c, PieceKind::Rook, rc_index(home_rank(c), 0)),
                    c,
                    PieceKind::Rook,
                    rc_index(home_rank(c), 3),
                )
            } else {
                after_ep
            };
            if p is King && castle_kingside_move(b, c, m.from, m.to) {
                let corner = rc_index(home_rank(c), 7);
                let transit = rc_index(home_rank(c), 5);
                let removed = remove_piece_spec(after_ep, c, PieceKind::Rook, corner);
                lemma_count_remove(after_ep, c, PieceKind::Rook, corner);
                lemma_count_place(removed, c, PieceKind::Rook, transit);
                // the transit square was empty by the castling gate, and
                // neither the capture nor the king's arrival touched it
                assert(!occupied(b, transit));
                assert(piece_count_at(b, transit) == 0);
                assert(i_to == rc_index(home_rank(c), 6));
                assert(transit != i_to && transit != corner);
                assert(after_ep == placed);
                assert(piece_count_at(cleared, transit) == piece_count_at(b, transit));
                assert(piece_count_at(placed, transit) == piece_count_at(cleared, transit));
                assert(piece_count_at(removed, transit) == piece_count_at(after_ep, transit));
                assert(piece_count_at(removed, transit) == 0);
            } else if p is King && castle_queenside_move(b, c, m.from, m.to) {
                let corner = rc_index(home_rank(c), 0);
                let transit = rc_index(home_rank(c), 3);
                let removed = remove_piece_spec(after_ep, c, PieceKind::Rook, corner);
                lemma_count_remove(after_ep, c, PieceKind::Rook, corner);
                lemma_count_place(removed, c, PieceKind::Rook, transit);
                assert(!occupied(b, transit));
                assert(piece_count_at(b, transit) == 0);
                assert(i_to == rc_index(home_rank(c), 2));
                assert(transit != i_to && transit != corner);
                assert(after_ep == placed);
                assert(piece_count_at(cleared, transit) == piece_count_at(b, transit));
                assert(piece_count_at(placed, transit) == piece_count_at(cleared, transit));
                assert(piece_count_at(removed, transit) == piece_count_at(after_ep, transit));
                assert(piece_count_at(removed, transit) == 0);
            }
            if p is King && castle_kingside_move(b, c, m.from, m.to) {
                let corner = rc_index(home_rank(c), 7);
                let transit = rc_index(home_rank(c), 5);
                let removed = remove_piece_spec(after_ep, c, PieceKind::Rook, corner);
                assert forall|j: int| 0 <= j < 64 implies piece_count_at(after_castle, j)
                    <= 1 by {
                    if j == transit {
                        assert(piece_count_at(after_castle, transit) <= piece_count_at(
                            removed,
                            transit,
                        ) + 1);
                    } else {
                        assert(piece_count_at(after_castle, j) == piece_count_at(removed, j));
                        assert(piece_count_at(removed, j) <= piece_count_at(after_ep, j));
                    }
                }
            } else if p is King && castle_queenside_move(b, c, m.from, m.to) {
                let corner = rc_index(home_rank(c), 0);
                let transit = rc_index(home_rank(c), 3);
                let removed = remove_piece_spec(after_ep, c, PieceKind::Rook, corner);
                assert forall|j: int| 0 <= j < 64 implies piece_count_at(after_castle, j)
                    <= 1 by {
                    if j == transit {
                        assert(piece_count_at(after_castle, transit) <= piece_count_at(
                            removed,
                            transit,
                        ) + 1);
                    } else {
                        assert(piece_count_at(after_castle, j) == piece_count_at(removed, j));
                        assert(piece_count_at(removed, j) <= piece_count_at(after_ep, j));
                    }
                }
            }
            assert(forall|j: int| 0 <= j < 64 ==> piece_count_at(after_castle, j) <= 1);
            let with_departed = if p is Pawn || p is Rook || p is King {
                mark_departed_spec(after_castle, i_from)
            } else {
                after_castle
            };
            assert(forall|j: int|
                0 <= j < 64 ==> piece_count_at(with_departed, j) == piece_count_at(
                    after_castle,
                    j,
                ));
            lemma_count_clear(with_departed, i_from);
            assert(apply_move_spec(b, m) == flip_turn_spec(
                clear_piece_boards(with_departed, i_from),
            ));
            assert forall|j: int| 0 <= j < 64 implies piece_count_at(apply_move_spec(b, m), j)
                <= 1 by {
                assert(piece_count_at(flip_turn_spec(clear_piece_boards(with_departed, i_from)), j)
                    == piece_count_at(clear_piece_boards(with_departed, i_from), j));
                if j != i_from {
                    assert(piece_count_at(clear_piece_boards(with_departed, i_from), j)
                        == piece_count_at(with_departed, j));
                }
            }
        },
    }
}

/// En passant: applying a pawn step recognized as en passant removes
/// the passed pawn from its own square, and the capturing pawn lands
/// on the skipped square rather than on an occupied one.
pub proof fn lemma_en_passant_removes_pawn(b: ChessBoard, m: Move, c: Color)
    requires
        m.from.valid(),
        m.to.valid(),
        piece_at_spec(b, m.from.index()) == Some((c, PieceKind::Pawn)),
        en_passant_move(b, c, m.from, m.to),
    ensures
        !bb_has(
            piece_board(apply_move_spec(b, m), opponent(c), PieceKind::Pawn),
            rc_index(m.from.row as int, m.to.column as int),
        ),
        bb_has(piece_board(apply_move_spec(b, m), c, PieceKind::Pawn), m.to.index()),
{
    let i_to = m.to.index();
    let i_from = m.from.index();
    let i_victim = rc_index(m.from.row as int, m.to.column as int);
    assert(m.to.row != m.from.row);
    assert(i_from != i_to);
    assert(i_victim != i_to);
    assert(i_victim != i_from);
    assert(m.to.row != last_row(c));
    let cleared = clear_piece_boards(b, i_to);
    let placed = place_piece_spec(cleared, c, PieceKind::Pawn, i_to);
    let after_ep = remove_piece_spec(placed, opponent(c), PieceKind::Pawn, i_victim);
    let with_departed = mark_departed_spec(after_ep, i_from);
    assert(apply_move_spec(b, m) == flip_turn_spec(clear_piece_boards(with_departed, i_from)));
    match c {
        Color::White => {
            lemma_bb_clear(b.white_pawn.value, i_to);
            lemma_bb_set(cleared.white_pawn.value, i_to);
            lemma_bb_clear(b.black_pawn.value, i_to);
            lemma_bb_clear(placed.black_pawn.value, i_victim);
            lemma_bb_clear(with_departed.white_pawn.value, i_from);
            lemma_bb_clear(with_departed.black_pawn.value, i_from);
        },
        Color::Black => {
            lemma_bb_clear(b.black_pawn.value, i_to);
            lemma_bb_set(cleared.black_pawn.value, i_to);
            lemma_bb_clear(b.white_pawn.value, i_to);
            lemma_bb_clear(placed.white_pawn.value, i_victim);
            lemma_bb_clear(with_departed.black_pawn.value, i_from);
            lemma_bb_clear(with_departed.white_pawn.value, i_from);
        },
    }
}

/// Promotion: applying a pawn move that reaches the farthest row
/// leaves a queen of the mover's colour on the destination, and the
/// pawn set does not hold the destination.
pub proof fn lemma_promotion_places_queen(b: ChessBoard, m: Move, c: Color)
    requires
        m.from.valid(),
        m.to.valid(),
        m.from != m.to,
        piece_at_spec(b, m.from.index()) == Some((c, PieceKind::Pawn)),
        m.to.row == last_row(c),
    ensures
        bb_has(piece_board(apply_move_spec(b, m), c, PieceKind::Queen), m.to.index()),
        !bb_has(piece_board(apply_move_spec(b, m), c, PieceKind::Pawn), m.to.index()),
{
    let i_to = m.to.index();
    let i_from = m.from.index();
    if i_from == i_to {
        lemma_index_injective(m.from, m.to);
    }
    assert(i_from != i_to);
    let cleared = clear_piece_boards(b, i_to);
    let placed = place_piece_spec(cleared, c, PieceKind::Queen, i_to);
    let after_ep = if en_passant_move(b, c, m.from, m.to) {
        remove_piece_spec(
            placed,
            opponent(c),
            PieceKind::Pawn,
            rc_index(m.from.row as int, m.to.column as int),
        )
    } else {
        placed
    };
    let with_departed = mark_departed_spec(after_ep, i_from);
    assert(apply_move_spec(b, m) == flip_turn_spec(clear_piece_boards(with_departed, i_from)));
    match c {
        Color::White => {
            lemma_bb_clear(b.white_queen.value, i_to);
            lemma_bb_set(cleared.white_queen.value, i_to);
            lemma_bb_clear(b.white_pawn.value, i_to);
            lemma_bb_clear(with_departed.white_queen.value, i_from);
            lemma_bb_clear(with_departed.white_pawn.value, i_from);
        },
        Color::Black => {
            lemma_bb_clear(b.black_queen.value, i_to);
            lemma_bb_set(cleared.black_queen.value, i_to);
            lemma_bb_clear(b.black_pawn.value, i_to);
            lemma_bb_clear(with_departed.black_queen.value, i_from);
            lemma_bb_clear(with_departed.black_pawn.value, i_from);
        },
    }
}

} // verus!
