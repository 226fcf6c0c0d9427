//! The mathematical model of the game rules: which squares a side
//! occupies, what each piece's pseudo-legal moves are, which squares a
//! side threatens, and when a king is in check. The executable move
//! generators and the check detector are specified against these
//! predicates.

use vstd::prelude::*;
use crate::bitboard::bb_has;
use crate::board::ChessBoard;
use crate::board::Color;
use crate::board::PieceKind;
use crate::square::Square;

verus! {

pub open spec fn opponent(c: Color) -> Color {
    match c {
        Color::White => Color::Black,
        Color::Black => Color::White,
    }
}

/// Direction a pawn advances: white up the rows, black down.
pub open spec fn forward(c: Color) -> int {
    match c {
        Color::White => 1,
        Color::Black => -1,
    }
}

/// Row a pawn of this colour starts on.
pub open spec fn pawn_home_row(c: Color) -> int {
    match c {
        Color::White => 1,
        Color::Black => 6,
    }
}

/// Row that is this colour's fifth rank, where en passant can trigger.
pub open spec fn pawn_fifth_row(c: Color) -> int {
    match c {
        Color::White => 4,
        Color::Black => 3,
    }
}

/// The farthest row for this colour; a pawn reaching it promotes.
pub open spec fn last_row(c: Color) -> int {
    match c {
        Color::White => 7,
        Color::Black => 0,
    }
}

/// The back rank this colour's king and rooks start on.
pub open spec fn home_rank(c: Color) -> int {
    match c {
        Color::White => 0,
        Color::Black => 7,
    }
}

/// Linear index of the square at the given row and column.
pub open spec fn rc_index(r: int, c: int) -> int {
    r * 8 + c
}

/// The bitboard holding this piece type of this colour.
pub open spec fn piece_board(b: ChessBoard, c: Color, p: PieceKind) -> u64 {
    match (c, p) {
        (Color::White, PieceKind::Pawn) => b.white_pawn.value,
        (Color::White, PieceKind::Rook) => b.white_rook.value,
        (Color::White, PieceKind::Knight) => b.white_knight.value,
        (Color::White, PieceKind::Bishop) => b.white_bishop.value,
        (Color::White, PieceKind::Queen) => b.white_queen.value,
        (Color::White, PieceKind::King) => b.white_king.value,
        (Color::Black, PieceKind::Pawn) => b.black_pawn.value,
        (Color::Black, PieceKind::Rook) => b.black_rook.value,
        (Color::Black, PieceKind::Knight) => b.black_knight.value,
        (Color::Black, PieceKind::Bishop) => b.black_bishop.value,
        (Color::Black, PieceKind::Queen) => b.black_queen.value,
        (Color::Black, PieceKind::King) => b.black_king.value,
    }
}

/// Some piece of colour `c` stands on the square with index `i`.
pub open spec fn side_occ(b: ChessBoard, c: Color, i: int) -> bool {
    ||| bb_has(piece_board(b, c, PieceKind::Pawn), i)
    ||| bb_has(piece_board(b, c, PieceKind::Rook), i)
    ||| bb_has(piece_board(b, c, PieceKind::Knight), i)
    ||| bb_has(piece_board(b, c, PieceKind::Bishop), i)
    ||| bb_has(piece_board(b, c, PieceKind::Queen), i)
    ||| bb_has(piece_board(b, c, PieceKind::King), i)
}

pub open spec fn occupied(b: ChessBoard, i: int) -> bool {
    side_occ(b, Color::White, i) || side_occ(b, Color::Black, i)
}

/// The occupant of the square with index `i`, scanning the twelve sets
/// in a fixed order and returning the first match.
pub open spec fn piece_at_spec(b: ChessBoard, i: int) -> Option<(Color, PieceKind)> {
    if bb_has(b.white_pawn.value, i) {
        Some((Color::White, PieceKind::Pawn))
    } else if bb_has(b.white_rook.value, i) {
        Some((Color::White, PieceKind::Rook))
    } else if bb_has(b.white_knight.value, i) {
        Some((Color::White, PieceKind::Knight))
    } else if bb_has(b.white_bishop.value, i) {
        Some((Color::White, PieceKind::Bishop))
    } else if bb_has(b.white_queen.value, i) {
        Some((Color::White, PieceKind::Queen))
    } else if bb_has(b.white_king.value, i) {
        Some((Color::White, PieceKind::King))
    } else if bb_has(b.black_pawn.value, i) {
        Some((Color::Black, PieceKind::Pawn))
    } else if bb_has(b.black_rook.value, i) {
        Some((Color::Black, PieceKind::Rook))
    } else if bb_has(b.black_knight.value, i) {
        Some((Color::Black, PieceKind::Knight))
    } else if bb_has(b.black_bishop.value, i) {
        Some((Color::Black, PieceKind::Bishop))
    } else if bb_has(b.black_queen.value, i) {
        Some((Color::Black, PieceKind::Queen))
    } else if bb_has(b.black_king.value, i) {
        Some((Color::Black, PieceKind::King))
    } else {
        None
    }
}

/// The occupant of a coordinate; an off-board coordinate holds nothing.
pub open spec fn occupant_spec(b: ChessBoard, sq: Square) -> Option<(Color, PieceKind)> {
    if sq.valid() {
        piece_at_spec(b, sq.index())
    } else {
        None
    }
}

pub open spec fn side_to_move(b: ChessBoard) -> Color {
    if b.white_turn {
        Color::White
    } else {
        Color::Black
    }
}

/// How many of the twelve piece sets hold the square with index `i`.
pub open spec fn piece_count_at(b: ChessBoard, i: int) -> int {
    (if bb_has(b.white_pawn.value, i) {
        1int
    } else {
        0int
    }) + (if bb_has(b.white_rook.value, i) {
        1int
    } else {
        0int
    }) + (if bb_has(b.white_knight.value, i) {
        1int
    } else {
        0int
    }) + (if bb_has(b.white_bishop.value, i) {
        1int
    } else {
        0int
    }) + (if bb_has(b.white_queen.value, i) {
        1int
    } else {
        0int
    }) + (if bb_has(b.white_king.value, i) {
        1int
    } else {
        0int
    }) + (if bb_has(b.black_pawn.value, i) {
        1int
    } else {
        0int
    }) + (if bb_has(b.black_rook.value, i) {
        1int
    } else {
        0int
    }) + (if bb_has(b.black_knight.value, i) {
        1int
    } else {
        0int
    }) + (if bb_has(b.black_bishop.value, i) {
        1int
    } else {
        0int
    }) + (if bb_has(b.black_queen.value, i) {
        1int
    } else {
        0int
    }) + (if bb_has(b.black_king.value, i) {
        1int
    } else {
        0int
    })
}

/// Mutual exclusivity: every coordinate is a member of at most one of
/// the twelve piece sets.
pub open spec fn piece_sets_exclusive(b: ChessBoard) -> bool {
    forall|i: int| 0 <= i < 64 ==> piece_count_at(b, i) <= 1
}

/// The en-passant disjunct of the pawn rule: the pawn sits on its fifth
/// rank, steps diagonally onto an empty square, an opposing pawn stands
/// beside it on the target file, and that pawn's origin square is
/// flagged in the departed-from set.
pub open spec fn en_passant_move(b: ChessBoard, c: Color, from: Square, to: Square) -> bool {
    &&& from.row == pawn_fifth_row(c)
    &&& to.row == from.row + forward(c)
    &&& (to.column == from.column + 1 || to.column == from.column - 1)
    &&& !occupied(b, to.index())
    &&& bb_has(piece_board(b, opponent(c), PieceKind::Pawn), rc_index(from.row as int, to.column as int))
    &&& bb_has(b.departed.value, rc_index(pawn_home_row(opponent(c)), to.column as int))
}

/// Pseudo-legal pawn moves: single push onto an empty square, double
/// push from the home row across two empty squares, diagonal capture
/// of an opposing piece, and en passant.
pub open spec fn pawn_move(b: ChessBoard, c: Color, from: Square, to: Square) -> bool {
    &&& from.valid()
    &&& to.valid()
    &&& bb_has(piece_board(b, c, PieceKind::Pawn), from.index())
    &&& {
        ||| (to.row == from.row + forward(c) && to.column == from.column && !occupied(
            b,
            to.index(),
        ))
        ||| (from.row == pawn_home_row(c) && to.row == from.row + 2 * forward(c) && to.column
            == from.column && !occupied(b, rc_index(from.row + forward(c), from.column as int))
            && !occupied(b, to.index()))
        ||| (to.row == from.row + forward(c) && (to.column == from.column + 1 || to.column
            == from.column - 1) && side_occ(b, opponent(c), to.index()))
        ||| en_passant_move(b, c, from, to)
    }
}

/// A pawn of colour `c` threatens the coordinate `t`: the threat map
/// lists both diagonal squares ahead of every pawn, occupied or not.
pub open spec fn pawn_threat_from(b: ChessBoard, c: Color, from: Square, t: Square) -> bool {
    &&& from.valid()
    &&& t.valid()
    &&& bb_has(piece_board(b, c, PieceKind::Pawn), from.index())
    &&& t.row == from.row + forward(c)
    &&& (t.column == from.column + 1 || t.column == from.column - 1)
}

pub open spec fn pawn_threat(b: ChessBoard, c: Color, t: Square) -> bool {
    exists|from: Square| pawn_threat_from(b, c, from, t)
}

/// Pseudo-legal knight moves: the eight L-shaped offsets, on the board
/// and not landing on a friendly piece.
pub open spec fn knight_move(b: ChessBoard, c: Color, from: Square, to: Square) -> bool {
    &&& from.valid()
    &&& to.valid()
    &&& bb_has(piece_board(b, c, PieceKind::Knight), from.index())
    &&& !side_occ(b, c, to.index())
    &&& {
        let dr = to.row - from.row;
        let dc = to.column - from.column;
        ((dr == 2 || dr == -2) && (dc == 1 || dc == -1)) || ((dr == 1 || dr == -1) && (dc == 2
            || dc == -2))
    }
}

/// The square this colour's king starts on.
pub open spec fn king_home(c: Color) -> Square {
    Square { row: home_rank(c) as i32, column: 4 }
}

/// Kingside castling is open: neither the king's nor the kingside
/// rook's origin square is flagged as departed, and the squares
/// strictly between them are empty.
pub open spec fn castle_kingside_open(b: ChessBoard, c: Color) -> bool {
    &&& !bb_has(b.departed.value, rc_index(home_rank(c), 4))
    &&& !bb_has(b.departed.value, rc_index(home_rank(c), 7))
    &&& !occupied(b, rc_index(home_rank(c), 5))
    &&& !occupied(b, rc_index(home_rank(c), 6))
}

/// Queenside castling is open, analogously.
pub open spec fn castle_queenside_open(b: ChessBoard, c: Color) -> bool {
    &&& !bb_has(b.departed.value, rc_index(home_rank(c), 4))
    &&& !bb_has(b.departed.value, rc_index(home_rank(c), 0))
    &&& !occupied(b, rc_index(home_rank(c), 1))
    &&& !occupied(b, rc_index(home_rank(c), 2))
    &&& !occupied(b, rc_index(home_rank(c), 3))
}

/// Pseudo-legal king moves: the eight adjacent squares not held by a
/// friendly piece, plus the two conditional castling moves from the
/// king's origin square.
pub open spec fn king_move(b: ChessBoard, c: Color, from: Square, to: Square) -> bool {
    &&& from.valid()
    &&& to.valid()
    &&& bb_has(piece_board(b, c, PieceKind::King), from.index())
    &&& {
        ||| {
            let dr = to.row - from.row;
            let dc = to.column - from.column;
            -1 <= dr <= 1 && -1 <= dc <= 1 && !(dr == 0 && dc == 0) && !side_occ(
                b,
                c,
                to.index(),
            )
        }
        ||| (from == king_home(c) && to == (Square {
            row: home_rank(c) as i32,
            column: 6,
        }) && castle_kingside_open(b, c))
        ||| (from == king_home(c) && to == (Square {
            row: home_rank(c) as i32,
            column: 2,
        }) && castle_queenside_open(b, c))
    }
}

/// Every square strictly between a ray's origin and its `n`-th step is
/// empty.
pub open spec fn path_clear(b: ChessBoard, from: Square, sr: int, sc: int, n: int) -> bool {
    forall|k: int|
        1 <= k < n ==> !occupied(b, #[trigger] rc_index(from.row + k * sr, from.column + k * sc))
}

/// `to` lies `n` steps from `from` along direction (sr, sc) for some
/// n >= 1, the strictly intervening squares are empty, and `to` does
/// not hold a friendly piece.
pub open spec fn slide_to(
    b: ChessBoard,
    c: Color,
    from: Square,
    sr: int,
    sc: int,
    to: Square,
) -> bool {
    &&& to.valid()
    &&& !side_occ(b, c, to.index())
    &&& exists|n: int|
        1 <= n < 8 && to.row == from.row + n * sr && to.column == from.column + n * sc
            && #[trigger] path_clear(b, from, sr, sc, n)
}

/// Pseudo-legal rook moves: ray casting along the four orthogonal
/// directions, stopping at the first piece met (an opponent's square
/// is included, a friendly one excluded).
pub open spec fn rook_move(b: ChessBoard, c: Color, from: Square, to: Square) -> bool {
    &&& from.valid()
    &&& bb_has(piece_board(b, c, PieceKind::Rook), from.index())
    &&& {
        ||| slide_to(b, c, from, 1, 0, to)
        ||| slide_to(b, c, from, -1, 0, to)
        ||| slide_to(b, c, from, 0, 1, to)
        ||| slide_to(b, c, from, 0, -1, to)
    }
}

/// Pseudo-legal bishop moves: the four diagonal rays.
pub open spec fn bishop_move(b: ChessBoard, c: Color, from: Square, to: Square) -> bool {
    &&& from.valid()
    &&& bb_has(piece_board(b, c, PieceKind::Bishop), from.index())
    &&& {
        ||| slide_to(b, c, from, 1, 1, to)
        ||| slide_to(b, c, from, 1, -1, to)
        ||| slide_to(b, c, from, -1, 1, to)
        ||| slide_to(b, c, from, -1, -1, to)
    }
}

/// Pseudo-legal queen moves: all eight rays.
pub open spec fn queen_move(b: ChessBoard, c: Color, from: Square, to: Square) -> bool {
    &&& from.valid()
    &&& bb_has(piece_board(b, c, PieceKind::Queen), from.index())
    &&& {
        ||| slide_to(b, c, from, 1, 0, to)
        ||| slide_to(b, c, from, -1, 0, to)
        ||| slide_to(b, c, from, 0, 1, to)
        ||| slide_to(b, c, from, 0, -1, to)
        ||| slide_to(b, c, from, 1, 1, to)
        ||| slide_to(b, c, from, 1, -1, to)
        ||| slide_to(b, c, from, -1, 1, to)
        ||| slide_to(b, c, from, -1, -1, to)
    }
}

/// Some piece of colour `c` threatens the coordinate `t`. The attack
/// map unions the rook, knight, bishop and queen destinations with the
/// pawn threat squares; king adjacency is deliberately not included.
pub open spec fn attacks_from(b: ChessBoard, c: Color, from: Square, t: Square) -> bool {
    ||| rook_move(b, c, from, t)
    ||| knight_move(b, c, from, t)
    ||| bishop_move(b, c, from, t)
    ||| queen_move(b, c, from, t)
    ||| pawn_threat_from(b, c, from, t)
}

pub open spec fn square_attacked(b: ChessBoard, c: Color, t: Square) -> bool {
    exists|from: Square| attacks_from(b, c, from, t)
}

/// The defending side's king stands on a square the opposing side
/// threatens.
pub open spec fn in_check(b: ChessBoard, c: Color) -> bool {
    exists|k: Square|
        k.valid() && bb_has(piece_board(b, c, PieceKind::King), (#[trigger] k.index()))
            && square_attacked(b, opponent(c), k)
}

/// A candidate move of the side to move, ignoring self-check.
pub open spec fn pseudo_legal(b: ChessBoard, from: Square, to: Square) -> bool {
    let c = side_to_move(b);
    ||| pawn_move(b, c, from, to)
    ||| rook_move(b, c, from, to)
    ||| knight_move(b, c, from, to)
    ||| bishop_move(b, c, from, to)
    ||| queen_move(b, c, from, to)
    ||| king_move(b, c, from, to)
}

} // verus!
