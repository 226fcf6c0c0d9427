use chess::BitBoard;
use chess::ChessBoard;
use chess::Color;
use chess::PieceKind;
use chess::Square;
use chess::square_from_string;

fn sq(notation: &str) -> Square {
    square_from_string(notation.to_string()).unwrap()
}

#[test]
fn bitboard_membership() {
    let mut bb = BitBoard::new(0);
    assert!(!bb.get_square(sq("C3")));
    bb.set_square(sq("C3"));
    assert!(bb.get_square(sq("C3")));
    bb.set_square(sq("H8"));
    bb.remove_square(sq("C3"));
    assert!(!bb.get_square(sq("C3")));
    assert!(bb.get_square(sq("H8")));
}

#[test]
fn bitboard_ignores_off_board_coordinates() {
    let bb = BitBoard::new(u64::MAX);
    assert!(!bb.get_square(Square::new(8, 0)));
    assert!(!bb.get_square(Square::new(0, -1)));
}

#[test]
fn to_squares_ascending() {
    let mut bb = BitBoard::new(0);
    bb.set_square(sq("H8"));
    bb.set_square(sq("A1"));
    bb.set_square(sq("E4"));
    let squares = bb.to_squares();
    assert_eq!(squares.len(), 3);
    assert_eq!(squares[0], sq("A1"));
    assert_eq!(squares[1], sq("E4"));
    assert_eq!(squares[2], sq("H8"));
}

#[test]
fn initial_piece_counts() {
    let board = ChessBoard::new();
    assert_eq!(board.white_pieces().to_squares().len(), 16);
    assert_eq!(board.black_pieces().to_squares().len(), 16);
    assert_eq!(board.empty_squares().to_squares().len(), 32);
    assert!(board.white_turn);
}

#[test]
fn initial_occupants() {
    let board = ChessBoard::new();
    assert_eq!(board.piece_at(sq("E1")), Some(PieceKind::King));
    assert_eq!(board.color_at(sq("E1")), Some(Color::White));
    assert_eq!(board.piece_at(sq("D8")), Some(PieceKind::Queen));
    assert_eq!(board.color_at(sq("D8")), Some(Color::Black));
    assert_eq!(board.piece_at(sq("B2")), Some(PieceKind::Pawn));
    assert_eq!(board.piece_at(sq("A1")), Some(PieceKind::Rook));
    assert_eq!(board.piece_at(sq("B1")), Some(PieceKind::Knight));
    assert_eq!(board.piece_at(sq("C1")), Some(PieceKind::Bishop));
    assert_eq!(board.piece_at(sq("E4")), None);
    assert_eq!(board.color_at(sq("E4")), None);
    assert_eq!(board.piece_at(Square::new(9, 9)), None);
}

fn membership_count(board: &ChessBoard, square: Square) -> usize {
    let boards = [
        board.white_pawn,
        board.white_rook,
        board.white_knight,
        board.white_bishop,
        board.white_queen,
        board.white_king,
        board.black_pawn,
        board.black_rook,
        board.black_knight,
        board.black_bishop,
        board.black_queen,
        board.black_king,
    ];
    boards.iter().filter(|bb| bb.get_square(square)).count()
}

#[test]
fn piece_sets_stay_exclusive_through_play() {
    let mut board = ChessBoard::new();
    let line = [
        ("E2", "E4"),
        ("D7", "D5"),
        ("E4", "D5"),
        ("D8", "D5"),
        ("B1", "C3"),
        ("D5", "A5"),
    ];
    for (from, to) in line {
        board.make_move(chess::Move::new(sq(from), sq(to)));
        for i in 0..64 {
            let square = chess::square_from_i32(i);
            assert!(membership_count(&board, square) <= 1);
        }
    }
}

#[test]
fn from_setup_places_and_flags() {
    let mut placement: Vec<Option<(Color, PieceKind)>> = vec![None; 64];
    placement[sq("A8").to_i32() as usize] = Some((Color::Black, PieceKind::King));
    placement[sq("C7").to_i32() as usize] = Some((Color::White, PieceKind::Queen));
    placement[sq("B6").to_i32() as usize] = Some((Color::White, PieceKind::King));
    let board = ChessBoard::from_setup(&placement, false, false, false, false, false, None);
    assert_eq!(board.piece_at(sq("A8")), Some(PieceKind::King));
    assert_eq!(board.color_at(sq("A8")), Some(Color::Black));
    assert_eq!(board.piece_at(sq("C7")), Some(PieceKind::Queen));
    assert_eq!(board.piece_at(sq("D4")), None);
    assert!(!board.white_turn);
    // withheld castling rights flag the rook origin squares
    assert!(board.departed.get_square(sq("A1")));
    assert!(board.departed.get_square(sq("H1")));
    assert!(board.departed.get_square(sq("A8")));
    assert!(board.departed.get_square(sq("H8")));
}

#[test]
fn from_setup_en_passant_target() {
    let mut placement: Vec<Option<(Color, PieceKind)>> = vec![None; 64];
    placement[sq("E1").to_i32() as usize] = Some((Color::White, PieceKind::King));
    placement[sq("E8").to_i32() as usize] = Some((Color::Black, PieceKind::King));
    placement[sq("E5").to_i32() as usize] = Some((Color::White, PieceKind::Pawn));
    placement[sq("D5").to_i32() as usize] = Some((Color::Black, PieceKind::Pawn));
    // black just double-stepped D7 -> D5, so the target is D6
    let board =
        ChessBoard::from_setup(&placement, true, true, true, true, true, Some(sq("D6")));
    assert!(board.departed.get_square(sq("D7")));
    assert!(!board.departed.get_square(sq("A1")));
    let moves = board.generate_moves();
    assert!(moves
        .iter()
        .any(|m| m.from == sq("E5") && m.to == sq("D6")));
}
