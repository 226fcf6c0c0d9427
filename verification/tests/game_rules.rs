use chess::ChessBoard;
use chess::ChessError;
use chess::Color;
use chess::Move;
use chess::PieceKind;
use chess::Square;
use chess::square_from_string;

fn sq(notation: &str) -> Square {
    square_from_string(notation.to_string()).unwrap()
}

fn mv(board: &mut ChessBoard, from: &str, to: &str) {
    board.make_move(Move::new(sq(from), sq(to)));
}

#[test]
fn initial_mobility_is_twenty() {
    let board = ChessBoard::new();
    assert_eq!(board.generate_moves().len(), 20);
}

#[test]
fn two_move_check_is_detected() {
    let mut board = ChessBoard::new();
    mv(&mut board, "F2", "F3");
    mv(&mut board, "E7", "E5");
    mv(&mut board, "G2", "G4");
    mv(&mut board, "D8", "H4");
    assert!(board.is_white_checked());
    assert!(!board.is_black_checked());
}

#[test]
fn fools_mate_is_checkmate() {
    let mut board = ChessBoard::new();
    mv(&mut board, "F2", "F3");
    mv(&mut board, "E7", "E5");
    mv(&mut board, "G2", "G4");
    mv(&mut board, "D8", "H4");
    assert!(board.white_turn);
    assert!(board.is_white_checked());
    assert_eq!(board.generate_moves().len(), 0);
    assert!(board.is_white_mated());
    assert!(!board.is_white_stalemated());
    assert!(!board.is_black_mated());
}

#[test]
fn queen_corner_stalemate() {
    let mut placement: Vec<Option<(Color, PieceKind)>> = vec![None; 64];
    placement[sq("A8").to_i32() as usize] = Some((Color::Black, PieceKind::King));
    placement[sq("C7").to_i32() as usize] = Some((Color::White, PieceKind::Queen));
    placement[sq("B6").to_i32() as usize] = Some((Color::White, PieceKind::King));
    let board = ChessBoard::from_setup(&placement, false, false, false, false, false, None);
    assert!(!board.is_black_checked());
    assert_eq!(board.generate_moves().len(), 0);
    assert!(board.is_black_stalemated());
    assert!(!board.is_black_mated());
}

#[test]
fn kingside_castle_appears_when_open() {
    let mut placement: Vec<Option<(Color, PieceKind)>> = vec![None; 64];
    for (name, color, kind) in [
        ("E1", Color::White, PieceKind::King),
        ("A1", Color::White, PieceKind::Rook),
        ("H1", Color::White, PieceKind::Rook),
        ("E8", Color::Black, PieceKind::King),
    ] {
        placement[sq(name).to_i32() as usize] = Some((color, kind));
    }
    let board = ChessBoard::from_setup(&placement, true, true, true, true, true, None);
    let king_moves = board.generate_white_king_moves();
    assert!(king_moves
        .iter()
        .any(|m| m.from == sq("E1") && m.to == sq("G1")));
    assert!(king_moves
        .iter()
        .any(|m| m.from == sq("E1") && m.to == sq("C1")));

    // the same layout without the kingside right offers no E1 -> G1
    let without = ChessBoard::from_setup(&placement, true, false, true, true, true, None);
    let king_moves = without.generate_white_king_moves();
    assert!(!king_moves
        .iter()
        .any(|m| m.from == sq("E1") && m.to == sq("G1")));
    assert!(king_moves
        .iter()
        .any(|m| m.from == sq("E1") && m.to == sq("C1")));
}

#[test]
fn castle_lost_after_king_or_rook_moves() {
    let mut placement: Vec<Option<(Color, PieceKind)>> = vec![None; 64];
    for (name, color, kind) in [
        ("E1", Color::White, PieceKind::King),
        ("H1", Color::White, PieceKind::Rook),
        ("E8", Color::Black, PieceKind::King),
    ] {
        placement[sq(name).to_i32() as usize] = Some((color, kind));
    }
    let mut board = ChessBoard::from_setup(&placement, true, true, true, true, true, None);
    mv(&mut board, "E1", "F1");
    mv(&mut board, "E8", "E7");
    mv(&mut board, "F1", "E1");
    let king_moves = board.generate_white_king_moves();
    assert!(!king_moves
        .iter()
        .any(|m| m.from == sq("E1") && m.to == sq("G1")));

    let mut board = ChessBoard::from_setup(&placement, true, true, true, true, true, None);
    mv(&mut board, "H1", "H2");
    mv(&mut board, "E8", "E7");
    mv(&mut board, "H2", "H1");
    let king_moves = board.generate_white_king_moves();
    assert!(!king_moves
        .iter()
        .any(|m| m.from == sq("E1") && m.to == sq("G1")));
}

#[test]
fn castling_relocates_the_rook() {
    let mut placement: Vec<Option<(Color, PieceKind)>> = vec![None; 64];
    for (name, color, kind) in [
        ("E1", Color::White, PieceKind::King),
        ("H1", Color::White, PieceKind::Rook),
        ("E8", Color::Black, PieceKind::King),
    ] {
        placement[sq(name).to_i32() as usize] = Some((color, kind));
    }
    let mut board = ChessBoard::from_setup(&placement, true, true, true, true, true, None);
    assert!(board
        .generate_moves()
        .iter()
        .any(|m| m.from == sq("E1") && m.to == sq("G1")));
    mv(&mut board, "E1", "G1");
    assert_eq!(board.piece_at(sq("G1")), Some(PieceKind::King));
    assert_eq!(board.piece_at(sq("F1")), Some(PieceKind::Rook));
    assert_eq!(board.piece_at(sq("H1")), None);
    assert_eq!(board.piece_at(sq("E1")), None);
}

#[test]
fn en_passant_capture_removes_passed_pawn() {
    let mut board = ChessBoard::new();
    mv(&mut board, "E2", "E4");
    mv(&mut board, "A7", "A6");
    mv(&mut board, "E4", "E5");
    mv(&mut board, "D7", "D5");
    let moves = board.generate_moves();
    assert!(moves
        .iter()
        .any(|m| m.from == sq("E5") && m.to == sq("D6")));
    mv(&mut board, "E5", "D6");
    assert_eq!(board.piece_at(sq("D6")), Some(PieceKind::Pawn));
    assert_eq!(board.color_at(sq("D6")), Some(Color::White));
    assert_eq!(board.piece_at(sq("D5")), None);
    assert_eq!(board.piece_at(sq("E5")), None);
}

#[test]
fn promotion_yields_a_queen() {
    let mut placement: Vec<Option<(Color, PieceKind)>> = vec![None; 64];
    for (name, color, kind) in [
        ("A7", Color::White, PieceKind::Pawn),
        ("E1", Color::White, PieceKind::King),
        ("E8", Color::Black, PieceKind::King),
    ] {
        placement[sq(name).to_i32() as usize] = Some((color, kind));
    }
    let mut board = ChessBoard::from_setup(&placement, true, false, false, false, false, None);
    assert!(board
        .generate_moves()
        .iter()
        .any(|m| m.from == sq("A7") && m.to == sq("A8")));
    mv(&mut board, "A7", "A8");
    assert!(board.white_queen.get_square(sq("A8")));
    assert!(!board.white_pawn.get_square(sq("A8")));
    assert_eq!(board.piece_at(sq("A8")), Some(PieceKind::Queen));
    assert_eq!(board.piece_at(sq("A7")), None);
}

#[test]
fn checked_application_rejects_self_check() {
    let mut board = ChessBoard::new();
    mv(&mut board, "F2", "F3");
    mv(&mut board, "E7", "E5");
    mv(&mut board, "G2", "G4");
    mv(&mut board, "D8", "H4");
    // white is mated: any reply leaves the king attacked
    let before = board;
    let result = board.make_move_checked(Move::new(sq("A2"), sq("A3")));
    assert_eq!(result, Err(ChessError::IllegalMove));
    assert_eq!(board, before);
}

#[test]
fn checked_application_accepts_a_legal_move() {
    let mut board = ChessBoard::new();
    let result = board.make_move_checked(Move::new(sq("E2"), sq("E4")));
    assert_eq!(result, Ok(()));
    assert_eq!(board.piece_at(sq("E4")), Some(PieceKind::Pawn));
    assert_eq!(board.piece_at(sq("E2")), None);
    assert!(!board.white_turn);
}

#[test]
fn is_move_valid_spots_exposed_king() {
    let mut board = ChessBoard::new();
    mv(&mut board, "E2", "E4");
    mv(&mut board, "E7", "E5");
    mv(&mut board, "D1", "H5");
    // F7 -> F6 would open the king to the queen on H5
    assert!(!board.is_move_valid(&Move::new(sq("F7"), sq("F6"))));
    assert!(board.is_move_valid(&Move::new(sq("G7"), sq("G6"))));
}

#[test]
fn pawn_threats_cover_both_diagonals() {
    let board = ChessBoard::new();
    let threats = board.generate_white_pawn_threats();
    assert_eq!(threats.len(), 14);
    assert!(threats.iter().any(|s| *s == sq("B3")));
    assert!(threats.iter().any(|s| *s == sq("H3")));
    assert!(!threats.iter().any(|s| *s == sq("A4")));
    let threats = board.generate_black_pawn_threats();
    assert_eq!(threats.len(), 14);
    assert!(threats.iter().any(|s| *s == sq("G6")));
}

#[test]
fn rook_rays_stop_at_blockers() {
    let mut placement: Vec<Option<(Color, PieceKind)>> = vec![None; 64];
    for (name, color, kind) in [
        ("A1", Color::White, PieceKind::Rook),
        ("A4", Color::Black, PieceKind::Pawn),
        ("C1", Color::White, PieceKind::King),
        ("E8", Color::Black, PieceKind::King),
    ] {
        placement[sq(name).to_i32() as usize] = Some((color, kind));
    }
    let board = ChessBoard::from_setup(&placement, true, false, false, false, false, None);
    let rook_moves = board.generate_white_rook_moves();
    // up the file: A2, A3 and the capture on A4; across: only B1 (king blocks)
    assert_eq!(rook_moves.len(), 4);
    assert!(rook_moves.iter().any(|m| m.to == sq("A2")));
    assert!(rook_moves.iter().any(|m| m.to == sq("A3")));
    assert!(rook_moves.iter().any(|m| m.to == sq("A4")));
    assert!(rook_moves.iter().any(|m| m.to == sq("B1")));
    assert!(!rook_moves.iter().any(|m| m.to == sq("A5")));
    assert!(!rook_moves.iter().any(|m| m.to == sq("C1")));
}

#[test]
fn knight_moves_from_corner_and_center() {
    let mut placement: Vec<Option<(Color, PieceKind)>> = vec![None; 64];
    for (name, color, kind) in [
        ("A1", Color::White, PieceKind::Knight),
        ("E4", Color::White, PieceKind::Knight),
        ("H1", Color::White, PieceKind::King),
        ("H8", Color::Black, PieceKind::King),
    ] {
        placement[sq(name).to_i32() as usize] = Some((color, kind));
    }
    let board = ChessBoard::from_setup(&placement, true, false, false, false, false, None);
    let knight_moves = board.generate_white_knight_moves();
    let from_corner = knight_moves.iter().filter(|m| m.from == sq("A1")).count();
    let from_center = knight_moves.iter().filter(|m| m.from == sq("E4")).count();
    assert_eq!(from_corner, 2);
    assert_eq!(from_center, 8);
}

#[test]
fn black_promotion_on_first_rank() {
    let mut placement: Vec<Option<(Color, PieceKind)>> = vec![None; 64];
    for (name, color, kind) in [
        ("H2", Color::Black, PieceKind::Pawn),
        ("A5", Color::White, PieceKind::King),
        ("E8", Color::Black, PieceKind::King),
    ] {
        placement[sq(name).to_i32() as usize] = Some((color, kind));
    }
    let mut board = ChessBoard::from_setup(&placement, false, false, false, false, false, None);
    mv(&mut board, "H2", "H1");
    assert!(board.black_queen.get_square(sq("H1")));
    assert!(!board.black_pawn.get_square(sq("H1")));
    assert!(board.white_turn);
}

#[test]
fn queenside_castle_relocates_the_rook() {
    let mut placement: Vec<Option<(Color, PieceKind)>> = vec![None; 64];
    for (name, color, kind) in [
        ("E1", Color::White, PieceKind::King),
        ("A1", Color::White, PieceKind::Rook),
        ("E8", Color::Black, PieceKind::King),
    ] {
        placement[sq(name).to_i32() as usize] = Some((color, kind));
    }
    let mut board = ChessBoard::from_setup(&placement, true, true, true, true, true, None);
    assert!(board
        .generate_moves()
        .iter()
        .any(|m| m.from == sq("E1") && m.to == sq("C1")));
    mv(&mut board, "E1", "C1");
    assert_eq!(board.piece_at(sq("C1")), Some(PieceKind::King));
    assert_eq!(board.piece_at(sq("D1")), Some(PieceKind::Rook));
    assert_eq!(board.piece_at(sq("A1")), None);
    assert_eq!(board.piece_at(sq("E1")), None);
}

#[test]
fn blocked_pawn_cannot_push_or_jump() {
    let mut board = ChessBoard::new();
    mv(&mut board, "B1", "C3");
    mv(&mut board, "A7", "A6");
    // the knight on C3 blocks the C2 pawn entirely
    assert!(!board.generate_moves().iter().any(|m| m.from == sq("C2")));
}

#[test]
fn initial_king_has_no_moves() {
    let board = ChessBoard::new();
    assert_eq!(board.generate_white_king_moves().len(), 0);
    assert_eq!(board.generate_black_king_moves().len(), 0);
}

#[test]
fn en_passant_needs_the_departed_flag() {
    let mut placement: Vec<Option<(Color, PieceKind)>> = vec![None; 64];
    for (name, color, kind) in [
        ("E1", Color::White, PieceKind::King),
        ("E8", Color::Black, PieceKind::King),
        ("E5", Color::White, PieceKind::Pawn),
        ("D5", Color::Black, PieceKind::Pawn),
    ] {
        placement[sq(name).to_i32() as usize] = Some((color, kind));
    }
    // no en-passant target: the double step is not on record
    let board = ChessBoard::from_setup(&placement, true, true, true, true, true, None);
    assert!(!board
        .generate_moves()
        .iter()
        .any(|m| m.from == sq("E5") && m.to == sq("D6")));
}

#[test]
fn castle_rejected_while_in_check() {
    let mut placement: Vec<Option<(Color, PieceKind)>> = vec![None; 64];
    for (name, color, kind) in [
        ("E1", Color::White, PieceKind::King),
        ("H1", Color::White, PieceKind::Rook),
        ("A8", Color::Black, PieceKind::King),
        ("E8", Color::Black, PieceKind::Rook),
    ] {
        placement[sq(name).to_i32() as usize] = Some((color, kind));
    }
    let board = ChessBoard::from_setup(&placement, true, true, true, true, true, None);
    assert!(board.is_white_checked());
    // the pseudo-legal set still offers the castle; the filter refuses it
    assert!(board
        .generate_white_king_moves()
        .iter()
        .any(|m| m.from == sq("E1") && m.to == sq("G1")));
    assert!(!board.is_move_valid(&Move::new(sq("E1"), sq("G1"))));
    assert!(!board
        .generate_moves()
        .iter()
        .any(|m| m.from == sq("E1") && m.to == sq("G1")));
}

#[test]
fn castle_rejected_when_transit_square_attacked() {
    let mut placement: Vec<Option<(Color, PieceKind)>> = vec![None; 64];
    for (name, color, kind) in [
        ("E1", Color::White, PieceKind::King),
        ("H1", Color::White, PieceKind::Rook),
        ("A8", Color::Black, PieceKind::King),
        ("F8", Color::Black, PieceKind::Rook),
    ] {
        placement[sq(name).to_i32() as usize] = Some((color, kind));
    }
    let board = ChessBoard::from_setup(&placement, true, true, true, true, true, None);
    assert!(!board.is_white_checked());
    // the rook eyes F1, the square the king would cross
    assert!(!board.is_move_valid(&Move::new(sq("E1"), sq("G1"))));
    assert!(!board
        .generate_moves()
        .iter()
        .any(|m| m.from == sq("E1") && m.to == sq("G1")));
    // the king may still step aside
    assert!(board
        .generate_moves()
        .iter()
        .any(|m| m.from == sq("E1") && m.to == sq("D1")));
}
