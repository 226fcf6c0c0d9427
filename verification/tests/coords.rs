use chess::ChessError;
use chess::Square;
use chess::square_from_i32;
use chess::square_from_string;

#[test]
fn it_works() {
    let result = chess::add(2, 2);
    assert_eq!(result, 4);
}

#[test]
fn notation_renders_file_and_rank() {
    assert_eq!(Square::new(0, 0).to_string(), "A1");
    assert_eq!(Square::new(3, 4).to_string(), "E4");
    assert_eq!(Square::new(7, 7).to_string(), "H8");
    assert_eq!(Square::new(6, 3).to_string(), "D7");
}

#[test]
fn notation_parses() {
    assert_eq!(square_from_string("E4".to_string()), Ok(Square::new(3, 4)));
    assert_eq!(square_from_string("A1".to_string()), Ok(Square::new(0, 0)));
    assert_eq!(square_from_string("H8".to_string()), Ok(Square::new(7, 7)));
}

#[test]
fn notation_round_trip_all_squares() {
    for row in 0..8 {
        for column in 0..8 {
            let sq = Square::new(row, column);
            let parsed = square_from_string(sq.to_string()).unwrap();
            assert_eq!(parsed, sq);
        }
    }
}

#[test]
fn malformed_notation_is_rejected() {
    assert_eq!(
        square_from_string(String::new()),
        Err(ChessError::MalformedCoordinate)
    );
    assert_eq!(
        square_from_string("E".to_string()),
        Err(ChessError::MalformedCoordinate)
    );
    assert_eq!(
        square_from_string("E44".to_string()),
        Err(ChessError::MalformedCoordinate)
    );
    assert_eq!(
        square_from_string("I4".to_string()),
        Err(ChessError::MalformedCoordinate)
    );
    assert_eq!(
        square_from_string("E9".to_string()),
        Err(ChessError::MalformedCoordinate)
    );
    assert_eq!(
        square_from_string("E0".to_string()),
        Err(ChessError::MalformedCoordinate)
    );
    assert_eq!(
        square_from_string("e4".to_string()),
        Err(ChessError::MalformedCoordinate)
    );
    assert_eq!(
        square_from_string("4E".to_string()),
        Err(ChessError::MalformedCoordinate)
    );
}

#[test]
fn linear_index_round_trip() {
    for i in 0..64 {
        let sq = square_from_i32(i);
        assert!(sq.is_valid());
        assert_eq!(sq.to_i32(), i);
    }
    assert_eq!(square_from_i32(12).row, 1);
    assert_eq!(square_from_i32(12).column, 4);
}

#[test]
fn validity_bounds() {
    assert!(Square::new(0, 0).is_valid());
    assert!(Square::new(7, 7).is_valid());
    assert!(!Square::new(-1, 0).is_valid());
    assert!(!Square::new(0, 8).is_valid());
    assert!(!Square::new(8, 3).is_valid());
}
