use chess_bitboard::{CastleAvailability, CastleError, Square, SquareError};

#[test]
fn test_castle_availability_from_string()
{
    let tests = vec!["KQkq", "Kkq", "kq", "q"];

    for test in tests {
        assert_eq!(CastleAvailability::from_str(test).unwrap().to_string(), test)
    }

    assert!(CastleAvailability::from_str("invalid").is_err());
    assert!(CastleAvailability::from_str("KQKQKQ").is_err())
}

#[test]
fn test_square_to_string()
{
    assert_eq!(Square { file: 5, rank: 4 }.to_string(), "e4");
    assert_eq!(Square { file: 3, rank: 4 }.to_string(), "c4");
    assert_eq!(Square { file: 8, rank: 8 }.to_string(), "h8");
    assert_eq!(Square { file: 5, rank: 2 }.to_string(), "e2");
    assert_eq!(Square { file: 1, rank: 1 }.to_string(), "a1");
}

#[test]
fn test_square_from_string()
{
    let tests = vec!["e4", "c5", "a4", "g7", "b3"];

    for test in tests {
        assert_eq!(Square::from_str(test).unwrap().to_string(), test)
    }

    assert!(Square::from_str("invalid").is_err());
    assert!(Square::from_str("").is_err())
}

#[test]
fn castle_dash_round_trips()
{
    let none = CastleAvailability::from_str("-").unwrap();
    assert_eq!(none, CastleAvailability { white: (false, false), black: (false, false) });
    assert_eq!(none.to_string(), "-");
    assert_eq!(CastleAvailability::from_str("").unwrap().to_string(), "-");
}

#[test]
fn castle_errors_and_duplicates()
{
    assert_eq!(CastleAvailability::from_str("invalid"), Err(CastleError::TooLong));
    assert_eq!(CastleAvailability::from_str("KQKQKQ"), Err(CastleError::TooLong));
    assert_eq!(CastleAvailability::from_str("Kx"), Err(CastleError::UnknownCastleSymbol('x')));
    assert_eq!(CastleAvailability::from_str("--"), Err(CastleError::UnknownCastleSymbol('-')));
    let twice = CastleAvailability::from_str("KK").unwrap();
    assert_eq!(twice, CastleAvailability { white: (true, false), black: (false, false) });
    assert_eq!(CastleAvailability::from_str("qkQK").unwrap().to_string(), "KQkq");
    assert_eq!(CastleAvailability::default().to_string(), "KQkq");
}

#[test]
fn square_errors()
{
    assert_eq!(Square::from_str("e"), Err(SquareError::InvalidLength));
    assert_eq!(Square::from_str("i1"), Err(SquareError::OutOfRange));
    assert_eq!(Square::from_str("a9"), Err(SquareError::OutOfRange));
    assert_eq!(Square::from_str("a0"), Err(SquareError::OutOfRange));
    assert_eq!(Square::from_str("A1"), Err(SquareError::OutOfRange));
    assert_eq!(Square::from_str("h8"), Ok(Square { file: 8, rank: 8 }));
}

#[test]
fn std_parse_reads_squares_and_castling()
{
    assert_eq!("c5".parse::<Square>(), Ok(Square { file: 3, rank: 5 }));
    assert_eq!("z5".parse::<Square>(), Err(SquareError::OutOfRange));
    assert_eq!("Qk".parse::<CastleAvailability>().unwrap().to_string(), "Qk");
}
