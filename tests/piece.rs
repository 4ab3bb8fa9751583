use chess_bitboard::Color::{self, Black, White};
use chess_bitboard::PieceType::{Bishop, King, Knight, Pawn, Queen, Rook};
use chess_bitboard::{ColorError, Piece, PieceError};

#[test]
fn test_piece_display()
{
    assert_eq!(Piece { color: White, piece: Pawn }.to_string(), "P");
    assert_eq!(Piece { color: White, piece: Knight }.to_string(), "N");
    assert_eq!(Piece { color: White, piece: Bishop }.to_string(), "B");
    assert_eq!(Piece { color: Black, piece: Rook }.to_string(), "r");
    assert_eq!(Piece { color: Black, piece: Queen }.to_string(), "q");
    assert_eq!(Piece { color: Black, piece: King }.to_string(), "k");
}

#[test]
fn test_piece_from_string()
{
    assert_eq!(Piece::from_str("p").unwrap(), Piece { color: Black, piece: Pawn });
    assert_eq!(Piece::from_str("n").unwrap(), Piece { color: Black, piece: Knight });
    assert_eq!(Piece::from_str("b").unwrap(), Piece { color: Black, piece: Bishop });
    assert_eq!(Piece::from_str("R").unwrap(), Piece { color: White, piece: Rook });
    assert_eq!(Piece::from_str("Q").unwrap(), Piece { color: White, piece: Queen });
    assert_eq!(Piece::from_str("K").unwrap(), Piece { color: White, piece: King });
}

#[test]
fn test_color_from_string()
{
    assert_eq!(Color::from_str("w").unwrap(), White);
    assert_eq!(Color::from_str("b").unwrap(), Black);
    assert!(Color::from_str("invalid_color").is_err());
    assert!(Color::from_str("").is_err());
}

#[test]
fn piece_from_string_rejects_bad_input()
{
    assert_eq!(Piece::from_str(""), Err(PieceError::InvalidLength(0)));
    assert_eq!(Piece::from_str("pp"), Err(PieceError::InvalidLength(2)));
    assert_eq!(Piece::from_str("Kq"), Err(PieceError::InvalidLength(2)));
    assert_eq!(Piece::from_str("x"), Err(PieceError::InvalidPieceLetter('x')));
    assert_eq!(Piece::from_str("1"), Err(PieceError::InvalidPieceLetter('1')));
}

#[test]
fn piece_letters_round_trip()
{
    for letter in ["P", "N", "B", "R", "Q", "K", "p", "n", "b", "r", "q", "k"] {
        let piece = Piece::from_str(letter).unwrap();
        assert_eq!(piece.to_string(), letter);
        assert_eq!(Piece::from_char(piece.to_char()), Some(piece));
    }
}

#[test]
fn color_reads_either_case_and_prints_lower()
{
    assert_eq!(Color::from_str("W"), Ok(White));
    assert_eq!(Color::from_str("B"), Ok(Black));
    assert_eq!(Color::from_str("wb"), Err(ColorError::InvalidColor));
    assert_eq!(White.to_string(), "w");
    assert_eq!(Black.to_string(), "b");
    assert_eq!(Queen.to_string(), "Q");
}

#[test]
fn std_parse_reads_pieces_and_colors()
{
    assert_eq!("n".parse::<Piece>(), Ok(Piece { color: Black, piece: Knight }));
    assert_eq!("b".parse::<Color>(), Ok(Black));
    assert!("".parse::<Piece>().is_err());
}
