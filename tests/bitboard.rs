use chess_bitboard::Color::{Black, White};
use chess_bitboard::PieceType::{Bishop, Pawn, Queen};
use chess_bitboard::{BitBoard, BitBoardType, Piece};

#[test]
fn test_empty_bitboard_returns_no_pieces_in_array()
{
    let array = BitBoard::empty().into_piece_array(Piece { color: White, piece: Pawn });

    for piece in array.iter() {
        assert!(piece.is_none())
    }
}

#[test]
fn test_bitboard_returns_correct_pieces_in_array()
{
    let white_bishop = Piece { color: White, piece: Bishop };

    let array = BitBoard::new(0b00100100).into_piece_array(white_bishop);

    assert_eq!(array[2], Some(white_bishop));
    assert_eq!(array[5], Some(white_bishop));
    assert_eq!(array[6], None);
    assert_eq!(array[4], None);
    assert_eq!(array[0], None);
}

#[test]
fn empty_mask_of_every_kind_gives_no_pieces()
{
    let kinds = BitBoardType::all();
    assert_eq!(kinds.len(), 12);
    for kind in kinds {
        let array = BitBoard::empty().into_piece_array(kind.get_piece());
        assert!(array.iter().all(|p| p.is_none()));
    }
}

#[test]
fn highest_bit_marks_last_square()
{
    let black_queen = Piece { color: Black, piece: Queen };
    let array = BitBoard::new(1u64 << 63).into_piece_array(black_queen);
    assert_eq!(array[63], Some(black_queen));
    assert_eq!(array.iter().filter(|p| p.is_some()).count(), 1);
}

#[test]
fn full_mask_marks_every_square()
{
    let white_pawn = Piece { color: White, piece: Pawn };
    let array = BitBoard::new(u64::MAX).into_piece_array(white_pawn);
    assert!(array.iter().all(|p| *p == Some(white_pawn)));
}

#[test]
fn starting_masks_have_expected_bits()
{
    assert_eq!(BitBoard::default_from_type(&BitBoardType::WhitePawns).bits, 0xff00);
    assert_eq!(BitBoard::default_from_type(&BitBoardType::WhiteRooks).bits, 0x81);
    assert_eq!(BitBoard::default_from_type(&BitBoardType::WhiteKings).bits, 0x10);
    assert_eq!(BitBoard::default_from_type(&BitBoardType::BlackPawns).bits, 0x00ff_0000_0000_0000);
    assert_eq!(BitBoard::default_from_type(&BitBoardType::BlackKnights).bits, 0x4200_0000_0000_0000);
    assert_eq!(BitBoard::default_from_type(&BitBoardType::BlackQueens).bits, 0x0800_0000_0000_0000);
}

#[test]
fn kinds_map_to_their_pieces_and_back()
{
    for (i, kind) in BitBoardType::all().into_iter().enumerate() {
        assert_eq!(kind.index(), i);
        assert_eq!(BitBoardType::from_index(i), kind);
        assert_eq!(BitBoardType::from_piece(kind.get_piece()), kind);
    }
    assert_eq!(BitBoardType::BlackBishops.get_piece(), Piece { color: Black, piece: Bishop });
}
