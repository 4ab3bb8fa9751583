use chess_bitboard::{
    BitBoard, BitBoardState, BitBoardType, CastleError, FenError, FenField, GameState, Piece,
    Square,
};

#[test]
fn test_start_of_game_state()
{
    let board = BitBoardState::start_of_game();
    for bitboard_type in BitBoardType::all() {
        let bitboard = board.bitboard(&bitboard_type);
        assert_eq!(bitboard, BitBoard::default_from_type(&bitboard_type))
    }
}

#[test]
fn test_into_piece_array()
{
    let array = BitBoardState::start_of_game().as_piece_array();

    let white_pawn = Piece::from_str("P").unwrap();
    let white_knight = Piece::from_str("N").unwrap();
    let white_rook = Piece::from_str("R").unwrap();
    let white_king = Piece::from_str("K").unwrap();
    let black_pawn = Piece::from_str("p").unwrap();
    let black_rook = Piece::from_str("r").unwrap();
    let black_bishop = Piece::from_str("b").unwrap();
    let black_queen = Piece::from_str("q").unwrap();

    assert_eq!(array[0], Some(white_rook));
    assert_eq!(array[7], Some(white_rook));
    assert_eq!(array[8], Some(white_pawn));
    assert_eq!(array[15], Some(white_pawn));
    assert_eq!(array[63], Some(black_rook));
    assert_eq!(array[56], Some(black_rook));
    assert_eq!(array[55], Some(black_pawn));
    assert_eq!(array[48], Some(black_pawn));

    assert_eq!(array[4], Some(white_king));
    assert_eq!(array[59], Some(black_queen));
    assert_eq!(array[1], Some(white_knight));
    assert_eq!(array[61], Some(black_bishop));

    assert_eq!(array[16], None);
    assert_eq!(array[47], None);
    assert_eq!(array[30], None);
    assert_eq!(array[40], None);
}

#[test]
fn test_board_display()
{
    let board = BitBoardState::start_of_game();
    let mut target = String::new();
    target.push_str("r n b q k b n r \n");
    target.push_str("p p p p p p p p \n");
    target.push_str("                \n");
    target.push_str("                \n");
    target.push_str("                \n");
    target.push_str("                \n");
    target.push_str("P P P P P P P P \n");
    target.push_str("R N B Q K B N R \n");

    assert_eq!(board.to_string(), target.to_string())
}

#[test]
fn test_bitboard_state_to_fen()
{
    let board = BitBoardState::start_of_game();
    let target = "rnbqkbnr/pppppppp/8/8/8/8/PPPPPPPP/RNBQKBNR w KQkq - 0 1";

    assert_eq!(board.as_fen(), target.to_string())
}

#[test]
fn test_bitboard_state_from_fen()
{
    let tests = vec![
        "rnbqkbnr/pppppppp/8/8/8/8/PPPPPPPP/RNBQKBNR w KQkq - 0 1",
        "rnbqkbnr/pp1ppppp/8/2p5/4P3/5N2/PPPP1PPP/RNBQKB1R b KQkq - 1 2",
    ];

    for test in tests {
        let board = BitBoardState::from_fen(test).unwrap();
        assert_eq!(board.as_fen(), test.to_string())
    }
}

#[test]
fn start_layout_matches_opening_position()
{
    let array = BitBoardState::start_of_game().as_piece_array();
    let back = ["R", "N", "B", "Q", "K", "B", "N", "R"];
    for file in 0..8 {
        assert_eq!(array[file], Some(Piece::from_str(back[file]).unwrap()));
        assert_eq!(array[8 + file], Some(Piece::from_str("P").unwrap()));
        assert_eq!(array[48 + file], Some(Piece::from_str("p").unwrap()));
        let lower = back[file].to_lowercase();
        assert_eq!(array[56 + file], Some(Piece::from_str(&lower).unwrap()));
    }
    for square in 16..48 {
        assert_eq!(array[square], None);
    }
}

#[test]
fn display_of_start_has_eight_lines_of_sixteen()
{
    let text = BitBoardState::start_of_game().to_string();
    let lines: Vec<&str> = text.split_terminator('\n').collect();
    assert_eq!(lines.len(), 8);
    for line in &lines {
        assert_eq!(line.chars().count(), 16);
    }
    assert_eq!(lines[0], "r n b q k b n r ");
    assert_eq!(lines[7], "R N B Q K B N R ");
    assert_eq!(lines[3], "                ");
}

#[test]
fn new_state_is_empty_with_new_game_metadata()
{
    let board = BitBoardState::new();
    assert_eq!(board.as_fen(), "8/8/8/8/8/8/8/8 w KQkq - 0 1");
    assert!(board.as_piece_array().iter().all(|p| p.is_none()));
}

#[test]
fn fen_keeps_en_passant_and_counters()
{
    let fen = "rnbqkbnr/pppppppp/8/8/4P3/8/PPPP1PPP/RNBQKBNR b KQkq e3 12 345";
    let board = BitBoardState::from_fen(fen).unwrap();
    assert_eq!(board.en_passant_target, Some(Square { file: 5, rank: 3 }));
    assert_eq!(board.halfmove_clock, 12);
    assert_eq!(board.move_number, 345);
    assert_eq!(board.as_fen(), fen);
}

#[test]
fn fen_reads_largest_counters()
{
    let board = BitBoardState::from_fen("8/8/8/8/8/8/8/8 w - - 255 65535").unwrap();
    assert_eq!(board.halfmove_clock, 255);
    assert_eq!(board.move_number, 65535);
    assert_eq!(board.as_fen(), "8/8/8/8/8/8/8/8 w - - 255 65535");
}

#[test]
fn fen_splits_on_any_white_space_and_ignores_extra_fields()
{
    let fen = "  rnbqkbnr/pppppppp/8/8/8/8/PPPPPPPP/RNBQKBNR\tw \n KQkq  -  0 1 extra";
    let board = BitBoardState::from_fen(fen).unwrap();
    assert_eq!(board.as_fen(), "rnbqkbnr/pppppppp/8/8/8/8/PPPPPPPP/RNBQKBNR w KQkq - 0 1");
}

#[test]
fn fen_reads_plus_sign_and_leading_zeros()
{
    let board = BitBoardState::from_fen("8/8/8/8/8/8/8/8 B kq - +7 007").unwrap();
    assert_eq!(board.as_fen(), "8/8/8/8/8/8/8/8 b kq - 7 7");
}

#[test]
fn fen_treats_unreadable_en_passant_as_absent()
{
    for ep in ["-", "zz", "e9", "e33", "E3"] {
        let fen = format!("8/8/8/8/8/8/8/8 w KQkq {} 0 1", ep);
        let board = BitBoardState::from_fen(&fen).unwrap();
        assert_eq!(board.en_passant_target, None);
        assert_eq!(board.as_fen(), "8/8/8/8/8/8/8/8 w KQkq - 0 1");
    }
}

#[test]
fn fen_with_missing_fields_names_the_first_missing()
{
    let cases = [
        ("", FenField::Placement),
        ("   ", FenField::Placement),
        ("8/8/8/8/8/8/8/8", FenField::SideToMove),
        ("8/8/8/8/8/8/8/8 w", FenField::Castling),
        ("8/8/8/8/8/8/8/8 w KQkq", FenField::EnPassant),
        ("8/8/8/8/8/8/8/8 w KQkq -", FenField::HalfmoveClock),
        ("8/8/8/8/8/8/8/8 w KQkq - 0", FenField::MoveNumber),
    ];
    for (fen, field) in cases {
        assert_eq!(BitBoardState::from_fen(fen).err(), Some(FenError::MalformedFen(field)));
    }
    assert_eq!(
        BitBoardState::from_fen("8/8/8/8/8/8/8/8 x").err(),
        Some(FenError::MalformedFen(FenField::Castling))
    );
}

#[test]
fn fen_field_errors()
{
    let err = |s: &str| BitBoardState::from_fen(s).err();
    assert_eq!(err("8/8/8/8/8/8/8/8 x KQkq - 0 1"), Some(FenError::InvalidColor));
    assert_eq!(err("8/8/8/8/8/8/8/8 white KQkq - 0 1"), Some(FenError::InvalidColor));
    assert_eq!(
        err("8/8/8/8/8/8/8/8 w KQkqK - 0 1"),
        Some(FenError::InvalidCastling(CastleError::TooLong))
    );
    assert_eq!(
        err("8/8/8/8/8/8/8/8 w KX - 0 1"),
        Some(FenError::InvalidCastling(CastleError::UnknownCastleSymbol('X')))
    );
    assert_eq!(err("8/8/8/8/8/8/8/8 w KQkq - 256 1"), Some(FenError::InvalidHalfmoveClock));
    assert_eq!(err("8/8/8/8/8/8/8/8 w KQkq - -1 1"), Some(FenError::InvalidHalfmoveClock));
    assert_eq!(err("8/8/8/8/8/8/8/8 w KQkq - a 1"), Some(FenError::InvalidHalfmoveClock));
    assert_eq!(err("8/8/8/8/8/8/8/8 w KQkq - 0 0"), Some(FenError::InvalidMoveNumber));
    assert_eq!(err("8/8/8/8/8/8/8/8 w KQkq - 0 65536"), Some(FenError::InvalidMoveNumber));
    assert_eq!(err("8/8/8/8/8/8/8/8 w KQkq - 0 +"), Some(FenError::InvalidMoveNumber));
    assert_eq!(err("8/8/8/8/8/8/8/7x w KQkq - 0 1"), Some(FenError::InvalidPieceChar('x')));
    assert_eq!(err("8/8/8/8/8/8/8/9 w KQkq - 0 1"), Some(FenError::InvalidPieceChar('9')));
    assert_eq!(err("8/8/8/8/8/8/8/8/p w KQkq - 0 1"), Some(FenError::RankOverflow));
    assert_eq!(err("8/8/8/8/8/8/8/8/1 w KQkq - 0 1"), Some(FenError::RankOverflow));
}

#[test]
fn fen_checks_fields_before_placement()
{
    assert_eq!(
        BitBoardState::from_fen("8/8/8/8/8/8/8/7x q KQkq - 0 1").err(),
        Some(FenError::InvalidColor)
    );
    assert_eq!(
        BitBoardState::from_fen("8/8/8/8/8/8/8/7x w KQkq - 0 0").err(),
        Some(FenError::InvalidMoveNumber)
    );
}

#[test]
fn fen_places_pieces_by_rank_from_the_top()
{
    let board = BitBoardState::from_fen("k7/8/8/8/8/8/8/7K w - - 0 1").unwrap();
    let array = board.as_piece_array();
    assert_eq!(array[56], Some(Piece::from_str("k").unwrap()));
    assert_eq!(array[7], Some(Piece::from_str("K").unwrap()));
    assert_eq!(array.iter().filter(|p| p.is_some()).count(), 2);
    assert_eq!(board.as_fen(), "k7/8/8/8/8/8/8/7K w - - 0 1");
}

#[test]
fn fen_without_separators_still_fills_squares_in_order()
{
    let board = BitBoardState::from_fen("8888888K w - - 0 1").unwrap();
    assert_eq!(board.as_fen(), "8/8/8/8/8/8/8/K7 w - - 0 1");
}

#[test]
fn default_state_is_start_of_game()
{
    let board = BitBoardState::default();
    assert_eq!(board.as_fen(), BitBoardState::start_of_game().as_fen());
}
