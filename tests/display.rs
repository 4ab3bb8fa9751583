use chess_bitboard::convert_to_chess_pieces;

#[test]
fn test_convert_to_chess_pieces()
{
    let mut source = String::new();
    source.push_str("r n b q k b n r \n");
    source.push_str("p p p p p p p p \n");
    source.push_str("                \n");
    source.push_str("                \n");
    source.push_str("                \n");
    source.push_str("                \n");
    source.push_str("P P P P P P P P \n");
    source.push_str("R N B Q K B N R \n");

    let mut target = String::new();
    target.push_str("♜ ♞ ♝ ♛ ♚ ♝ ♞ ♜ \n");
    target.push_str("♟︎ ♟︎ ♟︎ ♟︎ ♟︎ ♟︎ ♟︎ ♟︎ \n");
    target.push_str("                \n");
    target.push_str("                \n");
    target.push_str("                \n");
    target.push_str("                \n");
    target.push_str("♙ ♙ ♙ ♙ ♙ ♙ ♙ ♙ \n");
    target.push_str("♖ ♘ ♗ ♕ ♔ ♗ ♘ ♖ \n");

    assert_eq!(convert_to_chess_pieces(&source), target)
}

#[test]
fn other_characters_are_kept()
{
    assert_eq!(convert_to_chess_pieces(""), "");
    assert_eq!(convert_to_chess_pieces("a1 x/Z"), "a1 x/Z");
    assert_eq!(convert_to_chess_pieces("Kk"), "\u{2654}\u{265a}");
    assert_eq!(convert_to_chess_pieces("p."), "\u{265f}\u{fe0e}.");
}
