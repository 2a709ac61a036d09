use random_fen::board::{Board, Color, Piece, PieceType};
use random_fen::random_fen;

fn field_width(field: &str) -> u32 {
    field
        .chars()
        .map(|c| if let Some(d) = c.to_digit(10) { d } else if c.is_ascii_alphabetic() { 1 } else { 0 })
        .sum()
}

fn check_board_field(fen: &str) {
    let board_field = fen.split(' ').next().unwrap();
    let fields: Vec<&str> = board_field.split('/').collect();
    assert_eq!(fields.len(), 8);
    for f in fields {
        assert_eq!(field_width(f), 8, "field {:?} of {:?}", f, fen);
    }
    assert_eq!(fen.split('/').count(), 8);
}

#[test]
fn kings_in_opposite_corners_fen() {
    let board = Board::with_kings(Color::White, 0, 63);
    assert_eq!(board.to_str_fen(), "7k/8/8/8/8/8/8/K7 w - - 0 1");
    let board = Board::with_kings(Color::Black, 0, 63);
    assert_eq!(board.to_str_fen(), "7k/8/8/8/8/8/8/K7 b - - 0 1");
}

#[test]
fn interior_kings_fen() {
    let board = Board::with_kings(Color::White, 27, 45);
    assert_eq!(board.to_str_fen(), "8/8/5k2/8/3K4/8/8/8 w - - 0 1");
}

#[test]
fn empty_board_fen() {
    assert_eq!(Board::new().to_str_fen(), "8/8/8/8/8/8/8/8 w - - 0 1");
}

#[test]
fn fen_of_mixed_rank() {
    let mut board = Board::new();
    board.squares[0] = Some(Piece { piece_type: PieceType::Rook, color: Color::White });
    board.squares[1] = Some(Piece { piece_type: PieceType::Knight, color: Color::White });
    board.squares[4] = Some(Piece { piece_type: PieceType::King, color: Color::White });
    board.squares[7] = Some(Piece { piece_type: PieceType::Rook, color: Color::White });
    board.squares[52] = Some(Piece { piece_type: PieceType::Pawn, color: Color::Black });
    board.squares[58] = Some(Piece { piece_type: PieceType::Bishop, color: Color::Black });
    board.squares[59] = Some(Piece { piece_type: PieceType::Queen, color: Color::Black });
    board.turn = Color::Black;
    assert_eq!(board.to_str_fen(), "2bq4/4p3/8/8/8/8/8/RN2K2R b - - 0 1");
    check_board_field(&board.to_str_fen());
}

#[test]
fn random_fen_fields_sum_to_eight() {
    for _ in 0..1000 {
        check_board_field(&random_fen());
    }
}

#[test]
fn random_board_turn_char_matches() {
    let mut rng = rand::rng();
    for _ in 0..200 {
        let board = Board::random(&mut rng);
        let fen = board.to_str_fen();
        let turn = fen.split(' ').nth(1).unwrap();
        match board.turn {
            Color::White => assert_eq!(turn, "w"),
            Color::Black => assert_eq!(turn, "b"),
        }
    }
}

#[test]
fn random_fen_has_fixed_suffix() {
    for _ in 0..1000 {
        let fen = random_fen();
        assert!(fen.ends_with(" - - 0 1"), "{}", fen);
        let turn = fen.split(' ').nth(1).unwrap();
        assert!(turn == "w" || turn == "b");
    }
}

#[test]
fn piece_letters() {
    let kinds = [
        (PieceType::Pawn, b'p'),
        (PieceType::Rook, b'r'),
        (PieceType::Knight, b'n'),
        (PieceType::Bishop, b'b'),
        (PieceType::Queen, b'q'),
        (PieceType::King, b'k'),
    ];
    for (kind, letter) in kinds {
        assert_eq!(Piece { piece_type: kind, color: Color::Black }.to_char(), letter);
        assert_eq!(
            Piece { piece_type: kind, color: Color::White }.to_char(),
            letter.to_ascii_uppercase()
        );
    }
}

#[test]
fn grid_rendering() {
    let board = Board::with_kings(Color::Black, 0, 63);
    let expected = ".......k\n........\n........\n........\n........\n........\n........\nK.......\nTurn: Black";
    assert_eq!(board.to_str(), expected);
    let empty = "........\n".repeat(8) + "Turn: White";
    assert_eq!(Board::new().to_str(), empty);
}
