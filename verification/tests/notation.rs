use terminal_chess::model::{starting_board, Board, BoardSpot, Color, Info, Piece, PieceType, Position};
use terminal_chess::notation::{get_info, letter_to_column, translate_notation, unwrap_array, Columns, ParseError};

fn bare_board() -> Board {
    [[BoardSpot::Blank; 8]; 8]
}

fn pawn_on(line: usize, column: usize, color: Color) -> Info {
    Info {
        position: Position { line, column },
        piece: BoardSpot::Piece(Piece { piece_type: PieceType::Pawn, color }),
    }
}

fn blank_on(line: usize, column: usize) -> Info {
    Info { position: Position { line, column }, piece: BoardSpot::Blank }
}

#[test]
fn letters_name_columns() {
    assert_eq!(letter_to_column('a'), Some(Columns::A));
    assert_eq!(letter_to_column('b'), Some(Columns::B));
    assert_eq!(letter_to_column('c'), Some(Columns::C));
    assert_eq!(letter_to_column('d'), Some(Columns::D));
    assert_eq!(letter_to_column('e'), Some(Columns::E));
    assert_eq!(letter_to_column('f'), Some(Columns::F));
    assert_eq!(letter_to_column('g'), Some(Columns::G));
    assert_eq!(letter_to_column('h'), Some(Columns::H));
}

#[test]
fn other_characters_name_no_column() {
    for letter in ['i', 'A', 'H', '1', ' ', '`', '\u{e9}'] {
        assert_eq!(letter_to_column(letter), None);
    }
}

#[test]
fn columns_are_numbered_from_zero() {
    let columns = [
        Columns::A,
        Columns::B,
        Columns::C,
        Columns::D,
        Columns::E,
        Columns::F,
        Columns::G,
        Columns::H,
    ];
    for (number, column) in columns.iter().enumerate() {
        assert_eq!(column.index(), number);
    }
}

#[test]
fn a_square_is_read_with_its_occupant() {
    let board = starting_board();
    assert_eq!(translate_notation(&board, "e2"), Ok(pawn_on(1, 4, Color::White)));
    assert_eq!(translate_notation(&board, "h7"), Ok(pawn_on(6, 7, Color::Black)));
    assert_eq!(translate_notation(&board, "e4"), Ok(blank_on(3, 4)));
    assert_eq!(
        translate_notation(&board, "a1"),
        Ok(Info {
            position: Position { line: 0, column: 0 },
            piece: BoardSpot::Piece(Piece { piece_type: PieceType::Rook, color: Color::White }),
        })
    );
    assert_eq!(
        translate_notation(&board, "h8"),
        Ok(Info {
            position: Position { line: 7, column: 7 },
            piece: BoardSpot::Piece(Piece { piece_type: PieceType::Rook, color: Color::Black }),
        })
    );
}

#[test]
fn every_square_name_is_read() {
    let board = bare_board();
    for (column, letter) in "abcdefgh".chars().enumerate() {
        for (line, digit) in "12345678".chars().enumerate() {
            let name = format!("{}{}", letter, digit);
            assert_eq!(translate_notation(&board, &name), Ok(blank_on(line, column)));
        }
    }
}

#[test]
fn what_follows_the_square_is_ignored() {
    let board = starting_board();
    assert_eq!(translate_notation(&board, "e2xyz"), Ok(pawn_on(1, 4, Color::White)));
    assert_eq!(translate_notation(&board, "e29"), Ok(pawn_on(1, 4, Color::White)));
}

#[test]
fn a_short_text_names_no_square() {
    let board = starting_board();
    assert_eq!(translate_notation(&board, ""), Err(ParseError::TooShort));
    assert_eq!(translate_notation(&board, "e"), Err(ParseError::TooShort));
    assert_eq!(translate_notation(&board, "9"), Err(ParseError::TooShort));
}

#[test]
fn a_wrong_letter_is_an_invalid_column() {
    let board = starting_board();
    assert_eq!(translate_notation(&board, "i2"), Err(ParseError::InvalidColumn));
    assert_eq!(translate_notation(&board, "E2"), Err(ParseError::InvalidColumn));
    assert_eq!(translate_notation(&board, "22"), Err(ParseError::InvalidColumn));
    assert_eq!(translate_notation(&board, " e2"), Err(ParseError::InvalidColumn));
    assert_eq!(translate_notation(&board, "z9"), Err(ParseError::InvalidColumn));
}

#[test]
fn a_wrong_digit_is_an_invalid_line() {
    let board = starting_board();
    assert_eq!(translate_notation(&board, "e0"), Err(ParseError::InvalidLine));
    assert_eq!(translate_notation(&board, "e9"), Err(ParseError::InvalidLine));
    assert_eq!(translate_notation(&board, "ee"), Err(ParseError::InvalidLine));
    assert_eq!(translate_notation(&board, "e "), Err(ParseError::InvalidLine));
    assert_eq!(translate_notation(&board, "e\u{663}"), Err(ParseError::InvalidLine));
}

#[test]
fn a_move_is_read_as_two_squares() {
    let board = starting_board();
    assert_eq!(
        get_info(&board, String::from("e2,e4")),
        [Ok(pawn_on(1, 4, Color::White)), Ok(blank_on(3, 4))]
    );
}

#[test]
fn whitespace_around_the_squares_is_dropped() {
    let board = starting_board();
    let expected = [Ok(pawn_on(1, 4, Color::White)), Ok(blank_on(3, 4))];
    assert_eq!(get_info(&board, String::from("e2, e4\n")), expected);
    assert_eq!(get_info(&board, String::from("  e2 ,\te4 \r\n")), expected);
    assert_eq!(get_info(&board, String::from("\u{a0}e2\u{2003},\u{3000}e4\u{85}")), expected);
}

#[test]
fn whitespace_inside_a_square_is_kept() {
    let board = starting_board();
    assert_eq!(
        get_info(&board, String::from("e 2,e4")),
        [Err(ParseError::InvalidLine), Ok(blank_on(3, 4))]
    );
}

#[test]
fn a_move_without_comma_has_no_destination() {
    let board = starting_board();
    assert_eq!(
        get_info(&board, String::from("e2")),
        [Ok(pawn_on(1, 4, Color::White)), Err(ParseError::TooShort)]
    );
    assert_eq!(
        get_info(&board, String::from("e2 e4\n")),
        [Ok(pawn_on(1, 4, Color::White)), Err(ParseError::TooShort)]
    );
    assert_eq!(
        get_info(&board, String::from("")),
        [Err(ParseError::TooShort), Err(ParseError::TooShort)]
    );
}

#[test]
fn what_follows_a_second_comma_is_ignored() {
    let board = starting_board();
    assert_eq!(
        get_info(&board, String::from("e2,e4,zz")),
        [Ok(pawn_on(1, 4, Color::White)), Ok(blank_on(3, 4))]
    );
    assert_eq!(
        get_info(&board, String::from("e2,,e4")),
        [Ok(pawn_on(1, 4, Color::White)), Err(ParseError::TooShort)]
    );
    assert_eq!(
        get_info(&board, String::from(",e4")),
        [Err(ParseError::TooShort), Ok(blank_on(3, 4))]
    );
}

#[test]
fn each_square_of_a_move_fails_by_itself() {
    let board = starting_board();
    assert_eq!(
        get_info(&board, String::from("x2,e9")),
        [Err(ParseError::InvalidColumn), Err(ParseError::InvalidLine)]
    );
    assert_eq!(
        get_info(&board, String::from("e2,\u{e9}4")),
        [Ok(pawn_on(1, 4, Color::White)), Err(ParseError::InvalidColumn)]
    );
}

#[test]
fn two_squares_are_unwrapped_together() {
    let start = pawn_on(1, 4, Color::White);
    let end = blank_on(3, 4);
    assert_eq!(unwrap_array(&[Ok(start), Ok(end)]), Ok([start, end]));
}

#[test]
fn the_first_error_of_a_move_is_kept() {
    let start = pawn_on(1, 4, Color::White);
    assert_eq!(
        unwrap_array(&[Err(ParseError::InvalidColumn), Ok(start)]),
        Err(ParseError::InvalidColumn)
    );
    assert_eq!(
        unwrap_array(&[Ok(start), Err(ParseError::InvalidLine)]),
        Err(ParseError::InvalidLine)
    );
    assert_eq!(
        unwrap_array(&[Err(ParseError::TooShort), Err(ParseError::InvalidLine)]),
        Err(ParseError::TooShort)
    );
}

#[test]
fn whitespace_is_what_the_standard_library_calls_whitespace() {
    let board = starting_board();
    for code in 0..=0x3100u32 {
        if code == 0x2C {
            continue;
        }
        if let Some(c) = char::from_u32(code) {
            let read = get_info(&board, format!("{}e2{},{}e4{}", c, c, c, c));
            assert_eq!(read[0].is_ok(), c.is_whitespace(), "U+{:04X}", code);
            assert_eq!(read[1].is_ok(), c.is_whitespace(), "U+{:04X}", code);
        }
    }
    for c in ['\u{feff}', '\u{200b}', '\u{e000}', '\u{10ffff}'] {
        let read = get_info(&board, format!("{}e2,e4", c));
        assert_eq!(read[0], Err(ParseError::InvalidColumn));
    }
}
