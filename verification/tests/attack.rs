use terminal_chess::attack::{
    find_all_one_color_pieces, find_king, generate_all_pieces_possible_movements,
    is_attacked, is_in_check, squares_attacked_by, verify_if_was_check, BoardError,
};
use terminal_chess::model::{
    contains_position, starting_board, Board, BoardSpot, Color, Info, Piece, PieceType, Position,
};

fn blank_board() -> Board {
    [[BoardSpot::Blank; 8]; 8]
}

fn spot(piece_type: PieceType, color: Color) -> BoardSpot {
    BoardSpot::Piece(Piece { piece_type, color })
}

fn square(line: usize, column: usize) -> Position {
    Position { line, column }
}

fn as_pairs(positions: &[Position]) -> Vec<(usize, usize)> {
    let mut pairs: Vec<(usize, usize)> = positions.iter().map(|p| (p.line, p.column)).collect();
    pairs.sort();
    pairs.dedup();
    pairs
}

#[test]
fn pieces_of_a_side_come_in_board_order() {
    let board = starting_board();
    let white = find_all_one_color_pieces(&board, Color::White);
    assert_eq!(white.len(), 16);
    for (index, info) in white.iter().enumerate() {
        assert_eq!(info.position, square(index / 8, index % 8));
        assert_eq!(info.piece, board[index / 8][index % 8]);
    }
    let black = find_all_one_color_pieces(&board, Color::Black);
    assert_eq!(black.len(), 16);
    for (index, info) in black.iter().enumerate() {
        assert_eq!(info.position, square(6 + index / 8, index % 8));
        assert_eq!(info.piece, board[6 + index / 8][index % 8]);
    }
}

#[test]
fn pieces_of_the_other_side_are_left_out() {
    let mut board = blank_board();
    board[4][2] = spot(PieceType::Queen, Color::Black);
    board[2][6] = spot(PieceType::Pawn, Color::White);
    board[2][1] = spot(PieceType::King, Color::White);
    assert_eq!(
        find_all_one_color_pieces(&board, Color::White),
        vec![
            Info { position: square(2, 1), piece: spot(PieceType::King, Color::White) },
            Info { position: square(2, 6), piece: spot(PieceType::Pawn, Color::White) },
        ]
    );
    assert_eq!(
        find_all_one_color_pieces(&board, Color::Black),
        vec![Info { position: square(4, 2), piece: spot(PieceType::Queen, Color::Black) }]
    );
}

#[test]
fn an_empty_board_has_no_pieces() {
    let board = blank_board();
    assert_eq!(find_all_one_color_pieces(&board, Color::White), vec![]);
    assert_eq!(find_all_one_color_pieces(&board, Color::Black), vec![]);
    assert_eq!(squares_attacked_by(&board, Color::White), vec![]);
}

#[test]
fn movements_of_several_pieces_are_joined() {
    let board = starting_board();
    let infos = vec![
        Info { position: square(0, 1), piece: board[0][1] },
        Info { position: square(3, 3), piece: BoardSpot::Blank },
        Info { position: square(1, 0), piece: board[1][0] },
    ];
    let all = generate_all_pieces_possible_movements(&board, infos);
    assert_eq!(all.len(), 4);
    assert_eq!(as_pairs(&all), vec![(2, 0), (2, 2), (3, 0)]);
}

#[test]
fn movements_of_no_pieces_are_none() {
    let board = starting_board();
    assert_eq!(generate_all_pieces_possible_movements(&board, vec![]), vec![]);
}

#[test]
fn white_attacks_the_third_and_fourth_rows_at_the_start() {
    let board = starting_board();
    let attacked = squares_attacked_by(&board, Color::White);
    let mut expected: Vec<(usize, usize)> = Vec::new();
    for column in 0..8 {
        expected.push((2, column));
        expected.push((3, column));
    }
    expected.sort();
    assert_eq!(as_pairs(&attacked), expected);
    assert_eq!(attacked.len(), 20);
}

#[test]
fn black_attacks_the_fifth_and_sixth_rows_at_the_start() {
    let board = starting_board();
    let attacked = squares_attacked_by(&board, Color::Black);
    let mut expected: Vec<(usize, usize)> = Vec::new();
    for column in 0..8 {
        expected.push((4, column));
        expected.push((5, column));
    }
    expected.sort();
    assert_eq!(as_pairs(&attacked), expected);
}

#[test]
fn attack_query_agrees_with_the_attack_set() {
    let mut board = starting_board();
    board[3][4] = board[1][4];
    board[1][4] = BoardSpot::Blank;
    for color in [Color::White, Color::Black] {
        let set = squares_attacked_by(&board, color);
        for line in 0..8 {
            for column in 0..8 {
                let target = square(line, column);
                assert_eq!(is_attacked(&board, color, &target), set.contains(&target));
                assert_eq!(contains_position(&set, &target), set.contains(&target));
            }
        }
    }
}

#[test]
fn a_square_off_the_board_is_never_attacked() {
    let board = starting_board();
    assert!(!is_attacked(&board, Color::White, &square(8, 0)));
    assert!(!is_attacked(&board, Color::Black, &square(0, 8)));
}

#[test]
fn kings_are_found_on_the_starting_board() {
    let board = starting_board();
    assert_eq!(find_king(&board, &Color::White), Ok(square(0, 4)));
    assert_eq!(find_king(&board, &Color::Black), Ok(square(7, 4)));
}

#[test]
fn a_missing_king_is_reported() {
    let mut board = blank_board();
    assert_eq!(find_king(&board, &Color::White), Err(BoardError::KingNotFound));
    board[5][5] = spot(PieceType::King, Color::Black);
    board[5][6] = spot(PieceType::Queen, Color::White);
    assert_eq!(find_king(&board, &Color::White), Err(BoardError::KingNotFound));
    assert_eq!(find_king(&board, &Color::Black), Ok(square(5, 5)));
    assert_eq!(is_in_check(&board, Color::White), Err(BoardError::KingNotFound));
}

#[test]
fn the_first_king_in_board_order_is_found() {
    let mut board = blank_board();
    board[6][0] = spot(PieceType::King, Color::White);
    board[2][7] = spot(PieceType::King, Color::White);
    assert_eq!(find_king(&board, &Color::White), Ok(square(2, 7)));
    board[2][3] = spot(PieceType::King, Color::White);
    assert_eq!(find_king(&board, &Color::White), Ok(square(2, 3)));
}

#[test]
fn nobody_is_in_check_at_the_start() {
    let board = starting_board();
    assert_eq!(is_in_check(&board, Color::White), Ok(false));
    assert_eq!(is_in_check(&board, Color::Black), Ok(false));
    assert!(!verify_if_was_check(&board, Color::White));
    assert!(!verify_if_was_check(&board, Color::Black));
}

#[test]
fn a_rook_on_the_kings_column_gives_check() {
    let mut board = blank_board();
    board[0][0] = spot(PieceType::Rook, Color::White);
    board[7][0] = spot(PieceType::King, Color::Black);
    assert_eq!(is_in_check(&board, Color::Black), Ok(true));
    assert!(verify_if_was_check(&board, Color::Black));
}

#[test]
fn a_piece_between_rook_and_king_lifts_the_check() {
    let mut board = blank_board();
    board[0][0] = spot(PieceType::Rook, Color::White);
    board[7][0] = spot(PieceType::King, Color::Black);
    board[4][0] = spot(PieceType::Pawn, Color::Black);
    assert_eq!(is_in_check(&board, Color::Black), Ok(false));
    board[4][0] = spot(PieceType::Pawn, Color::White);
    assert_eq!(is_in_check(&board, Color::Black), Ok(false));
}

#[test]
fn a_king_is_not_checked_by_its_own_side() {
    let mut board = blank_board();
    board[0][0] = spot(PieceType::Rook, Color::Black);
    board[7][0] = spot(PieceType::King, Color::Black);
    assert_eq!(is_in_check(&board, Color::Black), Ok(false));
}

#[test]
fn a_knight_and_a_pawn_give_check() {
    let mut board = blank_board();
    board[3][3] = spot(PieceType::King, Color::White);
    board[5][4] = spot(PieceType::Knight, Color::Black);
    assert_eq!(is_in_check(&board, Color::White), Ok(true));
    board[5][4] = BoardSpot::Blank;
    assert_eq!(is_in_check(&board, Color::White), Ok(false));
    board[4][2] = spot(PieceType::Pawn, Color::Black);
    assert_eq!(is_in_check(&board, Color::White), Ok(true));
    board[4][2] = BoardSpot::Blank;
    board[2][2] = spot(PieceType::Pawn, Color::Black);
    assert_eq!(is_in_check(&board, Color::White), Ok(false));
}
