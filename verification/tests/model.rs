use terminal_chess::model::{render, starting_board, Board, BoardSpot, Color, Piece, PieceType, Position};

fn occupant(piece_type: PieceType, color: Color) -> BoardSpot {
    BoardSpot::Piece(Piece { piece_type, color })
}

#[test]
fn reverse_swaps_the_sides() {
    assert_eq!(Color::White.reverse(), Color::Black);
    assert_eq!(Color::Black.reverse(), Color::White);
}

#[test]
fn reverse_twice_is_identity() {
    for color in [Color::White, Color::Black] {
        assert_eq!(color.reverse().reverse(), color);
        assert_ne!(color.reverse(), color);
    }
}

#[test]
fn white_pieces_show_as_filled_glyphs() {
    assert_eq!(occupant(PieceType::Pawn, Color::White).to_board_representation(), '♟');
    assert_eq!(occupant(PieceType::Rook, Color::White).to_board_representation(), '♜');
    assert_eq!(occupant(PieceType::Knight, Color::White).to_board_representation(), '♞');
    assert_eq!(occupant(PieceType::Bishop, Color::White).to_board_representation(), '♝');
    assert_eq!(occupant(PieceType::Queen, Color::White).to_board_representation(), '♛');
    assert_eq!(occupant(PieceType::King, Color::White).to_board_representation(), '♚');
}

#[test]
fn black_pieces_show_as_outlined_glyphs() {
    assert_eq!(occupant(PieceType::Pawn, Color::Black).to_board_representation(), '♙');
    assert_eq!(occupant(PieceType::Rook, Color::Black).to_board_representation(), '♖');
    assert_eq!(occupant(PieceType::Knight, Color::Black).to_board_representation(), '♘');
    assert_eq!(occupant(PieceType::Bishop, Color::Black).to_board_representation(), '♗');
    assert_eq!(occupant(PieceType::Queen, Color::Black).to_board_representation(), '♕');
    assert_eq!(occupant(PieceType::King, Color::Black).to_board_representation(), '♔');
}

#[test]
fn blank_square_shows_as_dot() {
    assert_eq!(BoardSpot::Blank.to_board_representation(), '.');
}

#[test]
fn glyphs_are_pairwise_distinct() {
    let kinds = [
        PieceType::Pawn,
        PieceType::Rook,
        PieceType::Knight,
        PieceType::Bishop,
        PieceType::Queen,
        PieceType::King,
    ];
    let mut spots = vec![BoardSpot::Blank];
    for color in [Color::White, Color::Black] {
        for kind in kinds {
            spots.push(occupant(kind, color));
        }
    }
    for (i, a) in spots.iter().enumerate() {
        for (j, b) in spots.iter().enumerate() {
            assert_eq!(i == j, a.to_board_representation() == b.to_board_representation());
        }
    }
}

#[test]
fn starting_board_has_the_standard_layout() {
    let board = starting_board();
    let officers = [
        PieceType::Rook,
        PieceType::Knight,
        PieceType::Bishop,
        PieceType::Queen,
        PieceType::King,
        PieceType::Bishop,
        PieceType::Knight,
        PieceType::Rook,
    ];
    for column in 0..8 {
        assert_eq!(board[0][column], occupant(officers[column], Color::White));
        assert_eq!(board[1][column], occupant(PieceType::Pawn, Color::White));
        for line in 2..6 {
            assert_eq!(board[line][column], BoardSpot::Blank);
        }
        assert_eq!(board[6][column], occupant(PieceType::Pawn, Color::Black));
        assert_eq!(board[7][column], occupant(officers[column], Color::Black));
    }
}

#[test]
fn starting_board_has_one_king_per_side() {
    let board = starting_board();
    for color in [Color::White, Color::Black] {
        let kings = board
            .iter()
            .flatten()
            .filter(|spot| **spot == occupant(PieceType::King, color))
            .count();
        assert_eq!(kings, 1);
    }
}

#[test]
fn render_is_row_major_from_the_first_rank() {
    let board = starting_board();
    let spots = render(&board);
    assert_eq!(spots.len(), 64);
    assert_eq!(spots[0], occupant(PieceType::Rook, Color::White));
    assert_eq!(spots[3], occupant(PieceType::Queen, Color::White));
    assert_eq!(spots[4], occupant(PieceType::King, Color::White));
    assert_eq!(spots[8], occupant(PieceType::Pawn, Color::White));
    assert_eq!(spots[16], BoardSpot::Blank);
    assert_eq!(spots[55], occupant(PieceType::Pawn, Color::Black));
    assert_eq!(spots[60], occupant(PieceType::King, Color::Black));
    assert_eq!(spots[63], occupant(PieceType::Rook, Color::Black));
    for line in 0..8 {
        for column in 0..8 {
            assert_eq!(spots[line * 8 + column], board[line][column]);
        }
    }
}

#[test]
fn render_tells_columns_from_lines() {
    let mut board: Board = [[BoardSpot::Blank; 8]; 8];
    board[2][5] = occupant(PieceType::Knight, Color::Black);
    let spots = render(&board);
    for (index, spot) in spots.iter().enumerate() {
        if index == 2 * 8 + 5 {
            assert_eq!(*spot, occupant(PieceType::Knight, Color::Black));
        } else {
            assert_eq!(*spot, BoardSpot::Blank);
        }
    }
}

#[test]
fn positions_are_equal_by_their_fields() {
    assert_eq!(Position { line: 3, column: 4 }, Position { line: 3, column: 4 });
    assert_ne!(Position { line: 3, column: 4 }, Position { line: 4, column: 3 });
}
