//! Attack queries: which squares a side's pieces can move to, and whether a
//! side's king stands on one of them.

use crate::model::{
    contains_position, info_at, is_starting_board, spot_at, square, starting_spot, Board, BoardSpot, Color, Info, Piece,
    PieceType, Position,
};
use crate::movement::{can_reach, generate_possible_movements};
use vstd::prelude::*;
use vstd::seq_lib::{lemma_seq_concat_contains_all_elements, lemma_seq_contains_after_push};

verus! {

/// Whether `spot` holds a piece of the given color.
pub open spec fn held_by(spot: BoardSpot, color: Color) -> bool {
    spot matches BoardSpot::Piece(piece) && piece.color == color
}

/// Whether the records come in row-major order of their squares, each
/// square at most once.
pub open spec fn in_board_order(infos: Seq<Info>) -> bool {
    forall|i: int, j: int|
        0 <= i < j < infos.len() ==> (#[trigger] infos[i]).position.index() < (
        #[trigger] infos[j]).position.index()
}

/// Records in board order stand on pairwise different squares.
pub proof fn lemma_board_order_is_distinct(infos: Seq<Info>, i: int, j: int)
    requires
        in_board_order(infos),
        0 <= i < infos.len(),
        0 <= j < infos.len(),
        i != j,
    ensures
        infos[i].position != infos[j].position,
{
    if i < j {
        assert(infos[i].position.index() < infos[j].position.index());
    } else {
        assert(infos[j].position.index() < infos[i].position.index());
    }
}

/// Lists the pieces of the given color with their squares, scanning the
/// board row by row.
pub fn find_all_one_color_pieces(board: &Board, color: Color) -> (pieces: Vec<Info>)
    ensures
        forall|i: int|
            0 <= i < pieces@.len() ==> (#[trigger] pieces@[i]).describes(*board) && held_by(
                pieces@[i].piece,
                color,
            ),
        forall|p: Position|
            p.valid() && held_by(spot_at(*board, p), color) ==> pieces@.contains(
                #[trigger] info_at(*board, p),
            ),
        in_board_order(pieces@),
{
    let mut pieces: Vec<Info> = Vec::new();
    let mut line: usize = 0;
    while line < 8
        invariant
            line <= 8,
            forall|i: int|
                0 <= i < pieces@.len() ==> (#[trigger] pieces@[i]).describes(*board) && held_by(
                    pieces@[i].piece,
                    color,
                ) && pieces@[i].position.index() < line * 8,
            forall|p: Position|
                p.valid() && p.index() < line * 8 && held_by(spot_at(*board, p), color)
                    ==> pieces@.contains(#[trigger] info_at(*board, p)),
            in_board_order(pieces@),
        decreases 8 - line,
    {
        let mut column: usize = 0;
        while column < 8
            invariant
                line < 8,
                column <= 8,
                forall|i: int|
                    0 <= i < pieces@.len() ==> (#[trigger] pieces@[i]).describes(*board) && held_by(
                        pieces@[i].piece,
                        color,
                    ) && pieces@[i].position.index() < line * 8 + column,
                forall|p: Position|
                    p.valid() && p.index() < line * 8 + column && held_by(spot_at(*board, p), color)
                        ==> pieces@.contains(#[trigger] info_at(*board, p)),
                in_board_order(pieces@),
            decreases 8 - column,
        {
            let position = Position { line, column };
            match board[line][column] {
                BoardSpot::Piece(piece) => {
                    if piece.color == color {
                        let ghost before = pieces@;
                        let info = Info { position, piece: BoardSpot::Piece(piece) };
                        pieces.push(info);
                        proof {
                            assert(info == info_at(*board, position));
                            assert forall|p: Position|
                                p.valid() && p.index() < line * 8 + column + 1 && held_by(
                                    spot_at(*board, p),
                                    color,
                                ) implies pieces@.contains(#[trigger] info_at(*board, p)) by {
                                lemma_seq_contains_after_push(before, info, info_at(*board, p));
                                if p.index() == line * 8 + column {
                                    assert(p == position);
                                }
                            }
                        }
                    }
                },
                BoardSpot::Blank => {},
            }
            proof {
                assert forall|p: Position|
                    p.valid() && p.index() < line * 8 + column + 1 && held_by(
                        spot_at(*board, p),
                        color,
                    ) implies pieces@.contains(#[trigger] info_at(*board, p)) by {
                    if p.index() == line * 8 + column {
                        assert(p == position);
                    }
                }
            }
            column += 1;
        }
        line += 1;
    }
    pieces
}

/// Whether the piece recorded in `info` can move from its recorded square
/// to `to` on `board`. A record of a blank square moves nowhere.
pub open spec fn info_reaches(board: Board, info: Info, to: Position) -> bool {
    info.piece matches BoardSpot::Piece(piece) && can_reach(board, piece, info.position, to)
}

/// Whether one of the recorded pieces can move to `to` on `board`.
pub open spec fn some_info_reaches(board: Board, infos: Seq<Info>, to: Position) -> bool {
    exists|i: int| 0 <= i < infos.len() && info_reaches(board, #[trigger] infos[i], to)
}

/// Lists the squares that the recorded pieces can move to. A square that
/// several pieces reach may be listed several times; a record of a blank
/// square adds nothing.
pub fn generate_all_pieces_possible_movements(board: &Board, pieces_infos: Vec<Info>) -> (
    all_possible_movements: Vec<Position>
)
    requires
        forall|i: int| 0 <= i < pieces_infos@.len() ==> (#[trigger] pieces_infos@[i]).position.valid(),
    ensures
        forall|to: Position|
            #![trigger all_possible_movements@.contains(to)]
            all_possible_movements@.contains(to) <==> some_info_reaches(*board, pieces_infos@, to),
        forall|i: int|
            0 <= i < all_possible_movements@.len() ==> (
            #[trigger] all_possible_movements@[i]).valid(),
{
    let mut all_possible_movements: Vec<Position> = Vec::new();
    let mut next: usize = 0;
    while next < pieces_infos.len()
        invariant
            next <= pieces_infos@.len(),
            forall|i: int|
                0 <= i < pieces_infos@.len() ==> (#[trigger] pieces_infos@[i]).position.valid(),
            forall|to: Position|
                #![trigger all_possible_movements@.contains(to)]
                all_possible_movements@.contains(to) <==> some_info_reaches(
                    *board,
                    pieces_infos@.take(next as int),
                    to,
                ),
            forall|i: int|
                0 <= i < all_possible_movements@.len() ==> (
                #[trigger] all_possible_movements@[i]).valid(),
        decreases pieces_infos@.len() - next,
    {
        let info = pieces_infos[next];
        let ghost before = all_possible_movements@;
        let ghost seen_now = pieces_infos@.take(next + 1);
        match info.piece {
            BoardSpot::Piece(piece) => {
                let mut movements = generate_possible_movements(board, &piece, &info.position);
                let ghost added = movements@;
                all_possible_movements.append(&mut movements);
                proof {
                    broadcast use lemma_seq_concat_contains_all_elements;

                    assert(all_possible_movements@ == before + added);
                    assert forall|to: Position|
                        #![trigger all_possible_movements@.contains(to)]
                        all_possible_movements@.contains(to) <==> some_info_reaches(
                            *board,
                            seen_now,
                            to,
                        ) by {
                        lemma_one_more_info(*board, pieces_infos@, next as int, to);
                    }
                }
            },
            BoardSpot::Blank => {
                proof {
                    assert forall|to: Position|
                        #![trigger all_possible_movements@.contains(to)]
                        all_possible_movements@.contains(to) <==> some_info_reaches(
                            *board,
                            seen_now,
                            to,
                        ) by {
                        lemma_one_more_info(*board, pieces_infos@, next as int, to);
                    }
                }
            },
        }
        next += 1;
    }
    proof {
        assert(pieces_infos@.take(next as int) =~= pieces_infos@);
    }
    all_possible_movements
}

/// One of the first `count + 1` records reaches `to` exactly when one of
/// the first `count` does or the record at `count` does.
proof fn lemma_one_more_info(board: Board, infos: Seq<Info>, count: int, to: Position)
    requires
        0 <= count < infos.len(),
    ensures
        some_info_reaches(board, infos.take(count + 1), to) <==> some_info_reaches(
            board,
            infos.take(count),
            to,
        ) || info_reaches(board, infos[count], to),
{
    let shorter = infos.take(count);
    let longer = infos.take(count + 1);
    if some_info_reaches(board, shorter, to) {
        let i = choose|i: int| 0 <= i < shorter.len() && info_reaches(board, #[trigger] shorter[i], to);
        assert(longer[i] == shorter[i]);
    }
    if info_reaches(board, infos[count], to) {
        assert(longer[count] == infos[count]);
    }
    if some_info_reaches(board, longer, to) {
        let i = choose|i: int| 0 <= i < longer.len() && info_reaches(board, #[trigger] longer[i], to);
        if i < count {
            assert(shorter[i] == longer[i]);
        }
    }
}

/// Whether the piece of the given color on `from`, if there is one, can
/// move to `target` on `board`.
pub open spec fn attacks_from(board: Board, color: Color, from: Position, target: Position) -> bool {
    from.valid() && held_by(spot_at(board, from), color) && info_reaches(
        board,
        info_at(board, from),
        target,
    )
}

/// Whether some piece of the given color can move to `target` on `board`.
/// Whose turn it is plays no part.
pub open spec fn attacked(board: Board, color: Color, target: Position) -> bool {
    exists|from: Position| #[trigger] attacks_from(board, color, from, target)
}

/// Lists the squares that the pieces of the given color can move to. A
/// square that several pieces reach may be listed several times.
pub fn squares_attacked_by(board: &Board, color: Color) -> (squares: Vec<Position>)
    ensures
        forall|to: Position|
            #![trigger squares@.contains(to)]
            squares@.contains(to) <==> attacked(*board, color, to),
        forall|i: int| 0 <= i < squares@.len() ==> (#[trigger] squares@[i]).valid(),
{
    let pieces = find_all_one_color_pieces(board, color);
    let ghost infos = pieces@;
    let squares = generate_all_pieces_possible_movements(board, pieces);
    proof {
        assert forall|to: Position| #![trigger squares@.contains(to)]
            squares@.contains(to) <==> attacked(*board, color, to) by {
            if some_info_reaches(*board, infos, to) {
                let i = choose|i: int|
                    0 <= i < infos.len() && info_reaches(*board, #[trigger] infos[i], to);
                assert(infos[i].describes(*board));
                assert(attacks_from(*board, color, infos[i].position, to));
            }
            if attacked(*board, color, to) {
                let from = choose|from: Position| #[trigger] attacks_from(*board, color, from, to);
                let info = info_at(*board, from);
                assert(infos.contains(info));
                let i = choose|i: int| 0 <= i < infos.len() && infos[i] == info;
                assert(info_reaches(*board, infos[i], to));
            }
        }
    }
    squares
}

/// Tells whether some piece of the given color can move to `target`.
pub fn is_attacked(board: &Board, color: Color, target: &Position) -> (hit: bool)
    ensures
        hit == attacked(*board, color, *target),
{
    let squares = squares_attacked_by(board, color);
    contains_position(&squares, target)
}

/// Why a query on a board could not be answered.
#[derive(Clone, Copy, Debug, PartialEq, Eq, Structural)]
pub enum BoardError {
    /// The board holds no king of the side asked about. No move removes a
    /// king, so a board played from the starting layout never gives this.
    KingNotFound,
}

/// Whether the king of the given color stands on `position`.
pub open spec fn king_at(board: Board, color: Color, position: Position) -> bool {
    position.valid() && spot_at(board, position) == BoardSpot::Piece(
        Piece { piece_type: PieceType::King, color },
    )
}

/// Whether the board holds a king of the given color.
pub open spec fn has_king(board: Board, color: Color) -> bool {
    exists|position: Position| #[trigger] king_at(board, color, position)
}

/// Whether the board holds exactly one king of the given color, as a board
/// in play does.
pub open spec fn has_one_king(board: Board, color: Color) -> bool {
    exists|position: Position|
        #![trigger king_at(board, color, position)]
        king_at(board, color, position) && forall|other: Position| #[trigger]
            king_at(board, color, other) ==> other == position
}

/// Whether `position` is where a row-by-row scan first finds a king of the
/// given color. A board with one such king has it there.
pub open spec fn first_king_at(board: Board, color: Color, position: Position) -> bool {
    king_at(board, color, position) && forall|other: Position| #[trigger]
        king_at(board, color, other) ==> position.index() <= other.index()
}

/// Finds the king of the given color, scanning the board row by row.
pub fn find_king(board: &Board, color: &Color) -> (found: Result<Position, BoardError>)
    ensures
        match found {
            Ok(position) => first_king_at(*board, *color, position),
            Err(error) => error == BoardError::KingNotFound && !has_king(*board, *color),
        },
{
    let mut line: usize = 0;
    while line < 8
        invariant
            line <= 8,
            forall|p: Position| #[trigger] king_at(*board, *color, p) ==> p.index() >= line * 8,
        decreases 8 - line,
    {
        let mut column: usize = 0;
        while column < 8
            invariant
                line < 8,
                column <= 8,
                forall|p: Position| #[trigger]
                    king_at(*board, *color, p) ==> p.index() >= line * 8 + column,
            decreases 8 - column,
        {
            let position = Position { line, column };
            match board[line][column] {
                BoardSpot::Piece(piece) => {
                    if piece.color == *color && piece.piece_type == PieceType::King {
                        return Ok(position);
                    }
                },
                BoardSpot::Blank => {},
            }
            proof {
                assert forall|p: Position| #[trigger] king_at(*board, *color, p) implies p.index()
                    >= line * 8 + column + 1 by {
                    if p.index() == line * 8 + column {
                        assert(p == position);
                    }
                }
            }
            column += 1;
        }
        line += 1;
    }
    Err(BoardError::KingNotFound)
}

/// Whether the king of the given color is attacked: some piece of the other
/// side can move to the square where the king stands.
pub open spec fn in_check(board: Board, color: Color) -> bool {
    exists|position: Position| #[trigger]
        first_king_at(board, color, position) && attacked(board, color.opposite(), position)
}

/// The square where a scan first finds a king is the only such square.
pub proof fn lemma_first_king_is_unique(board: Board, color: Color, a: Position, b: Position)
    requires
        first_king_at(board, color, a),
        first_king_at(board, color, b),
    ensures
        a == b,
{
    assert(king_at(board, color, a));
    assert(king_at(board, color, b));
    assert(a.index() == b.index());
}

/// At the start of a game each side has one king, on column 4 of its back
/// rank, and neither king is attacked.
pub proof fn lemma_starting_board_is_quiet(board: Board, color: Color)
    requires
        is_starting_board(board),
    ensures
        first_king_at(board, color, square(color.back_rank(), 4)),
        has_one_king(board, color),
        !in_check(board, color),
{
    let home = square(color.back_rank(), 4);
    assert(spot_at(board, home) == starting_spot(home.line as int, home.column as int));
    assert(king_at(board, color, home));
    assert forall|other: Position| #[trigger] king_at(board, color, other) implies other
        == home by {
        assert(spot_at(board, other) == starting_spot(other.line as int, other.column as int));
    }
    assert forall|from: Position| !#[trigger] attacks_from(board, color.opposite(), from, home) by {
        if from.valid() {
            assert(spot_at(board, from) == starting_spot(from.line as int, from.column as int));
        }
    }
    if in_check(board, color) {
        let position = choose|position: Position| #[trigger]
            first_king_at(board, color, position) && attacked(board, color.opposite(), position);
        lemma_first_king_is_unique(board, color, position, home);
    }
}

/// Tells whether the king of the given color is attacked by the other
/// side. The board must hold such a king.
pub fn verify_if_was_check(board: &Board, color: Color) -> (check: bool)
    requires
        has_king(*board, color),
    ensures
        check == in_check(*board, color),
{
    match find_king(board, &color) {
        Ok(king_position) => {
            let enemy_color = color.reverse();
            let check = is_attacked(board, enemy_color, &king_position);
            proof {
                if in_check(*board, color) {
                    let position = choose|position: Position| #[trigger]
                        first_king_at(*board, color, position) && attacked(
                            *board,
                            color.opposite(),
                            position,
                        );
                    lemma_first_king_is_unique(*board, color, position, king_position);
                }
            }
            check
        },
        Err(_) => false,
    }
}

/// Tells whether the king of the given color is attacked by the other
/// side, or that the board holds no such king.
pub fn is_in_check(board: &Board, color: Color) -> (answer: Result<bool, BoardError>)
    ensures
        match answer {
            Ok(check) => has_king(*board, color) && check == in_check(*board, color),
            Err(error) => error == BoardError::KingNotFound && !has_king(*board, color),
        },
{
    match find_king(board, &color) {
        Ok(king_position) => {
            assert(king_at(*board, color, king_position));
            Ok(verify_if_was_check(board, color))
        },
        Err(error) => Err(error),
    }
}

} // verus!
