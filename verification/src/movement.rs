//! Movement rules: which squares a piece standing on a square can move to.
//!
//! The rules look only at the shape of the move and at what stands on the
//! board. They do not ask whose turn it is, nor whether the move would
//! leave a king attacked.

use crate::model::{in_grid, spot_at, square, Board, BoardSpot, Color, Piece, PieceType, Position};
use vstd::math::{abs, max};
use vstd::prelude::*;
use vstd::seq_lib::{
    lemma_no_dup_in_concat, lemma_seq_concat_contains_all_elements, lemma_seq_contains_after_push,
};

verus! {

/// What a moving side finds on a square.
#[derive(Clone, Copy, Debug, PartialEq, Eq, Structural)]
pub enum CheckPiece {
    SameColor,
    DifferentColor,
    NoPiece,
}

/// What a side of the given color finds in `spot`.
pub open spec fn relation_to(spot: BoardSpot, color: Color) -> CheckPiece {
    match spot {
        BoardSpot::Blank => CheckPiece::NoPiece,
        BoardSpot::Piece(piece) => if piece.color == color {
            CheckPiece::SameColor
        } else {
            CheckPiece::DifferentColor
        },
    }
}

/// Classifies the square at `position_to_check` for a piece of color
/// `piece_color`: blank, held by the same side, or held by the other side.
pub fn check_piece_in_possible_movement_spot(
    board: &Board,
    piece_color: &Color,
    position_to_check: &Position,
) -> (found: CheckPiece)
    requires
        position_to_check.valid(),
    ensures
        found == relation_to(spot_at(*board, *position_to_check), *piece_color),
{
    let piece_on_possible_position = board[position_to_check.line][position_to_check.column];
    match piece_on_possible_position {
        BoardSpot::Blank => CheckPiece::NoPiece,
        BoardSpot::Piece(piece) => {
            if piece.color == *piece_color {
                CheckPiece::SameColor
            } else {
                CheckPiece::DifferentColor
            }
        },
    }
}

/// Rows from `from` to `to`; negative toward row 0.
pub open spec fn row_delta(from: Position, to: Position) -> int {
    to.line as int - from.line as int
}

/// Columns from `from` to `to`; negative toward column 0.
pub open spec fn column_delta(from: Position, to: Position) -> int {
    to.column as int - from.column as int
}

/// The sign of `x`: -1, 0 or 1.
pub open spec fn sign(x: int) -> int {
    if x > 0 {
        1
    } else if x < 0 {
        -1
    } else {
        0
    }
}

/// The number of king steps between two squares.
pub open spec fn span(from: Position, to: Position) -> int {
    max(abs(row_delta(from, to)) as int, abs(column_delta(from, to)) as int)
}

/// `start` after `count` steps in the direction of `step`, of which only
/// the sign matters.
pub open spec fn shifted(start: int, step: int, count: int) -> int {
    if step > 0 {
        start + count
    } else if step < 0 {
        start - count
    } else {
        start
    }
}

/// The square `count` steps away from `from` along the ray whose direction
/// is `(row_step, column_step)`.
pub open spec fn ray_square(from: Position, row_step: int, column_step: int, count: int) -> Position {
    square(shifted(from.line as int, row_step, count), shifted(from.column as int, column_step, count))
}

/// Whether `to` is on a diagonal through `from`, and is not `from`.
pub open spec fn diagonal(from: Position, to: Position) -> bool {
    abs(row_delta(from, to)) == abs(column_delta(from, to)) && row_delta(from, to) != 0
}

/// Whether `to` is on the row or the column of `from`, and is not `from`.
pub open spec fn orthogonal(from: Position, to: Position) -> bool {
    (row_delta(from, to) == 0) != (column_delta(from, to) == 0)
}

/// Whether every square strictly between `from` and `to` is blank. It is
/// meant for two squares on one row, column or diagonal.
pub open spec fn path_clear(board: Board, from: Position, to: Position) -> bool {
    forall|count: int|
        0 < count < span(from, to) ==> spot_at(
            board,
            #[trigger] ray_square(
                from,
                sign(row_delta(from, to)),
                sign(column_delta(from, to)),
                count,
            ),
        ) is Blank
}

/// Whether a piece of the given color may end its move on `to`: the square
/// is on the board and is blank or held by the other side.
pub open spec fn may_land(board: Board, color: Color, to: Position) -> bool {
    to.valid() && relation_to(spot_at(board, to), color) != CheckPiece::SameColor
}

/// Whether a piece of the given color on `from` slides to `to` along a
/// diagonal: nothing stands in between, and `to` is blank or a capture.
pub open spec fn diagonal_reach(board: Board, color: Color, from: Position, to: Position) -> bool {
    diagonal(from, to) && path_clear(board, from, to) && may_land(board, color, to)
}

/// Whether a piece of the given color on `from` slides to `to` along a row
/// or a column: nothing stands in between, and `to` is blank or a capture.
pub open spec fn straight_reach(board: Board, color: Color, from: Position, to: Position) -> bool {
    orthogonal(from, to) && path_clear(board, from, to) && may_land(board, color, to)
}

/// Whether a knight of the given color on `from` jumps to `to`: two squares
/// one way and one square the other, onto a blank square or a capture.
/// Nothing blocks a knight.
pub open spec fn knight_reach(board: Board, color: Color, from: Position, to: Position) -> bool {
    let rows = abs(row_delta(from, to));
    let columns = abs(column_delta(from, to));
    may_land(board, color, to) && ((rows == 1 && columns == 2) || (rows == 2 && columns == 1))
}

/// Whether a king of the given color on `from` steps to `to`: a neighbouring
/// square that is blank or a capture.
pub open spec fn king_reach(board: Board, color: Color, from: Position, to: Position) -> bool {
    may_land(board, color, to) && span(from, to) == 1
}

/// Whether a pawn of the given color on `from` advances one square to `to`:
/// straight ahead, onto a blank square.
pub open spec fn pawn_step(board: Board, color: Color, from: Position, to: Position) -> bool {
    &&& to.valid()
    &&& column_delta(from, to) == 0
    &&& row_delta(from, to) == color.forward()
    &&& spot_at(board, to) is Blank
}

/// Whether a pawn of the given color on `from` advances two squares to
/// `to`: from its starting row only, straight ahead, with the square it
/// passes and the square it ends on both blank.
pub open spec fn pawn_double_step(board: Board, color: Color, from: Position, to: Position) -> bool {
    &&& to.valid()
    &&& from.line == color.pawn_rank()
    &&& column_delta(from, to) == 0
    &&& row_delta(from, to) == 2 * color.forward()
    &&& spot_at(board, square(from.line + color.forward(), from.column as int)) is Blank
    &&& spot_at(board, to) is Blank
}

/// Whether a pawn of the given color on `from` captures on `to`: one square
/// ahead and one to the side, held by the other side.
pub open spec fn pawn_capture(board: Board, color: Color, from: Position, to: Position) -> bool {
    &&& to.valid()
    &&& abs(column_delta(from, to)) == 1
    &&& row_delta(from, to) == color.forward()
    &&& relation_to(spot_at(board, to), color) == CheckPiece::DifferentColor
}

/// Whether a pawn of the given color on `from` can move to `to`.
pub open spec fn pawn_reach(board: Board, color: Color, from: Position, to: Position) -> bool {
    ||| pawn_step(board, color, from, to)
    ||| pawn_double_step(board, color, from, to)
    ||| pawn_capture(board, color, from, to)
}

/// Whether `piece`, standing on `from`, can move to `to` on `board`.
pub open spec fn can_reach(board: Board, piece: Piece, from: Position, to: Position) -> bool {
    match piece.piece_type {
        PieceType::Pawn => pawn_reach(board, piece.color, from, to),
        PieceType::Rook => straight_reach(board, piece.color, from, to),
        PieceType::Knight => knight_reach(board, piece.color, from, to),
        PieceType::Bishop => diagonal_reach(board, piece.color, from, to),
        PieceType::Queen => diagonal_reach(board, piece.color, from, to) || straight_reach(
            board,
            piece.color,
            from,
            to,
        ),
        PieceType::King => king_reach(board, piece.color, from, to),
    }
}

/// Whether `to` lies on the ray that leaves `from` in the direction
/// `(row_step, column_step)`, each step being -1, 0 or 1.
spec fn on_ray(from: Position, to: Position, row_step: int, column_step: int) -> bool {
    &&& sign(row_delta(from, to)) == row_step
    &&& sign(column_delta(from, to)) == column_step
    &&& (row_step == 0 || column_step == 0 || abs(row_delta(from, to)) == abs(
        column_delta(from, to),
    ))
}

/// Whether a piece of the given color on `from` slides to `to` along the
/// ray with direction `(row_step, column_step)`.
spec fn ray_reach(
    board: Board,
    color: Color,
    from: Position,
    row_step: int,
    column_step: int,
    to: Position,
) -> bool {
    on_ray(from, to, row_step, column_step) && path_clear(board, from, to) && may_land(
        board,
        color,
        to,
    )
}

/// Walks one ray from `from` and appends the squares it reaches: blank
/// squares up to the first piece, and that piece's square if the other side
/// holds it.
fn walk_ray(
    board: &Board,
    color: &Color,
    from: &Position,
    row_step: isize,
    column_step: isize,
    reached: &mut Vec<Position>,
)
    requires
        from.valid(),
        -1 <= row_step <= 1,
        -1 <= column_step <= 1,
        row_step != 0 || column_step != 0,
        old(reached)@.no_duplicates(),
        forall|to: Position|
            #![trigger old(reached)@.contains(to)]
            old(reached)@.contains(to) ==> !on_ray(*from, to, row_step as int, column_step as int),
    ensures
        final(reached)@.no_duplicates(),
        forall|to: Position|
            #![trigger final(reached)@.contains(to)]
            final(reached)@.contains(to) <==> old(reached)@.contains(to) || ray_reach(
                *board,
                *color,
                *from,
                row_step as int,
                column_step as int,
                to,
            ),
{
    let ghost start = reached@;
    let mut steps: usize = 0;
    let mut row: isize = from.line as isize;
    let mut column: isize = from.column as isize;
    loop
        invariant_except_break
            steps < 8,
            row == shifted(from.line as int, row_step as int, steps as int),
            column == shifted(from.column as int, column_step as int, steps as int),
            in_grid(row as int, column as int),
            forall|count: int|
                0 < count <= steps ==> spot_at(
                    *board,
                    #[trigger] ray_square(*from, row_step as int, column_step as int, count),
                ) is Blank,
            forall|to: Position|
                #![trigger reached@.contains(to)]
                reached@.contains(to) <==> start.contains(to) || (ray_reach(
                    *board,
                    *color,
                    *from,
                    row_step as int,
                    column_step as int,
                    to,
                ) && span(*from, to) <= steps),
        invariant
            from.valid(),
            -1 <= row_step <= 1,
            -1 <= column_step <= 1,
            row_step != 0 || column_step != 0,
            start.no_duplicates(),
            forall|to: Position|
                #![trigger start.contains(to)]
                start.contains(to) ==> !on_ray(*from, to, row_step as int, column_step as int),
            reached@.no_duplicates(),
        ensures
            forall|to: Position|
                #![trigger reached@.contains(to)]
                reached@.contains(to) <==> start.contains(to) || ray_reach(
                    *board,
                    *color,
                    *from,
                    row_step as int,
                    column_step as int,
                    to,
                ),
        decreases 8 - steps,
    {
        row = row + row_step;
        column = column + column_step;
        if row < 0 || row >= 8 || column < 0 || column >= 8 {
            proof {
                // The ray has left the board, so it reaches nothing further.
                assert forall|to: Position|
                    ray_reach(
                        *board,
                        *color,
                        *from,
                        row_step as int,
                        column_step as int,
                        to,
                    ) implies span(*from, to) <= steps by {
                    if span(*from, to) > steps {
                        lemma_ray_points(*from, to, row_step as int, column_step as int, steps + 1);
                    }
                }
            }
            break ;
        }
        let next = Position { line: row as usize, column: column as usize };
        let found = check_piece_in_possible_movement_spot(board, color, &next);
        proof {
            // A square beyond `next` on this ray has `next` on its path.
            assert forall|to: Position|
                ray_reach(*board, *color, *from, row_step as int, column_step as int, to) && span(
                    *from,
                    to,
                ) > steps implies (to == next || spot_at(*board, next) is Blank) by {
                lemma_ray_points(*from, to, row_step as int, column_step as int, steps + 1);
                if span(*from, to) > steps + 1 {
                    assert(spot_at(
                        *board,
                        ray_square(
                            *from,
                            sign(row_delta(*from, to)),
                            sign(column_delta(*from, to)),
                            steps + 1,
                        ),
                    ) is Blank);
                }
            }
        }
        if found == CheckPiece::SameColor {
            break ;
        }
        let ghost before = reached@;
        reached.push(next);
        proof {
            // `next` is new to the list, and it is the one square that lies
            // this many steps along the ray.
            assert(!before.contains(next));
            assert forall|to: Position| #![trigger reached@.contains(to)]
                reached@.contains(to) <==> before.contains(to) || to == next by {
                lemma_seq_contains_after_push(before, next, to);
            }
            assert forall|to: Position|
                ray_reach(*board, *color, *from, row_step as int, column_step as int, to) && span(
                    *from,
                    to,
                ) == steps + 1 implies to == next by {
                lemma_ray_points(*from, to, row_step as int, column_step as int, steps + 1);
            }
        }
        if found == CheckPiece::DifferentColor {
            break ;
        }
        steps = steps + 1;
    }
}

/// On a ray from `from` through `to`, every square up to `to` is on the
/// board, and the one at `span(from, to)` steps is `to` itself.
proof fn lemma_ray_points(
    from: Position,
    to: Position,
    row_step: int,
    column_step: int,
    count: int,
)
    requires
        from.valid(),
        to.valid(),
        on_ray(from, to, row_step, column_step),
        0 <= count <= span(from, to),
    ensures
        in_grid(
            shifted(from.line as int, row_step, count),
            shifted(from.column as int, column_step, count),
        ),
        ray_square(from, row_step, column_step, count).valid(),
        ray_square(from, row_step, column_step, count).line == shifted(
            from.line as int,
            row_step,
            count,
        ),
        ray_square(from, row_step, column_step, count).column == shifted(
            from.column as int,
            column_step,
            count,
        ),
        count == span(from, to) ==> ray_square(from, row_step, column_step, count) == to,
{
}

/// Lists the squares that a piece of `piece`'s color standing on
/// `piece_position` reaches by sliding along the four diagonals.
pub fn diagonals_movement_check(board: &Board, piece: &Piece, piece_position: &Position) -> (
    possible_positions: Vec<Position>
)
    requires
        piece_position.valid(),
    ensures
        possible_positions@.no_duplicates(),
        forall|to: Position|
            #![trigger possible_positions@.contains(to)]
            possible_positions@.contains(to) <==> diagonal_reach(
                *board,
                piece.color,
                *piece_position,
                to,
            ),
{
    let mut possible_positions: Vec<Position> = Vec::new();
    walk_ray(board, &piece.color, piece_position, 1, 1, &mut possible_positions);
    walk_ray(board, &piece.color, piece_position, 1, -1, &mut possible_positions);
    walk_ray(board, &piece.color, piece_position, -1, 1, &mut possible_positions);
    walk_ray(board, &piece.color, piece_position, -1, -1, &mut possible_positions);
    possible_positions
}

/// Lists the squares that a piece of `piece`'s color standing on
/// `piece_position` reaches by sliding along its row and its column.
pub fn sides_movement_check(board: &Board, piece: &Piece, piece_position: &Position) -> (
    possible_positions: Vec<Position>
)
    requires
        piece_position.valid(),
    ensures
        possible_positions@.no_duplicates(),
        forall|to: Position|
            #![trigger possible_positions@.contains(to)]
            possible_positions@.contains(to) <==> straight_reach(
                *board,
                piece.color,
                *piece_position,
                to,
            ),
{
    let mut possible_positions: Vec<Position> = Vec::new();
    walk_ray(board, &piece.color, piece_position, 0, 1, &mut possible_positions);
    walk_ray(board, &piece.color, piece_position, 0, -1, &mut possible_positions);
    walk_ray(board, &piece.color, piece_position, 1, 0, &mut possible_positions);
    walk_ray(board, &piece.color, piece_position, -1, 0, &mut possible_positions);
    possible_positions
}

/// Whether a finding is one a move may end on, given whether the move may
/// end on a blank square and whether it may capture.
spec fn accepts(found: CheckPiece, onto_blank: bool, capturing: bool) -> bool {
    match found {
        CheckPiece::NoPiece => onto_blank,
        CheckPiece::DifferentColor => capturing,
        CheckPiece::SameColor => false,
    }
}

/// Whether the square at the given offset from `from` is on the board and
/// holds what the move may end on.
spec fn offset_reach(
    board: Board,
    color: Color,
    from: Position,
    row_offset: int,
    column_offset: int,
    onto_blank: bool,
    capturing: bool,
) -> bool {
    in_grid(from.line + row_offset, from.column + column_offset) && accepts(
        relation_to(
            spot_at(board, square(from.line + row_offset, from.column + column_offset)),
            color,
        ),
        onto_blank,
        capturing,
    )
}

/// Returns the square at the given offset from `from`, if it is on the
/// board.
fn offset_position(from: &Position, row_offset: isize, column_offset: isize) -> (target: Option<
    Position,
>)
    requires
        from.valid(),
        -8 <= row_offset <= 8,
        -8 <= column_offset <= 8,
    ensures
        target is Some <==> in_grid(from.line + row_offset, from.column + column_offset),
        target is Some ==> target->0 == square(
            from.line + row_offset,
            from.column + column_offset,
        ),
{
    let row: isize = from.line as isize + row_offset;
    let column: isize = from.column as isize + column_offset;
    if row < 0 || row >= 8 || column < 0 || column >= 8 {
        None
    } else {
        Some(Position { line: row as usize, column: column as usize })
    }
}

/// Appends the square at the given offset from `from` if the move may end
/// there, and tells whether it did.
fn push_offset(
    board: &Board,
    color: &Color,
    from: &Position,
    row_offset: isize,
    column_offset: isize,
    onto_blank: bool,
    capturing: bool,
    reached: &mut Vec<Position>,
) -> (pushed: bool)
    requires
        from.valid(),
        -8 <= row_offset <= 8,
        -8 <= column_offset <= 8,
        old(reached)@.no_duplicates(),
        in_grid(from.line + row_offset, from.column + column_offset) ==> !old(reached)@.contains(
            square(from.line + row_offset, from.column + column_offset),
        ),
    ensures
        pushed == offset_reach(
            *board,
            *color,
            *from,
            row_offset as int,
            column_offset as int,
            onto_blank,
            capturing,
        ),
        final(reached)@.no_duplicates(),
        forall|to: Position|
            #![trigger final(reached)@.contains(to)]
            final(reached)@.contains(to) <==> old(reached)@.contains(to) || (pushed && to == square(
                from.line + row_offset,
                from.column + column_offset,
            )),
{
    match offset_position(from, row_offset, column_offset) {
        Some(target) => {
            let found = check_piece_in_possible_movement_spot(board, color, &target);
            let wanted = match found {
                CheckPiece::NoPiece => onto_blank,
                CheckPiece::DifferentColor => capturing,
                CheckPiece::SameColor => false,
            };
            if wanted {
                let ghost before = reached@;
                reached.push(target);
                proof {
                    assert forall|to: Position| #![trigger reached@.contains(to)]
                        reached@.contains(to) <==> before.contains(to) || to == target by {
                        lemma_seq_contains_after_push(before, target, to);
                    }
                }
            }
            wanted
        },
        None => false,
    }
}

/// Lists the squares that a pawn of the given color on `from` can move to.
fn pawn_movements(board: &Board, color: &Color, from: &Position) -> (reached: Vec<Position>)
    requires
        from.valid(),
    ensures
        reached@.no_duplicates(),
        forall|to: Position|
            #![trigger reached@.contains(to)]
            reached@.contains(to) <==> pawn_reach(*board, *color, *from, to),
{
    let mut reached: Vec<Position> = Vec::new();
    let forward: isize = match color {
        Color::White => 1,
        Color::Black => -1,
    };
    let home: usize = match color {
        Color::White => 1,
        Color::Black => 6,
    };
    let stepped = push_offset(board, color, from, forward, 0, true, false, &mut reached);
    if stepped && from.line == home {
        push_offset(board, color, from, 2 * forward, 0, true, false, &mut reached);
    }
    push_offset(board, color, from, forward, 1, false, true, &mut reached);
    push_offset(board, color, from, forward, -1, false, true, &mut reached);
    reached
}

/// Lists the squares that a knight of the given color on `from` can move
/// to.
fn knight_movements(board: &Board, color: &Color, from: &Position) -> (reached: Vec<Position>)
    requires
        from.valid(),
    ensures
        reached@.no_duplicates(),
        forall|to: Position|
            #![trigger reached@.contains(to)]
            reached@.contains(to) <==> knight_reach(*board, *color, *from, to),
{
    let mut reached: Vec<Position> = Vec::new();
    push_offset(board, color, from, 2, 1, true, true, &mut reached);
    push_offset(board, color, from, 2, -1, true, true, &mut reached);
    push_offset(board, color, from, 1, 2, true, true, &mut reached);
    push_offset(board, color, from, 1, -2, true, true, &mut reached);
    push_offset(board, color, from, -2, 1, true, true, &mut reached);
    push_offset(board, color, from, -2, -1, true, true, &mut reached);
    push_offset(board, color, from, -1, 2, true, true, &mut reached);
    push_offset(board, color, from, -1, -2, true, true, &mut reached);
    reached
}

/// Lists the squares that a king of the given color on `from` can move to.
fn king_movements(board: &Board, color: &Color, from: &Position) -> (reached: Vec<Position>)
    requires
        from.valid(),
    ensures
        reached@.no_duplicates(),
        forall|to: Position|
            #![trigger reached@.contains(to)]
            reached@.contains(to) <==> king_reach(*board, *color, *from, to),
{
    let mut reached: Vec<Position> = Vec::new();
    push_offset(board, color, from, 1, 1, true, true, &mut reached);
    push_offset(board, color, from, 1, -1, true, true, &mut reached);
    push_offset(board, color, from, -1, 1, true, true, &mut reached);
    push_offset(board, color, from, -1, -1, true, true, &mut reached);
    push_offset(board, color, from, 0, 1, true, true, &mut reached);
    push_offset(board, color, from, 0, -1, true, true, &mut reached);
    push_offset(board, color, from, 1, 0, true, true, &mut reached);
    push_offset(board, color, from, -1, 0, true, true, &mut reached);
    reached
}

/// Lists the squares that a queen of the given color on `from` can move
/// to: those of a bishop and those of a rook.
fn queen_movements(board: &Board, piece: &Piece, from: &Position) -> (reached: Vec<Position>)
    requires
        from.valid(),
    ensures
        reached@.no_duplicates(),
        forall|to: Position|
            #![trigger reached@.contains(to)]
            reached@.contains(to) <==> diagonal_reach(*board, piece.color, *from, to)
                || straight_reach(*board, piece.color, *from, to),
{
    let mut reached = diagonals_movement_check(board, piece, from);
    let mut sides_moves = sides_movement_check(board, piece, from);
    let ghost diagonals = reached@;
    let ghost sides = sides_moves@;
    reached.append(&mut sides_moves);
    proof {
        broadcast use lemma_seq_concat_contains_all_elements;

        assert forall|i: int, j: int|
            0 <= i < diagonals.len() && 0 <= j < sides.len() implies diagonals[i] != sides[j] by {
            assert(diagonals.contains(diagonals[i]));
            assert(sides.contains(sides[j]));
        }
        lemma_no_dup_in_concat(diagonals, sides);
    }
    reached
}

/// Lists the squares that `piece`, standing on `piece_position`, can move
/// to on `board`. Every listed square is on the board and is listed once;
/// the order of the list is not part of the contract.
pub fn generate_possible_movements(board: &Board, piece: &Piece, piece_position: &Position) -> (
    possible_positions: Vec<Position>
)
    requires
        piece_position.valid(),
    ensures
        possible_positions@.no_duplicates(),
        forall|to: Position|
            #![trigger possible_positions@.contains(to)]
            possible_positions@.contains(to) <==> can_reach(*board, *piece, *piece_position, to),
        forall|i: int|
            0 <= i < possible_positions@.len() ==> (#[trigger] possible_positions@[i]).valid(),
{
    let possible_positions = match piece.piece_type {
        PieceType::Pawn => pawn_movements(board, &piece.color, piece_position),
        PieceType::Bishop => diagonals_movement_check(board, piece, piece_position),
        PieceType::Knight => knight_movements(board, &piece.color, piece_position),
        PieceType::Rook => sides_movement_check(board, piece, piece_position),
        PieceType::Queen => queen_movements(board, piece, piece_position),
        PieceType::King => king_movements(board, &piece.color, piece_position),
    };
    proof {
        assert forall|i: int| 0 <= i < possible_positions@.len() implies (
        #[trigger] possible_positions@[i]).valid() by {
            assert(possible_positions@.contains(possible_positions@[i]));
        }
    }
    possible_positions
}

/// Whether `(row_step, column_step)` is the direction of a ray along which
/// a piece of the given kind slides: a diagonal for a bishop, a row or a
/// column for a rook, any of the eight for a queen.
pub open spec fn slides_along(kind: PieceType, row_step: int, column_step: int) -> bool {
    &&& -1 <= row_step <= 1
    &&& -1 <= column_step <= 1
    &&& match kind {
        PieceType::Bishop => row_step != 0 && column_step != 0,
        PieceType::Rook => (row_step == 0) != (column_step == 0),
        PieceType::Queen => row_step != 0 || column_step != 0,
        _ => false,
    }
}

/// A sliding piece does not jump: if it can move `far` steps along one of
/// its rays, every square nearer on that ray is blank.
pub proof fn lemma_slider_does_not_jump(
    board: Board,
    piece: Piece,
    from: Position,
    row_step: int,
    column_step: int,
    near: int,
    far: int,
)
    requires
        from.valid(),
        slides_along(piece.piece_type, row_step, column_step),
        0 < near < far,
        in_grid(shifted(from.line as int, row_step, far), shifted(from.column as int, column_step, far)),
        can_reach(board, piece, from, ray_square(from, row_step, column_step, far)),
    ensures
        ray_square(from, row_step, column_step, near).valid(),
        spot_at(board, ray_square(from, row_step, column_step, near)) is Blank,
{
    let to = ray_square(from, row_step, column_step, far);
    assert(on_ray(from, to, row_step, column_step));
    assert(span(from, to) == far);
    lemma_ray_points(from, to, row_step, column_step, near);
    assert(path_clear(board, from, to));
    assert(spot_at(
        board,
        ray_square(from, sign(row_delta(from, to)), sign(column_delta(from, to)), near),
    ) is Blank);
}

/// A ray stops at the first piece on it: if a square on a ray of a sliding
/// piece holds a piece, no square beyond it on that ray can be moved to.
pub proof fn lemma_ray_stops_at_piece(
    board: Board,
    piece: Piece,
    from: Position,
    row_step: int,
    column_step: int,
    blocker: int,
    beyond: int,
)
    requires
        from.valid(),
        slides_along(piece.piece_type, row_step, column_step),
        0 < blocker < beyond,
        in_grid(
            shifted(from.line as int, row_step, beyond),
            shifted(from.column as int, column_step, beyond),
        ),
        spot_at(board, ray_square(from, row_step, column_step, blocker)) is Piece,
    ensures
        !can_reach(board, piece, from, ray_square(from, row_step, column_step, beyond)),
{
    if can_reach(board, piece, from, ray_square(from, row_step, column_step, beyond)) {
        lemma_slider_does_not_jump(board, piece, from, row_step, column_step, blocker, beyond);
    }
}

/// The rule of a pawn's advance. A pawn moves within its column only by one
/// or two rows forward. One row: exactly when the square ahead is blank.
/// Two rows: exactly when the pawn stands on its starting row and both the
/// square it passes and the square it ends on are blank.
pub proof fn lemma_pawn_advance_rule(board: Board, color: Color, from: Position, to: Position)
    requires
        from.valid(),
        to.valid(),
        column_delta(from, to) == 0,
    ensures
        can_reach(board, Piece { piece_type: PieceType::Pawn, color }, from, to) ==> row_delta(
            from,
            to,
        ) == color.forward() || row_delta(from, to) == 2 * color.forward(),
        row_delta(from, to) == color.forward() ==> (can_reach(
            board,
            Piece { piece_type: PieceType::Pawn, color },
            from,
            to,
        ) <==> spot_at(board, to) is Blank),
        row_delta(from, to) == 2 * color.forward() ==> (can_reach(
            board,
            Piece { piece_type: PieceType::Pawn, color },
            from,
            to,
        ) <==> from.line == color.pawn_rank() && spot_at(
            board,
            square(from.line + color.forward(), from.column as int),
        ) is Blank && spot_at(board, to) is Blank),
{
}

/// The rule of a pawn's capture. A pawn leaves its column only to the
/// square one row forward and one column aside, and exactly when that
/// square holds a piece of the other side.
pub proof fn lemma_pawn_capture_rule(board: Board, color: Color, from: Position, to: Position)
    requires
        from.valid(),
        to.valid(),
        column_delta(from, to) != 0,
    ensures
        can_reach(board, Piece { piece_type: PieceType::Pawn, color }, from, to) ==> row_delta(
            from,
            to,
        ) == color.forward() && abs(column_delta(from, to)) == 1,
        row_delta(from, to) == color.forward() && abs(column_delta(from, to)) == 1 ==> (can_reach(
            board,
            Piece { piece_type: PieceType::Pawn, color },
            from,
            to,
        ) <==> (spot_at(board, to) matches BoardSpot::Piece(other) && other.color
            == color.opposite())),
{
}

/// A piece moves only to squares of the board, never to its own square,
/// and never onto a piece of its own side.
pub proof fn lemma_reach_is_on_board(board: Board, piece: Piece, from: Position, to: Position)
    requires
        from.valid(),
        can_reach(board, piece, from, to),
    ensures
        to.valid(),
        to != from,
        relation_to(spot_at(board, to), piece.color) != CheckPiece::SameColor,
{
}

} // verus!
