//! Applying a move: a requested move is checked against the movement rules
//! and, if it passes, produces a new board. A rejected move leaves the
//! board as it was.
//!
//! Nothing here keeps a move from exposing the mover's own king, and
//! nothing advances the turn: both are left to the caller.

use crate::model::{
    contains_position, lemma_board_extensionality, spot_at, Board, BoardSpot, Color, Piece, Position,
};
use crate::attack::{attacked, attacks_from, first_king_at, has_one_king, in_check, king_at};
use crate::movement::{can_reach, generate_possible_movements, lemma_reach_is_on_board};
use vstd::prelude::*;

verus! {

/// Why a requested move was rejected.
#[derive(Clone, Copy, Debug, PartialEq, Eq, Structural)]
pub enum MoveError {
    /// No piece stands on the origin square.
    EmptyOrigin,
    /// The piece on the origin square belongs to the side that is not to
    /// move.
    WrongSideToMove,
    /// The piece on the origin square cannot move to the destination.
    IllegalShape,
}

/// Tells whether `piece`, standing on `starting_position`, can move to
/// `destination_position`.
pub fn check_move(
    board: &Board,
    piece: Piece,
    starting_position: &Position,
    destination_position: &Position,
) -> (legal: bool)
    requires
        starting_position.valid(),
    ensures
        legal == can_reach(*board, piece, *starting_position, *destination_position),
{
    let possible_movements = generate_possible_movements(board, &piece, starting_position);
    contains_position(&possible_movements, destination_position)
}

/// Whether `after` is `before` with `piece` moved from `from` to `to`: the
/// origin is blank, the destination holds the piece, and every other square
/// is as it was.
pub open spec fn is_moved_board(
    before: Board,
    after: Board,
    piece: Piece,
    from: Position,
    to: Position,
) -> bool {
    forall|p: Position|
        p.valid() ==> #[trigger] spot_at(after, p) == if p == from {
            BoardSpot::Blank
        } else if p == to {
            BoardSpot::Piece(piece)
        } else {
            spot_at(before, p)
        }
}

/// Moves `piece` from `starting_position` to `destination_position` if the
/// movement rules allow it. Returns the new board and `true`, or the board
/// unchanged and `false`.
pub fn move_piece(
    board: &Board,
    piece: Piece,
    starting_position: &Position,
    destination_position: &Position,
) -> (outcome: (Board, bool))
    requires
        starting_position.valid(),
    ensures
        outcome.1 == can_reach(*board, piece, *starting_position, *destination_position),
        outcome.1 ==> is_moved_board(
            *board,
            outcome.0,
            piece,
            *starting_position,
            *destination_position,
        ),
        !outcome.1 ==> outcome.0 == *board,
{
    let mut new_board = *board;
    let is_legal_move = check_move(board, piece, starting_position, destination_position);
    if is_legal_move {
        new_board[destination_position.line][destination_position.column] = BoardSpot::Piece(piece);
        new_board[starting_position.line][starting_position.column] = BoardSpot::Blank;
        (new_board, true)
    } else {
        (new_board, false)
    }
}

/// Why the move from `origin` to `destination` by the side `turn` is
/// rejected on `board`, or `None` if it is accepted. The first reason that
/// applies is given: no piece on the origin, a piece of the other side on
/// it, a destination that the piece cannot move to.
pub open spec fn rejection(board: Board, turn: Color, origin: Position, destination: Position) -> Option<
    MoveError,
> {
    match spot_at(board, origin) {
        BoardSpot::Blank => Some(MoveError::EmptyOrigin),
        BoardSpot::Piece(piece) => if piece.color != turn {
            Some(MoveError::WrongSideToMove)
        } else if !can_reach(board, piece, origin, destination) {
            Some(MoveError::IllegalShape)
        } else {
            None
        },
    }
}

/// Whether `outcome` is what an attempt to move from `origin` to
/// `destination` by the side `turn` gives on `board`: the reason of the
/// rejection with the board unchanged, or success with the piece moved.
pub open spec fn is_attempt_outcome(
    board: Board,
    turn: Color,
    origin: Position,
    destination: Position,
    outcome: (Board, Result<(), MoveError>),
) -> bool {
    match rejection(board, turn, origin, destination) {
        Some(reason) => outcome.1 == Err::<(), MoveError>(reason) && outcome.0 == board,
        None => outcome.1 is Ok && spot_at(board, origin) is Piece && is_moved_board(
            board,
            outcome.0,
            spot_at(board, origin)->Piece_0,
            origin,
            destination,
        ),
    }
}

/// Attempts the move from `origin` to `destination` for the side `turn`.
/// An accepted move gives the new board and `Ok`; a rejected one gives the
/// board unchanged and the reason.
pub fn attempt_move(board: &Board, turn: Color, origin: &Position, destination: &Position) -> (outcome:
    (Board, Result<(), MoveError>))
    requires
        origin.valid(),
    ensures
        is_attempt_outcome(*board, turn, *origin, *destination, outcome),
{
    match board[origin.line][origin.column] {
        BoardSpot::Blank => (*board, Err(MoveError::EmptyOrigin)),
        BoardSpot::Piece(piece) => {
            if piece.color != turn {
                (*board, Err(MoveError::WrongSideToMove))
            } else {
                let (new_board, was_moved) = move_piece(board, piece, origin, destination);
                if was_moved {
                    (new_board, Ok(()))
                } else {
                    (new_board, Err(MoveError::IllegalShape))
                }
            }
        },
    }
}

/// A rejected attempt changes nothing, so repeating it on the board it
/// returned is rejected again, for the same reason and with the same
/// board.
pub proof fn lemma_rejected_attempt_repeats(
    board: Board,
    turn: Color,
    origin: Position,
    destination: Position,
    first: (Board, Result<(), MoveError>),
    second: (Board, Result<(), MoveError>),
)
    requires
        origin.valid(),
        is_attempt_outcome(board, turn, origin, destination, first),
        first.1 is Err,
        is_attempt_outcome(first.0, turn, origin, destination, second),
    ensures
        first.0 == board,
        second == first,
{
}

/// An attempt has one outcome: the inputs decide the result and the board.
pub proof fn lemma_attempt_outcome_is_unique(
    board: Board,
    turn: Color,
    origin: Position,
    destination: Position,
    first: (Board, Result<(), MoveError>),
    second: (Board, Result<(), MoveError>),
)
    requires
        origin.valid(),
        is_attempt_outcome(board, turn, origin, destination, first),
        is_attempt_outcome(board, turn, origin, destination, second),
    ensures
        first == second,
{
    if rejection(board, turn, origin, destination) is None {
        lemma_board_extensionality(first.0, second.0);
        assert(first.1->Ok_0 == second.1->Ok_0);
    }
}

/// An attempt is accepted exactly when the side to move has a piece on the
/// origin and that piece attacks the destination.
pub proof fn lemma_accepted_iff_attacking(
    board: Board,
    turn: Color,
    origin: Position,
    destination: Position,
)
    requires
        origin.valid(),
    ensures
        rejection(board, turn, origin, destination) is None <==> attacks_from(
            board,
            turn,
            origin,
            destination,
        ),
{
}

/// A move keeps a side's king unless it captures it: if the board holds
/// exactly one king of a side and the attempt is rejected or does not end
/// on that king's square, the board after the attempt holds exactly one
/// king of that side.
pub proof fn lemma_attempt_keeps_king(
    board: Board,
    turn: Color,
    origin: Position,
    destination: Position,
    outcome: (Board, Result<(), MoveError>),
    color: Color,
)
    requires
        origin.valid(),
        is_attempt_outcome(board, turn, origin, destination, outcome),
        has_one_king(board, color),
        outcome.1 is Ok ==> !king_at(board, color, destination),
    ensures
        has_one_king(outcome.0, color),
{
    if rejection(board, turn, origin, destination) is None {
        let piece = spot_at(board, origin)->Piece_0;
        let after = outcome.0;
        lemma_reach_is_on_board(board, piece, origin, destination);
        let king = choose|position: Position|
            #![trigger king_at(board, color, position)]
            king_at(board, color, position) && forall|other: Position| #[trigger]
                king_at(board, color, other) ==> other == position;
        let moved_king = if origin == king {
            destination
        } else {
            king
        };
        assert(spot_at(after, moved_king) == spot_at(board, king));
        assert(king_at(after, color, moved_king));
        assert forall|other: Position| #[trigger] king_at(after, color, other) implies other
            == moved_king by {
            if other != destination {
                assert(spot_at(after, other) == spot_at(board, other));
                assert(king_at(board, color, other));
            } else {
                assert(spot_at(after, other) == BoardSpot::Piece(piece));
                assert(king_at(board, color, origin));
            }
        }
    }
}

/// A king that is not in check is not captured by the other side's next
/// move: if the board holds exactly one king of a side and that king is not
/// attacked, the board after any attempt by the other side holds exactly
/// one king of that side.
pub proof fn lemma_unchecked_king_survives(
    board: Board,
    color: Color,
    origin: Position,
    destination: Position,
    outcome: (Board, Result<(), MoveError>),
)
    requires
        origin.valid(),
        has_one_king(board, color),
        !in_check(board, color),
        is_attempt_outcome(board, color.opposite(), origin, destination, outcome),
    ensures
        has_one_king(outcome.0, color),
{
    if rejection(board, color.opposite(), origin, destination) is None && king_at(
        board,
        color,
        destination,
    ) {
        assert(attacks_from(board, color.opposite(), origin, destination));
        assert(attacked(board, color.opposite(), destination));
        assert(first_king_at(board, color, destination));
    }
    lemma_attempt_keeps_king(board, color.opposite(), origin, destination, outcome, color);
}

} // verus!
