//! The data model: sides, pieces, squares and the 8x8 board.
//!
//! A board is a plain value. Nothing here mutates a board in place; a move
//! produces a new board.

use vstd::prelude::*;

verus! {

/// One of the two players.
#[derive(Clone, Copy, Debug, PartialEq, Eq, Structural)]
pub enum Color {
    White,
    Black,
}

impl Color {
    /// The other player.
    pub open spec fn opposite(self) -> Color {
        match self {
            Color::White => Color::Black,
            Color::Black => Color::White,
        }
    }

    /// The row delta of one pawn step: White advances toward higher rows,
    /// Black toward lower rows.
    pub open spec fn forward(self) -> int {
        match self {
            Color::White => 1,
            Color::Black => -1,
        }
    }

    /// The row on which this side's pawns start.
    pub open spec fn pawn_rank(self) -> int {
        match self {
            Color::White => 1,
            Color::Black => 6,
        }
    }

    /// The row on which this side's officers start.
    pub open spec fn back_rank(self) -> int {
        match self {
            Color::White => 0,
            Color::Black => 7,
        }
    }

    /// Returns the other player.
    pub fn reverse(&self) -> (other: Color)
        ensures
            other == self.opposite(),
    {
        match self {
            Color::White => Color::Black,
            Color::Black => Color::White,
        }
    }
}

/// Reversing a side twice gives the side back, and never gives the side
/// itself.
pub proof fn lemma_reverse_is_involution(color: Color)
    ensures
        color.opposite().opposite() == color,
        color.opposite() != color,
{
}

/// The six kinds of piece.
#[derive(Clone, Copy, Debug, PartialEq, Eq, Structural)]
pub enum PieceType {
    Pawn,
    Rook,
    Knight,
    Bishop,
    Queen,
    King,
}

impl PieceType {
    /// Position of the kind within a block of chess glyphs, which are laid
    /// out king, queen, rook, bishop, knight, pawn.
    pub open spec fn glyph_offset(self) -> int {
        match self {
            PieceType::King => 0,
            PieceType::Queen => 1,
            PieceType::Rook => 2,
            PieceType::Bishop => 3,
            PieceType::Knight => 4,
            PieceType::Pawn => 5,
        }
    }
}

/// A piece: its kind and the side that owns it.
#[derive(Clone, Copy, Debug, PartialEq, Eq, Structural)]
pub struct Piece {
    pub piece_type: PieceType,
    pub color: Color,
}

/// What stands on a square.
#[derive(Clone, Copy, Debug, PartialEq, Eq, Structural)]
pub enum BoardSpot {
    Piece(Piece),
    Blank,
}

impl BoardSpot {
    /// The code point of the character that displays this occupant: a dot
    /// for a blank square, a filled chess glyph (from U+265A) for a White
    /// piece and an outlined one (from U+2654) for a Black piece.
    pub open spec fn glyph(self) -> int {
        match self {
            BoardSpot::Blank => 0x2E,
            BoardSpot::Piece(piece) => match piece.color {
                Color::White => 0x265A + piece.piece_type.glyph_offset(),
                Color::Black => 0x2654 + piece.piece_type.glyph_offset(),
            },
        }
    }

    /// Returns the character that displays this occupant.
    pub fn to_board_representation(&self) -> (symbol: char)
        ensures
            symbol as int == self.glyph(),
    {
        match self {
            BoardSpot::Blank => '.',
            BoardSpot::Piece(piece) => match piece.color {
                Color::White => match piece.piece_type {
                    PieceType::Pawn => '\u{265F}',
                    PieceType::Rook => '\u{265C}',
                    PieceType::Knight => '\u{265E}',
                    PieceType::Bishop => '\u{265D}',
                    PieceType::Queen => '\u{265B}',
                    PieceType::King => '\u{265A}',
                },
                Color::Black => match piece.piece_type {
                    PieceType::Pawn => '\u{2659}',
                    PieceType::Rook => '\u{2656}',
                    PieceType::Knight => '\u{2658}',
                    PieceType::Bishop => '\u{2657}',
                    PieceType::Queen => '\u{2655}',
                    PieceType::King => '\u{2654}',
                },
            },
        }
    }
}

/// Two occupants are displayed by the same character only if they are the
/// same occupant.
pub proof fn lemma_glyph_is_injective(a: BoardSpot, b: BoardSpot)
    requires
        a.glyph() == b.glyph(),
    ensures
        a == b,
{
}

/// The coordinate of a square: `line` is the row and `column` the file,
/// both counted from zero.
#[derive(Clone, Copy, Debug, PartialEq, Eq, Structural)]
pub struct Position {
    pub line: usize,
    pub column: usize,
}

impl Position {
    /// A position is valid when it names a square of the board.
    pub open spec fn valid(self) -> bool {
        self.line < 8 && self.column < 8
    }

    /// The place of the square in row-major order.
    pub open spec fn index(self) -> int {
        self.line * 8 + self.column
    }
}

/// Whether the pair `(row, column)` names a square of the board.
pub open spec fn in_grid(row: int, column: int) -> bool {
    0 <= row < 8 && 0 <= column < 8
}

/// The position with the given row and column.
pub open spec fn square(row: int, column: int) -> Position {
    Position { line: row as usize, column: column as usize }
}

/// The board: eight rows of eight squares. Row 0 is White's back rank.
pub type Board = [[BoardSpot; 8]; 8];

/// The occupant of the square at `position`.
pub open spec fn spot_at(board: Board, position: Position) -> BoardSpot {
    board[position.line as int][position.column as int]
}

/// A square together with the occupant found on it.
#[derive(Clone, Copy, Debug, PartialEq, Eq, Structural)]
pub struct Info {
    pub position: Position,
    pub piece: BoardSpot,
}

impl Info {
    /// Whether this record says what `board` holds at a valid square.
    pub open spec fn describes(self, board: Board) -> bool {
        self.position.valid() && self.piece == spot_at(board, self.position)
    }
}

/// The record of the square at `position` on `board`.
pub open spec fn info_at(board: Board, position: Position) -> Info {
    Info { position, piece: spot_at(board, position) }
}

/// Tells whether `target` occurs in `positions`.
pub fn contains_position(positions: &Vec<Position>, target: &Position) -> (found: bool)
    ensures
        found == positions@.contains(*target),
{
    let mut i: usize = 0;
    while i < positions.len()
        invariant
            i <= positions@.len(),
            forall|j: int| 0 <= j < i ==> positions@[j] != *target,
        decreases positions@.len() - i,
    {
        if positions[i].line == target.line && positions[i].column == target.column {
            return true;
        }
        i += 1;
    }
    false
}

/// Two boards with the same occupant on each square are the same board.
pub proof fn lemma_board_extensionality(a: Board, b: Board)
    requires
        forall|p: Position| p.valid() ==> spot_at(a, p) == spot_at(b, p),
    ensures
        a == b,
{
    assert forall|r: int| 0 <= r < 8 implies a[r] == b[r] by {
        assert forall|c: int| 0 <= c < 8 implies a[r][c] == b[r][c] by {
            let p = square(r, c);
            assert(p.valid());
            assert(spot_at(a, p) == spot_at(b, p));
        }
        assert(a[r] =~= b[r]);
    }
    assert(a =~= b);
}

/// The officer that starts on the given column of a back rank.
pub open spec fn officer_on(column: int) -> PieceType {
    if column == 0 || column == 7 {
        PieceType::Rook
    } else if column == 1 || column == 6 {
        PieceType::Knight
    } else if column == 2 || column == 5 {
        PieceType::Bishop
    } else if column == 3 {
        PieceType::Queen
    } else {
        PieceType::King
    }
}

/// The occupant of the square `(row, column)` at the start of a game.
pub open spec fn starting_spot(row: int, column: int) -> BoardSpot {
    if row == 0 {
        BoardSpot::Piece(Piece { piece_type: officer_on(column), color: Color::White })
    } else if row == 1 {
        BoardSpot::Piece(Piece { piece_type: PieceType::Pawn, color: Color::White })
    } else if row == 6 {
        BoardSpot::Piece(Piece { piece_type: PieceType::Pawn, color: Color::Black })
    } else if row == 7 {
        BoardSpot::Piece(Piece { piece_type: officer_on(column), color: Color::Black })
    } else {
        BoardSpot::Blank
    }
}

/// Whether `board` is the layout at the start of a game.
pub open spec fn is_starting_board(board: Board) -> bool {
    forall|p: Position| p.valid() ==> #[trigger] spot_at(board, p) == starting_spot(p.line as int, p.column as int)
}

fn back_rank_of(color: Color) -> (rank: [BoardSpot; 8])
    ensures
        forall|c: int| 0 <= c < 8 ==> rank[c] == BoardSpot::Piece(
            Piece { piece_type: officer_on(c), color },
        ),
{
    [
        BoardSpot::Piece(Piece { piece_type: PieceType::Rook, color }),
        BoardSpot::Piece(Piece { piece_type: PieceType::Knight, color }),
        BoardSpot::Piece(Piece { piece_type: PieceType::Bishop, color }),
        BoardSpot::Piece(Piece { piece_type: PieceType::Queen, color }),
        BoardSpot::Piece(Piece { piece_type: PieceType::King, color }),
        BoardSpot::Piece(Piece { piece_type: PieceType::Bishop, color }),
        BoardSpot::Piece(Piece { piece_type: PieceType::Knight, color }),
        BoardSpot::Piece(Piece { piece_type: PieceType::Rook, color }),
    ]
}

fn uniform_rank(spot: BoardSpot) -> (rank: [BoardSpot; 8])
    ensures
        forall|c: int| 0 <= c < 8 ==> rank[c] == spot,
{
    [spot, spot, spot, spot, spot, spot, spot, spot]
}

/// Returns the board at the start of a game.
pub fn starting_board() -> (board: Board)
    ensures
        is_starting_board(board),
{
    let white_pawn = BoardSpot::Piece(Piece { piece_type: PieceType::Pawn, color: Color::White });
    let black_pawn = BoardSpot::Piece(Piece { piece_type: PieceType::Pawn, color: Color::Black });
    let board = [
        back_rank_of(Color::White),
        uniform_rank(white_pawn),
        uniform_rank(BoardSpot::Blank),
        uniform_rank(BoardSpot::Blank),
        uniform_rank(BoardSpot::Blank),
        uniform_rank(BoardSpot::Blank),
        uniform_rank(black_pawn),
        back_rank_of(Color::Black),
    ];
    assert forall|p: Position| p.valid() implies #[trigger] spot_at(board, p) == starting_spot(
        p.line as int,
        p.column as int,
    ) by {
        let row = board[p.line as int];
        assert(row[p.column as int] == spot_at(board, p));
    }
    board
}

/// Returns the occupants of all 64 squares in row-major order: the square
/// `(line, column)` is found at index `line * 8 + column`, so the first
/// eight entries are row 0.
pub fn render(board: &Board) -> (spots: Vec<BoardSpot>)
    ensures
        spots@.len() == 64,
        forall|p: Position| p.valid() ==> spots@[p.index()] == #[trigger] spot_at(*board, p),
{
    let mut spots: Vec<BoardSpot> = Vec::new();
    let mut line: usize = 0;
    while line < 8
        invariant
            line <= 8,
            spots@.len() == line * 8,
            forall|p: Position|
                p.valid() && p.line < line ==> spots@[p.index()] == #[trigger] spot_at(*board, p),
        decreases 8 - line,
    {
        let mut column: usize = 0;
        while column < 8
            invariant
                line < 8,
                column <= 8,
                spots@.len() == line * 8 + column,
                forall|p: Position|
                    p.valid() && (p.line < line || (p.line == line && p.column < column))
                        ==> spots@[p.index()] == #[trigger] spot_at(*board, p),
            decreases 8 - column,
        {
            spots.push(board[line][column]);
            column += 1;
        }
        line += 1;
    }
    spots
}

} // verus!
