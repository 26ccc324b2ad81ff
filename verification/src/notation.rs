//! Reading squares and moves from text.
//!
//! A square is written as a column letter `a` to `h` followed by a line
//! digit `1` to `8`; what follows the digit is ignored. A move is written
//! as two squares separated by a comma, with optional whitespace around
//! each.

use crate::model::{info_at, Board, Info, Position};
use vstd::prelude::*;

verus! {

/// The eight columns of the board, by their letters.
#[derive(Clone, Copy, Debug, PartialEq, Eq, Structural)]
pub enum Columns {
    A,
    B,
    C,
    D,
    E,
    F,
    G,
    H,
}

impl Columns {
    /// The number of the column, counted from zero.
    pub open spec fn number(self) -> int {
        match self {
            Columns::A => 0,
            Columns::B => 1,
            Columns::C => 2,
            Columns::D => 3,
            Columns::E => 4,
            Columns::F => 5,
            Columns::G => 6,
            Columns::H => 7,
        }
    }

    /// Returns the number of the column, counted from zero.
    pub fn index(&self) -> (number: usize)
        ensures
            number == self.number(),
    {
        match self {
            Columns::A => 0,
            Columns::B => 1,
            Columns::C => 2,
            Columns::D => 3,
            Columns::E => 4,
            Columns::F => 5,
            Columns::G => 6,
            Columns::H => 7,
        }
    }
}

/// Why a text does not name a square.
#[derive(Clone, Copy, Debug, PartialEq, Eq, Structural)]
pub enum ParseError {
    /// The text has fewer than two characters.
    TooShort,
    /// The first character is not a letter from `a` to `h`.
    InvalidColumn,
    /// The second character is not a digit from `1` to `8`.
    InvalidLine,
}

/// The number of the column that `letter` names, if it names one: `a` is
/// column 0 and `h` is column 7.
pub open spec fn column_of(letter: char) -> Option<int> {
    if 'a' <= letter <= 'h' {
        Some(letter as int - 'a' as int)
    } else {
        None
    }
}

/// The number of the line that `digit` names, if it names one: `1` is line
/// 0 and `8` is line 7.
pub open spec fn line_of(digit: char) -> Option<int> {
    if '1' <= digit <= '8' {
        Some(digit as int - '1' as int)
    } else {
        None
    }
}

/// Returns the column that `letter` names, if it names one.
pub fn letter_to_column(letter: char) -> (column: Option<Columns>)
    ensures
        match column {
            Some(named) => column_of(letter) == Some(named.number()),
            None => column_of(letter) is None,
        },
{
    match letter {
        'a' => Some(Columns::A),
        'b' => Some(Columns::B),
        'c' => Some(Columns::C),
        'd' => Some(Columns::D),
        'e' => Some(Columns::E),
        'f' => Some(Columns::F),
        'g' => Some(Columns::G),
        'h' => Some(Columns::H),
        _ => None,
    }
}

/// The square that `text` names, or why it names none. The column is
/// looked at before the line.
pub open spec fn parse_square(text: Seq<char>) -> Result<Position, ParseError> {
    if text.len() < 2 {
        Err(ParseError::TooShort)
    } else if column_of(text[0]) is None {
        Err(ParseError::InvalidColumn)
    } else if line_of(text[1]) is None {
        Err(ParseError::InvalidLine)
    } else {
        Ok(
            Position {
                line: line_of(text[1])->0 as usize,
                column: column_of(text[0])->0 as usize,
            },
        )
    }
}

/// The square that `text` names together with what `board` holds there,
/// or why `text` names no square.
pub open spec fn resolved(board: Board, text: Seq<char>) -> Result<Info, ParseError> {
    match parse_square(text) {
        Ok(position) => Ok(info_at(board, position)),
        Err(error) => Err(error),
    }
}

/// Every square that a text names is on the board.
pub proof fn lemma_parsed_square_is_valid(text: Seq<char>)
    requires
        parse_square(text) is Ok,
    ensures
        parse_square(text)->Ok_0.valid(),
{
}

/// Reads the square that `notation_position` names and returns it with
/// what `board` holds there.
pub fn translate_notation(board: &Board, notation_position: &str) -> (found: Result<
    Info,
    ParseError,
>)
    ensures
        found == resolved(*board, notation_position@),
        found is Ok ==> found->Ok_0.describes(*board),
{
    if notation_position.unicode_len() < 2 {
        return Err(ParseError::TooShort);
    }
    let column = match letter_to_column(notation_position.get_char(0)) {
        Some(column) => column,
        None => {
            return Err(ParseError::InvalidColumn);
        },
    };
    let digit = notation_position.get_char(1);
    if digit < '1' || digit > '8' {
        return Err(ParseError::InvalidLine);
    }
    let piece_position = Position {
        column: column.index(),
        line: (digit as u32 - '1' as u32) as usize,
    };
    Ok(Info { position: piece_position, piece: board[piece_position.line][piece_position.column] })
}

/// Whether `c` is whitespace: a character with the Unicode property
/// White_Space.
pub open spec fn is_space(c: char) -> bool {
    let code = c as int;
    ||| 0x09 <= code <= 0x0D
    ||| code == 0x20
    ||| code == 0x85
    ||| code == 0xA0
    ||| code == 0x1680
    ||| 0x2000 <= code <= 0x200A
    ||| code == 0x2028
    ||| code == 0x2029
    ||| code == 0x202F
    ||| code == 0x205F
    ||| code == 0x3000
}

fn is_whitespace(c: char) -> (space: bool)
    ensures
        space == is_space(c),
{
    let code = c as u32;
    (0x09 <= code && code <= 0x0D) || code == 0x20 || code == 0x85 || code == 0xA0 || code == 0x1680
        || (0x2000 <= code && code <= 0x200A) || code == 0x2028 || code == 0x2029 || code == 0x202F
        || code == 0x205F || code == 0x3000
}

/// Where the field that starts at `start` ends: the index of the first
/// comma at or after `start`, or the length of the text if there is none.
pub open spec fn field_end(text: Seq<char>, start: int) -> int
    decreases text.len() - start,
{
    if start < 0 || start >= text.len() || text[start] == ',' {
        start
    } else {
        field_end(text, start + 1)
    }
}

/// The index of the first character from `start` and before `end` that is
/// not whitespace, or `end` if there is none.
pub open spec fn skip_spaces(text: Seq<char>, start: int, end: int) -> int
    decreases end - start,
{
    if start < end && is_space(text[start]) {
        skip_spaces(text, start + 1, end)
    } else {
        start
    }
}

/// The index after the last character from `start` and before `end` that
/// is not whitespace, or `start` if there is none.
pub open spec fn drop_spaces(text: Seq<char>, start: int, end: int) -> int
    decreases end - start,
{
    if start < end && is_space(text[end - 1]) {
        drop_spaces(text, start, end - 1)
    } else {
        end
    }
}

/// The part of `text` from `start` to `end` without the whitespace at its
/// two ends.
pub open spec fn trimmed(text: Seq<char>, start: int, end: int) -> Seq<char> {
    let first = skip_spaces(text, start, end);
    text.subrange(first, drop_spaces(text, first, end))
}

/// The text of the origin in a move: what stands before the first comma,
/// trimmed.
pub open spec fn origin_field(text: Seq<char>) -> Seq<char> {
    trimmed(text, 0, field_end(text, 0))
}

/// The text of the destination in a move: what stands between the first
/// comma and the second, or the end of the text, trimmed. It is empty if
/// the text has no comma.
pub open spec fn destination_field(text: Seq<char>) -> Seq<char> {
    let comma = field_end(text, 0);
    if comma >= text.len() {
        Seq::empty()
    } else {
        trimmed(text, comma + 1, field_end(text, comma + 1))
    }
}

fn collect_chars(text: &str) -> (chars: Vec<char>)
    ensures
        chars@ == text@,
{
    let mut chars: Vec<char> = Vec::new();
    for c in it: text.chars()
        invariant
            chars@ == it.seq().take(it.index() as int),
            it.seq() == text@,
    {
        chars.push(c);
    }
    chars
}

fn find_field_end(chars: &Vec<char>, start: usize) -> (end: usize)
    requires
        start <= chars@.len(),
    ensures
        end == field_end(chars@, start as int),
        start <= end <= chars@.len(),
{
    let mut end = start;
    while end < chars.len() && chars[end] != ','
        invariant
            start <= end <= chars@.len(),
            field_end(chars@, start as int) == field_end(chars@, end as int),
        decreases chars@.len() - end,
    {
        end += 1;
    }
    end
}

fn trim_bounds(chars: &Vec<char>, start: usize, end: usize) -> (bounds: (usize, usize))
    requires
        start <= end <= chars@.len(),
    ensures
        bounds.0 == skip_spaces(chars@, start as int, end as int),
        bounds.1 == drop_spaces(chars@, bounds.0 as int, end as int),
        start <= bounds.0 <= bounds.1 <= end,
{
    let mut first = start;
    while first < end && is_whitespace(chars[first])
        invariant
            start <= first <= end <= chars@.len(),
            skip_spaces(chars@, start as int, end as int) == skip_spaces(
                chars@,
                first as int,
                end as int,
            ),
        decreases end - first,
    {
        first += 1;
    }
    let mut last = end;
    while first < last && is_whitespace(chars[last - 1])
        invariant
            first <= last <= end <= chars@.len(),
            drop_spaces(chars@, first as int, end as int) == drop_spaces(
                chars@,
                first as int,
                last as int,
            ),
        decreases last - first,
    {
        last -= 1;
    }
    (first, last)
}

/// Reads a move: the origin, then a comma, then the destination. Each of
/// the two is looked up on `board` by itself, so one may be found while the
/// other is not.
pub fn get_info(board: &Board, player_move: String) -> (infos: [Result<Info, ParseError>; 2])
    ensures
        infos[0] == resolved(*board, origin_field(player_move@)),
        infos[1] == resolved(*board, destination_field(player_move@)),
        forall|i: int| 0 <= i < 2 && infos[i] is Ok ==> (#[trigger] infos[i])->Ok_0.describes(*board),
{
    let text = player_move.as_str();
    let chars = collect_chars(text);
    let comma = find_field_end(&chars, 0);
    let (first, last) = trim_bounds(&chars, 0, comma);
    let start = translate_notation(board, text.substring_char(first, last));
    let end = if comma >= chars.len() {
        proof {
            assert(destination_field(player_move@) =~= Seq::<char>::empty());
        }
        Err(ParseError::TooShort)
    } else {
        let second_comma = find_field_end(&chars, comma + 1);
        let (first, last) = trim_bounds(&chars, comma + 1, second_comma);
        translate_notation(board, text.substring_char(first, last))
    };
    [start, end]
}

/// Turns the two results of reading a move into one: both squares, or the
/// error of the origin, or else the error of the destination.
pub fn unwrap_array(infos: &[Result<Info, ParseError>; 2]) -> (both: Result<[Info; 2], ParseError>)
    ensures
        match (infos[0], infos[1]) {
            (Ok(start), Ok(end)) => both is Ok && both->Ok_0[0] == start && both->Ok_0[1] == end,
            (Err(error), _) => both == Err::<[Info; 2], ParseError>(error),
            (_, Err(error)) => both == Err::<[Info; 2], ParseError>(error),
        },
{
    match (infos[0], infos[1]) {
        (Ok(start), Ok(end)) => Ok([start, end]),
        (Err(error), _) => Err(error),
        (_, Err(error)) => Err(error),
    }
}

} // verus!
