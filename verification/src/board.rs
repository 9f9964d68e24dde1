//! The fixed 8x8 coordinate space, the colouring of its squares and the
//! squares on which the two sides start.
//!
//! A position is written `(x, y)`: `x` is the row, along which the pieces
//! advance, and `y` the column.

use vstd::prelude::*;

verus! {

/// Number of rows, and of columns, of the board.
pub const BOARD_SIZE: u8 = 8;

/// Number of squares of the board.
pub const SQUARE_COUNT: usize = 64;

/// Number of pieces with which each side starts.
pub const PIECES_PER_SIDE: u8 = 12;

/// A pair of board coordinates, row first.
pub type Position = (u8, u8);

/// The two sides, which are also the two colours of the squares.
#[derive(Clone, Copy, Debug, PartialEq, Eq, Structural)]
pub enum Color {
    White,
    Black,
}

impl Color {
    /// The other side.
    pub open spec fn opposite(self) -> Color {
        match self {
            Color::White => Color::Black,
            Color::Black => Color::White,
        }
    }

    /// Returns the other side.
    pub fn other(self) -> (r: Color)
        ensures
            r == self.opposite(),
    {
        match self {
            Color::White => Color::Black,
            Color::Black => Color::White,
        }
    }
}

/// A square of the board, addressed by its coordinates.
#[derive(Clone, Copy, Debug, PartialEq, Eq, Structural)]
pub struct Square {
    pub x: u8,
    pub y: u8,
}

/// Whether the coordinates `(x, y)` lie on the board.
pub open spec fn on_board(x: int, y: int) -> bool {
    0 <= x < BOARD_SIZE && 0 <= y < BOARD_SIZE
}

/// The colour of the square at `(x, y)`: white where `x + y + 1` is even.
pub open spec fn square_color(x: int, y: int) -> Color {
    if (x + y + 1) % 2 == 0 {
        Color::White
    } else {
        Color::Black
    }
}

impl Square {
    /// Whether this square lies on the board.
    pub open spec fn on_board(self) -> bool {
        on_board(self.x as int, self.y as int)
    }

    /// Tells whether this square lies on the board.
    pub fn is_on_board(&self) -> (r: bool)
        ensures
            r == self.on_board(),
    {
        self.x < BOARD_SIZE && self.y < BOARD_SIZE
    }

    /// The colour of this square.
    pub fn color(&self) -> (r: Color)
        ensures
            r == square_color(self.x as int, self.y as int),
    {
        let sum: u16 = self.x as u16 + self.y as u16 + 1;
        if sum % 2 == 0 {
            Color::White
        } else {
            Color::Black
        }
    }
}

/// The `k`-th square of the board, counting row by row.
pub open spec fn square_at(k: int) -> Square {
    Square { x: (k / 8) as u8, y: (k % 8) as u8 }
}

/// The 64 squares of the board, row by row.
pub open spec fn board_squares() -> Seq<Square> {
    Seq::new(SQUARE_COUNT as nat, |k: int| square_at(k))
}

/// Every square of the board has its place in `board_squares`.
pub proof fn lemma_square_index(sq: Square)
    requires
        sq.on_board(),
    ensures
        0 <= 8 * sq.x + sq.y < SQUARE_COUNT,
        board_squares()[8 * sq.x + sq.y] == sq,
{
}

/// Returns the 64 squares of the board, row by row.
pub fn squares() -> (r: Vec<Square>)
    ensures
        r@ == board_squares(),
{
    let mut r: Vec<Square> = Vec::new();
    let mut i: u8 = 0;
    while i < BOARD_SIZE
        invariant
            i <= BOARD_SIZE,
            r@.len() == 8 * i,
            forall|k: int| 0 <= k < r@.len() ==> r@[k] == square_at(k),
        decreases BOARD_SIZE - i,
    {
        let mut j: u8 = 0;
        while j < BOARD_SIZE
            invariant
                i < BOARD_SIZE,
                j <= BOARD_SIZE,
                r@.len() == 8 * i + j,
                forall|k: int| 0 <= k < r@.len() ==> r@[k] == square_at(k),
            decreases BOARD_SIZE - j,
        {
            r.push(Square { x: i, y: j });
            j = j + 1;
        }
        i = i + 1;
    }
    assert(r@ =~= board_squares());
    r
}

/// The `k`-th starting square of a side whose nearest row is `first_row`:
/// the side fills three rows, four squares a row, on the squares whose
/// coordinates have an even sum.
pub open spec fn start_position(first_row: int, k: int) -> Position {
    let row = first_row + k / 4;
    (row as u8, (2 * (k % 4) + row % 2) as u8)
}

/// The twelve starting squares of a side whose nearest row is `first_row`.
pub open spec fn start_positions(first_row: int) -> Seq<Position> {
    Seq::new(PIECES_PER_SIDE as nat, |k: int| start_position(first_row, k))
}

/// The first of White's three rows.
pub const WHITE_FIRST_ROW: u8 = 0;

/// The first of Black's three rows.
pub const BLACK_FIRST_ROW: u8 = 5;

fn positions_from(first_row: u8) -> (r: Vec<Position>)
    requires
        first_row <= BLACK_FIRST_ROW,
    ensures
        r@ == start_positions(first_row as int),
{
    let mut r: Vec<Position> = Vec::new();
    let mut i: u8 = 0;
    while i < 3
        invariant
            first_row <= BLACK_FIRST_ROW,
            i <= 3,
            r@.len() == 4 * i,
            forall|k: int| 0 <= k < r@.len() ==> r@[k] == start_position(first_row as int, k),
        decreases 3 - i,
    {
        let row: u8 = first_row + i;
        let mut j: u8 = 0;
        while j < 4
            invariant
                first_row <= BLACK_FIRST_ROW,
                i < 3,
                row == first_row + i,
                j <= 4,
                r@.len() == 4 * i + j,
                forall|k: int| 0 <= k < r@.len() ==> r@[k] == start_position(first_row as int, k),
            decreases 4 - j,
        {
            r.push((row, 2 * j + row % 2));
            j = j + 1;
        }
        i = i + 1;
    }
    assert(r@ =~= start_positions(first_row as int));
    r
}

/// Returns the squares on which White starts, in the order of its pieces.
pub fn white_start_positions() -> (r: Vec<Position>)
    ensures
        r@ == start_positions(WHITE_FIRST_ROW as int),
{
    positions_from(WHITE_FIRST_ROW)
}

/// Returns the squares on which Black starts, in the order of its pieces.
pub fn black_start_positions() -> (r: Vec<Position>)
    ensures
        r@ == start_positions(BLACK_FIRST_ROW as int),
{
    positions_from(BLACK_FIRST_ROW)
}

/// The starting squares lie on the board, on squares of the dark colour,
/// and no two of them coincide.
pub proof fn lemma_start_positions(first_row: int, k: int, l: int)
    requires
        0 <= first_row <= BLACK_FIRST_ROW,
        0 <= k < PIECES_PER_SIDE,
        0 <= l < PIECES_PER_SIDE,
    ensures
        on_board(start_position(first_row, k).0 as int, start_position(first_row, k).1 as int),
        square_color(start_position(first_row, k).0 as int, start_position(first_row, k).1 as int)
            == Color::Black,
        first_row <= start_position(first_row, k).0 < first_row + 3,
        start_position(first_row, k) == start_position(first_row, l) ==> k == l,
{
}

} // verus!
