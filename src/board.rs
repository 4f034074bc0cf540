use vstd::prelude::*;

verus! {

/// The two games that share the board.
#[derive(Clone, Copy, Debug, PartialEq, Eq, Structural)]
pub enum BoardType {
    Baduk,
    Omok,
}

pub open spec fn spec_board_size(board_type: BoardType) -> u16 {
    match board_type {
        BoardType::Baduk => 19,
        BoardType::Omok => 15,
    }
}

/// Side length of the board that each game is played on.
pub fn board_size(board_type: BoardType) -> (r: u16)
    ensures
        r == spec_board_size(board_type),
{
    match board_type {
        BoardType::Baduk => 19,
        BoardType::Omok => 15,
    }
}

/// Why a move or a board operation was refused.
#[derive(Clone, Copy, Debug, PartialEq, Eq, Structural)]
pub enum BadukBoardError {
    OutOfBoard,
    OverLap,
    BannedChaksu,
    InvalidArgument,
}

/// Colour of a point or of a player. `ColorError` is diagnostic only.
#[derive(Clone, Copy, Debug, PartialEq, Eq, Structural)]
pub enum Color {
    Black,
    White,
    Free,
    ColorError,
}

pub open spec fn spec_reverse(c: Color) -> Color {
    match c {
        Color::Black => Color::White,
        Color::White => Color::Black,
        Color::Free => Color::Free,
        Color::ColorError => Color::ColorError,
    }
}

pub open spec fn is_player(c: Color) -> bool {
    c == Color::Black || c == Color::White
}

impl Color {
    pub open spec fn name(&self) -> Seq<char> {
        match self {
            Color::Black => "Black"@,
            Color::White => "White"@,
            Color::Free => "Free"@,
            Color::ColorError => "Error"@,
        }
    }

    /// Full English name of the colour.
    pub fn to_string(&self) -> (r: String)
        ensures
            r@ == self.name(),
    {
        match self {
            Color::Black => String::from_str("Black"),
            Color::White => String::from_str("White"),
            Color::Free => String::from_str("Free"),
            Color::ColorError => String::from_str("Error"),
        }
    }

    /// One-letter code of a result: `B`, `W`, `D` (a draw, `Free`) or `E`.
    pub fn to_str(&self) -> (r: &'static str)
        ensures
            r@ == match self {
                Color::Black => "B"@,
                Color::White => "W"@,
                Color::Free => "D"@,
                Color::ColorError => "E"@,
            },
    {
        match self {
            Color::Black => "B",
            Color::White => "W",
            Color::Free => "D",
            Color::ColorError => "E",
        }
    }

    /// The opposing colour; `Free` and `ColorError` map to themselves.
    pub fn reverse(self) -> (r: Self)
        ensures
            r == spec_reverse(self),
    {
        match self {
            Color::Black => Color::White,
            Color::White => Color::Black,
            Color::Free => Color::Free,
            Color::ColorError => Color::ColorError,
        }
    }
}

/// Reversing a colour twice gives it back.
pub proof fn lemma_reverse_involution(c: Color)
    ensures
        spec_reverse(spec_reverse(c)) == c,
{
}


/// Index of the 64-bit word that holds a coordinate.
pub fn coordinate_index(coordinate: u16) -> (r: usize)
    ensures
        r as int == coordinate as int / 64,
{
    (coordinate / 64) as usize
}

/// Mask of the bit that holds a coordinate inside its word.
pub fn coordinatde_value(coordinate: u16) -> (r: u64)
    ensures
        r == 1u64 << (coordinate % 64) as u64,
{
    1u64 << (coordinate % 64)
}

/// Whether bit `k` of `w` is set.
pub open spec fn bit_set(w: u64, k: int) -> bool {
    0 <= k < 64 && w & (1u64 << (k as u64)) != 0
}

proof fn lemma_bit_or(w: u64, k: u64, j: u64)
    requires
        k < 64,
        j < 64,
    ensures
        (w | (1u64 << k)) & (1u64 << j) != 0 <==> (w & (1u64 << j) != 0 || j == k),
{
    assert((w | (1u64 << k)) & (1u64 << j) != 0 <==> (w & (1u64 << j) != 0 || j == k))
        by (bit_vector)
        requires
            k < 64,
            j < 64,
    ;
}

proof fn lemma_bit_clear(w: u64, k: u64, j: u64)
    requires
        k < 64,
        j < 64,
    ensures
        (w & !(1u64 << k)) & (1u64 << j) != 0 <==> (w & (1u64 << j) != 0 && j != k),
{
    assert((w & !(1u64 << k)) & (1u64 << j) != 0 <==> (w & (1u64 << j) != 0 && j != k))
        by (bit_vector)
        requires
            k < 64,
            j < 64,
    ;
}

proof fn lemma_bit_zero(j: u64)
    requires
        j < 64,
    ensures
        0u64 & (1u64 << j) == 0,
{
    assert(0u64 & (1u64 << j) == 0) by (bit_vector);
}

/// Whether coordinate `c` is set in the words `a`.
pub open spec fn stone_in(a: [u64; 6], c: int) -> bool {
    0 <= c < 384 && bit_set(a[c / 64], c % 64)
}

/// The set of coordinates that the words `a` mark.
pub open spec fn stones_of(a: [u64; 6]) -> Set<int> {
    Set::new(|c: int| stone_in(a, c))
}

proof fn lemma_insert_stone(a: [u64; 6], b: [u64; 6], c: int)
    requires
        0 <= c < 384,
        b@ == a@.update(c / 64, a[c / 64] | (1u64 << (c % 64) as u64)),
    ensures
        stones_of(b) == stones_of(a).insert(c),
{
    assert forall|d: int| stone_in(b, d) == stones_of(a).insert(c).contains(d) by {
        if 0 <= d < 384 {
            lemma_bit_or(a[c / 64], (c % 64) as u64, (d % 64) as u64);
            if d / 64 == c / 64 && d != c {
                assert(d % 64 != c % 64);
            }
        }
    }
    assert(stones_of(b) =~= stones_of(a).insert(c));
}

proof fn lemma_remove_stone(a: [u64; 6], b: [u64; 6], c: int)
    requires
        0 <= c < 384,
        b@ == a@.update(c / 64, a[c / 64] & !(1u64 << (c % 64) as u64)),
    ensures
        stones_of(b) == stones_of(a).remove(c),
{
    assert forall|d: int| stone_in(b, d) == stones_of(a).remove(c).contains(d) by {
        if 0 <= d < 384 {
            lemma_bit_clear(a[c / 64], (c % 64) as u64, (d % 64) as u64);
            if d / 64 == c / 64 && d != c {
                assert(d % 64 != c % 64);
            }
        }
    }
    assert(stones_of(b) =~= stones_of(a).remove(c));
}

/// Every point of `s` lies on a board of side `size`.
pub open spec fn within(s: Set<int>, size: int) -> bool {
    forall|c: int| #[trigger] s.contains(c) ==> on_board(size, c)
}

/// A point of a board no wider than 19 lies within the first 361 bits.
pub proof fn lemma_on_board_bound(size: int, c: int)
    requires
        1 <= size <= 19,
        on_board(size, c),
    ensures
        c < 361,
        size * size <= 361,
{
    lemma_board_area(size);
}

/// The area of a board no wider than 19.
pub proof fn lemma_board_area(size: int)
    requires
        1 <= size <= 19,
    ensures
        1 <= size * size <= 361,
{
    assert(1 <= size * size <= 361) by (nonlinear_arith)
        requires
            1 <= size <= 19,
    ;
}

/// Abstract content of a board.
pub struct BoardView {
    pub size: int,
    pub black: Set<int>,
    pub white: Set<int>,
    pub turn: Color,
}

/// Occupancy of a square board, one bit per point and colour, plus whose
/// turn it is.
#[derive(Clone, Copy, Debug)]
pub struct BadukBoard {
    boardsize: u16,
    black: [u64; 6],
    white: [u64; 6],
    turn: Color,
}

impl View for BadukBoard {
    type V = BoardView;

    closed spec fn view(&self) -> BoardView {
        BoardView {
            size: self.boardsize as int,
            black: stones_of(self.black),
            white: stones_of(self.white),
            turn: self.turn,
        }
    }
}

/// The colour found at `c` on a board view.
pub open spec fn color_at(v: BoardView, c: int) -> Color {
    if v.black.contains(c) && v.white.contains(c) {
        Color::ColorError
    } else if v.black.contains(c) {
        Color::Black
    } else if v.white.contains(c) {
        Color::White
    } else {
        Color::Free
    }
}

/// Whether `c` is a point of a board of side `size`.
pub open spec fn on_board(size: int, c: int) -> bool {
    0 <= c < size * size
}

impl BadukBoard {
    pub closed spec fn words_black(&self) -> [u64; 6] {
        self.black
    }

    pub closed spec fn words_white(&self) -> [u64; 6] {
        self.white
    }

    /// A board whose side fits the words, whose stones all lie on it, and
    /// whose turn is a player's.
    pub open spec fn wf(&self) -> bool {
        &&& 1 <= self@.size <= 19
        &&& is_player(self@.turn)
        &&& within(self@.black, self@.size)
        &&& within(self@.white, self@.size)
    }

    /// Empty board of the given side, Black to move.
    pub fn new(board_size: u16) -> (r: Self)
        requires
            1 <= board_size <= 19,
        ensures
            r.wf(),
            r@.size == board_size as int,
            r@.black == Set::<int>::empty(),
            r@.white == Set::<int>::empty(),
            r@.turn == Color::Black,
    {
        let r = Self { boardsize: board_size, black: [0; 6], white: [0; 6], turn: Color::Black };
        proof {
            assert forall|c: int| !stone_in(r.black, c) by {
                if 0 <= c < 384 {
                    lemma_bit_zero((c % 64) as u64);
                }
            }
            assert(r@.black =~= Set::<int>::empty());
            assert(r@.white =~= Set::<int>::empty());
        }
        r
    }

    /// Both colour bitboards, word by word.
    pub fn bitboard_black(&self) -> (r: &[u64; 6])
        ensures
            *r == self.words_black(),
            forall|c: int| stone_in(*r, c) <==> self@.black.contains(c),
    {
        &self.black
    }

    pub fn bitboard_white(&self) -> (r: &[u64; 6])
        ensures
            *r == self.words_white(),
            forall|c: int| stone_in(*r, c) <==> self@.white.contains(c),
    {
        &self.white
    }

    /// Whose turn it is.
    pub fn is_turn(&self) -> (r: Color)
        ensures
            r == self@.turn,
    {
        self.turn
    }

    /// Side length of the board.
    pub fn is_boardsize(&self) -> (r: u16)
        ensures
            r as int == self@.size,
    {
        self.boardsize
    }

    /// Coordinate of the point in column `x` and row `y`.
    pub fn xy_expression_to_integer_expression(&self, x: u16, y: u16) -> (r: u16)
        requires
            self.wf(),
            x < self@.size,
            y < self@.size,
        ensures
            r as int == y * self@.size + x,
    {
        proof {
            assert(y * self.boardsize <= 18 * 19) by (nonlinear_arith)
                requires
                    y < self.boardsize,
                    self.boardsize <= 19,
            ;
        }
        y * self.boardsize + x
    }

    /// Row of a coordinate.
    pub fn is_column(&self, coordinate: u16) -> (r: usize)
        requires
            self.wf(),
        ensures
            r as int == coordinate as int / self@.size,
    {
        (coordinate / self.boardsize) as usize
    }

    /// `Ok` exactly when the coordinate lies on the board.
    pub fn check_outboard_coordinate(&self, coordinate: u16) -> (r: Result<(), BadukBoardError>)
        requires
            self.wf(),
        ensures
            r is Ok <==> on_board(self@.size, coordinate as int),
            r is Err ==> r == Err::<(), BadukBoardError>(BadukBoardError::OutOfBoard),
    {
        proof {
            lemma_board_area(self@.size);
        }
        if coordinate < self.boardsize * self.boardsize {
            Ok(())
        } else {
            Err(BadukBoardError::OutOfBoard)
        }
    }

    /// Whether a black stone stands on the coordinate.
    pub fn is_black(&self, coordinate: u16) -> (r: bool)
        requires
            self.wf(),
            on_board(self@.size, coordinate as int),
        ensures
            r == self@.black.contains(coordinate as int),
    {
        proof {
            lemma_on_board_bound(self@.size, coordinate as int);
        }
        (self.black[coordinate_index(coordinate)] & coordinatde_value(coordinate)) != 0
    }

    /// Whether a white stone stands on the coordinate.
    pub fn is_white(&self, coordinate: u16) -> (r: bool)
        requires
            self.wf(),
            on_board(self@.size, coordinate as int),
        ensures
            r == self@.white.contains(coordinate as int),
    {
        proof {
            lemma_on_board_bound(self@.size, coordinate as int);
        }
        (self.white[coordinate_index(coordinate)] & coordinatde_value(coordinate)) != 0
    }

    /// Whether no stone stands on the coordinate.
    pub fn is_free(&self, coordinate: u16) -> (r: bool)
        requires
            self.wf(),
            on_board(self@.size, coordinate as int),
        ensures
            r == (!self@.black.contains(coordinate as int) && !self@.white.contains(
                coordinate as int,
            )),
    {
        !(self.is_black(coordinate) || self.is_white(coordinate))
    }

    /// Colour found on the coordinate; `ColorError` where both bits are set.
    pub fn is_color(&self, coordinate: u16) -> (r: Color)
        requires
            self.wf(),
            on_board(self@.size, coordinate as int),
        ensures
            r == color_at(self@, coordinate as int),
    {
        match (self.is_black(coordinate), self.is_white(coordinate)) {
            (true, true) => Color::ColorError,
            (true, false) => Color::Black,
            (false, true) => Color::White,
            (false, false) => Color::Free,
        }
    }

    /// Whether the coordinate holds the given colour (`Free`: empty);
    /// `false` for `ColorError`.
    pub fn check_color(&self, coordinate: u16, color: Color) -> (r: bool)
        requires
            self.wf(),
            on_board(self@.size, coordinate as int),
        ensures
            r == match color {
                Color::Black => self@.black.contains(coordinate as int),
                Color::White => self@.white.contains(coordinate as int),
                Color::Free => !self@.black.contains(coordinate as int) && !self@.white.contains(
                    coordinate as int,
                ),
                Color::ColorError => false,
            },
    {
        match color {
            Color::Black => self.is_black(coordinate),
            Color::White => self.is_white(coordinate),
            Color::Free => self.is_free(coordinate),
            Color::ColorError => false,
        }
    }

    /// Sets the coordinate's bit for a player's colour; other colours leave
    /// the board as it is.
    pub fn push_stone(&mut self, coordinate: u16, color: Color)
        requires
            old(self).wf(),
            on_board(old(self)@.size, coordinate as int),
        ensures
            final(self).wf(),
            final(self)@.size == old(self)@.size,
            final(self)@.turn == old(self)@.turn,
            final(self)@.black == if color == Color::Black {
                old(self)@.black.insert(coordinate as int)
            } else {
                old(self)@.black
            },
            final(self)@.white == if color == Color::White {
                old(self)@.white.insert(coordinate as int)
            } else {
                old(self)@.white
            },
    {
        proof {
            lemma_on_board_bound(self@.size, coordinate as int);
        }
        let i = coordinate_index(coordinate);
        let v = coordinatde_value(coordinate);
        match color {
            Color::Black => {
                let ghost a = self.black;
                self.black[i] = self.black[i] | v;
                proof {
                    lemma_insert_stone(a, self.black, coordinate as int);
                    assert(self@.black == old(self)@.black.insert(coordinate as int));
                }
            },
            Color::White => {
                let ghost a = self.white;
                self.white[i] = self.white[i] | v;
                proof {
                    lemma_insert_stone(a, self.white, coordinate as int);
                    assert(self@.white == old(self)@.white.insert(coordinate as int));
                }
            },
            _ => {},
        }
    }

    /// Clears the coordinate's bit for a player's colour; other colours
    /// leave the board as it is.
    pub fn delete_stone(&mut self, coordinate: u16, color: Color)
        requires
            old(self).wf(),
            on_board(old(self)@.size, coordinate as int),
        ensures
            final(self).wf(),
            final(self)@.size == old(self)@.size,
            final(self)@.turn == old(self)@.turn,
            final(self)@.black == if color == Color::Black {
                old(self)@.black.remove(coordinate as int)
            } else {
                old(self)@.black
            },
            final(self)@.white == if color == Color::White {
                old(self)@.white.remove(coordinate as int)
            } else {
                old(self)@.white
            },
    {
        proof {
            lemma_on_board_bound(self@.size, coordinate as int);
        }
        let i = coordinate_index(coordinate);
        let v = coordinatde_value(coordinate);
        match color {
            Color::Black => {
                let ghost a = self.black;
                self.black[i] = self.black[i] & !v;
                proof {
                    lemma_remove_stone(a, self.black, coordinate as int);
                    assert(self@.black == old(self)@.black.remove(coordinate as int));
                }
            },
            Color::White => {
                let ghost a = self.white;
                self.white[i] = self.white[i] & !v;
                proof {
                    lemma_remove_stone(a, self.white, coordinate as int);
                    assert(self@.white == old(self)@.white.remove(coordinate as int));
                }
            },
            _ => {},
        }
    }

    /// Hands the turn to the other player.
    pub fn switch_turn(&mut self)
        requires
            old(self).wf(),
        ensures
            final(self).wf(),
            final(self)@.size == old(self)@.size,
            final(self)@.black == old(self)@.black,
            final(self)@.white == old(self)@.white,
            final(self)@.turn == spec_reverse(old(self)@.turn),
    {
        self.turn = self.turn.reverse();
        assert(self@.black == old(self)@.black);
        assert(self@.white == old(self)@.white);
    }
}

} // verus!
