use vstd::prelude::*;
use crate::board::Color;

verus! {

/// Relies on String::push: appends one char to the end of the string.
#[verifier::external_body]
fn push_char(s: &mut String, c: char)
    ensures
        final(s)@ == old(s)@.push(c),
{
    s.push(c);
}

/// One move of a game record: the colour and the 0-based column and row.
#[derive(Clone, Copy, Debug)]
pub struct Move {
    pub color: Color,
    pub x: u8,
    pub y: u8,
}

/// A game record that prints as SGF.
#[derive(Debug)]
pub struct SgfGame {
    pub board_size: u8,
    pub black_player: String,
    pub white_player: String,
    pub result: String,
    pub moves: Vec<Move>,
}

/// The decimal digits of `n`.
pub open spec fn decimal(n: nat) -> Seq<char>
    decreases n,
{
    if n < 10 {
        seq![digit(n)]
    } else {
        decimal(n / 10).push(digit(n % 10))
    }
}

pub open spec fn digit(d: nat) -> char {
    (48 + d) as char
}

/// The SGF letter of a 0-based index: `a` for 0.
pub open spec fn sgf_letter(i: u8) -> char {
    (97 + i) as char
}

/// The SGF point of column `x` and row `y`.
pub open spec fn sgf_point(x: u8, y: u8) -> Seq<char> {
    seq![sgf_letter(x), sgf_letter(y)]
}

/// The SGF node of one move; moves of neither player print nothing.
pub open spec fn move_text(m: Move) -> Seq<char> {
    match m.color {
        Color::Black => ";B["@ + sgf_point(m.x, m.y) + "]\n"@,
        Color::White => ";W["@ + sgf_point(m.x, m.y) + "]\n"@,
        _ => Seq::empty(),
    }
}

/// The nodes of the first `n` moves.
pub open spec fn moves_text(moves: Seq<Move>, n: int) -> Seq<char>
    decreases n,
{
    if n <= 0 {
        Seq::empty()
    } else {
        moves_text(moves, n - 1) + move_text(moves[n - 1])
    }
}

/// The SGF text of a game: header (format, game, size, players, result,
/// with `?` for an unknown result), a blank line, the moves, and the close.
pub open spec fn sgf_text(size: u8, black: Seq<char>, white: Seq<char>, result: Seq<char>, moves: Seq<Move>) -> Seq<char> {
    "(;FF[4]\n"@ + "GM[1]\n"@ + "SZ["@ + decimal(size as nat) + "]\n"@ + "PB["@ + black + "]\n"@ + "PW["@
        + white + "]\n"@ + (if result.len() == 0 {
        "RE[?]\n"@
    } else {
        "RE["@ + result + "]\n"@
    }) + "\n"@ + moves_text(moves, moves.len() as int) + ")\n"@
}

/// Appends the decimal digits of `n`.
fn push_decimal(s: &mut String, n: u8)
    ensures
        final(s)@ == old(s)@ + decimal(n as nat),
{
    let ghost s0 = s@;
    if n >= 100 {
        push_char(s, ((n / 100) + 48) as char);
        push_char(s, (((n / 10) % 10) + 48) as char);
        push_char(s, ((n % 10) + 48) as char);
        proof {
            assert(decimal(n as nat / 10) == decimal(n as nat / 100).push(digit((n as nat / 10) % 10)));
            assert(decimal(n as nat / 100) == seq![digit(n as nat / 100)]);
            assert(s@ =~= s0 + decimal(n as nat));
        }
    } else if n >= 10 {
        push_char(s, ((n / 10) + 48) as char);
        push_char(s, ((n % 10) + 48) as char);
        proof {
            assert(decimal(n as nat / 10) == seq![digit(n as nat / 10)]);
            assert(s@ =~= s0 + decimal(n as nat));
        }
    } else {
        push_char(s, (n + 48) as char);
        proof {
            assert(s@ =~= s0 + decimal(n as nat));
        }
    }
}

/// The two-letter SGF point of column `x` and row `y` (`"aa"` for the
/// corner).
pub fn coord_to_sgf(x: u8, y: u8) -> (r: String)
    requires
        x <= 158,
        y <= 158,
    ensures
        r@ == sgf_point(x, y),
{
    let mut s = String::new();
    push_char(&mut s, (97u8 + x) as char);
    push_char(&mut s, (97u8 + y) as char);
    assert(s@ =~= sgf_point(x, y));
    s
}

impl SgfGame {
    /// A record with a board size and the players' names, no result and no
    /// moves.
    pub fn new(board_size: u8, black_player: &str, white_player: &str) -> (r: Self)
        ensures
            r.board_size == board_size,
            r.black_player@ == black_player@,
            r.white_player@ == white_player@,
            r.result@ == Seq::<char>::empty(),
            r.moves@ == Seq::<Move>::empty(),
    {
        Self {
            board_size,
            black_player: String::from_str(black_player),
            white_player: String::from_str(white_player),
            result: String::new(),
            moves: Vec::new(),
        }
    }

    /// Sets the result, as SGF writes it (`B+R`, `W+5`, `Draw`, ...).
    pub fn set_result(&mut self, result: &str)
        ensures
            final(self).result@ == result@,
            final(self).board_size == old(self).board_size,
            final(self).black_player@ == old(self).black_player@,
            final(self).white_player@ == old(self).white_player@,
            final(self).moves@ == old(self).moves@,
    {
        self.result = String::from_str(result);
    }

    /// Appends a move.
    pub fn add_move(&mut self, color: Color, x: u8, y: u8)
        ensures
            final(self).moves@ == old(self).moves@.push(Move { color, x, y }),
            final(self).result@ == old(self).result@,
            final(self).board_size == old(self).board_size,
            final(self).black_player@ == old(self).black_player@,
            final(self).white_player@ == old(self).white_player@,
    {
        self.moves.push(Move { color, x, y });
    }

    /// The record as SGF text.
    pub fn to_sgf_string(&self) -> (r: String)
        requires
            forall|i: int| 0 <= i < self.moves.len() ==> #[trigger] self.moves@[i].x <= 158 && self.moves@[i].y <= 158,
        ensures
            r@ == sgf_text(self.board_size, self.black_player@, self.white_player@, self.result@, self.moves@),
    {
        let mut s = String::new();
        s.append("(;FF[4]\n");
        s.append("GM[1]\n");
        s.append("SZ[");
        push_decimal(&mut s, self.board_size);
        s.append("]\n");
        s.append("PB[");
        s.append(self.black_player.as_str());
        s.append("]\n");
        s.append("PW[");
        s.append(self.white_player.as_str());
        s.append("]\n");
        if self.result.as_str().is_empty() {
            s.append("RE[?]\n");
        } else {
            s.append("RE[");
            s.append(self.result.as_str());
            s.append("]\n");
        }
        s.append("\n");
        let ghost head = s@;
        let mut i: usize = 0;
        while i < self.moves.len()
            invariant
                i <= self.moves.len(),
                s@ == head + moves_text(self.moves@, i as int),
                forall|j: int| 0 <= j < self.moves.len() ==> #[trigger] self.moves@[j].x <= 158 && self.moves@[j].y <= 158,
            decreases self.moves.len() - i,
        {
            let m = self.moves[i];
            let ghost before = s@;
            match m.color {
                Color::Black => {
                    s.append(";B[");
                    let coord = coord_to_sgf(m.x, m.y);
                    s.append(coord.as_str());
                    s.append("]\n");
                },
                Color::White => {
                    s.append(";W[");
                    let coord = coord_to_sgf(m.x, m.y);
                    s.append(coord.as_str());
                    s.append("]\n");
                },
                _ => {},
            }
            proof {
                assert(s@ =~= before + move_text(self.moves@[i as int]));
                assert(moves_text(self.moves@, i + 1) == moves_text(self.moves@, i as int) + move_text(self.moves@[i as int]));
                assert(s@ =~= head + moves_text(self.moves@, i + 1));
            }
            i += 1;
        }
        s.append(")\n");
        proof {
            assert(s@ =~= sgf_text(self.board_size, self.black_player@, self.white_player@, self.result@, self.moves@));
        }
        s
    }
}

} // verus!
