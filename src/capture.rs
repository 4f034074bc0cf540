use vstd::prelude::*;
use crate::board::{
    BadukBoard, BadukBoardError, BoardType, BoardView, Color, board_size, color_at, is_player,
    lemma_board_area, lemma_on_board_bound, on_board, spec_reverse,
};
use crate::group::{
    adjacent, adjacent_coordinates, collect_group_state, group_of, identify_territory,
    lemma_distinct_below, lemma_group_member, lemma_seq_set_len, lemma_seq_set_push, liberties_of,
    region_owner, seq_set,
};

verus! {

/// `v` with a stone of colour `m` added at `c`.
pub open spec fn with_stone(v: BoardView, c: int, m: Color) -> BoardView {
    BoardView {
        black: if m == Color::Black { v.black.insert(c) } else { v.black },
        white: if m == Color::White { v.white.insert(c) } else { v.white },
        ..v
    }
}

/// `v` with the stones of colour `o` at the points of `s` taken away.
pub open spec fn without_stones(v: BoardView, o: Color, s: Set<int>) -> BoardView {
    BoardView {
        black: if o == Color::Black { v.black.difference(s) } else { v.black },
        white: if o == Color::White { v.white.difference(s) } else { v.white },
        ..v
    }
}

/// The group of `o` at `q` has no liberty.
pub open spec fn dead_at(v: BoardView, o: Color, q: int) -> bool {
    color_at(v, q) == o && liberties_of(v, group_of(v, o, q)).is_empty()
}

/// The stones of every group of `o` next to `c` that has no liberty.
pub open spec fn dead_groups(v: BoardView, c: int, o: Color) -> Set<int> {
    Set::new(
        |p: int|
            exists|q: int| #[trigger] adjacent(v.size, c, q) && dead_at(v, o, q) && group_of(v, o, q).contains(p),
    )
}

proof fn lemma_without_empty(v: BoardView, o: Color)
    ensures
        without_stones(v, o, Set::<int>::empty()) == v,
{
    assert(v.black.difference(Set::<int>::empty()) =~= v.black);
    assert(v.white.difference(Set::<int>::empty()) =~= v.white);
}

proof fn lemma_without_insert(v: BoardView, o: Color, s: Set<int>, p: int)
    ensures
        without_stones(v, o, s.insert(p)).black == if o == Color::Black {
            without_stones(v, o, s).black.remove(p)
        } else {
            without_stones(v, o, s).black
        },
        without_stones(v, o, s.insert(p)).white == if o == Color::White {
            without_stones(v, o, s).white.remove(p)
        } else {
            without_stones(v, o, s).white
        },
        without_stones(v, o, s.insert(p)).size == v.size,
        without_stones(v, o, s.insert(p)).turn == v.turn,
{
    assert(v.black.difference(s.insert(p)) =~= v.black.difference(s).remove(p));
    assert(v.white.difference(s.insert(p)) =~= v.white.difference(s).remove(p));
}

spec fn dead_from(v: BoardView, o: Color, adj: Seq<u16>, k: int) -> Set<int> {
    Set::new(
        |p: int|
            exists|kk: int|
                0 <= kk < k && dead_at(v, o, #[trigger] adj[kk] as int) && group_of(v, o, adj[kk] as int).contains(p),
    )
}

/// The stones taken off the board when a stone of `m` lands on `c` of `v`
/// (`v` already holds that stone).
pub open spec fn captured(v: BoardView, c: int, m: Color) -> Set<int> {
    dead_groups(v, c, spec_reverse(m))
}

/// `v` once the captures caused by the stone of `m` on `c` are made.
pub open spec fn after_captures(v: BoardView, c: int, m: Color) -> BoardView {
    without_stones(v, spec_reverse(m), captured(v, c, m))
}

/// The stone of `m` on `c` leaves its own group without a liberty and takes
/// nothing.
pub open spec fn is_suicide(v: BoardView, c: int, m: Color) -> bool {
    captured(v, c, m).is_empty() && liberties_of(v, group_of(v, m, c)).is_empty()
}

/// The ko point a capture leaves: the taken stone, where exactly one was
/// taken.
pub open spec fn ko_after(s: Set<int>) -> Option<u16> {
    if s.len() == 1 {
        Some(s.choose() as u16)
    } else {
        None
    }
}

/// `a + b`, held at the largest `u16`.
pub open spec fn sat_add(a: u16, b: int) -> u16 {
    if a + b > u16::MAX {
        u16::MAX
    } else {
        (a + b) as u16
    }
}

/// The duplicate-free list of stones that a move on `coordinate` takes: every
/// group of `opponent` next to it that has no liberty.
fn collect_dead(board: &BadukBoard, coordinate: u16, opponent: Color) -> (r: Vec<u16>)
    requires
        board.wf(),
        on_board(board@.size, coordinate as int),
        opponent == Color::Black || opponent == Color::White,
    ensures
        r@.no_duplicates(),
        seq_set(r@) == dead_groups(board@, coordinate as int, opponent),
{
    let ghost v = board@;
    let size = board.is_boardsize();
    proof {
        lemma_board_area(size as int);
    }
    let n: u16 = size * size;
    let adj = adjacent_coordinates(board, coordinate);
    let mut mark: Vec<bool> = vec![false; n as usize];
    let mut dead: Vec<u16> = Vec::new();
    let mut k: usize = 0;
    proof {
        assert(seq_set(dead@) =~= dead_from(v, opponent, adj@, 0));
    }
    while k < adj.len()
        invariant
            board@ == v,
            board.wf(),
            v.size == size as int,
            n as int == size * size,
            1 <= n <= 361,
            opponent == Color::Black || opponent == Color::White,
            k <= adj.len(),
            mark@.len() == n,
            forall|i: int| 0 <= i < adj.len() ==> adjacent(v.size, coordinate as int, #[trigger] adj@[i] as int),
            dead@.no_duplicates(),
            forall|p: int| 0 <= p < n ==> (#[trigger] mark@[p] <==> dead@.contains(p as u16)),
            forall|i: int| 0 <= i < dead.len() ==> #[trigger] dead@[i] < n,
            seq_set(dead@) == dead_from(v, opponent, adj@, k as int),
        decreases adj.len() - k,
    {
        let q = adj[k];
        let ghost before = seq_set(dead@);
        if board.is_color(q) == opponent {
            let (g, libs) = collect_group_state(board, q, opponent);
            if libs.len() == 0 {
                proof {
                    assert(seq_set(libs@) =~= Set::<int>::empty());
                }
                let mut t: usize = 0;
                while t < g.len()
                    invariant
                        board@ == v,
                        board.wf(),
                        n as int == size * size,
                        1 <= n <= 361,
                        v.size == size as int,
                        t <= g.len(),
                        mark@.len() == n,
                        dead@.no_duplicates(),
                        forall|p: int| 0 <= p < n ==> (#[trigger] mark@[p] <==> dead@.contains(p as u16)),
                        forall|i: int| 0 <= i < dead.len() ==> #[trigger] dead@[i] < n,
                        seq_set(g@) == group_of(v, opponent, q as int),
                        seq_set(dead@) == before.union(seq_set(g@.subrange(0, t as int))),
                    decreases g.len() - t,
                {
                    let p = g[t];
                    proof {
                        assert(seq_set(g@).contains(p as int));
                        let w = choose|w: Seq<int>| #[trigger] crate::group::is_chain(v, opponent, w) && w[0] == q as int && w.last() == p as int;
                        assert(on_board(v.size, w[w.len() - 1]));
                        lemma_on_board_bound(v.size, p as int);
                    }
                    let ghost d0 = dead@;
                    if !mark[p as usize] {
                        mark.set(p as usize, true);
                        dead.push(p);
                        proof {
                            lemma_seq_set_push(d0, p);
                            assert(dead@[dead.len() - 1] == p);
                            assert(forall|w: u16| d0.contains(w) ==> dead@.contains(w)) by {
                                assert(forall|i: int| 0 <= i < d0.len() ==> dead@[i] == d0[i]);
                            }
                            assert(forall|w: u16| dead@.contains(w) ==> d0.contains(w) || w == p);
                        }
                    }
                    proof {
                        assert(g@.subrange(0, t + 1) == g@.subrange(0, t as int).push(p));
                        lemma_seq_set_push(g@.subrange(0, t as int), p);
                        assert(seq_set(dead@).contains(p as int));
                        assert(seq_set(dead@) =~= before.union(seq_set(g@.subrange(0, t + 1))));
                    }
                    t += 1;
                }
                proof {
                    assert(g@.subrange(0, g.len() as int) == g@);
                    assert(dead_at(v, opponent, q as int));
                    assert(seq_set(dead@) =~= dead_from(v, opponent, adj@, k + 1)) by {
                        assert forall|p: int| dead_from(v, opponent, adj@, k + 1).contains(p) implies seq_set(dead@).contains(p) by {
                            let kk = choose|kk: int|
                                0 <= kk < k + 1 && dead_at(v, opponent, #[trigger] adj@[kk] as int) && group_of(v, opponent, adj@[kk] as int).contains(p);
                            if kk < k {
                                assert(dead_from(v, opponent, adj@, k as int).contains(p));
                            }
                        }
                    }
                }
            } else {
                proof {
                    assert(seq_set(libs@).contains(libs@[0] as int));
                    assert(!dead_at(v, opponent, q as int));
                    assert(seq_set(dead@) =~= dead_from(v, opponent, adj@, k + 1)) by {
                        assert forall|p: int| dead_from(v, opponent, adj@, k + 1).contains(p) implies seq_set(dead@).contains(p) by {
                            let kk = choose|kk: int|
                                0 <= kk < k + 1 && dead_at(v, opponent, #[trigger] adj@[kk] as int) && group_of(v, opponent, adj@[kk] as int).contains(p);
                            assert(kk != k);
                            assert(dead_from(v, opponent, adj@, k as int).contains(p));
                        }
                    }
                }
            }
        } else {
            proof {
                assert(!dead_at(v, opponent, q as int));
                assert(seq_set(dead@) =~= dead_from(v, opponent, adj@, k + 1)) by {
                    assert forall|p: int| dead_from(v, opponent, adj@, k + 1).contains(p) implies seq_set(dead@).contains(p) by {
                        let kk = choose|kk: int|
                            0 <= kk < k + 1 && dead_at(v, opponent, #[trigger] adj@[kk] as int) && group_of(v, opponent, adj@[kk] as int).contains(p);
                        assert(kk != k);
                        assert(dead_from(v, opponent, adj@, k as int).contains(p));
                    }
                }
            }
        }
        k += 1;
    }
    proof {
        assert(seq_set(dead@) =~= dead_groups(v, coordinate as int, opponent)) by {
            assert forall|p: int| dead_groups(v, coordinate as int, opponent).contains(p) implies seq_set(dead@).contains(p) by {
                let q = choose|q: int| #[trigger] adjacent(v.size, coordinate as int, q) && dead_at(v, opponent, q) && group_of(v, opponent, q).contains(p);
                assert(adj@.contains(q as u16));
                let kk = choose|kk: int| 0 <= kk < adj.len() && adj@[kk] == q as u16;
                assert(adjacent(v.size, coordinate as int, adj@[kk] as int));
                assert(adj@[kk] as int == q);
            }
            assert forall|p: int| seq_set(dead@).contains(p) implies dead_groups(v, coordinate as int, opponent).contains(p) by {
                let kk = choose|kk: int|
                    0 <= kk < adj.len() && dead_at(v, opponent, #[trigger] adj@[kk] as int) && group_of(v, opponent, adj@[kk] as int).contains(p);
                assert(adjacent(v.size, coordinate as int, adj@[kk] as int));
            }
        }
    }
    dead
}

} // verus!

verus! {

/// Whether two boards hold the same stones, side and turn, point by point.
fn same_position(a: &BadukBoard, b: &BadukBoard) -> (r: bool)
    requires
        a.wf(),
        b.wf(),
    ensures
        r == (a@ == b@),
{
    if a.is_boardsize() != b.is_boardsize() || a.is_turn() != b.is_turn() {
        return false;
    }
    let size = a.is_boardsize();
    proof {
        lemma_board_area(size as int);
    }
    let n: u16 = size * size;
    let mut c: u16 = 0;
    while c < n
        invariant
            a.wf(),
            b.wf(),
            a@.size == size as int,
            b@.size == size as int,
            a@.turn == b@.turn,
            n as int == size * size,
            n <= 361,
            c <= n,
            forall|p: int|
                0 <= p < c ==> (a@.black.contains(p) == b@.black.contains(p) && a@.white.contains(p)
                    == b@.white.contains(p)),
        decreases n - c,
    {
        if a.is_black(c) != b.is_black(c) || a.is_white(c) != b.is_white(c) {
            return false;
        }
        c += 1;
    }
    proof {
        assert(a@.black =~= b@.black);
        assert(a@.white =~= b@.white);
    }
    true
}

/// What a capture game holds, seen as values.
pub struct BadukView {
    pub board: BoardView,
    pub black_caught: u16,
    pub white_caught: u16,
    pub ko: Option<u16>,
    pub winner: Option<Color>,
}

/// A capture game in progress: board, capture tallies, ko point, the
/// position left by the last move, and the winner once decided.
#[derive(Clone, Copy, Debug)]
pub struct Baduk {
    board: BadukBoard,
    black_caught_stone: u16,
    white_caught_stone: u16,
    previous_board_state: Option<BadukBoard>,
    ko_position: Option<u16>,
    winner: Option<Color>,
}

impl View for Baduk {
    type V = BadukView;

    closed spec fn view(&self) -> BadukView {
        BadukView {
            board: self.board@,
            black_caught: self.black_caught_stone,
            white_caught: self.white_caught_stone,
            ko: self.ko_position,
            winner: self.winner,
        }
    }
}

/// The tally that a capture by `m` is credited to.
pub open spec fn caught_by(v: BadukView, m: Color) -> u16 {
    if m == Color::Black {
        v.black_caught
    } else {
        v.white_caught
    }
}

impl Baduk {
    /// Well formed: a 19x19 board whose colours never share a point, and a
    /// ko point on the board.
    pub open spec fn wf(&self) -> bool {
        &&& self.board_ok()
        &&& self@.board.size == 19
        &&& self@.board.black.disjoint(self@.board.white)
        &&& (self@.ko matches Some(k) ==> on_board(19, k as int))
        &&& (self.previous() matches Some(b) ==> b.wf())
    }

    pub closed spec fn board_ok(&self) -> bool {
        self.board.wf()
    }

    pub closed spec fn previous(&self) -> Option<BadukBoard> {
        self.previous_board_state
    }

    /// The position that the last accepted move left, before the turn passed.
    pub closed spec fn previous_position(&self) -> Option<BoardView> {
        match self.previous_board_state {
            Some(b) => Some(b@),
            None => None,
        }
    }

    pub closed spec fn spec_board(&self) -> BadukBoard {
        self.board
    }

    /// A fresh 19x19 game, Black to move.
    pub fn new() -> (r: Self)
        ensures
            r.wf(),
            r@.board.black == Set::<int>::empty(),
            r@.board.white == Set::<int>::empty(),
            r@.board.turn == Color::Black,
            r@.black_caught == 0,
            r@.white_caught == 0,
            r@.ko is None,
            r@.winner is None,
            r.previous_position() is None,
    {
        Self {
            board: BadukBoard::new(board_size(BoardType::Baduk)),
            black_caught_stone: 0,
            white_caught_stone: 0,
            previous_board_state: None,
            ko_position: None,
            winner: None,
        }
    }

    pub fn winner(&self) -> (r: Option<Color>)
        ensures
            r == self@.winner,
    {
        self.winner
    }

    pub fn set_winner(&mut self, color: Color)
        requires
            old(self).wf(),
        ensures
            final(self).wf(),
            final(self)@ == (BadukView { winner: Some(color), ..old(self)@ }),
    {
        self.winner = Some(color);
    }

    pub fn is_board(&self) -> (r: &BadukBoard)
        ensures
            *r == self.spec_board(),
            r@ == self@.board,
            self.wf() ==> r.wf(),
    {
        &self.board
    }

    /// Hands the turn over without a move.
    pub fn switch_turn(&mut self)
        requires
            old(self).wf(),
        ensures
            final(self).wf(),
            final(self)@ == (BadukView {
                board: BoardView { turn: spec_reverse(old(self)@.board.turn), ..old(self)@.board },
                ..old(self)@
            }),
    {
        self.board.switch_turn();
    }

    /// Stones captured by Black and by White.
    pub fn get_captured_stones(&self) -> (r: (u16, u16))
        ensures
            r == (self@.black_caught, self@.white_caught),
    {
        (self.black_caught_stone, self.white_caught_stone)
    }

    /// The point where the next move may not be played, if any.
    pub fn get_ko_position(&self) -> (r: Option<u16>)
        ensures
            r == self@.ko,
    {
        self.ko_position
    }
}

impl Baduk {
    /// Settles a stone of `color` just placed on `coordinate`: takes off every
    /// neighbouring enemy group left without a liberty and credits the
    /// mover, then refuses suicide by taking the stone back.
    pub fn resolve_after_move(&mut self, coordinate: u16, color: Color) -> (r: Result<
        (),
        BadukBoardError,
    >)
        requires
            old(self).wf(),
            on_board(19, coordinate as int),
            is_player(color) ==> color_at(old(self)@.board, coordinate as int) == color,
        ensures
            final(self).wf(),
            final(self).previous() == old(self).previous(),
            !is_player(color) ==> r == Err::<(), BadukBoardError>(BadukBoardError::InvalidArgument)
                && *final(self) == *old(self),
            is_player(color) && is_suicide(old(self)@.board, coordinate as int, color) ==> r
                == Err::<(), BadukBoardError>(BadukBoardError::BannedChaksu) && final(self)@ == (
            BadukView {
                board: without_stones(old(self)@.board, color, set![coordinate as int]),
                ..old(self)@
            }),
            is_player(color) && !is_suicide(old(self)@.board, coordinate as int, color) ==> r is Ok
                && final(self)@ == (BadukView {
                board: after_captures(old(self)@.board, coordinate as int, color),
                black_caught: if color == Color::Black {
                    sat_add(
                        old(self)@.black_caught,
                        captured(old(self)@.board, coordinate as int, color).len() as int,
                    )
                } else {
                    old(self)@.black_caught
                },
                white_caught: if color == Color::White {
                    sat_add(
                        old(self)@.white_caught,
                        captured(old(self)@.board, coordinate as int, color).len() as int,
                    )
                } else {
                    old(self)@.white_caught
                },
                ko: ko_after(captured(old(self)@.board, coordinate as int, color)),
                ..old(self)@
            }),
    {
        let opponent = match color {
            Color::Black => Color::White,
            Color::White => Color::Black,
            _ => return Err(BadukBoardError::InvalidArgument),
        };
        let ghost v = self.board@;
        let ghost cap = captured(v, coordinate as int, color);
        let dead = collect_dead(&self.board, coordinate, opponent);
        proof {
            lemma_seq_set_len(dead@);
        }
        let mut i: usize = 0;
        proof {
            assert(seq_set(dead@.subrange(0, 0)) =~= Set::<int>::empty());
            lemma_without_empty(v, opponent);
            assert forall|j: int| 0 <= j < dead.len() implies on_board(19, #[trigger] dead@[j] as int) && dead@[j] < 361 by {
                assert(seq_set(dead@).contains(dead@[j] as int));
                let q = choose|q: int| #[trigger] adjacent(v.size, coordinate as int, q) && dead_at(v, opponent, q) && group_of(v, opponent, q).contains(dead@[j] as int);
                lemma_group_member(v, opponent, q, dead@[j] as int);
            }
            lemma_distinct_below(dead@, 361);
        }
        while i < dead.len()
            invariant
                self.board.wf(),
                self.black_caught_stone == old(self).black_caught_stone,
                self.white_caught_stone == old(self).white_caught_stone,
                self.ko_position == old(self).ko_position,
                self.previous_board_state == old(self).previous_board_state,
                self.winner == old(self).winner,
                v == old(self).board@,
                old(self).wf(),
                i <= dead.len(),
                seq_set(dead@) == cap,
                self.board@ == without_stones(v, opponent, seq_set(dead@.subrange(0, i as int))),
                v.size == 19,
                is_player(opponent),
                forall|j: int| 0 <= j < dead.len() ==> on_board(19, #[trigger] dead@[j] as int),
            decreases dead.len() - i,
        {
            let p = dead[i];
            self.board.delete_stone(p, opponent);
            proof {
                assert(dead@.subrange(0, i + 1) == dead@.subrange(0, i as int).push(p));
                lemma_seq_set_push(dead@.subrange(0, i as int), p);
                lemma_without_insert(v, opponent, seq_set(dead@.subrange(0, i as int)), p as int);
                assert(self.board@ == without_stones(v, opponent, seq_set(dead@.subrange(0, i + 1))));
            }
            i += 1;
        }
        proof {
            assert(dead@.subrange(0, dead.len() as int) == dead@);
        }
        proof {
            if dead.len() == 0 {
                assert(cap.len() == 0);
                assert(cap =~= Set::<int>::empty());
                lemma_without_empty(v, opponent);
            } else {
                assert(cap.contains(dead@[0] as int));
            }
        }
        let (_own_group, own_liberties) = collect_group_state(&self.board, coordinate, color);
        proof {
            lemma_seq_set_len(own_liberties@);
            if own_liberties.len() > 0 {
                assert(seq_set(own_liberties@).contains(own_liberties@[0] as int));
            }
        }
        if dead.len() == 0 && own_liberties.len() == 0 {
            self.board.delete_stone(coordinate, color);
            proof {
                assert(v.black.difference(set![coordinate as int]) =~= v.black.remove(coordinate as int));
                assert(v.white.difference(set![coordinate as int]) =~= v.white.remove(coordinate as int));
                assert(liberties_of(v, group_of(v, color, coordinate as int)) =~= Set::<int>::empty());
            }
            return Err(BadukBoardError::BannedChaksu);
        }
        let count = dead.len() as u16;
        if color == Color::Black {
            self.black_caught_stone = self.black_caught_stone.saturating_add(count);
        } else {
            self.white_caught_stone = self.white_caught_stone.saturating_add(count);
        }
        self.ko_position = if dead.len() == 1 {
            Some(dead[0])
        } else {
            None
        };
        Ok(())
    }
}

/// The point `c` is open to the player to move: on the board, empty, and
/// not the ko point.
pub open spec fn playable(g: BadukView, c: int) -> bool {
    &&& on_board(19, c)
    &&& color_at(g.board, c) == Color::Free
    &&& g.ko != Some(c as u16)
}

/// The board once the player to move has put a stone on `c`.
pub open spec fn placed(g: BadukView, c: int) -> BoardView {
    with_stone(g.board, c, g.board.turn)
}

/// The game after an accepted move on `c`, before the turn passes.
pub open spec fn settled(g: BadukView, c: int) -> BadukView {
    let m = g.board.turn;
    let v = placed(g, c);
    let taken = captured(v, c, m);
    BadukView {
        board: after_captures(v, c, m),
        black_caught: if m == Color::Black {
            sat_add(g.black_caught, taken.len() as int)
        } else {
            g.black_caught
        },
        white_caught: if m == Color::White {
            sat_add(g.white_caught, taken.len() as int)
        } else {
            g.white_caught
        },
        ko: ko_after(taken),
        ..g
    }
}

/// What a move on `c` does to a capture game `g` whose last accepted move
/// left the position `prev`: the answer, the new game, and the position to
/// compare the next move with. Refused moves change nothing.
pub open spec fn baduk_step(g: BadukView, prev: Option<BoardView>, c: int) -> (
    Result<(), BadukBoardError>,
    BadukView,
    Option<BoardView>,
) {
    let m = g.board.turn;
    if !on_board(19, c) {
        (Err(BadukBoardError::OutOfBoard), g, prev)
    } else if color_at(g.board, c) != Color::Free {
        (Err(BadukBoardError::OverLap), g, prev)
    } else if g.ko == Some(c as u16) {
        (Err(BadukBoardError::BannedChaksu), g, prev)
    } else if is_suicide(placed(g, c), c, m) {
        (Err(BadukBoardError::BannedChaksu), g, prev)
    } else if prev == Some(settled(g, c).board) {
        (Err(BadukBoardError::BannedChaksu), g, prev)
    } else {
        (
            Ok(()),
            BadukView {
                board: BoardView { turn: spec_reverse(m), ..settled(g, c).board },
                ..settled(g, c)
            },
            Some(settled(g, c).board),
        )
    }
}

impl Baduk {
    /// Plays a stone of the player to move on `coordinate`. Refused moves
    /// leave the game exactly as it was.
    pub fn chaksu(&mut self, coordinate: u16) -> (r: Result<(), BadukBoardError>)
        requires
            old(self).wf(),
        ensures
            final(self).wf(),
            r is Err ==> *final(self) == *old(self),
            (r, final(self)@, final(self).previous_position()) == baduk_step(
                old(self)@,
                old(self).previous_position(),
                coordinate as int,
            ),
    {
        if let Err(e) = self.board.check_outboard_coordinate(coordinate) {
            return Err(e);
        }
        let color = self.board.is_turn();
        if !self.board.is_free(coordinate) {
            return Err(BadukBoardError::OverLap);
        }
        if let Some(ko) = self.ko_position {
            if coordinate == ko {
                return Err(BadukBoardError::BannedChaksu);
            }
        }
        let saved_board = self.board;
        let saved_black = self.black_caught_stone;
        let saved_white = self.white_caught_stone;
        let saved_ko = self.ko_position;
        self.board.push_stone(coordinate, color);
        proof {
            assert(self@.board == placed(old(self)@, coordinate as int));
            assert(self@.board.black.disjoint(self@.board.white));
        }
        if let Err(e) = self.resolve_after_move(coordinate, color) {
            self.board = saved_board;
            return Err(e);
        }
        let after = self.board;
        if let Some(prev) = &self.previous_board_state {
            if same_position(prev, &after) {
                self.board = saved_board;
                self.black_caught_stone = saved_black;
                self.white_caught_stone = saved_white;
                self.ko_position = saved_ko;
                return Err(BadukBoardError::BannedChaksu);
            }
        }
        self.previous_board_state = Some(after);
        self.board.switch_turn();
        Ok(())
    }
}

/// `p` is an empty point whose region only `col` borders.
pub open spec fn is_territory(v: BoardView, col: Color, p: int) -> bool {
    &&& on_board(v.size, p)
    &&& color_at(v, p) == Color::Free
    &&& region_owner(v, group_of(v, Color::Free, p)) == Some(col)
}

/// How many of the points below `i` are territory of `col`.
pub open spec fn territory_below(v: BoardView, col: Color, i: int) -> nat
    decreases i,
{
    if i <= 0 {
        0
    } else {
        territory_below(v, col, i - 1) + if is_territory(v, col, i - 1) {
            1nat
        } else {
            0nat
        }
    }
}

/// How many of the points below `i` hold a stone of `col`.
pub open spec fn stones_below(v: BoardView, col: Color, i: int) -> nat
    decreases i,
{
    if i <= 0 {
        0
    } else {
        stones_below(v, col, i - 1) + if on_board(v.size, i - 1) && color_at(v, i - 1) == col {
            1nat
        } else {
            0nat
        }
    }
}

/// Territory of `col` over the whole board.
pub open spec fn territory(v: BoardView, col: Color) -> nat {
    territory_below(v, col, v.size * v.size)
}

/// Stones of `col` on the whole board.
pub open spec fn living_stones(v: BoardView, col: Color) -> nat {
    stones_below(v, col, v.size * v.size)
}

/// Area score of `col`: territory, stones on the board and stones taken.
pub open spec fn score(g: BadukView, col: Color) -> int {
    territory(g.board, col) + living_stones(g.board, col) + caught_by(g, col)
}

/// The side with the higher score; `None` on equal scores.
pub open spec fn spec_winner(g: BadukView) -> Option<Color> {
    if score(g, Color::Black) > score(g, Color::White) {
        Some(Color::Black)
    } else if score(g, Color::White) > score(g, Color::Black) {
        Some(Color::White)
    } else {
        None
    }
}

impl Baduk {
    /// Territory of Black and of White: every empty point whose region only
    /// one colour borders counts for that colour.
    pub fn calculate_territory(&self) -> (r: (u16, u16))
        requires
            self.wf(),
        ensures
            r.0 == territory(self@.board, Color::Black),
            r.1 == territory(self@.board, Color::White),
    {
        let ghost v = self.board@;
        let mut black_territory: u16 = 0;
        let mut white_territory: u16 = 0;
        let n: u16 = 19 * 19;
        let mut coord: u16 = 0;
        while coord < n
            invariant
                self.wf(),
                v == self@.board,
                v.size == 19,
                n == 361,
                coord <= n,
                black_territory == territory_below(v, Color::Black, coord as int),
                white_territory == territory_below(v, Color::White, coord as int),
                black_territory + white_territory <= coord,
            decreases n - coord,
        {
            if self.board.is_free(coord) {
                let (_region, owner) = identify_territory(&self.board, coord);
                match owner {
                    Some(Color::Black) => black_territory += 1,
                    Some(Color::White) => white_territory += 1,
                    _ => {},
                }
            }
            coord += 1;
        }
        (black_territory, white_territory)
    }

    /// Stones of Black and of White on the board.
    fn count_living_stones(&self) -> (r: (u16, u16))
        requires
            self.wf(),
        ensures
            r.0 == living_stones(self@.board, Color::Black),
            r.1 == living_stones(self@.board, Color::White),
    {
        let ghost v = self.board@;
        let mut black_stones: u16 = 0;
        let mut white_stones: u16 = 0;
        let n: u16 = 19 * 19;
        let mut coord: u16 = 0;
        while coord < n
            invariant
                self.wf(),
                v == self@.board,
                v.size == 19,
                n == 361,
                coord <= n,
                black_stones == stones_below(v, Color::Black, coord as int),
                white_stones == stones_below(v, Color::White, coord as int),
                black_stones + white_stones <= coord,
            decreases n - coord,
        {
            match self.board.is_color(coord) {
                Color::Black => black_stones += 1,
                Color::White => white_stones += 1,
                _ => {},
            }
            coord += 1;
        }
        (black_stones, white_stones)
    }

    /// Final scores of Black and of White: territory, stones on the board
    /// and stones taken.
    pub fn calculate_score(&self) -> (r: (u32, u32))
        requires
            self.wf(),
        ensures
            r.0 == score(self@, Color::Black),
            r.1 == score(self@, Color::White),
    {
        let (black_territory, white_territory) = self.calculate_territory();
        let (black_living, white_living) = self.count_living_stones();
        (
            black_territory as u32 + black_living as u32 + self.black_caught_stone as u32,
            white_territory as u32 + white_living as u32 + self.white_caught_stone as u32,
        )
    }

    /// Territories and final scores: (Black's territory, White's territory,
    /// Black's score, White's score).
    pub fn calculate_game_result(&self) -> (r: (u16, u16, u32, u32))
        requires
            self.wf(),
        ensures
            r.0 == territory(self@.board, Color::Black),
            r.1 == territory(self@.board, Color::White),
            r.2 == score(self@, Color::Black),
            r.3 == score(self@, Color::White),
    {
        let (black_territory, white_territory) = self.calculate_territory();
        let (black_score, white_score) = self.calculate_score();
        (black_territory, white_territory, black_score, white_score)
    }

    /// The side with the higher score, or `None` on a tie.
    pub fn determine_winner(&self) -> (r: Option<Color>)
        requires
            self.wf(),
        ensures
            r == spec_winner(self@),
    {
        let (black_score, white_score) = self.calculate_score();
        if black_score > white_score {
            Some(Color::Black)
        } else if white_score > black_score {
            Some(Color::White)
        } else {
            None
        }
    }
}

/// No point is ever held by both colours.
pub proof fn lemma_no_overlap(game: &Baduk)
    requires
        game.wf(),
    ensures
        forall|c: int| !(game@.board.black.contains(c) && game@.board.white.contains(c)),
{
}

} // verus!
