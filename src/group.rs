use vstd::prelude::*;
use vstd::seq_lib::*;
use vstd::set_lib::*;
use crate::board::{BadukBoard, BoardView, Color, color_at, on_board, lemma_on_board_bound, lemma_board_area};

verus! {

/// `a` and `b` are orthogonal neighbours on a board of side `size`.
pub open spec fn adjacent(size: int, a: int, b: int) -> bool {
    &&& on_board(size, a)
    &&& on_board(size, b)
    &&& {
        ||| (b == a + 1 && a % size + 1 < size)
        ||| (b == a - 1 && a % size > 0)
        ||| b == a + size
        ||| b == a - size
    }
}

/// The coordinates that a sequence of `u16` holds, as integers.
pub open spec fn seq_set(s: Seq<u16>) -> Set<int> {
    Set::new(|p: int| 0 <= p < 65536 && s.contains(p as u16))
}

/// Appending an item adds it to the set of the sequence.
pub proof fn lemma_seq_set_push(s: Seq<u16>, x: u16)
    ensures
        seq_set(s.push(x)) == seq_set(s).insert(x as int),
{
    assert forall|p: int| seq_set(s.push(x)).contains(p) == seq_set(s).insert(x as int).contains(p) by {
        if 0 <= p < 65536 && s.push(x).contains(p as u16) && p != x as int {
            let i = choose|i: int| 0 <= i < s.push(x).len() && s.push(x)[i] == p as u16;
            assert(s[i] == p as u16);
        }
        if 0 <= p < 65536 && s.contains(p as u16) {
            let i = choose|i: int| 0 <= i < s.len() && s[i] == p as u16;
            assert(s.push(x)[i] == p as u16);
        }
        if p == x as int {
            assert(s.push(x)[s.len() as int] == x);
        }
    }
    assert(seq_set(s.push(x)) =~= seq_set(s).insert(x as int));
}

/// A duplicate-free sequence has as many points as items.
pub proof fn lemma_seq_set_len(s: Seq<u16>)
    requires
        s.no_duplicates(),
    ensures
        seq_set(s).finite(),
        seq_set(s).len() == s.len(),
    decreases s.len(),
{
    if s.len() == 0 {
        assert(seq_set(s) =~= Set::<int>::empty());
    } else {
        let t = s.drop_last();
        let x = s.last();
        assert(s == t.push(x));
        lemma_seq_set_len(t);
        lemma_seq_set_push(t, x);
        if seq_set(t).contains(x as int) {
            let i = choose|i: int| 0 <= i < t.len() && t[i] == x;
            assert(s[i] == s[s.len() - 1]);
        }
    }
}

/// Every point of a group lies on the board and holds the group's colour.
pub proof fn lemma_group_member(v: BoardView, col: Color, seed: int, p: int)
    requires
        group_of(v, col, seed).contains(p),
    ensures
        on_board(v.size, p),
        color_at(v, p) == col,
{
    let path = choose|path: Seq<int>| #[trigger] is_chain(v, col, path) && path[0] == seed && path.last() == p;
    assert(on_board(v.size, path[path.len() - 1]));
}

/// A non-empty walk through neighbouring points that all hold `col`.
pub open spec fn is_chain(v: BoardView, col: Color, path: Seq<int>) -> bool {
    &&& path.len() >= 1
    &&& forall|i: int|
        0 <= i < path.len() ==> on_board(v.size, #[trigger] path[i]) && color_at(v, path[i])
            == col
    &&& forall|i: int| 0 <= i < path.len() - 1 ==> adjacent(v.size, #[trigger] path[i], path[i + 1])
}

/// A chain of `col` leads from `a` to `b`.
pub open spec fn connected(v: BoardView, col: Color, a: int, b: int) -> bool {
    exists|path: Seq<int>| #[trigger] is_chain(v, col, path) && path[0] == a && path.last() == b
}

/// The maximal connected set of `col` points that holds `seed`.
pub open spec fn group_of(v: BoardView, col: Color, seed: int) -> Set<int> {
    Set::new(|p: int| connected(v, col, seed, p))
}

/// The empty points next to some point of `g`.
pub open spec fn liberties_of(v: BoardView, g: Set<int>) -> Set<int> {
    Set::new(
        |q: int|
            on_board(v.size, q) && color_at(v, q) == Color::Free && exists|p: int|
                g.contains(p) && #[trigger] adjacent(v.size, p, q),
    )
}

/// The points not of colour `col` next to some point of `g`.
pub open spec fn frontier_of(v: BoardView, col: Color, g: Set<int>) -> Set<int> {
    Set::new(
        |q: int|
            on_board(v.size, q) && color_at(v, q) != col && exists|p: int|
                g.contains(p) && #[trigger] adjacent(v.size, p, q),
    )
}

/// `s` holds every `col` neighbour of each of its points.
pub open spec fn closed_under(v: BoardView, col: Color, s: Set<int>) -> bool {
    forall|a: int, q: int|
        s.contains(a) && #[trigger] adjacent(v.size, a, q) && color_at(v, q) == col ==> s.contains(q)
}

proof fn lemma_chain_prefix_in(v: BoardView, col: Color, s: Set<int>, path: Seq<int>, i: int)
    requires
        is_chain(v, col, path),
        s.contains(path[0]),
        closed_under(v, col, s),
        0 <= i < path.len(),
    ensures
        s.contains(path[i]),
    decreases i,
{
    if i > 0 {
        lemma_chain_prefix_in(v, col, s, path, i - 1);
        assert(adjacent(v.size, path[i - 1], path[i]));
    }
}

/// A set that holds `seed` and is closed under `col` neighbours holds the
/// whole group of `seed`.
pub proof fn lemma_closed_holds_group(v: BoardView, col: Color, s: Set<int>, seed: int, p: int)
    requires
        s.contains(seed),
        closed_under(v, col, s),
        connected(v, col, seed, p),
    ensures
        s.contains(p),
{
    let path = choose|path: Seq<int>| #[trigger] is_chain(v, col, path) && path[0] == seed && path.last() == p;
    lemma_chain_prefix_in(v, col, s, path, path.len() - 1);
}

proof fn lemma_connected_step(v: BoardView, col: Color, seed: int, a: int, q: int)
    requires
        connected(v, col, seed, a),
        adjacent(v.size, a, q),
        color_at(v, q) == col,
    ensures
        connected(v, col, seed, q),
{
    let path = choose|path: Seq<int>| #[trigger] is_chain(v, col, path) && path[0] == seed && path.last() == a;
    let longer = path.push(q);
    assert(longer[longer.len() - 2] == a);
    assert(is_chain(v, col, longer));
}

proof fn lemma_connected_self(v: BoardView, col: Color, seed: int)
    requires
        on_board(v.size, seed),
        color_at(v, seed) == col,
    ensures
        connected(v, col, seed, seed),
{
    let p = seq![seed];
    assert(is_chain(v, col, p));
}

/// A duplicate-free sequence of values below `n` has at most `n` items.
pub proof fn lemma_distinct_below(s: Seq<u16>, n: u16)
    requires
        s.no_duplicates(),
        forall|i: int| 0 <= i < s.len() ==> #[trigger] s[i] < n,
    ensures
        s.len() <= n,
{
    s.unique_seq_to_set();
    range_set_properties::<u16>(0, n);
    assert(s.to_set().subset_of(<u16 as FiniteRange>::range_set(0, n)));
    lemma_len_subset(s.to_set(), <u16 as FiniteRange>::range_set(0, n));
}

/// The orthogonal neighbours of a point, each once.
pub fn adjacent_coordinates(board: &BadukBoard, coordinate: u16) -> (r: Vec<u16>)
    requires
        board.wf(),
        on_board(board@.size, coordinate as int),
    ensures
        r@.no_duplicates(),
        r.len() <= 4,
        forall|i: int| 0 <= i < r.len() ==> adjacent(board@.size, coordinate as int, #[trigger] r[i] as int),
        forall|q: int| adjacent(board@.size, coordinate as int, q) ==> r@.contains(q as u16),
{
    let size = board.is_boardsize();
    proof {
        lemma_on_board_bound(size as int, coordinate as int);
    }
    let mut result: Vec<u16> = Vec::with_capacity(4);
    let x = coordinate % size;
    let y = coordinate / size;
    proof {
        assert(coordinate as int == y * size + x) by (nonlinear_arith)
            requires
                x == coordinate % size,
                y == coordinate / size,
                size > 0,
        ;
        assert(y < size) by (nonlinear_arith)
            requires
                coordinate < size * size,
                y == coordinate / size,
                size > 0,
        ;
        assert(y * size + x + size < size * size <==> y + 1 < size) by (nonlinear_arith)
            requires
                x < size,
                size > 0,
        ;
        assert(x + 1 < size ==> y * size + x + 1 < size * size) by (nonlinear_arith)
            requires
                x < size,
                y < size,
                size > 0,
        ;
    }
    if x > 0 {
        result.push(coordinate - 1);
        assert(adjacent(size as int, coordinate as int, ((coordinate as int) - 1) as int));
        assert(result@.contains((coordinate - 1) as u16)) by {
            assert(result@[result.len() - 1] == (coordinate - 1) as u16);
        }
    }
    if x + 1 < size {
        let ghost before = result@;
        result.push(coordinate + 1);
        assert(adjacent(size as int, coordinate as int, ((coordinate as int) + 1) as int));
        assert(result@.contains((coordinate + 1) as u16)) by {
            assert(result@[result.len() - 1] == (coordinate + 1) as u16);
        }
        assert(forall|w: u16| before.contains(w) ==> result@.contains(w)) by {
            assert(forall|k: int| 0 <= k < before.len() ==> result@[k] == before[k]);
        }
    }
    if y > 0 {
        let ghost before = result@;
        assert(coordinate >= size) by (nonlinear_arith)
            requires
                coordinate as int == y * size + x,
                y > 0,
                x >= 0,
        ;
        result.push(coordinate - size);
        assert(adjacent(size as int, coordinate as int, ((coordinate as int) - (size as int)) as int));
        assert(result@.contains((coordinate - size) as u16)) by {
            assert(result@[result.len() - 1] == (coordinate - size) as u16);
        }
        assert(forall|w: u16| before.contains(w) ==> result@.contains(w)) by {
            assert(forall|k: int| 0 <= k < before.len() ==> result@[k] == before[k]);
        }
    }
    if y + 1 < size {
        let ghost before = result@;
        result.push(coordinate + size);
        assert(adjacent(size as int, coordinate as int, ((coordinate as int) + (size as int)) as int));
        assert(result@.contains((coordinate + size) as u16)) by {
            assert(result@[result.len() - 1] == (coordinate + size) as u16);
        }
        assert(forall|w: u16| before.contains(w) ==> result@.contains(w)) by {
            assert(forall|k: int| 0 <= k < before.len() ==> result@[k] == before[k]);
        }
    }
    proof {
        assert forall|q: int| adjacent(size as int, coordinate as int, q) implies result@.contains(
            q as u16,
        ) by {
            if q == coordinate - size {
                assert(y > 0) by (nonlinear_arith)
                    requires
                        coordinate as int == y * size + x,
                        x < size,
                        q == coordinate - size,
                        q >= 0,
                ;
            }
            if q == coordinate + size {
                assert(y + 1 < size);
            }
        }
    }
    result
}

/// The connected region of `color` that holds `start`, and the points of
/// other colours next to it, found by a breadth-first walk. Each point is
/// listed once.
pub fn flood_fill(board: &BadukBoard, start: u16, color: Color) -> (r: (Vec<u16>, Vec<u16>))
    requires
        board.wf(),
        on_board(board@.size, start as int),
        color_at(board@, start as int) == color,
    ensures
        r.0@.no_duplicates(),
        r.1@.no_duplicates(),
        seq_set(r.0@) == group_of(board@, color, start as int),
        seq_set(r.1@) == frontier_of(board@, color, group_of(board@, color, start as int)),
        r.0.len() + r.1.len() <= board@.size * board@.size,
{
    let ghost v = board@;
    let size = board.is_boardsize();
    proof {
        lemma_board_area(size as int);
    }
    let n: u16 = size * size;
    let mut visited: Vec<bool> = vec![false; n as usize];
    let mut front_seen: Vec<bool> = vec![false; n as usize];
    let mut group: Vec<u16> = Vec::new();
    let mut frontier: Vec<u16> = Vec::new();
    group.push(start);
    visited.set(start as usize, true);
    proof {
        lemma_connected_self(v, color, start as int);
        assert(group@[0] == start);
    }
    let mut head: usize = 0;
    while head < group.len()
        invariant
            board@ == v,
            board.wf(),
                        v.size == size as int,
            n as int == size * size,
            1 <= n <= 361,
            on_board(v.size, start as int),
            visited@.len() == n,
            front_seen@.len() == n,
            group.len() >= 1,
            group@[0] == start,
            head <= group.len(),
            group.len() <= n,
            group@.no_duplicates(),
            frontier@.no_duplicates(),
            forall|i: int|
                0 <= i < group.len() ==> on_board(v.size, #[trigger] group@[i] as int) && color_at(
                    v,
                    group@[i] as int,
                ) == color && connected(v, color, start as int, group@[i] as int),
            forall|p: int| 0 <= p < n ==> (#[trigger] visited@[p] <==> group@.contains(p as u16)),
            forall|p: int| 0 <= p < n ==> (#[trigger] front_seen@[p] <==> frontier@.contains(p as u16)),
            forall|j: int|
                0 <= j < frontier.len() ==> #[trigger] frontier_of(v, color, seq_set(group@)).contains(
                    frontier@[j] as int,
                ),
            forall|i: int, q: int|
                0 <= i < head && #[trigger] adjacent(v.size, group@[i] as int, q) ==> (color_at(v, q)
                    == color ==> group@.contains(q as u16)) && (color_at(v, q) != color
                    ==> frontier@.contains(q as u16)),
        decreases n - head,
    {
        let current = group[head];
        let adj = adjacent_coordinates(board, current);
        let mut k: usize = 0;
        while k < adj.len()
            invariant
                board@ == v,
                board.wf(),
                                v.size == size as int,
                n as int == size * size,
                1 <= n <= 361,
                visited@.len() == n,
                front_seen@.len() == n,
                group.len() >= 1,
                group@[0] == start,
                head < group.len(),
                group.len() <= n,
                current == group@[head as int],
                group@.no_duplicates(),
                frontier@.no_duplicates(),
                k <= adj.len(),
                adj.len() <= 4,
                forall|i: int| 0 <= i < adj.len() ==> adjacent(v.size, current as int, #[trigger] adj@[i] as int),
                forall|q: int| adjacent(v.size, current as int, q) ==> adj@.contains(q as u16),
                forall|i: int|
                    0 <= i < group.len() ==> on_board(v.size, #[trigger] group@[i] as int) && color_at(
                        v,
                        group@[i] as int,
                    ) == color && connected(v, color, start as int, group@[i] as int),
                forall|p: int| 0 <= p < n ==> (#[trigger] visited@[p] <==> group@.contains(p as u16)),
                forall|p: int| 0 <= p < n ==> (#[trigger] front_seen@[p] <==> frontier@.contains(p as u16)),
                forall|j: int|
                    0 <= j < frontier.len() ==> #[trigger] frontier_of(v, color, seq_set(group@)).contains(
                        frontier@[j] as int,
                    ),
                forall|i: int, q: int|
                    0 <= i < head && #[trigger] adjacent(v.size, group@[i] as int, q) ==> (color_at(v, q)
                        == color ==> group@.contains(q as u16)) && (color_at(v, q) != color
                        ==> frontier@.contains(q as u16)),
                forall|kk: int|
                    0 <= kk < k ==> (color_at(v, #[trigger] adj@[kk] as int) == color
                        ==> group@.contains(adj@[kk])) && (color_at(v, adj@[kk] as int) != color
                        ==> frontier@.contains(adj@[kk])),
            decreases adj.len() - k,
        {
            let neighbor = adj[k];
            let neighbor_color = board.is_color(neighbor);
            let ghost g0 = group@;
            let ghost l0 = frontier@;
            if neighbor_color != color {
                if !front_seen[neighbor as usize] {
                    front_seen.set(neighbor as usize, true);
                    frontier.push(neighbor);
                    proof {
                        assert(frontier@[frontier.len() - 1] == neighbor);
                        assert(seq_set(group@).contains(current as int));
                        assert(adj@[k as int] == neighbor);
                        assert(adjacent(v.size, current as int, neighbor as int));
                        assert(frontier_of(v, color, seq_set(group@)).contains(neighbor as int));
                        assert(forall|w: u16| l0.contains(w) ==> frontier@.contains(w)) by {
                            assert(forall|t: int| 0 <= t < l0.len() ==> frontier@[t] == l0[t]);
                        }
                    }
                }
            } else if !visited[neighbor as usize] {
                visited.set(neighbor as usize, true);
                group.push(neighbor);
                proof {
                    lemma_connected_step(v, color, start as int, current as int, neighbor as int);
                    assert(group@[group.len() - 1] == neighbor);
                    assert(forall|w: u16| g0.contains(w) ==> group@.contains(w)) by {
                        assert(forall|t: int| 0 <= t < g0.len() ==> group@[t] == g0[t]);
                    }
                    assert(seq_set(g0).subset_of(seq_set(group@)));
                    assert forall|j: int| 0 <= j < frontier.len() implies #[trigger] frontier_of(
                        v,
                        color,
                        seq_set(group@),
                    ).contains(frontier@[j] as int) by {
                        let q = frontier@[j] as int;
                        assert(frontier_of(v, color, seq_set(g0)).contains(q));
                        let a = choose|a: int| seq_set(g0).contains(a) && #[trigger] adjacent(v.size, a, q);
                        assert(seq_set(group@).contains(a));
                    }
                    assert forall|i: int| 0 <= i < group.len() implies group@[i] < n by {
                        if i < group.len() - 1 {
                            assert(group@[i] == g0[i]);
                        }
                    }
                    lemma_distinct_below(group@, n);
                }
            }
            proof {
                assert(adj@[k as int] == neighbor);
                if neighbor_color != color {
                    assert(front_seen@[neighbor as int]);
                    assert(frontier@.contains(neighbor));
                } else {
                    assert(visited@[neighbor as int]);
                    assert(group@.contains(neighbor));
                }
                assert((color_at(v, neighbor as int) == color ==> group@.contains(neighbor)) && (
                color_at(v, neighbor as int) != color ==> frontier@.contains(neighbor)));
            }
            k += 1;
        }
        proof {
            assert forall|q: int| #[trigger] adjacent(v.size, current as int, q) implies (color_at(v, q)
                == color ==> group@.contains(q as u16)) && (color_at(v, q) != color
                ==> frontier@.contains(q as u16)) by {
                assert(adj@.contains(q as u16));
                let kk = choose|kk: int| 0 <= kk < adj.len() && adj@[kk] == q as u16;
                assert(adj@[kk] as int == q);
            }
        }
        head += 1;
    }
    let ghost gs = seq_set(group@);
    let ghost grp = group_of(v, color, start as int);
    proof {
        assert(closed_under(v, color, gs)) by {
            assert forall|a: int, q: int|
                gs.contains(a) && #[trigger] adjacent(v.size, a, q) && color_at(v, q) == color implies gs.contains(q) by {
                let i = choose|i: int| 0 <= i < group.len() && group@[i] == a as u16;
                assert(adjacent(v.size, group@[i] as int, q));
            }
        }
        assert forall|p: int| grp.contains(p) implies gs.contains(p) by {
            assert(gs.contains(start as int));
            lemma_closed_holds_group(v, color, gs, start as int, p);
        }
        assert forall|p: int| gs.contains(p) implies grp.contains(p) by {
            let i = choose|i: int| 0 <= i < group.len() && group@[i] == p as u16;
            assert(group@[i] as int == p);
        }
        assert(gs =~= grp);
        let ls = seq_set(frontier@);
        assert forall|q: int| ls.contains(q) implies frontier_of(v, color, grp).contains(q) by {
            let j = choose|j: int| 0 <= j < frontier.len() && frontier@[j] == q as u16;
            assert(frontier@[j] as int == q);
        }
        assert forall|q: int| frontier_of(v, color, grp).contains(q) implies ls.contains(q) by {
            let a = choose|a: int| grp.contains(a) && #[trigger] adjacent(v.size, a, q);
            let i = choose|i: int| 0 <= i < group.len() && group@[i] == a as u16;
            assert(adjacent(v.size, group@[i] as int, q));
            lemma_on_board_bound(v.size, q);
        }
        assert(ls =~= frontier_of(v, color, grp));
        assert forall|j: int| 0 <= j < frontier.len() implies frontier@[j] < n by {
            assert(frontier_of(v, color, seq_set(group@)).contains(frontier@[j] as int));
        }
        assert(group@.to_set().disjoint(frontier@.to_set())) by {
            assert forall|w: u16| group@.to_set().contains(w) implies !frontier@.to_set().contains(w) by {
                let i = choose|i: int| 0 <= i < group.len() && group@[i] == w;
                assert(color_at(v, group@[i] as int) == color);
                if frontier@.contains(w) {
                    let j = choose|j: int| 0 <= j < frontier.len() && frontier@[j] == w;
                    assert(frontier_of(v, color, seq_set(group@)).contains(frontier@[j] as int));
                    assert(frontier@[j] as int == group@[i] as int);
                }
            }
        }
        lemma_two_distinct_below(group@, frontier@, n);
    }
    (group, frontier)
}

/// The group of stones that holds `start`, and its liberties. Each point is
/// listed once, and the two lists together never exceed the board's area.
pub fn collect_group_state(board: &BadukBoard, start: u16, color: Color) -> (r: (Vec<u16>, Vec<u16>))
    requires
        board.wf(),
        on_board(board@.size, start as int),
        color_at(board@, start as int) == color,
        color == Color::Black || color == Color::White,
    ensures
        r.0@.no_duplicates(),
        r.1@.no_duplicates(),
        seq_set(r.0@) == group_of(board@, color, start as int),
        seq_set(r.1@) == liberties_of(board@, group_of(board@, color, start as int)),
        r.0.len() + r.1.len() <= board@.size * board@.size,
{
    let ghost v = board@;
    let (group, frontier) = flood_fill(board, start, color);
    let ghost g = group_of(v, color, start as int);
    let mut liberties: Vec<u16> = Vec::new();
    let mut i: usize = 0;
    while i < frontier.len()
        invariant
            board@ == v,
            board.wf(),
            color == Color::Black || color == Color::White,
            i <= frontier.len(),
            frontier@.no_duplicates(),
            liberties@.no_duplicates(),
            seq_set(frontier@) == frontier_of(v, color, g),
            liberties.len() <= i,
            forall|j: int|
                0 <= j < liberties.len() ==> frontier@.subrange(0, i as int).contains(
                    #[trigger] liberties@[j],
                ),
            forall|j: int|
                0 <= j < liberties.len() ==> color_at(v, #[trigger] liberties@[j] as int)
                    == Color::Free,
            forall|t: int|
                0 <= t < i && color_at(v, #[trigger] frontier@[t] as int) == Color::Free
                    ==> liberties@.contains(frontier@[t]),
        decreases frontier.len() - i,
    {
        let q = frontier[i];
        proof {
            assert(seq_set(frontier@).contains(q as int));
        }
        if board.is_free(q) {
            let ghost l0 = liberties@;
            liberties.push(q);
            proof {
                assert(liberties@[liberties.len() - 1] == q);
                assert(forall|w: u16| l0.contains(w) ==> liberties@.contains(w)) by {
                    assert(forall|t: int| 0 <= t < l0.len() ==> liberties@[t] == l0[t]);
                }
                assert forall|a: int, b: int|
                    0 <= a < liberties.len() && 0 <= b < liberties.len() && a != b implies liberties@[a]
                    != liberties@[b] by {
                    if a == liberties.len() - 1 || b == liberties.len() - 1 {
                        let o = if a == liberties.len() - 1 { b } else { a };
                        assert(frontier@.subrange(0, i as int).contains(liberties@[o]));
                        let t = choose|t: int| 0 <= t < i && frontier@.subrange(0, i as int)[t] == liberties@[o];
                        assert(frontier@[t] == liberties@[o]);
                        assert(frontier@[t] != frontier@[i as int]);
                    }
                }
                assert forall|j: int|
                    0 <= j < liberties.len() implies frontier@.subrange(0, i + 1).contains(
                        #[trigger] liberties@[j],
                    ) by {
                    if j == liberties.len() - 1 {
                        assert(frontier@.subrange(0, i + 1)[i as int] == liberties@[j]);
                    } else {
                        assert(liberties@[j] == l0[j]);
                        assert(frontier@.subrange(0, i as int).contains(l0[j]));
                        let t = choose|t: int| 0 <= t < i && frontier@.subrange(0, i as int)[t] == l0[j];
                        assert(frontier@.subrange(0, i + 1)[t] == l0[j]);
                    }
                }
            }
        }
        i += 1;
    }
    proof {
        let ls = seq_set(liberties@);
        let fs = seq_set(frontier@);
        assert forall|q: int| ls.contains(q) implies liberties_of(v, g).contains(q) by {
            let j = choose|j: int| 0 <= j < liberties.len() && liberties@[j] == q as u16;
            assert(frontier@.subrange(0, i as int).contains(liberties@[j]));
            let t = choose|t: int| 0 <= t < i && frontier@.subrange(0, i as int)[t] == liberties@[j];
            assert(frontier@[t] == liberties@[j]);
            assert(fs.contains(frontier@[t] as int));
            assert(frontier_of(v, color, g).contains(q));
        }
        assert forall|q: int| liberties_of(v, g).contains(q) implies ls.contains(q) by {
            lemma_on_board_bound(v.size, q);
            assert(frontier_of(v, color, g).contains(q));
            assert(fs.contains(q));
            let t = choose|t: int| 0 <= t < frontier.len() && frontier@[t] == q as u16;
            assert(color_at(v, frontier@[t] as int) == Color::Free);
        }
        assert(ls =~= liberties_of(v, g));
    }
    (group, liberties)
}

/// Whether some point next to the region `g` holds `col`.
pub open spec fn borders(v: BoardView, g: Set<int>, col: Color) -> bool {
    exists|p: int, q: int| g.contains(p) && #[trigger] adjacent(v.size, p, q) && color_at(v, q) == col
}

/// Owner of an empty region: the one colour among its neighbours, if there is
/// exactly one.
pub open spec fn region_owner(v: BoardView, g: Set<int>) -> Option<Color> {
    let b = borders(v, g, Color::Black);
    let w = borders(v, g, Color::White);
    if b && !w {
        Some(Color::Black)
    } else if w && !b {
        Some(Color::White)
    } else {
        None
    }
}

/// The empty region that holds `start`, and its owner: the colour of its
/// border where only one colour borders it.
pub fn identify_territory(board: &BadukBoard, start: u16) -> (r: (Vec<u16>, Option<Color>))
    requires
        board.wf(),
        on_board(board@.size, start as int),
        color_at(board@, start as int) == Color::Free,
    ensures
        r.0@.no_duplicates(),
        seq_set(r.0@) == group_of(board@, Color::Free, start as int),
        r.1 == region_owner(board@, group_of(board@, Color::Free, start as int)),
{
    let ghost v = board@;
    let (region, frontier) = flood_fill(board, start, Color::Free);
    let ghost g = group_of(v, Color::Free, start as int);
    let mut black = false;
    let mut white = false;
    let mut i: usize = 0;
    while i < frontier.len()
        invariant
            board@ == v,
            board.wf(),
            i <= frontier.len(),
            seq_set(frontier@) == frontier_of(v, Color::Free, g),
            black <==> exists|t: int|
                0 <= t < i && color_at(v, #[trigger] frontier@[t] as int) == Color::Black,
            white <==> exists|t: int|
                0 <= t < i && color_at(v, #[trigger] frontier@[t] as int) == Color::White,
        decreases frontier.len() - i,
    {
        let q = frontier[i];
        proof {
            assert(seq_set(frontier@).contains(q as int));
        }
        let c = board.is_color(q);
        if c == Color::Black {
            black = true;
        } else if c == Color::White {
            white = true;
        }
        i += 1;
    }
    proof {
        let fs = seq_set(frontier@);
        assert(black == borders(v, g, Color::Black)) by {
            if black {
                let t = choose|t: int| 0 <= t < i && color_at(v, #[trigger] frontier@[t] as int) == Color::Black;
                assert(fs.contains(frontier@[t] as int));
            }
            if borders(v, g, Color::Black) {
                let (p, q) = choose|p: int, q: int| g.contains(p) && #[trigger] adjacent(v.size, p, q) && color_at(v, q) == Color::Black;
                lemma_on_board_bound(v.size, q);
                assert(frontier_of(v, Color::Free, g).contains(q));
                let t = choose|t: int| 0 <= t < frontier.len() && frontier@[t] == q as u16;
                assert(color_at(v, frontier@[t] as int) == Color::Black);
            }
        }
        assert(white == borders(v, g, Color::White)) by {
            if white {
                let t = choose|t: int| 0 <= t < i && color_at(v, #[trigger] frontier@[t] as int) == Color::White;
                assert(fs.contains(frontier@[t] as int));
            }
            if borders(v, g, Color::White) {
                let (p, q) = choose|p: int, q: int| g.contains(p) && #[trigger] adjacent(v.size, p, q) && color_at(v, q) == Color::White;
                lemma_on_board_bound(v.size, q);
                assert(frontier_of(v, Color::Free, g).contains(q));
                let t = choose|t: int| 0 <= t < frontier.len() && frontier@[t] == q as u16;
                assert(color_at(v, frontier@[t] as int) == Color::White);
            }
        }
    }
    let owner = if black && !white {
        Some(Color::Black)
    } else if white && !black {
        Some(Color::White)
    } else {
        None
    };
    (region, owner)
}

/// Two duplicate-free sequences with no common item, all below `n`, hold at
/// most `n` items together.
pub proof fn lemma_two_distinct_below(a: Seq<u16>, b: Seq<u16>, n: u16)
    requires
        a.no_duplicates(),
        b.no_duplicates(),
        a.to_set().disjoint(b.to_set()),
        forall|i: int| 0 <= i < a.len() ==> #[trigger] a[i] < n,
        forall|i: int| 0 <= i < b.len() ==> #[trigger] b[i] < n,
    ensures
        a.len() + b.len() <= n,
{
    let c = a + b;
    assert forall|i: int, j: int| 0 <= i < c.len() && 0 <= j < c.len() && i != j implies c[i] != c[j] by {
        if i < a.len() && j >= a.len() {
            assert(a.to_set().contains(c[i]));
            assert(b.to_set().contains(b[j - a.len()]));
        } else if j < a.len() && i >= a.len() {
            assert(a.to_set().contains(c[j]));
            assert(b.to_set().contains(b[i - a.len()]));
        }
    }
    assert forall|i: int| 0 <= i < c.len() implies #[trigger] c[i] < n by {
        if i >= a.len() {
            assert(c[i] == b[i - a.len()]);
        }
    }
    lemma_distinct_below(c, n);
}

} // verus!
