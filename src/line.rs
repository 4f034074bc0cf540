use vstd::prelude::*;
use crate::board::{
    BadukBoard, BadukBoardError, BoardType, BoardView, Color, board_size, color_at, on_board,
    spec_reverse,
};
use crate::capture::with_stone;

verus! {

/// The four lines through a point.
#[derive(Clone, Copy, Debug, PartialEq, Eq, Structural)]
pub enum Direction {
    Horizontal,
    Vertical,
    PlueSlope,
    MinusSlope,
}

impl Direction {
    /// The four directions, in a fixed order.
    pub fn four_direction() -> (r: [Direction; 4])
        ensures
            r@ == seq![
                Direction::Horizontal,
                Direction::Vertical,
                Direction::PlueSlope,
                Direction::MinusSlope,
            ],
    {
        let r = [Direction::Horizontal, Direction::Vertical, Direction::PlueSlope, Direction::MinusSlope];
        assert(r@ =~= seq![
            Direction::Horizontal,
            Direction::Vertical,
            Direction::PlueSlope,
            Direction::MinusSlope,
        ]);
        r
    }
}

/// Column step of a direction.
pub open spec fn step_x(d: Direction) -> int {
    match d {
        Direction::Horizontal => 1,
        Direction::Vertical => 0,
        Direction::PlueSlope => 1,
        Direction::MinusSlope => 1,
    }
}

/// Row step of a direction.
pub open spec fn step_y(d: Direction) -> int {
    match d {
        Direction::Horizontal => 0,
        Direction::Vertical => 1,
        Direction::PlueSlope => -1,
        Direction::MinusSlope => 1,
    }
}

/// Side of the five-in-a-row board.
pub const OMOK_SIZE: i32 = 15;

pub open spec fn inb(x: int, y: int) -> bool {
    0 <= x < 15 && 0 <= y < 15
}

/// `x` moved `t` steps of `dx` (which is -1, 0 or 1).
pub open spec fn offset(x: int, dx: int, t: int) -> int {
    if dx == 1 {
        x + t
    } else if dx == -1 {
        x - t
    } else {
        x
    }
}

pub open spec fn xy(x: int, y: int) -> int {
    y * 15 + x
}

/// A stone of `col` stands at column `x`, row `y`.
pub open spec fn has(v: BoardView, col: Color, x: int, y: int) -> bool {
    inb(x, y) && color_at(v, xy(x, y)) == col
}

/// Consecutive stones of `col` met when walking from `(x, y)` by
/// `(dx, dy)`, at most `n` of them.
pub open spec fn ray(v: BoardView, col: Color, x: int, y: int, dx: int, dy: int, n: nat) -> nat
    decreases n,
{
    if n == 0 {
        0
    } else if has(v, col, x + dx, y + dy) {
        1 + ray(v, col, x + dx, y + dy, dx, dy, (n - 1) as nat)
    } else {
        0
    }
}

/// Length of the unbroken line of `col` through `(x, y)` along `d`.
pub open spec fn run(v: BoardView, col: Color, x: int, y: int, d: Direction) -> nat {
    1 + ray(v, col, x, y, step_x(d), step_y(d), 15) + ray(
        v,
        col,
        x,
        y,
        -step_x(d),
        -step_y(d),
        15,
    )
}

/// Black stones among the `k` points from `(x, y)` by `(dx, dy)`.
pub open spec fn seg_blacks(v: BoardView, x: int, y: int, dx: int, dy: int, k: nat) -> nat
    decreases k,
{
    if k == 0 {
        0
    } else {
        (if has(v, Color::Black, x, y) {
            1nat
        } else {
            0nat
        }) + seg_blacks(v, x + dx, y + dy, dx, dy, (k - 1) as nat)
    }
}

/// The `k` points from `(x, y)` are all on the board and black or empty.
pub open spec fn seg_clear(v: BoardView, x: int, y: int, dx: int, dy: int, k: nat) -> bool
    decreases k,
{
    k == 0 || ((has(v, Color::Black, x, y) || has(v, Color::Free, x, y)) && seg_clear(
        v,
        x + dx,
        y + dy,
        dx,
        dy,
        (k - 1) as nat,
    ))
}

/// The five points from `(x, y)` hold four black stones and one empty point,
/// and filling it makes exactly five (no black stone right beyond either end).
pub open spec fn five_window(v: BoardView, x: int, y: int, dx: int, dy: int) -> bool {
    &&& seg_clear(v, x, y, dx, dy, 5)
    &&& seg_blacks(v, x, y, dx, dy, 5) == 4
    &&& !(has(v, Color::Black, x - dx, y - dy))
    &&& !(has(v, Color::Black, x + 5 * dx, y + 5 * dy))
}

pub open spec fn one_if(b: bool) -> nat {
    if b {
        1
    } else {
        0
    }
}

/// Points that would turn the line of `(x, y)` along `d` into exactly five:
/// one for each five-point window through `(x, y)` that lacks one stone.
pub open spec fn four_count(v: BoardView, x: int, y: int, d: Direction) -> nat {
    let dx = step_x(d);
    let dy = step_y(d);
    one_if(five_window(v, x, y, dx, dy)) + one_if(five_window(v, x - dx, y - dy, dx, dy)) + one_if(
        five_window(v, x - 2 * dx, y - 2 * dy, dx, dy),
    ) + one_if(five_window(v, x - 3 * dx, y - 3 * dy, dx, dy)) + one_if(
        five_window(v, x - 4 * dx, y - 4 * dy, dx, dy),
    )
}

/// Black at `(x, y)` has a four along `d`.
pub open spec fn is_four(v: BoardView, x: int, y: int, d: Direction) -> bool {
    four_count(v, x, y, d) >= 1
}

/// Filling the point `t` steps from `(x, y)` along `d` gives a four with
/// two ways to finish.
pub open spec fn extends_three(v: BoardView, x: int, y: int, d: Direction, t: int) -> bool {
    let ex = offset(x, step_x(d), t);
    let ey = offset(y, step_y(d), t);
    &&& t != 0
    &&& -4 <= t <= 4
    &&& has(v, Color::Free, ex, ey)
    &&& four_count(with_stone(v, xy(ex, ey), Color::Black), x, y, d) >= 2
}

/// Black at `(x, y)` has an open three along `d`: no four yet, and one more
/// stone can make an open four.
pub open spec fn is_open_three(v: BoardView, x: int, y: int, d: Direction) -> bool {
    !is_four(v, x, y, d) && exists|t: int| #[trigger] extends_three(v, x, y, d, t)
}

pub open spec fn dir_at(i: int) -> Direction {
    if i == 0 {
        Direction::Horizontal
    } else if i == 1 {
        Direction::Vertical
    } else if i == 2 {
        Direction::PlueSlope
    } else {
        Direction::MinusSlope
    }
}

/// Among the first `i` directions, those along which Black at `(x, y)` has
/// an open three.
pub open spec fn threes_upto(v: BoardView, x: int, y: int, i: int) -> nat
    decreases i,
{
    if i <= 0 {
        0
    } else {
        threes_upto(v, x, y, i - 1) + one_if(is_open_three(v, x, y, dir_at(i - 1)))
    }
}

/// Among the first `i` directions, those along which Black at `(x, y)` has
/// a four.
pub open spec fn fours_upto(v: BoardView, x: int, y: int, i: int) -> nat
    decreases i,
{
    if i <= 0 {
        0
    } else {
        fours_upto(v, x, y, i - 1) + one_if(is_four(v, x, y, dir_at(i - 1)))
    }
}

/// Directions along which Black at `(x, y)` has an open three.
pub open spec fn three_count(v: BoardView, x: int, y: int) -> nat {
    threes_upto(v, x, y, 4)
}

/// Directions along which Black at `(x, y)` has a four.
pub open spec fn fours(v: BoardView, x: int, y: int) -> nat {
    fours_upto(v, x, y, 4)
}

/// Some line through `(x, y)` holds exactly five stones of `col`.
pub open spec fn makes_five(v: BoardView, col: Color, x: int, y: int) -> bool {
    exists|i: int| 0 <= i < 4 && #[trigger] run(v, col, x, y, dir_at(i)) == 5
}

/// Some line through `(x, y)` holds five or more stones of `col`.
pub open spec fn makes_five_or_more(v: BoardView, col: Color, x: int, y: int) -> bool {
    exists|i: int| 0 <= i < 4 && #[trigger] run(v, col, x, y, dir_at(i)) >= 5
}

/// Some line through `(x, y)` holds more than five stones of `col`.
pub open spec fn overline(v: BoardView, col: Color, x: int, y: int) -> bool {
    exists|i: int| 0 <= i < 4 && #[trigger] run(v, col, x, y, dir_at(i)) > 5
}

/// The double three is false: a point that extends one of the threes would
/// itself complete a five.
pub open spec fn false_three(v: BoardView, x: int, y: int) -> bool {
    exists|i: int, t: int|
        0 <= i < 4 && is_open_three(v, x, y, dir_at(i)) && #[trigger] extends_three(v, x, y, dir_at(i), t)
            && makes_five(
            with_stone(
                v,
                xy(offset(x, step_x(dir_at(i)), t), offset(y, step_y(dir_at(i)), t)),
                Color::Black,
            ),
            Color::Black,
            offset(x, step_x(dir_at(i)), t),
            offset(y, step_y(dir_at(i)), t),
        )
}

/// A black stone just placed at `(x, y)` (without five or overline) is
/// forbidden: two fours, or two open threes that are not false. The false
/// test applies to threes only: the points that complete a four always make
/// five, so a double four is forbidden outright.
pub open spec fn forbidden(v: BoardView, x: int, y: int) -> bool {
    fours(v, x, y) >= 2 || (three_count(v, x, y) >= 2 && !false_three(v, x, y))
}


/// Whether a stone of `col` stands at column `x`, row `y` (`false` off the
/// board).
fn stone_at(board: &BadukBoard, col: Color, x: i32, y: i32) -> (r: bool)
    requires
        board.wf(),
        board@.size == 15,
        -100 < x < 100,
        -100 < y < 100,
    ensures
        r == has(board@, col, x as int, y as int),
{
    if 0 <= x && x < OMOK_SIZE && 0 <= y && y < OMOK_SIZE {
        let c = (y * OMOK_SIZE + x) as u16;
        board.is_color(c) == col
    } else {
        false
    }
}

/// Steps of a direction as integers.
fn steps(d: Direction) -> (r: (i32, i32))
    ensures
        r.0 == step_x(d),
        r.1 == step_y(d),
{
    match d {
        Direction::Horizontal => (1, 0),
        Direction::Vertical => (0, 1),
        Direction::PlueSlope => (1, -1),
        Direction::MinusSlope => (1, 1),
    }
}

/// Consecutive stones of `col` from `(x, y)` by `(dx, dy)`.
fn ray_len(board: &BadukBoard, col: Color, x: i32, y: i32, dx: i32, dy: i32) -> (r: u16)
    requires
        board.wf(),
        board@.size == 15,
        -20 < x < 40,
        -20 < y < 40,
        -1 <= dx <= 1,
        -1 <= dy <= 1,
    ensures
        r == ray(board@, col, x as int, y as int, dx as int, dy as int, 15),
        r <= 15,
{
    let mut cnt: u16 = 0;
    let mut px = x;
    let mut py = y;
    let mut left: u16 = 15;
    let mut done = false;
    while !done && left > 0
        invariant
            board.wf(),
            board@.size == 15,
            -1 <= dx <= 1,
            -1 <= dy <= 1,
            cnt + left == 15,
            -40 < px < 60,
            -40 < py < 60,
            px - x <= cnt && x - px <= cnt,
            py - y <= cnt && y - py <= cnt,
            done ==> ray(board@, col, px as int, py as int, dx as int, dy as int, left as nat) == 0,
            ray(board@, col, x as int, y as int, dx as int, dy as int, 15) == cnt + ray(
                board@,
                col,
                px as int,
                py as int,
                dx as int,
                dy as int,
                left as nat,
            ),
        decreases left + if done { 0int } else { 1int },
    {
        if stone_at(board, col, px + dx, py + dy) {
            cnt += 1;
            px += dx;
            py += dy;
            left -= 1;
        } else {
            done = true;
        }
    }
    cnt
}

/// The five points from `(x, y)` make a five when their one gap is filled.
fn five_window_at(board: &BadukBoard, x: i32, y: i32, dx: i32, dy: i32) -> (r: bool)
    requires
        board.wf(),
        board@.size == 15,
        -40 < x < 60,
        -40 < y < 60,
        -1 <= dx <= 1,
        -1 <= dy <= 1,
    ensures
        r == five_window(board@, x as int, y as int, dx as int, dy as int),
{
    let ghost v = board@;
    let mut blacks: u16 = 0;
    let mut clear = true;
    let mut px = x;
    let mut py = y;
    let mut k: u16 = 0;
    while k < 5
        invariant
            board.wf(),
            board@ == v,
            v.size == 15,
            -1 <= dx <= 1,
            -1 <= dy <= 1,
            k <= 5,
            blacks <= k,
            px == x + k * dx,
            py == y + k * dy,
            x - k <= px <= x + k,
            y - k <= py <= y + k,
            -40 < x < 60,
            -40 < y < 60,
            seg_blacks(v, x as int, y as int, dx as int, dy as int, 5) == blacks + seg_blacks(
                v,
                px as int,
                py as int,
                dx as int,
                dy as int,
                (5 - k) as nat,
            ),
            seg_clear(v, x as int, y as int, dx as int, dy as int, 5) == (clear && seg_clear(
                v,
                px as int,
                py as int,
                dx as int,
                dy as int,
                (5 - k) as nat,
            )),
        decreases 5 - k,
    {
        let b = stone_at(board, Color::Black, px, py);
        let e = stone_at(board, Color::Free, px, py);
        if b {
            blacks += 1;
        }
        if !(b || e) {
            clear = false;
        }
        proof {
            assert((k + 1) * dx == k * dx + dx) by (nonlinear_arith);
            assert((k + 1) * dy == k * dy + dy) by (nonlinear_arith);
        }
        px += dx;
        py += dy;
        k += 1;
    }
    let before = stone_at(board, Color::Black, x - dx, y - dy);
    let after = stone_at(board, Color::Black, px, py);
    clear && blacks == 4 && !before && !after
}

/// Number of points that would complete exactly five through `(x, y)`
/// along `d`.
fn four_count_at(board: &BadukBoard, x: i32, y: i32, d: Direction) -> (r: u16)
    requires
        board.wf(),
        board@.size == 15,
        0 <= x < 15,
        0 <= y < 15,
    ensures
        r == four_count(board@, x as int, y as int, d),
{
    let (dx, dy) = steps(d);
    let mut n: u16 = 0;
    if five_window_at(board, x, y, dx, dy) {
        n += 1;
    }
    if five_window_at(board, x - dx, y - dy, dx, dy) {
        n += 1;
    }
    if five_window_at(board, x - 2 * dx, y - 2 * dy, dx, dy) {
        n += 1;
    }
    if five_window_at(board, x - 3 * dx, y - 3 * dy, dx, dy) {
        n += 1;
    }
    if five_window_at(board, x - 4 * dx, y - 4 * dy, dx, dy) {
        n += 1;
    }
    n
}

/// The steps `t` along `d` whose point, once filled, turns the line of
/// `(x, y)` into an open four.
fn three_extensions(board: &BadukBoard, x: i32, y: i32, d: Direction) -> (r: Vec<i32>)
    requires
        board.wf(),
        board@.size == 15,
        0 <= x < 15,
        0 <= y < 15,
    ensures
        forall|i: int| 0 <= i < r.len() ==> extends_three(board@, x as int, y as int, d, #[trigger] r@[i] as int),
        forall|t: int| extends_three(board@, x as int, y as int, d, t) ==> r@.contains(t as i32),
        forall|i: int| 0 <= i < r.len() ==> -4 <= #[trigger] r@[i] <= 4,
{
    let ghost v = board@;
    let (dx, dy) = steps(d);
    let mut r: Vec<i32> = Vec::new();
    let mut t: i32 = -4;
    while t <= 4
        invariant
            board.wf(),
            board@ == v,
            v.size == 15,
            0 <= x < 15,
            0 <= y < 15,
            dx == step_x(d),
            dy == step_y(d),
            -4 <= t <= 5,
            forall|i: int| 0 <= i < r.len() ==> extends_three(v, x as int, y as int, d, #[trigger] r@[i] as int),
            forall|i: int| 0 <= i < r.len() ==> -4 <= #[trigger] r@[i] <= 4,
            forall|u: int| -4 <= u < t && extends_three(v, x as int, y as int, d, u) ==> r@.contains(u as i32),
        decreases 5 - t,
    {
        let ex = if dx == 1 { x + t } else if dx == -1 { x - t } else { x };
        let ey = if dy == 1 { y + t } else if dy == -1 { y - t } else { y };
        if t != 0 && stone_at(board, Color::Free, ex, ey) {
            let mut trial = *board;
            let c = (ey * OMOK_SIZE + ex) as u16;
            trial.push_stone(c, Color::Black);
            if four_count_at(&trial, x, y, d) >= 2 {
                let ghost r0 = r@;
                r.push(t);
                proof {
                    assert(r@[r.len() - 1] == t);
                    assert(forall|w: i32| r0.contains(w) ==> r@.contains(w)) by {
                        assert(forall|i: int| 0 <= i < r0.len() ==> r@[i] == r0[i]);
                    }
                }
            }
        }
        t += 1;
    }
    r
}

/// Length of the line of `col` through `(x, y)` along `d`.
fn run_at(board: &BadukBoard, col: Color, x: i32, y: i32, d: Direction) -> (r: u16)
    requires
        board.wf(),
        board@.size == 15,
        0 <= x < 15,
        0 <= y < 15,
    ensures
        r == run(board@, col, x as int, y as int, d),
{
    let (dx, dy) = steps(d);
    1 + ray_len(board, col, x, y, dx, dy) + ray_len(board, col, x, y, -dx, -dy)
}


/// Whether some line through `(x, y)` holds exactly five, five or more, and
/// more than five stones of `col`.
fn line_lengths(board: &BadukBoard, col: Color, x: i32, y: i32) -> (r: (bool, bool, bool))
    requires
        board.wf(),
        board@.size == 15,
        0 <= x < 15,
        0 <= y < 15,
    ensures
        r.0 == makes_five(board@, col, x as int, y as int),
        r.1 == makes_five_or_more(board@, col, x as int, y as int),
        r.2 == overline(board@, col, x as int, y as int),
{
    let ghost v = board@;
    let dirs = Direction::four_direction();
    let mut five = false;
    let mut five_or_more = false;
    let mut over = false;
    let mut i: usize = 0;
    while i < 4
        invariant
            board@ == v,
            board.wf(),
            v.size == 15,
            0 <= x < 15,
            0 <= y < 15,
            i <= 4,
            dirs@ == seq![
                Direction::Horizontal,
                Direction::Vertical,
                Direction::PlueSlope,
                Direction::MinusSlope,
            ],
            five == exists|j: int| 0 <= j < i && #[trigger] run(v, col, x as int, y as int, dir_at(j)) == 5,
            five_or_more == exists|j: int| 0 <= j < i && #[trigger] run(v, col, x as int, y as int, dir_at(j)) >= 5,
            over == exists|j: int| 0 <= j < i && #[trigger] run(v, col, x as int, y as int, dir_at(j)) > 5,
        decreases 4 - i,
    {
        let d = dirs[i];
        assert(d == dir_at(i as int));
        let n = run_at(board, col, x, y, d);
        if n == 5 {
            five = true;
        }
        if n >= 5 {
            five_or_more = true;
        }
        if n > 5 {
            over = true;
        }
        i += 1;
    }
    (five, five_or_more, over)
}

/// Whether some step `t` extending the three of `(x, y)` along `d` fills a
/// point that would itself complete a five.
fn false_in_dir(board: &BadukBoard, x: i32, y: i32, d: Direction) -> (r: bool)
    requires
        board.wf(),
        board@.size == 15,
        0 <= x < 15,
        0 <= y < 15,
    ensures
        r == exists|t: int|
            #[trigger] extends_three(board@, x as int, y as int, d, t) && makes_five(
                with_stone(
                    board@,
                    xy(offset(x as int, step_x(d), t), offset(y as int, step_y(d), t)),
                    Color::Black,
                ),
                Color::Black,
                offset(x as int, step_x(d), t),
                offset(y as int, step_y(d), t),
            ),
{
    let ghost v = board@;
    let (dx, dy) = steps(d);
    let ext = three_extensions(board, x, y, d);
    let mut found = false;
    let mut i: usize = 0;
    while i < ext.len()
        invariant
            board@ == v,
            board.wf(),
            v.size == 15,
            0 <= x < 15,
            0 <= y < 15,
            dx == step_x(d),
            dy == step_y(d),
            i <= ext.len(),
            forall|j: int| 0 <= j < ext.len() ==> extends_three(v, x as int, y as int, d, #[trigger] ext@[j] as int),
            forall|j: int| 0 <= j < ext.len() ==> -4 <= #[trigger] ext@[j] <= 4,
            found == exists|j: int|
                0 <= j < i && #[trigger] makes_five(
                    with_stone(
                        v,
                        xy(offset(x as int, dx as int, ext@[j] as int), offset(y as int, dy as int, ext@[j] as int)),
                        Color::Black,
                    ),
                    Color::Black,
                    offset(x as int, dx as int, ext@[j] as int),
                    offset(y as int, dy as int, ext@[j] as int),
                ),
        decreases ext.len() - i,
    {
        let t = ext[i];
        let ex = if dx == 1 { x + t } else if dx == -1 { x - t } else { x };
        let ey = if dy == 1 { y + t } else if dy == -1 { y - t } else { y };
        proof {
            assert(extends_three(v, x as int, y as int, d, t as int));
        }
        let mut trial = *board;
        let c = (ey * OMOK_SIZE + ex) as u16;
        trial.push_stone(c, Color::Black);
        let (five, _, _) = line_lengths(&trial, Color::Black, ex, ey);
        if five {
            found = true;
        }
        i += 1;
    }
    proof {
        let p = |t: int|
            extends_three(v, x as int, y as int, d, t) && makes_five(
                with_stone(
                    v,
                    xy(offset(x as int, step_x(d), t), offset(y as int, step_y(d), t)),
                    Color::Black,
                ),
                Color::Black,
                offset(x as int, step_x(d), t),
                offset(y as int, step_y(d), t),
            );
        if found {
            let j = choose|j: int|
                0 <= j < i && #[trigger] makes_five(
                    with_stone(
                        v,
                        xy(offset(x as int, dx as int, ext@[j] as int), offset(y as int, dy as int, ext@[j] as int)),
                        Color::Black,
                    ),
                    Color::Black,
                    offset(x as int, dx as int, ext@[j] as int),
                    offset(y as int, dy as int, ext@[j] as int),
                );
            assert(p(ext@[j] as int));
        }
        if exists|t: int| #[trigger] extends_three(v, x as int, y as int, d, t) && p(t) {
            let t = choose|t: int| #[trigger] extends_three(v, x as int, y as int, d, t) && p(t);
            assert(ext@.contains(t as i32));
            let j = choose|j: int| 0 <= j < ext.len() && ext@[j] == t as i32;
            assert(ext@[j] as int == t);
        }
    }
    found
}


/// Along `d`: a four, an open three, and whether that three is false.
fn dir_shape(board: &BadukBoard, x: i32, y: i32, d: Direction) -> (r: (bool, bool, bool))
    requires
        board.wf(),
        board@.size == 15,
        0 <= x < 15,
        0 <= y < 15,
    ensures
        r.0 == is_four(board@, x as int, y as int, d),
        r.1 == is_open_three(board@, x as int, y as int, d),
        r.1 ==> (r.2 == exists|t: int|
            #[trigger] extends_three(board@, x as int, y as int, d, t) && makes_five(
                with_stone(
                    board@,
                    xy(offset(x as int, step_x(d), t), offset(y as int, step_y(d), t)),
                    Color::Black,
                ),
                Color::Black,
                offset(x as int, step_x(d), t),
                offset(y as int, step_y(d), t),
            )),
{
    let ghost v = board@;
    let four = four_count_at(board, x, y, d) >= 1;
    if four {
        return (true, false, false);
    }
    let ext = three_extensions(board, x, y, d);
    if ext.len() > 0 {
        proof {
            assert(extends_three(v, x as int, y as int, d, ext@[0] as int));
        }
        let fake = false_in_dir(board, x, y, d);
        (false, true, fake)
    } else {
        proof {
            assert forall|t: int| !extends_three(v, x as int, y as int, d, t) by {
                if extends_three(v, x as int, y as int, d, t) {
                    assert(ext@.contains(t as i32));
                }
            }
        }
        (false, false, false)
    }
}

/// Directions with a four, directions with an open three, and whether the
/// threes are false, for a black stone at `(x, y)`.
fn shape_counts(board: &BadukBoard, x: i32, y: i32) -> (r: (u16, u16, bool))
    requires
        board.wf(),
        board@.size == 15,
        0 <= x < 15,
        0 <= y < 15,
    ensures
        r.0 == fours(board@, x as int, y as int),
        r.1 == three_count(board@, x as int, y as int),
        r.2 == false_three(board@, x as int, y as int),
{
    let ghost v = board@;
    let dirs = Direction::four_direction();
    let mut four_dirs: u16 = 0;
    let mut three_dirs: u16 = 0;
    let mut is_false = false;
    let mut i: usize = 0;
    while i < 4
        invariant
            board@ == v,
            board.wf(),
            v.size == 15,
            0 <= x < 15,
            0 <= y < 15,
            i <= 4,
            dirs@ == seq![
                Direction::Horizontal,
                Direction::Vertical,
                Direction::PlueSlope,
                Direction::MinusSlope,
            ],
            four_dirs <= i,
            three_dirs <= i,
            four_dirs == fours_upto(v, x as int, y as int, i as int),
            three_dirs == threes_upto(v, x as int, y as int, i as int),
            is_false == exists|j: int, t: int|
                0 <= j < i && is_open_three(v, x as int, y as int, dir_at(j))
                    && #[trigger] extends_three(v, x as int, y as int, dir_at(j), t) && makes_five(
                    with_stone(
                        v,
                        xy(
                            offset(x as int, step_x(dir_at(j)), t),
                            offset(y as int, step_y(dir_at(j)), t),
                        ),
                        Color::Black,
                    ),
                    Color::Black,
                    offset(x as int, step_x(dir_at(j)), t),
                    offset(y as int, step_y(dir_at(j)), t),
                ),
        decreases 4 - i,
    {
        let d = dirs[i];
        assert(d == dir_at(i as int));
        let (four, three, fake) = dir_shape(board, x, y, d);
        if four {
            four_dirs += 1;
        }
        if three {
            three_dirs += 1;
            if fake {
                is_false = true;
            }
        }
        i += 1;
    }
    (four_dirs, three_dirs, is_false)
}

/// A five-in-a-row game: a 15x15 board and the winner once decided.
#[derive(Clone, Copy, Debug)]
pub struct Omok {
    board: BadukBoard,
    winner: Option<Color>,
}

/// What a five-in-a-row game holds, seen as values.
pub struct OmokView {
    pub board: BoardView,
    pub winner: Option<Color>,
}

impl View for Omok {
    type V = OmokView;

    closed spec fn view(&self) -> OmokView {
        OmokView { board: self.board@, winner: self.winner }
    }
}

impl Omok {
    /// Well formed: a 15x15 board whose colours never share a point.
    pub open spec fn wf(&self) -> bool {
        &&& self.board_ok()
        &&& self@.board.size == 15
        &&& self@.board.black.disjoint(self@.board.white)
    }

    pub closed spec fn board_ok(&self) -> bool {
        self.board.wf()
    }

    /// A fresh 15x15 game, Black to move.
    pub fn new() -> (r: Self)
        ensures
            r.wf(),
            r@.board.black == Set::<int>::empty(),
            r@.board.white == Set::<int>::empty(),
            r@.board.turn == Color::Black,
            r@.winner is None,
    {
        Self { board: BadukBoard::new(board_size(BoardType::Omok)), winner: None }
    }

    /// A copy of the board.
    pub fn is_board(&self) -> (r: BadukBoard)
        ensures
            r@ == self@.board,
            self.wf() ==> r.wf(),
    {
        self.board
    }

    pub fn winner(&self) -> (r: Option<Color>)
        ensures
            r == self@.winner,
    {
        self.winner
    }

    pub fn set_winner(&mut self, color: Color)
        requires
            old(self).wf(),
        ensures
            final(self).wf(),
            final(self)@ == (OmokView { winner: Some(color), ..old(self)@ }),
    {
        self.winner = Some(color);
    }

    /// Hands the turn over without a move.
    pub fn switch_turn(&mut self)
        requires
            old(self).wf(),
        ensures
            final(self).wf(),
            final(self)@ == (OmokView {
                board: BoardView { turn: spec_reverse(old(self)@.board.turn), ..old(self)@.board },
                ..old(self)@
            }),
    {
        self.board.switch_turn();
    }

    /// Length of the line of `color` through `coordinate` along `direction`,
    /// the point itself included.
    pub fn linked_stone(&self, coordinate: u16, direction: Direction, color: Color) -> (r: u16)
        requires
            self.wf(),
            on_board(15, coordinate as int),
        ensures
            r == run(self@.board, color, coordinate as int % 15, coordinate as int / 15, direction),
    {
        run_at(&self.board, color, (coordinate % 15) as i32, (coordinate / 15) as i32, direction)
    }
}

/// Offset between neighbouring points along a direction, in coordinates.
pub open spec fn spec_direction_value(dir: Direction) -> u16 {
    match dir {
        Direction::Horizontal => 1,
        Direction::Vertical => 15,
        Direction::PlueSlope => 14,
        Direction::MinusSlope => 16,
    }
}

/// The point one step from `c` along `dir` (`sign` 1 forward, -1 back),
/// if it lies on the board. Forward is the way coordinates grow.
pub open spec fn neighbour(c: int, dir: Direction, sign: int) -> Option<u16> {
    let x = c % 15;
    let y = c / 15;
    let nx = if dir == Direction::PlueSlope { x - sign } else { x + sign * step_x(dir) };
    let ny = y + sign * step_y_fwd(dir);
    if inb(nx, ny) {
        Some(xy(nx, ny) as u16)
    } else {
        None
    }
}

/// Row step of a direction when walking the way coordinates grow.
pub open spec fn step_y_fwd(d: Direction) -> int {
    match d {
        Direction::Horizontal => 0,
        _ => 1,
    }
}

impl Omok {
    /// Offset between neighbouring points along `dir`.
    pub fn direction_value(&self, dir: Direction) -> (r: u16)
        ensures
            r == spec_direction_value(dir),
    {
        match dir {
            Direction::Horizontal => 1,
            Direction::Vertical => 15,
            Direction::PlueSlope => 14,
            Direction::MinusSlope => 16,
        }
    }

    /// Whether a step from `ptr1` to `ptr2` along `direction` stays on one
    /// line: the same row for a horizontal step, neighbouring rows
    /// otherwise.
    pub fn check_out_board(&self, ptr1: u16, ptr2: u16, direction: Direction) -> (r: bool)
        ensures
            r == match direction {
                Direction::Horizontal => ptr1 as int / 15 == ptr2 as int / 15,
                _ => ptr1 as int / 15 - ptr2 as int / 15 == 1 || ptr2 as int / 15 - ptr1 as int / 15 == 1,
            },
    {
        let row1 = ptr1 / 15;
        let row2 = ptr2 / 15;
        match direction {
            Direction::Horizontal => row1 == row2,
            _ => row1 == row2 + 1 || row2 == row1 + 1,
        }
    }

    fn step(coordinate: u16, dir: Direction, forward: bool) -> (r: Option<u16>)
        requires
            on_board(15, coordinate as int),
        ensures
            r == neighbour(coordinate as int, dir, if forward { 1 } else { -1 }),
    {
        let x = (coordinate % 15) as i32;
        let y = (coordinate / 15) as i32;
        let sign: i32 = if forward { 1 } else { -1 };
        let (dx, dy) = match dir {
            Direction::Horizontal => (sign, 0),
            Direction::Vertical => (0, sign),
            Direction::PlueSlope => (-sign, sign),
            Direction::MinusSlope => (sign, sign),
        };
        let nx = x + dx;
        let ny = y + dy;
        if 0 <= nx && nx < OMOK_SIZE && 0 <= ny && ny < OMOK_SIZE {
            Some((ny * OMOK_SIZE + nx) as u16)
        } else {
            None
        }
    }

    /// The next point along `dir` the way coordinates grow, if on the board.
    pub fn add_direction(&self, coordinate: u16, dir: Direction) -> (r: Option<u16>)
        requires
            on_board(15, coordinate as int),
        ensures
            r == neighbour(coordinate as int, dir, 1),
    {
        Self::step(coordinate, dir, true)
    }

    /// The previous point along `dir`, if on the board.
    pub fn sub_direction(&self, coordinate: u16, dir: Direction) -> (r: Option<u16>)
        requires
            on_board(15, coordinate as int),
        ensures
            r == neighbour(coordinate as int, dir, -1),
    {
        Self::step(coordinate, dir, false)
    }

    /// Whether the point holds `color` (`Free`: empty); `false` for
    /// `ColorError`.
    pub fn is_color(&self, coordinate: u16, color: Color) -> (r: bool)
        requires
            self.wf(),
            on_board(15, coordinate as int),
        ensures
            r == match color {
                Color::Black => self@.board.black.contains(coordinate as int),
                Color::White => self@.board.white.contains(coordinate as int),
                Color::Free => !self@.board.black.contains(coordinate as int) && !self@.board.white.contains(
                    coordinate as int,
                ),
                Color::ColorError => false,
            },
    {
        self.board.check_color(coordinate, color)
    }
}

/// The line-game board once the player to move has put a stone on `c`.
pub open spec fn omok_placed(g: OmokView, c: int) -> BoardView {
    with_stone(g.board, c, g.board.turn)
}

/// What a move on `c` does to a line game `g`: the answer and the new game.
/// Refused moves change nothing.
pub open spec fn omok_step(g: OmokView, c: int) -> (Result<(), BadukBoardError>, OmokView) {
    let v = omok_placed(g, c);
    let x = c % 15;
    let y = c / 15;
    if !on_board(15, c) {
        (Err(BadukBoardError::OutOfBoard), g)
    } else if color_at(g.board, c) != Color::Free {
        (Err(BadukBoardError::OverLap), g)
    } else if g.board.turn == Color::White {
        (
            Ok(()),
            omok_accepted(
                g,
                c,
                if makes_five_or_more(v, Color::White, x, y) {
                    Some(Color::White)
                } else {
                    g.winner
                },
            ),
        )
    } else if makes_five(v, Color::Black, x, y) {
        (Ok(()), omok_accepted(g, c, Some(Color::Black)))
    } else if overline(v, Color::Black, x, y) || forbidden(v, x, y) {
        (Err(BadukBoardError::BannedChaksu), g)
    } else {
        (Ok(()), omok_accepted(g, c, g.winner))
    }
}

/// The game after an accepted move on `c` whose result is `winner`.
pub open spec fn omok_accepted(g: OmokView, c: int, winner: Option<Color>) -> OmokView {
    OmokView {
        board: BoardView { turn: spec_reverse(g.board.turn), ..omok_placed(g, c) },
        winner,
    }
}

impl Omok {
    /// Plays a stone of the player to move on `coordinate`. White wins with
    /// five or more in a line. Black wins with exactly five in some line;
    /// otherwise a longer line is forbidden, and so are two fours or two open
    /// threes that are not false. Refused moves leave the game exactly as it
    /// was.
    pub fn chaksu(&mut self, coordinate: u16) -> (r: Result<(), BadukBoardError>)
        requires
            old(self).wf(),
        ensures
            final(self).wf(),
            r is Err ==> *final(self) == *old(self),
            (r, final(self)@) == omok_step(old(self)@, coordinate as int),
    {
        if let Err(e) = self.board.check_outboard_coordinate(coordinate) {
            return Err(e);
        }
        if !self.board.is_free(coordinate) {
            return Err(BadukBoardError::OverLap);
        }
        let color = self.board.is_turn();
        let saved = self.board;
        self.board.push_stone(coordinate, color);
        let x = (coordinate % 15) as i32;
        let y = (coordinate / 15) as i32;
        proof {
            assert(self.board.wf());
        }
        if color == Color::White {
            let (_, five_or_more, _) = line_lengths(&self.board, Color::White, x, y);
            if five_or_more {
                self.winner = Some(Color::White);
            }
        } else {
            let (five, _, over) = line_lengths(&self.board, Color::Black, x, y);
            if five {
                self.winner = Some(Color::Black);
            } else if over {
                self.board = saved;
                return Err(BadukBoardError::BannedChaksu);
            } else {
                let (four_dirs, three_dirs, is_false) = shape_counts(&self.board, x, y);
                if four_dirs >= 2 || (three_dirs >= 2 && !is_false) {
                    self.board = saved;
                    return Err(BadukBoardError::BannedChaksu);
                }
            }
        }
        self.board.switch_turn();
        Ok(())
    }
}

/// No point of the line game is ever held by both colours.
pub proof fn lemma_omok_no_overlap(game: &Omok)
    requires
        game.wf(),
    ensures
        forall|c: int| !(game@.board.black.contains(c) && game@.board.white.contains(c)),
{
}

} // verus!
