use doljabi_engine::board::{BadukBoardError, Color};
use doljabi_engine::line::{Direction, Omok};

fn at(x: u16, y: u16) -> u16 {
    y * 15 + x
}

fn play(g: &mut Omok, moves: &[u16]) {
    for &m in moves {
        assert_eq!(g.chaksu(m), Ok(()));
    }
}

fn open_four() -> Omok {
    let mut g = Omok::new();
    play(&mut g, &[at(5, 7), at(0, 0), at(6, 7), at(0, 2), at(7, 7), at(0, 4), at(8, 7), at(0, 6)]);
    g
}

#[test]
fn open_four_wins_at_the_low_end() {
    let mut g = open_four();
    assert_eq!(g.chaksu(at(4, 7)), Ok(()));
    assert_eq!(g.winner(), Some(Color::Black));
}

#[test]
fn open_four_wins_at_the_high_end() {
    let mut g = open_four();
    assert_eq!(g.chaksu(at(9, 7)), Ok(()));
    assert_eq!(g.winner(), Some(Color::Black));
}

#[test]
fn double_open_three_is_banned() {
    let mut g = Omok::new();
    play(&mut g, &[at(5, 7), at(0, 0), at(6, 7), at(0, 2), at(7, 5), at(0, 4), at(7, 6), at(0, 6)]);
    let before = g.is_board();
    assert_eq!(g.chaksu(at(7, 7)), Err(BadukBoardError::BannedChaksu));
    let after = g.is_board();
    assert_eq!(before.bitboard_black(), after.bitboard_black());
    assert_eq!(before.bitboard_white(), after.bitboard_white());
    assert_eq!(after.is_turn(), Color::Black);
}

#[test]
fn blocked_three_leaves_a_single_open_three() {
    let mut g = Omok::new();
    play(&mut g, &[at(5, 7), at(8, 7), at(6, 7), at(0, 2), at(7, 5), at(0, 4), at(7, 6), at(0, 6)]);
    assert_eq!(g.chaksu(at(7, 7)), Ok(()));
    assert_eq!(g.winner(), None);
    assert_eq!(g.is_board().is_turn(), Color::White);
}

#[test]
fn overline_is_banned_for_black() {
    let mut g = Omok::new();
    play(&mut g, &[at(1, 7), at(0, 0), at(2, 7), at(0, 2), at(3, 7), at(0, 4), at(5, 7), at(0, 6), at(6, 7), at(0, 8)]);
    assert_eq!(g.chaksu(at(4, 7)), Err(BadukBoardError::BannedChaksu));
    assert_eq!(g.winner(), None);
}

#[test]
fn white_wins_with_six() {
    let mut g = Omok::new();
    play(&mut g, &[at(0, 0), at(1, 7), at(0, 2), at(2, 7), at(0, 4), at(3, 7), at(0, 6), at(5, 7), at(0, 8), at(6, 7), at(14, 14)]);
    assert_eq!(g.chaksu(at(4, 7)), Ok(()));
    assert_eq!(g.winner(), Some(Color::White));
}

#[test]
fn line_lengths_along_each_direction() {
    let mut g = Omok::new();
    play(&mut g, &[at(5, 5), at(0, 0), at(6, 6), at(0, 2), at(7, 7)]);
    assert_eq!(g.linked_stone(at(6, 6), Direction::MinusSlope, Color::Black), 3);
    assert_eq!(g.linked_stone(at(6, 6), Direction::Horizontal, Color::Black), 1);
    assert_eq!(g.linked_stone(at(0, 0), Direction::Vertical, Color::White), 1);
}

#[test]
fn out_of_board_and_overlap() {
    let mut g = Omok::new();
    assert_eq!(g.chaksu(225), Err(BadukBoardError::OutOfBoard));
    assert_eq!(g.chaksu(224), Ok(()));
    assert_eq!(g.chaksu(224), Err(BadukBoardError::OverLap));
    assert_eq!(g.chaksu(0), Ok(()));
}

#[test]
fn steps_along_directions() {
    let g = Omok::new();
    assert_eq!(g.direction_value(Direction::Vertical), 15);
    assert_eq!(g.direction_value(Direction::PlueSlope), 14);
    assert_eq!(g.add_direction(at(3, 3), Direction::Horizontal), Some(at(4, 3)));
    assert_eq!(g.add_direction(at(14, 3), Direction::Horizontal), None);
    assert_eq!(g.add_direction(at(3, 3), Direction::PlueSlope), Some(at(2, 4)));
    assert_eq!(g.sub_direction(at(3, 3), Direction::MinusSlope), Some(at(2, 2)));
    assert_eq!(g.sub_direction(at(3, 0), Direction::Vertical), None);
    assert!(g.check_out_board(at(3, 3), at(4, 3), Direction::Horizontal));
    assert!(!g.check_out_board(at(14, 3), at(0, 4), Direction::Horizontal));
    assert!(g.check_out_board(at(3, 3), at(3, 4), Direction::Vertical));
    assert!(g.is_color(at(3, 3), Color::Free));
    assert!(!g.is_color(at(3, 3), Color::ColorError));
}

#[test]
fn double_four_is_banned() {
    let mut g = Omok::new();
    play(
        &mut g,
        &[at(4, 7), at(3, 7), at(5, 7), at(7, 3), at(6, 7), at(0, 0), at(7, 4), at(0, 2), at(7, 5), at(0, 4), at(7, 6), at(0, 6)],
    );
    assert_eq!(g.chaksu(at(7, 7)), Err(BadukBoardError::BannedChaksu));
    assert_eq!(g.chaksu(at(8, 7)), Ok(()));
}

#[test]
fn double_three_whose_extension_makes_five_is_allowed() {
    let mut g = Omok::new();
    play(
        &mut g,
        &[
            at(5, 7), at(0, 0), at(6, 7), at(0, 2), at(7, 5), at(0, 4), at(7, 6), at(0, 6),
            at(8, 8), at(0, 8), at(8, 9), at(0, 10), at(8, 10), at(0, 12), at(8, 11), at(0, 14),
        ],
    );
    assert_eq!(g.chaksu(at(7, 7)), Ok(()));
    assert_eq!(g.winner(), None);
}

#[test]
fn exact_five_wins_even_beside_an_overline() {
    let mut g = Omok::new();
    play(
        &mut g,
        &[
            at(1, 7), at(0, 0), at(2, 7), at(0, 2), at(3, 7), at(0, 4), at(5, 7), at(0, 6), at(6, 7), at(0, 8),
            at(4, 3), at(0, 10), at(4, 4), at(0, 12), at(4, 5), at(0, 14), at(4, 6), at(14, 0),
        ],
    );
    assert_eq!(g.chaksu(at(4, 7)), Ok(()));
    assert_eq!(g.winner(), Some(Color::Black));
}
