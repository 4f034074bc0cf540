use doljabi_engine::board::{BadukBoardError, Color};
use doljabi_engine::capture::Baduk;

fn at(x: u16, y: u16) -> u16 {
    y * 19 + x
}

fn snapshot(g: &Baduk) -> ([u64; 6], [u64; 6], Color, (u16, u16), Option<u16>) {
    let b = g.is_board();
    (*b.bitboard_black(), *b.bitboard_white(), b.is_turn(), g.get_captured_stones(), g.get_ko_position())
}

fn stones(g: &Baduk) -> u32 {
    let b = g.is_board();
    b.bitboard_black().iter().chain(b.bitboard_white().iter()).map(|w| w.count_ones()).sum()
}

#[test]
fn two_moves_leave_two_stones() {
    let mut g = Baduk::new();
    assert_eq!(g.chaksu(at(3, 3)), Ok(()));
    assert_eq!(g.chaksu(at(3, 4)), Ok(()));
    assert_eq!(stones(&g), 2);
    assert!(g.is_board().is_black(at(3, 3)));
    assert!(g.is_board().is_white(at(3, 4)));
    assert_eq!(g.is_board().is_turn(), Color::Black);
    assert_eq!(g.get_captured_stones(), (0, 0));
}

#[test]
fn surrounded_stone_is_captured() {
    let mut g = Baduk::new();
    let moves = [at(4, 5), at(5, 5), at(6, 5), at(0, 0), at(5, 4), at(0, 2)];
    for m in moves {
        assert_eq!(g.chaksu(m), Ok(()));
    }
    assert!(g.is_board().is_white(at(5, 5)));
    assert_eq!(g.chaksu(at(5, 6)), Ok(()));
    assert!(g.is_board().is_free(at(5, 5)));
    assert_eq!(g.get_captured_stones(), (1, 0));
    assert_eq!(g.get_ko_position(), Some(at(5, 5)));
}

#[test]
fn corners_and_out_of_board() {
    let mut g = Baduk::new();
    assert_eq!(g.chaksu(0), Ok(()));
    assert_eq!(g.chaksu(360), Ok(()));
    assert_eq!(g.chaksu(361), Err(BadukBoardError::OutOfBoard));
    assert_eq!(g.chaksu(0), Err(BadukBoardError::OverLap));
}

fn ko_position() -> Baduk {
    let mut g = Baduk::new();
    let moves = [
        at(1, 0),
        at(2, 0),
        at(0, 1),
        at(1, 1),
        at(1, 2),
        at(3, 1),
        at(10, 10),
        at(2, 2),
    ];
    for m in moves {
        assert_eq!(g.chaksu(m), Ok(()));
    }
    assert_eq!(g.chaksu(at(2, 1)), Ok(()));
    g
}

#[test]
fn ko_recapture_is_banned_at_once() {
    let mut g = ko_position();
    assert_eq!(g.get_captured_stones(), (1, 0));
    assert_eq!(g.get_ko_position(), Some(at(1, 1)));
    let before = snapshot(&g);
    assert_eq!(g.chaksu(at(1, 1)), Err(BadukBoardError::BannedChaksu));
    assert_eq!(snapshot(&g), before);
}

#[test]
fn ko_recapture_allowed_after_other_moves() {
    let mut g = ko_position();
    assert_eq!(g.chaksu(at(15, 15)), Ok(()));
    assert_eq!(g.get_ko_position(), None);
    assert_eq!(g.chaksu(at(16, 16)), Ok(()));
    assert_eq!(g.chaksu(at(1, 1)), Ok(()));
    assert!(g.is_board().is_free(at(2, 1)));
    assert_eq!(g.get_captured_stones(), (1, 1));
}

#[test]
fn suicide_is_refused_and_changes_nothing() {
    let mut g = Baduk::new();
    let moves = [at(1, 0), at(10, 10), at(0, 1), at(11, 11)];
    for m in moves {
        assert_eq!(g.chaksu(m), Ok(()));
    }
    let before = snapshot(&g);
    assert_eq!(g.chaksu(at(12, 12)), Ok(()));
    let before_white = snapshot(&g);
    assert_ne!(before, before_white);
    assert_eq!(g.chaksu(at(0, 0)), Err(BadukBoardError::BannedChaksu));
    assert_eq!(snapshot(&g), before_white);
}

#[test]
fn scoring_counts_territory_stones_and_captures() {
    let mut g = Baduk::new();
    assert_eq!(g.calculate_territory(), (0, 0));
    assert_eq!(g.calculate_score(), (0, 0));
    assert_eq!(g.determine_winner(), None);
    assert_eq!(g.chaksu(at(0, 0)), Ok(()));
    assert_eq!(g.calculate_territory(), (360, 0));
    assert_eq!(g.calculate_score(), (361, 0));
    assert_eq!(g.determine_winner(), Some(Color::Black));
    assert_eq!(g.chaksu(at(18, 18)), Ok(()));
    assert_eq!(g.calculate_territory(), (0, 0));
    assert_eq!(g.calculate_game_result(), (0, 0, 1, 1));
    assert_eq!(g.determine_winner(), None);
}

#[test]
fn corner_territory_of_one_colour() {
    let mut g = Baduk::new();
    let moves = [at(1, 0), at(18, 18), at(0, 1), at(17, 18)];
    for m in moves {
        assert_eq!(g.chaksu(m), Ok(()));
    }
    let (black, white) = g.calculate_territory();
    assert_eq!(black, 1);
    assert_eq!(white, 0);
}

#[test]
fn settling_for_a_non_player_colour_is_invalid() {
    let mut g = Baduk::new();
    let before = snapshot(&g);
    assert_eq!(g.resolve_after_move(0, Color::Free), Err(BadukBoardError::InvalidArgument));
    assert_eq!(g.resolve_after_move(0, Color::ColorError), Err(BadukBoardError::InvalidArgument));
    assert_eq!(snapshot(&g), before);
}

#[test]
fn capturing_two_stones_sets_no_ko() {
    let mut g = Baduk::new();
    let moves = [at(0, 1), at(0, 0), at(2, 0), at(1, 0), at(9, 9)];
    for m in moves {
        assert_eq!(g.chaksu(m), Ok(()));
    }
    assert_eq!(g.chaksu(at(10, 10)), Ok(()));
    assert_eq!(g.chaksu(at(1, 1)), Ok(()));
    assert!(g.is_board().is_free(at(0, 0)));
    assert!(g.is_board().is_free(at(1, 0)));
    assert_eq!(g.get_captured_stones(), (2, 0));
    assert_eq!(g.get_ko_position(), None);
}

#[test]
fn two_moves_give_exact_bitboards() {
    let mut g = Baduk::new();
    assert_eq!(g.chaksu(60), Ok(()));
    assert_eq!(g.chaksu(79), Ok(()));
    assert_eq!(*g.is_board().bitboard_black(), [1u64 << 60, 0, 0, 0, 0, 0]);
    assert_eq!(*g.is_board().bitboard_white(), [0, 1u64 << 15, 0, 0, 0, 0]);
}
