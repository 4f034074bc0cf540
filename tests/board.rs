use doljabi_engine::board::{board_size, coordinate_index, coordinatde_value, BadukBoard, BadukBoardError, BoardType, Color};

#[test]
fn reverse_twice_is_identity() {
    for c in [Color::Black, Color::White, Color::Free, Color::ColorError] {
        assert_eq!(c.reverse().reverse(), c);
    }
    assert_eq!(Color::Black.reverse(), Color::White);
    assert_eq!(Color::Free.reverse(), Color::Free);
}

#[test]
fn colour_names() {
    assert_eq!(Color::Black.to_string(), "Black");
    assert_eq!(Color::ColorError.to_string(), "Error");
}

#[test]
fn sizes_and_bits() {
    assert_eq!(board_size(BoardType::Baduk), 19);
    assert_eq!(board_size(BoardType::Omok), 15);
    assert_eq!(coordinate_index(130), 2);
    assert_eq!(coordinatde_value(130), 4);
}

#[test]
fn stones_go_in_and_out() {
    let mut b = BadukBoard::new(19);
    assert_eq!(b.check_outboard_coordinate(360), Ok(()));
    assert_eq!(b.check_outboard_coordinate(361), Err(BadukBoardError::OutOfBoard));
    b.push_stone(100, Color::Black);
    b.push_stone(101, Color::White);
    assert!(b.is_black(100) && !b.is_white(100));
    assert_eq!(b.is_color(101), Color::White);
    assert!(b.check_color(102, Color::Free));
    assert!(!b.check_color(100, Color::ColorError));
    assert_eq!(b.bitboard_black()[1], 1u64 << 36);
    b.delete_stone(100, Color::Black);
    assert!(b.is_free(100));
    assert_eq!(b.xy_expression_to_integer_expression(3, 4), 79);
    assert_eq!(b.is_column(79), 4);
    b.switch_turn();
    assert_eq!(b.is_turn(), Color::White);
}
