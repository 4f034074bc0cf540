use doljabi_engine::board::Color;
use doljabi_engine::record::{coord_to_sgf, SgfGame};

#[test]
fn sgf_print_test() {
    let mut game = SgfGame::new(15, "TestBlack", "TestWhite");

    game.add_move(Color::Black, 7, 7);
    game.add_move(Color::White, 8, 8);
    game.set_result("B+R");

    println!("===== SGF 출력 테스트 =====");
    println!("{}", game.to_sgf_string());
    println!("===========================");
}

#[test]
fn sgf_text_is_exact() {
    let mut game = SgfGame::new(15, "TestBlack", "TestWhite");
    game.add_move(Color::Black, 7, 7);
    game.add_move(Color::White, 8, 8);
    game.add_move(Color::Free, 1, 1);
    game.set_result("B+R");
    assert_eq!(
        game.to_sgf_string(),
        "(;FF[4]\nGM[1]\nSZ[15]\nPB[TestBlack]\nPW[TestWhite]\nRE[B+R]\n\n;B[hh]\n;W[ii]\n)\n"
    );
}

#[test]
fn sgf_unknown_result_and_three_digit_size() {
    let game = SgfGame::new(190, "a", "b");
    assert_eq!(game.to_sgf_string(), "(;FF[4]\nGM[1]\nSZ[190]\nPB[a]\nPW[b]\nRE[?]\n\n)\n");
    let small = SgfGame::new(9, "", "");
    assert_eq!(small.to_sgf_string(), "(;FF[4]\nGM[1]\nSZ[9]\nPB[]\nPW[]\nRE[?]\n\n)\n");
}

#[test]
fn sgf_points() {
    assert_eq!(coord_to_sgf(0, 0), "aa");
    assert_eq!(coord_to_sgf(0, 1), "ab");
    assert_eq!(coord_to_sgf(18, 2), "sc");
}
