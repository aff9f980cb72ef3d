use onitama::state::{
    new_game_state, re_clculate_player_pieces_bitmap, set_player_piece_position,
};
use onitama::score::{get_game_score_for_maximizing_player, get_game_state_score, get_num_of_player_pieces};
use onitama::bits::popcount32;

#[test]
fn popcount_matches_hand_counts() {
    assert_eq!(popcount32(0), 0);
    assert_eq!(popcount32(1), 1);
    assert_eq!(popcount32(0b1011_0110), 5);
    assert_eq!(popcount32(u32::MAX), 32);
    assert_eq!(popcount32(0b11111_11111_11111_11111_11111), 25);
}

#[test]
fn live_piece_counting() {
    let mut gs = new_game_state();
    set_player_piece_position(&mut gs, 0, 0, 1 << 2);
    set_player_piece_position(&mut gs, 0, 3, 1 << 9);
    set_player_piece_position(&mut gs, 1, 0, 1 << 22);
    assert_eq!(get_num_of_player_pieces(&gs, 0), 2);
    assert_eq!(get_num_of_player_pieces(&gs, 1), 1);
}

#[test]
fn captured_white_wizard_loses() {
    let mut gs = new_game_state();
    set_player_piece_position(&mut gs, 1, 0, 1 << 17);
    re_clculate_player_pieces_bitmap(&mut gs);
    assert_eq!(get_game_state_score(&gs), -100000);
}

#[test]
fn white_wizard_on_black_shrine_wins_exactly() {
    // Terminal scoring: plus 100000 from White's view regardless of
    // the rest of the material.
    let mut gs = new_game_state();
    set_player_piece_position(&mut gs, 0, 0, 1 << 22);
    set_player_piece_position(&mut gs, 1, 0, 1 << 12);
    set_player_piece_position(&mut gs, 1, 1, 1 << 13);
    set_player_piece_position(&mut gs, 1, 2, 1 << 14);
    set_player_piece_position(&mut gs, 1, 3, 1 << 18);
    set_player_piece_position(&mut gs, 1, 4, 1 << 19);
    re_clculate_player_pieces_bitmap(&mut gs);
    assert_eq!(get_game_state_score(&gs), 100000);
    assert_eq!(get_game_score_for_maximizing_player(&gs, 0), 100000);
    assert_eq!(get_game_score_for_maximizing_player(&gs, 1), -100000);
}

#[test]
fn black_wizard_on_white_shrine_loses_exactly() {
    let mut gs = new_game_state();
    set_player_piece_position(&mut gs, 0, 0, 1 << 12);
    set_player_piece_position(&mut gs, 1, 0, 1 << 2);
    re_clculate_player_pieces_bitmap(&mut gs);
    assert_eq!(get_game_state_score(&gs), -100000);
}

#[test]
fn undecided_score_counts_material_and_zone() {
    // White: wizard at A1 with a student at C2; Black: wizard at E5.
    let mut gs = new_game_state();
    set_player_piece_position(&mut gs, 0, 0, 1 << 0);
    set_player_piece_position(&mut gs, 0, 1, 1 << 7);
    set_player_piece_position(&mut gs, 1, 0, 1 << 24);
    re_clculate_player_pieces_bitmap(&mut gs);
    // Total pieces 3: zone index 2 (end game). White's end zone covers
    // columns B-D of rows 3-5, so the student at C2 is outside it;
    // Black's end zone covers columns B-D of rows 1-3, E5 is outside.
    // Score: 100 * (2 - 1) + 10 * (0 - 0).
    assert_eq!(get_game_state_score(&gs), 100);
    assert_eq!(get_game_score_for_maximizing_player(&gs, 1), -100);
}

#[test]
fn zone_bonus_rewards_pieces_in_the_band() {
    // Ten pieces on the board: early zones apply.
    let mut gs = new_game_state();
    // White: wizard C1, students B2, C2, D2, A2 (three of them in the
    // early zone columns B-D rows 1-3; A2 is outside; C1 is inside).
    set_player_piece_position(&mut gs, 0, 0, 1 << 2);
    set_player_piece_position(&mut gs, 0, 1, 1 << 6);
    set_player_piece_position(&mut gs, 0, 2, 1 << 7);
    set_player_piece_position(&mut gs, 0, 3, 1 << 8);
    set_player_piece_position(&mut gs, 0, 4, 1 << 5);
    // Black: wizard C5, students A5, B5, D5, E5. Black's early zone is
    // columns B-D of rows 3-5: C5, B5 and D5 are inside, A5 and E5 outside.
    set_player_piece_position(&mut gs, 1, 0, 1 << 22);
    set_player_piece_position(&mut gs, 1, 1, 1 << 20);
    set_player_piece_position(&mut gs, 1, 2, 1 << 21);
    set_player_piece_position(&mut gs, 1, 3, 1 << 23);
    set_player_piece_position(&mut gs, 1, 4, 1 << 24);
    re_clculate_player_pieces_bitmap(&mut gs);
    // White's early zone is columns B-D of rows 1-3: C1, B2, C2 and D2 are
    // inside, A2 outside. Score: 100 * (5 - 5) + 10 * (4 - 3) = 10.
    assert_eq!(get_game_state_score(&gs), 10);
}
