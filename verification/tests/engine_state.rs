use onitama::state::{
    apply_player_move_to_opponent_pieces, get_middle_card, get_opponent_id, get_player_card,
    get_player_pieces_bitmask, get_player_piece_position, is_game_finished,
    is_player_moving_on_own_piece, new_game_state, re_clculate_player_pieces_bitmap,
    set_middle_card, set_player_card, set_player_pieces_bitmask, set_player_piece_position,
};
use onitama::search::apply_player_move;

#[test]
fn opponent_ids_swap() {
    assert_eq!(get_opponent_id(0), 1);
    assert_eq!(get_opponent_id(1), 0);
}

#[test]
fn piece_positions_round_trip() {
    let mut gs = new_game_state();
    set_player_piece_position(&mut gs, 0, 0, 1 << 2);
    set_player_piece_position(&mut gs, 1, 4, 1 << 22);
    assert_eq!(get_player_piece_position(&gs, 0, 0), 1 << 2);
    assert_eq!(get_player_piece_position(&gs, 1, 4), 1 << 22);
    assert_eq!(get_player_piece_position(&gs, 0, 1), 0);
}

#[test]
fn cards_round_trip() {
    let mut gs = new_game_state();
    set_player_card(&mut gs, 0, 0, 7, 1);
    set_player_card(&mut gs, 1, 1, 9, -1);
    set_middle_card(&mut gs, 3, -1);
    assert_eq!(get_player_card(&gs, 0, 0), (7, 1));
    assert_eq!(get_player_card(&gs, 1, 1), (9, -1));
    assert_eq!(get_middle_card(&gs), (3, -1));
}

#[test]
fn occupancy_bitmask_is_union_of_pieces() {
    let mut gs = new_game_state();
    set_player_piece_position(&mut gs, 0, 0, 1 << 2);
    set_player_piece_position(&mut gs, 0, 1, 1 << 7);
    set_player_piece_position(&mut gs, 1, 0, 1 << 22);
    re_clculate_player_pieces_bitmap(&mut gs);
    assert_eq!(get_player_pieces_bitmask(&gs, 0), (1 << 2) | (1 << 7));
    assert_eq!(get_player_pieces_bitmask(&gs, 1), 1 << 22);
}

#[test]
fn own_piece_blocks_move() {
    let mut gs = new_game_state();
    set_player_piece_position(&mut gs, 0, 0, 1 << 2);
    set_player_piece_position(&mut gs, 0, 1, 1 << 7);
    re_clculate_player_pieces_bitmap(&mut gs);
    assert!(is_player_moving_on_own_piece(&gs, 0, 1 << 7));
    assert!(!is_player_moving_on_own_piece(&gs, 0, 1 << 8));
    assert!(!is_player_moving_on_own_piece(&gs, 1, 1 << 7));
}

#[test]
fn capture_clears_the_met_piece() {
    let mut gs = new_game_state();
    set_player_piece_position(&mut gs, 0, 0, 1 << 2);
    set_player_piece_position(&mut gs, 1, 1, 1 << 7);
    set_player_piece_position(&mut gs, 1, 2, 1 << 9);
    re_clculate_player_pieces_bitmap(&mut gs);
    apply_player_move_to_opponent_pieces(&mut gs, 0, 1 << 7);
    assert_eq!(get_player_piece_position(&gs, 1, 1), 0);
    assert_eq!(get_player_piece_position(&gs, 1, 2), 1 << 9);
    // A move onto empty ground captures nothing.
    let mut gs2 = new_game_state();
    set_player_piece_position(&mut gs2, 1, 1, 1 << 7);
    re_clculate_player_pieces_bitmap(&mut gs2);
    apply_player_move_to_opponent_pieces(&mut gs2, 0, 1 << 9);
    assert_eq!(get_player_piece_position(&gs2, 1, 1), 1 << 7);
}

#[test]
fn stale_bitmask_is_refreshed_by_recalculation() {
    let mut gs = new_game_state();
    set_player_piece_position(&mut gs, 0, 3, 1 << 11);
    set_player_pieces_bitmask(&mut gs, 0, 0);
    assert_eq!(get_player_pieces_bitmask(&gs, 0), 0);
    re_clculate_player_pieces_bitmap(&mut gs);
    assert_eq!(get_player_pieces_bitmask(&gs, 0), 1 << 11);
}

#[test]
fn game_end_detection() {
    // Both wizards standing mid-board: not finished.
    let mut gs = new_game_state();
    set_player_piece_position(&mut gs, 0, 0, 1 << 7);
    set_player_piece_position(&mut gs, 1, 0, 1 << 17);
    assert!(!is_game_finished(&gs));
    // White wizard captured.
    let mut gone = new_game_state();
    set_player_piece_position(&mut gone, 1, 0, 1 << 17);
    assert!(is_game_finished(&gone));
    // White wizard on Black's shrine (C5, bit 22).
    let mut shrine = new_game_state();
    set_player_piece_position(&mut shrine, 0, 0, 1 << 22);
    set_player_piece_position(&mut shrine, 1, 0, 1 << 17);
    assert!(is_game_finished(&shrine));
    // Black wizard on White's shrine (C1, bit 2).
    let mut shrine2 = new_game_state();
    set_player_piece_position(&mut shrine2, 0, 0, 1 << 7);
    set_player_piece_position(&mut shrine2, 1, 0, 1 << 2);
    assert!(is_game_finished(&shrine2));
}

#[test]
fn applying_a_move_swaps_cards_and_conserves_ids() {
    let mut gs = new_game_state();
    set_player_piece_position(&mut gs, 0, 0, 1 << 2);
    set_player_piece_position(&mut gs, 1, 0, 1 << 22);
    set_player_card(&mut gs, 0, 0, 11, 1);
    set_player_card(&mut gs, 0, 1, 12, 1);
    set_player_card(&mut gs, 1, 0, 13, 1);
    set_player_card(&mut gs, 1, 1, 14, 1);
    set_middle_card(&mut gs, 15, 1);
    re_clculate_player_pieces_bitmap(&mut gs);

    // White plays card slot 0 and moves the wizard one square up (to C2).
    let next = apply_player_move(&gs, 0, 0, 0, 1 << 7);

    assert_eq!(get_player_piece_position(&next, 0, 0), 1 << 7);
    // The used card slot received the middle card.
    assert_eq!(get_player_card(&next, 0, 0), (15, 1));
    // The used card became the middle card with flipped orientation.
    assert_eq!(get_middle_card(&next), (11, -1));
    // The other held cards are untouched.
    assert_eq!(get_player_card(&next, 0, 1), (12, 1));
    assert_eq!(get_player_card(&next, 1, 0), (13, 1));
    assert_eq!(get_player_card(&next, 1, 1), (14, 1));
    // The five ids in play are conserved as a set.
    let mut ids = vec![
        get_player_card(&next, 0, 0).0,
        get_player_card(&next, 0, 1).0,
        get_player_card(&next, 1, 0).0,
        get_player_card(&next, 1, 1).0,
        get_middle_card(&next).0,
    ];
    ids.sort();
    assert_eq!(ids, vec![11, 12, 13, 14, 15]);
    // Occupancy bitmasks come out fresh.
    assert_eq!(get_player_pieces_bitmask(&next, 0), 1 << 7);
    assert_eq!(get_player_pieces_bitmask(&next, 1), 1 << 22);
    // The input state is untouched.
    assert_eq!(get_player_piece_position(&gs, 0, 0), 1 << 2);
}

#[test]
fn bitmasks_stay_fresh_across_a_sequence_of_moves() {
    let mut gs = new_game_state();
    set_player_piece_position(&mut gs, 0, 0, 1 << 2);
    set_player_piece_position(&mut gs, 0, 1, 1 << 0);
    set_player_piece_position(&mut gs, 1, 0, 1 << 22);
    set_player_card(&mut gs, 0, 0, 1, 1);
    set_player_card(&mut gs, 0, 1, 2, 1);
    set_player_card(&mut gs, 1, 0, 3, 1);
    set_player_card(&mut gs, 1, 1, 4, 1);
    set_middle_card(&mut gs, 5, 1);
    re_clculate_player_pieces_bitmap(&mut gs);

    // White wizard C1 -> C2, Black wizard C5 -> C4, White student A1 -> A2.
    let after_one = apply_player_move(&gs, 0, 0, 0, 1 << 7);
    let after_two = apply_player_move(&after_one, 1, 0, 0, 1 << 17);
    let after_three = apply_player_move(&after_two, 0, 1, 1, 1 << 5);

    let white_union = get_player_piece_position(&after_three, 0, 0)
        | get_player_piece_position(&after_three, 0, 1);
    let black_union = get_player_piece_position(&after_three, 1, 0);
    assert_eq!(get_player_pieces_bitmask(&after_three, 0), white_union);
    assert_eq!(get_player_pieces_bitmask(&after_three, 1), black_union);
    assert_eq!(white_union, (1 << 7) | (1 << 5));
    assert_eq!(black_union, 1 << 17);

    // The five card ids in play are still the five dealt ones.
    let mut ids = vec![
        get_player_card(&after_three, 0, 0).0,
        get_player_card(&after_three, 0, 1).0,
        get_player_card(&after_three, 1, 0).0,
        get_player_card(&after_three, 1, 1).0,
        get_middle_card(&after_three).0,
    ];
    ids.sort();
    assert_eq!(ids, vec![1, 2, 3, 4, 5]);
}

#[test]
fn applying_a_capturing_move_removes_the_victim() {
    let mut gs = new_game_state();
    set_player_piece_position(&mut gs, 0, 0, 1 << 2);
    set_player_piece_position(&mut gs, 1, 1, 1 << 7);
    set_player_card(&mut gs, 0, 0, 1, 1);
    set_player_card(&mut gs, 0, 1, 2, 1);
    set_player_card(&mut gs, 1, 0, 3, 1);
    set_player_card(&mut gs, 1, 1, 4, 1);
    set_middle_card(&mut gs, 5, 1);
    re_clculate_player_pieces_bitmap(&mut gs);

    let next = apply_player_move(&gs, 0, 0, 0, 1 << 7);
    assert_eq!(get_player_piece_position(&next, 0, 0), 1 << 7);
    assert_eq!(get_player_piece_position(&next, 1, 1), 0);
    assert_eq!(get_player_pieces_bitmask(&next, 1), 0);
}
