use onitama::board::{coordinates_to_bitwise_shift, valid_moves_mask};
use onitama::moves::{build_pre_calculated, get_num_of_estimated_moves_for_player, get_possible_moves_from_position, Card};
use onitama::search::{
    build_command, build_min_max_tree, create_minmax_node, decimal_string, get_next_command,
    score_min_max_tree, select_target_depth, INFINITY,
};
use onitama::state::{
    new_game_state, re_clculate_player_pieces_bitmap, set_middle_card, set_player_card,
    set_player_piece_position, GameState,
};

fn card(id: i32, vectors: [(i32, i32); 4]) -> Card {
    let mut moves = [0i32; 4];
    let mut i = 0;
    while i < 4 {
        moves[i] = coordinates_to_bitwise_shift(vectors[i].0, vectors[i].1);
        i += 1;
    }
    Card { id, moves }
}

#[test]
fn decimal_formatting() {
    assert_eq!(decimal_string(0), "0");
    assert_eq!(decimal_string(7), "7");
    assert_eq!(decimal_string(12345), "12345");
    assert_eq!(decimal_string(100000), "100000");
}

#[test]
fn command_formatting() {
    // Square 0 is A1, square 6 is B2.
    assert_eq!(build_command(3, 0, 6), "3 A1B2");
    assert_eq!(build_command(12, 22, 24), "12 C5E5");
}

#[test]
fn depth_controller_thresholds() {
    assert_eq!(select_target_depth(40), 3);
    assert_eq!(select_target_depth(39), 3);
    assert_eq!(select_target_depth(38), 4);
    assert_eq!(select_target_depth(19), 4);
    assert_eq!(select_target_depth(18), 5);
    assert_eq!(select_target_depth(11), 5);
    assert_eq!(select_target_depth(10), 6);
    assert_eq!(select_target_depth(0), 6);
}

#[test]
fn move_table_respects_board_edges() {
    // Edge containment from the corner A1: vectors pointing off the board
    // are discarded, the rest land inside A1's edge-clamp mask.
    let cards = vec![card(1, [(1, -1), (0, -1), (2, 2), (2, 0)])];
    let pc = build_pre_calculated(cards);
    let dests = get_possible_moves_from_position(&pc, 1 << 0, 1, 1);
    assert_eq!(dests.clone(), vec![1u32 << 12, 1u32 << 2]);
    let mask = valid_moves_mask(0);
    for d in dests.iter() {
        assert_eq!(d & mask, *d);
        assert_eq!(d.count_ones(), 1);
    }
}

#[test]
fn move_table_symmetry_on_mirrored_board() {
    // The mirrored orientation from B2 equals the point reflection of the
    // forward orientation from D4 (square 24 - 6), pairwise in order.
    let cards = vec![card(9, [(-1, 1), (0, -1), (0, 0), (0, 0)])];
    let pc = build_pre_calculated(cards);
    let mirrored = get_possible_moves_from_position(&pc, 1 << 6, 9, -1).clone();
    let forward = get_possible_moves_from_position(&pc, 1 << 18, 9, 1).clone();
    assert_eq!(mirrored.len(), forward.len());
    for i in 0..mirrored.len() {
        let mirrored_index = mirrored[i].trailing_zeros();
        let forward_index = forward[i].trailing_zeros();
        assert_eq!(mirrored_index, 24 - forward_index);
    }
    assert_eq!(mirrored, vec![1u32 << 2, 1u32 << 11]);
    assert_eq!(forward, vec![1u32 << 22, 1u32 << 13]);
}

fn standard_opening() -> GameState {
    let mut gs = new_game_state();
    // White on row 1: students A1, B1, D1, E1 and wizard C1.
    set_player_piece_position(&mut gs, 0, 0, 1 << 2);
    set_player_piece_position(&mut gs, 0, 1, 1 << 0);
    set_player_piece_position(&mut gs, 0, 2, 1 << 1);
    set_player_piece_position(&mut gs, 0, 3, 1 << 3);
    set_player_piece_position(&mut gs, 0, 4, 1 << 4);
    // Black on row 5: students A5, B5, D5, E5 and wizard C5.
    set_player_piece_position(&mut gs, 1, 0, 1 << 22);
    set_player_piece_position(&mut gs, 1, 1, 1 << 20);
    set_player_piece_position(&mut gs, 1, 2, 1 << 21);
    set_player_piece_position(&mut gs, 1, 3, 1 << 23);
    set_player_piece_position(&mut gs, 1, 4, 1 << 24);
    set_player_card(&mut gs, 0, 0, 1, 1);
    set_player_card(&mut gs, 0, 1, 2, 1);
    set_player_card(&mut gs, 1, 0, 3, 1);
    set_player_card(&mut gs, 1, 1, 4, 1);
    set_middle_card(&mut gs, 5, 1);
    re_clculate_player_pieces_bitmap(&mut gs);
    gs
}

#[test]
fn opening_scenario_produces_a_legal_move_string() {
    let gs = standard_opening();
    let cards = vec![
        card(1, [(0, 2), (0, -1), (0, 0), (0, 0)]),
        card(2, [(0, 1), (-2, 0), (2, 0), (0, 0)]),
        card(3, [(-1, 1), (1, 1), (-1, -1), (1, -1)]),
        card(4, [(0, 1), (-1, -1), (1, -1), (0, 0)]),
        card(5, [(-1, 1), (1, 1), (0, -1), (0, 0)]),
    ];
    let pc = build_pre_calculated(cards);

    let white_moves = get_num_of_estimated_moves_for_player(&gs, &pc, 0);
    let black_moves = get_num_of_estimated_moves_for_player(&gs, &pc, 1);
    assert_eq!(white_moves, 10);
    assert_eq!(black_moves, 16);
    let target_depth = select_target_depth(white_moves + black_moves);
    assert_eq!(target_depth, 4);

    let mut root = create_minmax_node(0, 0, 0, String::new(), gs);
    build_min_max_tree(&mut root, &pc, target_depth);
    // The move estimate and the expanded tree agree on the legal moves.
    assert_eq!(root.child_nodes.len(), white_moves);
    score_min_max_tree(&mut root, target_depth, -INFINITY, INFINITY, true, 0);
    let (command, _score) = get_next_command(&root);

    // A move string: one of White's held card ids, a space, and two
    // square labels of which the first holds a White piece.
    let parts: Vec<&str> = command.split(' ').collect();
    assert_eq!(parts.len(), 2);
    assert!(parts[0] == "1" || parts[0] == "2");
    assert_eq!(parts[1].len(), 4);
    let source = &parts[1][0..2];
    let white_squares = ["A1", "B1", "C1", "D1", "E1"];
    assert!(white_squares.contains(&source));
}

#[test]
fn immediate_wizard_capture_is_chosen() {
    // White's wizard on C4 can capture Black's wizard on C5 with the card
    // that moves one square forward; alpha-beta must surface exactly that
    // move.
    let mut gs = new_game_state();
    set_player_piece_position(&mut gs, 0, 0, 1 << 17);
    set_player_piece_position(&mut gs, 1, 0, 1 << 22);
    set_player_card(&mut gs, 0, 0, 1, 1);
    set_player_card(&mut gs, 0, 1, 2, 1);
    set_player_card(&mut gs, 1, 0, 3, 1);
    set_player_card(&mut gs, 1, 1, 4, 1);
    set_middle_card(&mut gs, 5, 1);
    re_clculate_player_pieces_bitmap(&mut gs);
    let cards = vec![
        card(1, [(0, 1), (0, 0), (0, 0), (0, 0)]),
        card(2, [(0, -1), (0, 0), (0, 0), (0, 0)]),
        card(3, [(0, -1), (0, 0), (0, 0), (0, 0)]),
        card(4, [(-1, 1), (0, 0), (0, 0), (0, 0)]),
        card(5, [(1, 1), (0, 0), (0, 0), (0, 0)]),
    ];
    let pc = build_pre_calculated(cards);

    let total = get_num_of_estimated_moves_for_player(&gs, &pc, 0)
        + get_num_of_estimated_moves_for_player(&gs, &pc, 1);
    let target_depth = select_target_depth(total);
    assert_eq!(target_depth, 6);

    let mut root = create_minmax_node(0, 0, 0, String::new(), gs);
    build_min_max_tree(&mut root, &pc, target_depth);
    let score = score_min_max_tree(&mut root, target_depth, -INFINITY, INFINITY, true, 0);
    assert!(score >= 100000);
    let (command, best_score) = get_next_command(&root);
    assert_eq!(command, "1 C4C5");
    assert!(best_score >= 100000);
}

fn material_leaf(white_pieces: usize, black_pieces: usize) -> GameState {
    // A state whose evaluation is pure material: occupancy bitmasks stay
    // zero, so the zone bonus contributes nothing.
    let mut gs = new_game_state();
    for i in 0..white_pieces {
        set_player_piece_position(&mut gs, 0, i, 1 << (5 + i));
    }
    for i in 0..black_pieces {
        set_player_piece_position(&mut gs, 1, i, 1 << (15 + i));
    }
    gs
}

#[test]
fn alpha_beta_equals_minimax_on_a_small_tree() {
    // Root (maximizing) with two minimizing children over material leaves:
    //   left  child leaves: 100, 300  -> min 100
    //   right child leaves: 200, 0    -> min 0
    // Exhaustive minimax gives max(100, 0) = 100; the full-window
    // alpha-beta search must report exactly that.
    let mut root = create_minmax_node(0, 0, 0, String::new(), material_leaf(1, 1));
    let mut left = create_minmax_node(1, 1, 0, String::new(), material_leaf(1, 1));
    let mut right = create_minmax_node(1, 1, 0, String::new(), material_leaf(1, 1));
    left.child_nodes.push(create_minmax_node(2, 0, 0, String::new(), material_leaf(2, 1)));
    left.child_nodes.push(create_minmax_node(2, 0, 0, String::new(), material_leaf(4, 1)));
    right.child_nodes.push(create_minmax_node(2, 0, 0, String::new(), material_leaf(3, 1)));
    right.child_nodes.push(create_minmax_node(2, 0, 0, String::new(), material_leaf(1, 1)));
    root.child_nodes.push(left);
    root.child_nodes.push(right);

    let score = score_min_max_tree(&mut root, 2, -INFINITY, INFINITY, true, 0);
    assert_eq!(score, 100);
    assert_eq!(root.score, 100);
    assert_eq!(root.child_nodes[0].score, 100);
    // The right child was cut off after its first leaf already failed low:
    // fail-soft alpha-beta still brackets its true value from below.
    assert!(root.child_nodes[1].score <= 100);
}

#[test]
fn scored_leaf_gets_the_evaluation() {
    let mut leaf = create_minmax_node(0, 0, 0, String::new(), material_leaf(3, 1));
    let score = score_min_max_tree(&mut leaf, 0, -INFINITY, INFINITY, true, 0);
    assert_eq!(score, 200);
    assert_eq!(leaf.score, 200);
    let mut from_black = create_minmax_node(0, 1, 0, String::new(), material_leaf(3, 1));
    let score_black = score_min_max_tree(&mut from_black, 0, -INFINITY, INFINITY, true, 1);
    assert_eq!(score_black, -200);
}
