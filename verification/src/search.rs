//! The search tree: node construction, recursive expansion into every legal
//! move, alpha-beta scoring and best-move extraction.
//!
//! A built tree is pinned down exactly: an expanded node has one child per
//! legal move, in generation order, each child carrying the transitioned
//! state and the formatted move command, and each child built in turn.

use vstd::prelude::*;
use vstd::string::StringExecFns;
use vstd::math::{max, min};
use crate::score::{spec_score_for, get_game_score_for_maximizing_player, lemma_score_bounds};
use crate::board::{is_square, square_index, label_seq, square_label, square_index_of};
use crate::moves::{
    PreCalculated, MoveChoice, card_dest_seq, moves_of, filter_unblocked, spec_card_moves,
    spec_piece_moves_upto, spec_moves_upto, spec_all_moves, state_cards_in_table,
    get_possible_moves_from_position, lemma_card_dest_squares,
};
use crate::state::{
    GameState, StateModel, spec_apply_move, spec_finished, spec_opponent, valid_piece, valid_card,
    get_player_piece_position, get_player_card, get_middle_card, is_player_moving_on_own_piece,
    set_player_piece_position, set_player_card, set_middle_card,
    apply_player_move_to_opponent_pieces, re_clculate_player_pieces_bitmap, get_opponent_id,
    is_game_finished, lemma_apply_move_preserves,
};

verus! {

/// Sentinel bound for alpha-beta windows: larger than any reachable score.
pub const INFINITY: i32 = 100000000;

/// One node of the search tree.
#[derive(Debug)]
pub struct MinMaxNode {
    pub depth: usize,
    pub current_player_id: usize,
    pub score: i32,
    pub command: String,
    pub game_state: GameState,
    pub child_nodes: Vec<MinMaxNode>,
}

/// A fresh, childless node.
pub fn create_minmax_node(
    depth: usize,
    current_player_id: usize,
    score: i32,
    command: String,
    game_state: GameState,
) -> (node: MinMaxNode)
    ensures
        node.depth == depth,
        node.current_player_id == current_player_id,
        node.score == score,
        node.command@ == command@,
        node.game_state == game_state,
        node.child_nodes@.len() == 0,
{
    MinMaxNode { current_player_id, depth, game_state, score, command, child_nodes: Vec::new() }
}

/// The digit character of a decimal digit.
pub open spec fn digit_char(d: int) -> char {
    if d == 0 {
        '0'
    } else if d == 1 {
        '1'
    } else if d == 2 {
        '2'
    } else if d == 3 {
        '3'
    } else if d == 4 {
        '4'
    } else if d == 5 {
        '5'
    } else if d == 6 {
        '6'
    } else if d == 7 {
        '7'
    } else if d == 8 {
        '8'
    } else {
        '9'
    }
}

/// The decimal expansion of a non-negative integer, most significant digit
/// first.
pub open spec fn dec_seq(n: int) -> Seq<char>
    decreases n,
{
    if n < 10 {
        seq![digit_char(n)]
    } else {
        dec_seq(n / 10).push(digit_char(n % 10))
    }
}

/// The single-character string of a decimal digit.
fn digit_str(d: i32) -> (s: &'static str)
    requires
        0 <= d < 10,
    ensures
        s@ =~= seq![digit_char(d as int)],
{
    proof {
        reveal_strlit("0");
        reveal_strlit("1");
        reveal_strlit("2");
        reveal_strlit("3");
        reveal_strlit("4");
        reveal_strlit("5");
        reveal_strlit("6");
        reveal_strlit("7");
        reveal_strlit("8");
        reveal_strlit("9");
    }
    match d {
        0 => "0",
        1 => "1",
        2 => "2",
        3 => "3",
        4 => "4",
        5 => "5",
        6 => "6",
        7 => "7",
        8 => "8",
        _ => "9",
    }
}

/// The decimal string of a non-negative integer.
pub fn decimal_string(n: i32) -> (s: String)
    requires
        n >= 0,
    ensures
        s@ == dec_seq(n as int),
    decreases n,
{
    if n < 10 {
        let s = String::from_str(digit_str(n));
        proof {
            assert(s@ =~= dec_seq(n as int));
        }
        s
    } else {
        let mut s = decimal_string(n / 10);
        s.append(digit_str(n % 10));
        proof {
            assert(s@ =~= dec_seq(n as int));
        }
        s
    }
}

/// The move command for a card id and a source and destination square:
/// the decimal card id, a space, and the two square labels.
pub open spec fn spec_command(card_id: int, from_square: int, to_square: int) -> Seq<char> {
    dec_seq(card_id) + seq![' '] + label_seq(from_square) + label_seq(to_square)
}

/// Formats a move command.
pub fn build_command(card_id: i32, from_square: usize, to_square: usize) -> (command: String)
    requires
        card_id >= 0,
        from_square < 25,
        to_square < 25,
    ensures
        command@ == spec_command(card_id as int, from_square as int, to_square as int),
{
    let mut command = decimal_string(card_id);
    command.append(" ");
    let from_label = square_label(from_square);
    command.append(from_label.as_str());
    let to_label = square_label(to_square);
    command.append(to_label.as_str());
    proof {
        reveal_strlit(" ");
        assert(" "@ =~= seq![' ']);
        assert(command@ =~= spec_command(card_id as int, from_square as int, to_square as int));
    }
    command
}

/// Applies a chosen move to a state, producing the successor state; the
/// input state is left untouched.
pub fn apply_player_move(
    game_state: &GameState,
    player_id: usize,
    piece_index: usize,
    card_index: usize,
    dest: u32,
) -> (next_state: GameState)
    requires
        player_id < 2,
        piece_index < 5,
        card_index < 2,
        game_state@.wf(),
        game_state@.bitmask_ok(),
    ensures
        next_state@ == spec_apply_move(
            game_state@,
            player_id as int,
            piece_index as int,
            card_index as int,
            dest,
        ),
{
    let (card_id, card_rotation) = get_player_card(game_state, player_id, card_index);
    let (middle_card_id, middle_card_rotation) = get_middle_card(game_state);
    proof {
        if player_id == 0 {
            assert(game_state@.players[0].wf());
        } else {
            assert(game_state@.players[1].wf());
        }
        assert(valid_card(game_state@.players[player_id as int].cards[card_index as int]));
        assert(card_rotation == 1 || card_rotation == -1);
    }
    let mut cloned_game_state = *game_state;
    set_player_piece_position(&mut cloned_game_state, player_id, piece_index, dest);
    set_player_card(&mut cloned_game_state, player_id, card_index, middle_card_id, middle_card_rotation);
    set_middle_card(&mut cloned_game_state, card_id, -1 * card_rotation);
    proof {
        let opp = spec_opponent(player_id as int);
        assert(cloned_game_state@.players[opp].pieces == game_state@.players[opp].pieces);
        assert(cloned_game_state@.players[opp].bitmask == game_state@.players[opp].bitmask);
    }
    apply_player_move_to_opponent_pieces(&mut cloned_game_state, player_id, dest);
    re_clculate_player_pieces_bitmap(&mut cloned_game_state);
    cloned_game_state
}

/// A child node records one legal move of its parent: one deeper, the other
/// player to move, the transitioned state, the formatted command, and a
/// still-unassigned score.
pub open spec fn child_matches(
    child: MinMaxNode,
    m: StateModel,
    p: int,
    depth: int,
    mc: MoveChoice,
) -> bool {
    &&& child.depth == depth + 1
    &&& child.current_player_id == spec_opponent(p)
    &&& child.score == 0
    &&& child.game_state@ == spec_apply_move(m, p, mc.piece_index as int, mc.card_index as int, mc.dest)
    &&& child.command@ == spec_command(
        m.players[p].cards[mc.card_index as int].id,
        square_index(m.players[p].pieces[mc.piece_index as int]),
        square_index(mc.dest),
    )
}

/// A child list realises a move list: one matching, fully built child per
/// move, in order.
pub open spec fn children_match(
    children: Seq<MinMaxNode>,
    m: StateModel,
    p: int,
    depth: int,
    pc: PreCalculated,
    ms: Seq<MoveChoice>,
    target: int,
) -> bool
    decreases children,
{
    &&& children.len() == ms.len()
    &&& forall|i: int|
        0 <= i < ms.len() ==> child_matches(#[trigger] children[i], m, p, depth, ms[i])
            && spec_built(children[i], pc, target)
}

/// A node is fully built for a target depth: a node at the target depth or
/// in a decided state has no children, and any other node has exactly one
/// built child per legal move of its player, in generation order.
pub open spec fn spec_built(n: MinMaxNode, pc: PreCalculated, target: int) -> bool
    decreases n,
{
    if n.depth >= target || spec_finished(n.game_state@) {
        n.child_nodes@.len() == 0
    } else {
        children_match(
            n.child_nodes@,
            n.game_state@,
            n.current_player_id as int,
            n.depth as int,
            pc,
            spec_all_moves(n.game_state@, pc, n.current_player_id as int),
            target,
        )
    }
}

/// Every game state in the tree is well-formed.
pub open spec fn tree_states_wf(n: MinMaxNode) -> bool
    decreases n,
{
    &&& n.game_state@.wf()
    &&& forall|i: int|
        0 <= i < n.child_nodes@.len() ==> tree_states_wf(#[trigger] n.child_nodes@[i])
}

/// Expands a childless node into the full search tree: for every legal move
/// of the node's player a child node with the transitioned state, recursing
/// until the target depth or a decided state.
pub fn build_min_max_tree(node: &mut MinMaxNode, pre_calculated: &PreCalculated, target_depth: usize)
    requires
        old(node).child_nodes@.len() == 0,
        old(node).current_player_id < 2,
        old(node).depth <= target_depth,
        old(node).game_state@.wf(),
        old(node).game_state@.bitmask_ok(),
        pre_calculated.wf(),
        state_cards_in_table(old(node).game_state@, *pre_calculated),
    ensures
        spec_built(*final(node), *pre_calculated, target_depth as int),
        tree_states_wf(*final(node)),
        final(node).depth == old(node).depth,
        final(node).current_player_id == old(node).current_player_id,
        final(node).score == old(node).score,
        final(node).command == old(node).command,
        final(node).game_state == old(node).game_state,
    decreases target_depth - old(node).depth,
{
    if node.depth == target_depth || is_game_finished(&node.game_state) {
        return ;
    }
    let ghost m = node.game_state@;
    let ghost p = node.current_player_id as int;
    let ghost pc = *pre_calculated;
    let ghost target = target_depth as int;
    let (middle_card_id, middle_card_rotation) = get_middle_card(&node.game_state);
    let mut piece_index: usize = 0;
    while piece_index < 5
        invariant
            piece_index <= 5,
            node.depth == old(node).depth,
            node.current_player_id == old(node).current_player_id,
            node.score == old(node).score,
            node.command == old(node).command,
            node.game_state == old(node).game_state,
            m == node.game_state@,
            p == node.current_player_id as int,
            pc == *pre_calculated,
            target == target_depth as int,
            0 <= p < 2,
            m.wf(),
            m.bitmask_ok(),
            pc.wf(),
            state_cards_in_table(m, pc),
            node.depth < target_depth,
            !spec_finished(m),
            middle_card_id == m.middle.id,
            middle_card_rotation == m.middle.rot,
            forall|j: int|
                0 <= j < node.child_nodes@.len() ==> tree_states_wf(#[trigger] node.child_nodes@[j]),
            children_match(
                node.child_nodes@,
                m,
                p,
                node.depth as int,
                pc,
                spec_moves_upto(m, pc, p, piece_index as int),
                target,
            ),
        decreases 5 - piece_index,
    {
        let piece_position_before_move = get_player_piece_position(
            &node.game_state,
            node.current_player_id,
            piece_index,
        );
        if piece_position_before_move != 0 {
            proof {
                assert(valid_piece(m.players[p].pieces[piece_index as int]));
                assert(spec_moves_upto(m, pc, p, piece_index as int) + spec_piece_moves_upto(
                    m,
                    pc,
                    p,
                    piece_index as int,
                    0,
                ) =~= spec_moves_upto(m, pc, p, piece_index as int));
            }
            let source_square = square_index_of(piece_position_before_move);
            proof {
                crate::moves::lemma_square_index_of_bit(source_square as int);
            }
            let mut card_index: usize = 0;
            while card_index < 2
                invariant
                    piece_index < 5,
                    card_index <= 2,
                    node.depth == old(node).depth,
                    node.current_player_id == old(node).current_player_id,
                    node.score == old(node).score,
                    node.command == old(node).command,
                    node.game_state == old(node).game_state,
                    m == node.game_state@,
                    p == node.current_player_id as int,
                    pc == *pre_calculated,
                    target == target_depth as int,
                    0 <= p < 2,
                    m.wf(),
                    m.bitmask_ok(),
                    pc.wf(),
                    state_cards_in_table(m, pc),
                    node.depth < target_depth,
                    !spec_finished(m),
                    middle_card_id == m.middle.id,
                    middle_card_rotation == m.middle.rot,
                    piece_position_before_move == m.players[p].pieces[piece_index as int],
                    piece_position_before_move != 0,
                    is_square(piece_position_before_move),
                    source_square < 25,
                    source_square as int == square_index(piece_position_before_move),
                    forall|j: int|
                        0 <= j < node.child_nodes@.len() ==> tree_states_wf(
                            #[trigger] node.child_nodes@[j],
                        ),
                    children_match(
                        node.child_nodes@,
                        m,
                        p,
                        node.depth as int,
                        pc,
                        spec_moves_upto(m, pc, p, piece_index as int) + spec_piece_moves_upto(
                            m,
                            pc,
                            p,
                            piece_index as int,
                            card_index as int,
                        ),
                        target,
                    ),
                decreases 2 - card_index,
            {
                let (card_id, card_rotation) = get_player_card(
                    &node.game_state,
                    node.current_player_id,
                    card_index,
                );
                proof {
                    assert(valid_card(m.players[p].cards[card_index as int]));
                }
                let piece_positions_after_move = get_possible_moves_from_position(
                    pre_calculated,
                    piece_position_before_move,
                    card_id,
                    card_rotation,
                );
                let ghost dseq = card_dest_seq(
                    square_index(m.players[p].pieces[piece_index as int]),
                    moves_of(pc.cards@, m.players[p].cards[card_index as int].id),
                    m.players[p].cards[card_index as int].rot,
                );
                let ghost own_mask = m.players[p].bitmask;
                proof {
                    lemma_card_dest_squares(
                        square_index(m.players[p].pieces[piece_index as int]),
                        moves_of(pc.cards@, m.players[p].cards[card_index as int].id),
                        m.players[p].cards[card_index as int].rot,
                    );
                    assert(filter_unblocked(dseq.take(0), own_mask) =~= Seq::<u32>::empty());
                }
                let mut di: usize = 0;
                while di < piece_positions_after_move.len()
                    invariant
                        di <= piece_positions_after_move@.len(),
                        piece_positions_after_move@ == dseq,
                        piece_index < 5,
                        card_index < 2,
                        node.depth == old(node).depth,
                        node.current_player_id == old(node).current_player_id,
                        node.score == old(node).score,
                        node.command == old(node).command,
                        node.game_state == old(node).game_state,
                        m == node.game_state@,
                        p == node.current_player_id as int,
                        pc == *pre_calculated,
                        target == target_depth as int,
                        0 <= p < 2,
                        m.wf(),
                        m.bitmask_ok(),
                        pc.wf(),
                        state_cards_in_table(m, pc),
                        node.depth < target_depth,
                        !spec_finished(m),
                        middle_card_id == m.middle.id,
                        middle_card_rotation == m.middle.rot,
                        piece_position_before_move == m.players[p].pieces[piece_index as int],
                        piece_position_before_move != 0,
                        source_square < 25,
                        source_square as int == square_index(piece_position_before_move),
                        card_id == m.players[p].cards[card_index as int].id,
                        card_rotation == m.players[p].cards[card_index as int].rot,
                        card_id >= 0,
                        own_mask == m.players[p].bitmask,
                        forall|i: int| 0 <= i < dseq.len() ==> is_square(#[trigger] dseq[i]),
                        forall|j: int|
                            0 <= j < node.child_nodes@.len() ==> tree_states_wf(
                                #[trigger] node.child_nodes@[j],
                            ),
                        children_match(
                            node.child_nodes@,
                            m,
                            p,
                            node.depth as int,
                            pc,
                            spec_moves_upto(m, pc, p, piece_index as int) + spec_piece_moves_upto(
                                m,
                                pc,
                                p,
                                piece_index as int,
                                card_index as int,
                            ) + filter_unblocked(dseq.take(di as int), own_mask).map_values(
                                |d: u32|
                                    (MoveChoice {
                                        piece_index: piece_index,
                                        card_index: card_index,
                                        dest: d,
                                    }),
                            ),
                            target,
                        ),
                    decreases piece_positions_after_move@.len() - di,
                {
                    let piece_position_after_move = piece_positions_after_move[di];
                    proof {
                        assert(dseq.take(di as int + 1).drop_last() =~= dseq.take(di as int));
                        assert(dseq.take(di as int + 1).last() == dseq[di as int]);
                    }
                    if !is_player_moving_on_own_piece(
                        &node.game_state,
                        node.current_player_id,
                        piece_position_after_move,
                    ) {
                        let ghost mc = MoveChoice {
                            piece_index: piece_index,
                            card_index: card_index,
                            dest: piece_position_after_move,
                        };
                        proof {
                            lemma_apply_move_preserves(
                                m,
                                p,
                                piece_index as int,
                                card_index as int,
                                piece_position_after_move,
                            );
                        }
                        let cloned_game_state = apply_player_move(
                            &node.game_state,
                            node.current_player_id,
                            piece_index,
                            card_index,
                            piece_position_after_move,
                        );
                        let dest_square = square_index_of(piece_position_after_move);
                        proof {
                            crate::moves::lemma_square_index_of_bit(dest_square as int);
                        }
                        let command = build_command(card_id, source_square, dest_square);
                        let mut child_node = create_minmax_node(
                            node.depth + 1,
                            get_opponent_id(node.current_player_id),
                            0,
                            command,
                            cloned_game_state,
                        );
                        proof {
                            assert(state_cards_in_table(child_node.game_state@, pc)) by {
                                assert(child_node.game_state@.players[p].cards[card_index as int]
                                    == m.middle);
                                assert forall|q: int, c: int|
                                    0 <= q < 2 && 0 <= c < 2 implies crate::moves::has_card(
                                    pc.cards@,
                                    (#[trigger] child_node.game_state@.players[q].cards[c]).id,
                                ) by {
                                    if q != p || c != card_index as int {
                                        assert(child_node.game_state@.players[q].cards[c]
                                            == m.players[q].cards[c]);
                                    }
                                }
                            }
                        }
                        build_min_max_tree(&mut child_node, pre_calculated, target_depth);
                        proof {
                            assert(child_matches(child_node, m, p, node.depth as int, mc));
                        }
                        node.child_nodes.push(child_node);
                        proof {
                            let prefix = spec_moves_upto(m, pc, p, piece_index as int)
                                + spec_piece_moves_upto(
                                m,
                                pc,
                                p,
                                piece_index as int,
                                card_index as int,
                            );
                            let filtered_old = filter_unblocked(dseq.take(di as int), own_mask);
                            let filtered_new = filter_unblocked(dseq.take(di as int + 1), own_mask);
                            let mapper = |d: u32|
                                (MoveChoice {
                                    piece_index: piece_index,
                                    card_index: card_index,
                                    dest: d,
                                });
                            assert(filtered_new =~= filtered_old.push(piece_position_after_move));
                            assert(prefix + filtered_new.map_values(mapper) =~= (prefix
                                + filtered_old.map_values(mapper)).push(mc));
                        }
                    } else {
                        proof {
                            assert(filter_unblocked(dseq.take(di as int + 1), own_mask)
                                =~= filter_unblocked(dseq.take(di as int), own_mask));
                        }
                    }
                    di = di + 1;
                }
                proof {
                    let mapper = |d: u32|
                        (MoveChoice {
                            piece_index: piece_index,
                            card_index: card_index,
                            dest: d,
                        });
                    assert(dseq.take(dseq.len() as int) =~= dseq);
                    assert(spec_card_moves(m, pc, p, piece_index as int, card_index as int)
                        =~= filter_unblocked(dseq, own_mask).map_values(mapper));
                    assert(spec_moves_upto(m, pc, p, piece_index as int) + spec_piece_moves_upto(
                        m,
                        pc,
                        p,
                        piece_index as int,
                        card_index as int,
                    ) + filter_unblocked(dseq, own_mask).map_values(mapper) =~= spec_moves_upto(
                        m,
                        pc,
                        p,
                        piece_index as int,
                    ) + spec_piece_moves_upto(m, pc, p, piece_index as int, card_index as int + 1));
                }
                card_index = card_index + 1;
            }
            proof {
                assert(spec_moves_upto(m, pc, p, piece_index as int) + spec_piece_moves_upto(
                    m,
                    pc,
                    p,
                    piece_index as int,
                    2,
                ) =~= spec_moves_upto(m, pc, p, piece_index as int + 1));
            }
        } else {
            proof {
                assert(spec_moves_upto(m, pc, p, piece_index as int + 1) =~= spec_moves_upto(
                    m,
                    pc,
                    p,
                    piece_index as int,
                ));
            }
        }
        piece_index = piece_index + 1;
    }
    proof {
        assert(spec_built(*node, pc, target));
    }
}

/// Minimax value of a node over the built tree: at depth zero or in a
/// decided state the evaluation from the root player's perspective, and
/// otherwise the best child value, maximizing or minimizing in turn.  A node
/// with no children keeps the worst value for its player.
pub open spec fn spec_minimax(n: MinMaxNode, depth: int, is_max: bool, root: int) -> int
    decreases depth, 1int, 0int,
{
    if depth <= 0 || spec_finished(n.game_state@) {
        spec_score_for(n.game_state@, root)
    } else {
        spec_best(n.child_nodes@, depth, is_max, root)
    }
}

/// The best minimax value among a list of children: the maximum of the
/// children's values when maximizing, the minimum when minimizing, starting
/// from the worst value for the chooser.
pub open spec fn spec_best(children: Seq<MinMaxNode>, depth: int, is_max: bool, root: int) -> int
    decreases depth, 0int, children.len(),
{
    if children.len() == 0 || depth <= 0 {
        if is_max {
            -INFINITY as int
        } else {
            INFINITY as int
        }
    } else {
        let rest = spec_best(children.drop_last(), depth, is_max, root);
        let v = spec_minimax(children.last(), depth - 1, !is_max, root);
        if is_max {
            max(rest, v)
        } else {
            min(rest, v)
        }
    }
}

/// Minimax values stay within the sentinel bounds.
pub proof fn lemma_minimax_bounds(n: MinMaxNode, depth: int, is_max: bool, root: int)
    requires
        tree_states_wf(n),
        0 <= root < 2,
    ensures
        -INFINITY <= spec_minimax(n, depth, is_max, root) <= INFINITY,
    decreases depth, 1int, 0int,
{
    if depth <= 0 || spec_finished(n.game_state@) {
        lemma_score_bounds(n.game_state@);
    } else {
        lemma_best_bounds(n.child_nodes@, depth, is_max, root);
    }
}

/// Best child values stay within the sentinel bounds.
pub proof fn lemma_best_bounds(children: Seq<MinMaxNode>, depth: int, is_max: bool, root: int)
    requires
        forall|i: int| 0 <= i < children.len() ==> tree_states_wf(#[trigger] children[i]),
        0 <= root < 2,
    ensures
        -INFINITY <= spec_best(children, depth, is_max, root) <= INFINITY,
    decreases depth, 0int, children.len(),
{
    if children.len() > 0 && depth > 0 {
        assert forall|i: int| 0 <= i < children.drop_last().len() implies tree_states_wf(
            #[trigger] children.drop_last()[i],
        ) by {
            assert(children.drop_last()[i] == children[i]);
        }
        lemma_best_bounds(children.drop_last(), depth, is_max, root);
        lemma_minimax_bounds(children.last(), depth - 1, !is_max, root);
    }
}

/// The best value over a child list is at least (when maximizing) or at
/// most (when minimizing) the value of any one child.
pub proof fn lemma_best_vs_child(
    children: Seq<MinMaxNode>,
    depth: int,
    is_max: bool,
    root: int,
    j: int,
)
    requires
        0 <= j < children.len(),
        depth >= 1,
    ensures
        is_max ==> spec_best(children, depth, true, root) >= spec_minimax(
            children[j],
            depth - 1,
            false,
            root,
        ),
        !is_max ==> spec_best(children, depth, false, root) <= spec_minimax(
            children[j],
            depth - 1,
            true,
            root,
        ),
    decreases children.len(),
{
    if j == children.len() - 1 {
        assert(children.last() == children[j]);
    } else {
        assert(children.drop_last()[j] == children[j]);
        lemma_best_vs_child(children.drop_last(), depth, is_max, root, j);
    }
}

/// Two nodes share a shape when they agree on everything but scores.
pub open spec fn same_shape(a: MinMaxNode, b: MinMaxNode) -> bool
    decreases a,
{
    &&& a.depth == b.depth
    &&& a.current_player_id == b.current_player_id
    &&& a.command == b.command
    &&& a.game_state == b.game_state
    &&& a.child_nodes@.len() == b.child_nodes@.len()
    &&& forall|i: int|
        0 <= i < a.child_nodes@.len() ==> same_shape(
            #[trigger] a.child_nodes@[i],
            b.child_nodes@[i],
        )
}

/// Shape equality is reflexive.
pub proof fn lemma_same_shape_refl(n: MinMaxNode)
    ensures
        same_shape(n, n),
    decreases n,
{
    assert forall|i: int| 0 <= i < n.child_nodes@.len() implies same_shape(
        #[trigger] n.child_nodes@[i],
        n.child_nodes@[i],
    ) by {
        lemma_same_shape_refl(n.child_nodes@[i]);
    }
}

/// Nodes of the same shape have the same minimax value: scores play no part
/// in it.
pub proof fn lemma_minimax_same_shape(a: MinMaxNode, b: MinMaxNode, depth: int, is_max: bool, root: int)
    requires
        same_shape(a, b),
    ensures
        spec_minimax(a, depth, is_max, root) == spec_minimax(b, depth, is_max, root),
    decreases depth, 1int, 0int,
{
    if depth <= 0 || spec_finished(a.game_state@) {
    } else {
        lemma_best_same_shape(a.child_nodes@, b.child_nodes@, depth, is_max, root);
    }
}

/// Child lists of the same shapes have the same best value.
pub proof fn lemma_best_same_shape(
    ca: Seq<MinMaxNode>,
    cb: Seq<MinMaxNode>,
    depth: int,
    is_max: bool,
    root: int,
)
    requires
        ca.len() == cb.len(),
        forall|i: int| 0 <= i < ca.len() ==> same_shape(#[trigger] ca[i], cb[i]),
    ensures
        spec_best(ca, depth, is_max, root) == spec_best(cb, depth, is_max, root),
    decreases depth, 0int, ca.len(),
{
    if ca.len() > 0 && depth > 0 {
        assert forall|i: int| 0 <= i < ca.drop_last().len() implies same_shape(
            #[trigger] ca.drop_last()[i],
            cb.drop_last()[i],
        ) by {
            assert(ca.drop_last()[i] == ca[i] && cb.drop_last()[i] == cb[i]);
        }
        lemma_best_same_shape(ca.drop_last(), cb.drop_last(), depth, is_max, root);
        assert(ca.last() == ca[ca.len() - 1] && cb.last() == cb[ca.len() - 1]);
        lemma_minimax_same_shape(ca.last(), cb.last(), depth - 1, !is_max, root);
    }
}

/// Scores a built tree by fail-soft alpha-beta search, writing each visited
/// node's value into its score field.  The result brackets the exhaustive
/// minimax value of the same tree: a result inside the window equals it, a
/// result at or below alpha is an upper bound on it, a result at or above
/// beta a lower bound; with the full window the result is exactly the
/// minimax value.
pub fn score_min_max_tree(
    node: &mut MinMaxNode,
    depth: usize,
    alpha: i32,
    beta: i32,
    is_maximizing_player: bool,
    root_player_id: usize,
) -> (score: i32)
    requires
        root_player_id < 2,
        -INFINITY <= alpha < beta <= INFINITY,
        tree_states_wf(*old(node)),
    ensures
        same_shape(*old(node), *final(node)),
        tree_states_wf(*final(node)),
        final(node).score == score,
        -INFINITY <= score <= INFINITY,
        score <= alpha ==> spec_minimax(
            *old(node),
            depth as int,
            is_maximizing_player,
            root_player_id as int,
        ) <= score,
        alpha < score < beta ==> score == spec_minimax(
            *old(node),
            depth as int,
            is_maximizing_player,
            root_player_id as int,
        ),
        score >= beta ==> spec_minimax(
            *old(node),
            depth as int,
            is_maximizing_player,
            root_player_id as int,
        ) >= score,
        alpha == -INFINITY && beta == INFINITY ==> score == spec_minimax(
            *old(node),
            depth as int,
            is_maximizing_player,
            root_player_id as int,
        ),
    decreases depth,
{
    proof {
        lemma_minimax_bounds(
            *old(node),
            depth as int,
            is_maximizing_player,
            root_player_id as int,
        );
    }
    if depth == 0 || is_game_finished(&node.game_state) {
        let score = get_game_score_for_maximizing_player(&node.game_state, root_player_id);
        node.score = score;
        proof {
            lemma_same_shape_refl(*node);
        }
        return score;
    }
    let ghost minimax_value = spec_minimax(
        *old(node),
        depth as int,
        is_maximizing_player,
        root_player_id as int,
    );
    let ghost old_children = old(node).child_nodes@;
    let n_children = node.child_nodes.len();
    if is_maximizing_player {
        let mut max_eval: i32 = -1 * INFINITY;
        let mut max_alpha: i32 = alpha;
        let mut i: usize = 0;
        while i < n_children && max_alpha < beta
            invariant
                i <= n_children,
                n_children == old_children.len(),
                old_children == old(node).child_nodes@,
                depth >= 1,
                root_player_id < 2,
                -INFINITY <= alpha < beta <= INFINITY,
                node.depth == old(node).depth,
                node.current_player_id == old(node).current_player_id,
                node.command == old(node).command,
                node.game_state == old(node).game_state,
                node.score == old(node).score,
                node.child_nodes@.len() == n_children,
                forall|j: int| i <= j < n_children ==> node.child_nodes@[j] == old_children[j],
                forall|j: int|
                    0 <= j < i ==> same_shape(old_children[j], #[trigger] node.child_nodes@[j]),
                forall|j: int|
                    0 <= j < n_children ==> tree_states_wf(#[trigger] node.child_nodes@[j]),
                tree_states_wf(*old(node)),
                max_alpha == max(alpha as int, max_eval as int),
                -INFINITY <= max_eval <= INFINITY,
                max_alpha < beta ==> spec_best(
                    old_children.take(i as int),
                    depth as int,
                    true,
                    root_player_id as int,
                ) <= max_eval,
                max_eval <= max(
                    spec_best(old_children.take(i as int), depth as int, true, root_player_id as int),
                    alpha as int,
                ),
                max_eval >= beta ==> exists|j: int|
                    0 <= j < i && spec_minimax(
                        old_children[j],
                        depth as int - 1,
                        false,
                        root_player_id as int,
                    ) >= max_eval,
            decreases n_children - i,
        {
            let ghost child_before = node.child_nodes@[i as int];
            proof {
                assert(child_before == old_children[i as int]);
                assert(tree_states_wf(child_before));
            }
            let node_eval = score_min_max_tree(
                &mut node.child_nodes[i],
                depth - 1,
                max_alpha,
                beta,
                false,
                root_player_id,
            );
            proof {
                assert(old_children.take(i as int + 1).drop_last() =~= old_children.take(i as int));
                assert(old_children.take(i as int + 1).last() == old_children[i as int]);
                lemma_minimax_bounds(child_before, depth as int - 1, false, root_player_id as int);
            }
            if node_eval > max_eval {
                max_eval = node_eval;
            }
            if node_eval > max_alpha {
                max_alpha = node_eval;
            }
            i = i + 1;
        }
        node.score = max_eval;
        proof {
            assert(!spec_finished(old(node).game_state@));
            assert(minimax_value == spec_best(
                old_children,
                depth as int,
                true,
                root_player_id as int,
            ));
            if max_alpha >= beta {
                assert(max_eval >= beta);
                let j = choose|j: int|
                    0 <= j < i && spec_minimax(
                        old_children[j],
                        depth as int - 1,
                        false,
                        root_player_id as int,
                    ) >= max_eval;
                lemma_best_vs_child(old_children, depth as int, true, root_player_id as int, j);
            } else {
                assert(i == n_children);
                assert(old_children.take(n_children as int) =~= old_children);
            }
            assert forall|j: int| 0 <= j < n_children implies same_shape(
                old_children[j],
                #[trigger] node.child_nodes@[j],
            ) by {
                if i <= j {
                    lemma_same_shape_refl(node.child_nodes@[j]);
                }
            }
            assert(same_shape(*old(node), *node));
        }
        max_eval
    } else {
        let mut min_eval: i32 = INFINITY;
        let mut min_beta: i32 = beta;
        let mut i: usize = 0;
        while i < n_children && alpha < min_beta
            invariant
                i <= n_children,
                n_children == old_children.len(),
                old_children == old(node).child_nodes@,
                depth >= 1,
                root_player_id < 2,
                -INFINITY <= alpha < beta <= INFINITY,
                node.depth == old(node).depth,
                node.current_player_id == old(node).current_player_id,
                node.command == old(node).command,
                node.game_state == old(node).game_state,
                node.score == old(node).score,
                node.child_nodes@.len() == n_children,
                forall|j: int| i <= j < n_children ==> node.child_nodes@[j] == old_children[j],
                forall|j: int|
                    0 <= j < i ==> same_shape(old_children[j], #[trigger] node.child_nodes@[j]),
                forall|j: int|
                    0 <= j < n_children ==> tree_states_wf(#[trigger] node.child_nodes@[j]),
                tree_states_wf(*old(node)),
                min_beta == min(beta as int, min_eval as int),
                -INFINITY <= min_eval <= INFINITY,
                alpha < min_beta ==> spec_best(
                    old_children.take(i as int),
                    depth as int,
                    false,
                    root_player_id as int,
                ) >= min_eval,
                min_eval >= min(
                    spec_best(old_children.take(i as int), depth as int, false, root_player_id as int),
                    beta as int,
                ),
                min_eval <= alpha ==> exists|j: int|
                    0 <= j < i && spec_minimax(
                        old_children[j],
                        depth as int - 1,
                        true,
                        root_player_id as int,
                    ) <= min_eval,
            decreases n_children - i,
        {
            let ghost child_before = node.child_nodes@[i as int];
            proof {
                assert(child_before == old_children[i as int]);
                assert(tree_states_wf(child_before));
            }
            let node_eval = score_min_max_tree(
                &mut node.child_nodes[i],
                depth - 1,
                alpha,
                min_beta,
                true,
                root_player_id,
            );
            proof {
                assert(old_children.take(i as int + 1).drop_last() =~= old_children.take(i as int));
                assert(old_children.take(i as int + 1).last() == old_children[i as int]);
                lemma_minimax_bounds(child_before, depth as int - 1, true, root_player_id as int);
            }
            if node_eval < min_eval {
                min_eval = node_eval;
            }
            if node_eval < min_beta {
                min_beta = node_eval;
            }
            i = i + 1;
        }
        node.score = min_eval;
        proof {
            assert(!spec_finished(old(node).game_state@));
            assert(minimax_value == spec_best(
                old_children,
                depth as int,
                false,
                root_player_id as int,
            ));
            if min_beta <= alpha {
                assert(min_eval <= alpha);
                let j = choose|j: int|
                    0 <= j < i && spec_minimax(
                        old_children[j],
                        depth as int - 1,
                        true,
                        root_player_id as int,
                    ) <= min_eval;
                lemma_best_vs_child(old_children, depth as int, false, root_player_id as int, j);
            } else {
                assert(i == n_children);
                assert(old_children.take(n_children as int) =~= old_children);
            }
            assert forall|j: int| 0 <= j < n_children implies same_shape(
                old_children[j],
                #[trigger] node.child_nodes@[j],
            ) by {
                if i <= j {
                    lemma_same_shape_refl(node.child_nodes@[j]);
                }
            }
            assert(same_shape(*old(node), *node));
        }
        min_eval
    }
}

/// The command and score of the best-scored top-level child: the first
/// child whose score strictly beats the sentinel and every earlier child,
/// or an empty command with the sentinel score when no child does.
pub fn get_next_command(node: &MinMaxNode) -> (best: (String, i32))
    ensures
        (forall|j: int|
            0 <= j < node.child_nodes@.len() ==> (#[trigger] node.child_nodes@[j]).score
                <= -INFINITY) ==> best.1 == -INFINITY && best.0@ == Seq::<char>::empty(),
        (exists|j: int|
            0 <= j < node.child_nodes@.len() && (#[trigger] node.child_nodes@[j]).score
                > -INFINITY) ==> exists|i: int|
            0 <= i < node.child_nodes@.len() && best.0@ == (#[trigger] node.child_nodes@[i]).command@
                && best.1 == node.child_nodes@[i].score && (forall|j: int|
                0 <= j < i ==> (#[trigger] node.child_nodes@[j]).score < best.1) && (forall|j: int|
                0 <= j < node.child_nodes@.len() ==> (#[trigger] node.child_nodes@[j]).score
                    <= best.1),
{
    let mut max_score: i32 = -1 * INFINITY;
    let mut next_command = String::new();
    let ghost mut best_index: int = -1;
    let mut i: usize = 0;
    while i < node.child_nodes.len()
        invariant
            i <= node.child_nodes@.len(),
            max_score >= -INFINITY,
            best_index >= -1,
            best_index == -1 ==> max_score == -INFINITY && next_command@ == Seq::<char>::empty()
                && (forall|j: int|
                0 <= j < i ==> (#[trigger] node.child_nodes@[j]).score <= -INFINITY),
            best_index >= 0 ==> 0 <= best_index < i && next_command@
                == node.child_nodes@[best_index].command@ && max_score
                == node.child_nodes@[best_index].score && max_score > -INFINITY && (forall|j: int|
                0 <= j < best_index ==> (#[trigger] node.child_nodes@[j]).score < max_score) && (
            forall|j: int| 0 <= j < i ==> (#[trigger] node.child_nodes@[j]).score <= max_score),
        decreases node.child_nodes@.len() - i,
    {
        let child_score = node.child_nodes[i].score;
        if child_score > max_score {
            max_score = child_score;
            next_command = node.child_nodes[i].command.clone();
            proof {
                best_index = i as int;
            }
        }
        i = i + 1;
    }
    (next_command, max_score)
}

/// Picks the search depth from the estimated total number of legal moves.
pub open spec fn spec_target_depth(total_moves: int) -> int {
    if total_moves >= 39 {
        3
    } else if total_moves >= 19 {
        4
    } else if total_moves >= 11 {
        5
    } else {
        6
    }
}

/// The depth controller: fewer available moves buy a deeper search.
pub fn select_target_depth(num_of_possible_moves_in_total: usize) -> (target_depth: usize)
    ensures
        target_depth == spec_target_depth(num_of_possible_moves_in_total as int),
        3 <= target_depth <= 6,
{
    let mut target_depth: usize = 0;
    if num_of_possible_moves_in_total >= 39 {
        target_depth = 3;
    }
    if num_of_possible_moves_in_total >= 19 && num_of_possible_moves_in_total < 39 {
        target_depth = 4;
    }
    if num_of_possible_moves_in_total >= 11 && num_of_possible_moves_in_total < 19 {
        target_depth = 5;
    }
    if num_of_possible_moves_in_total < 11 {
        target_depth = 6;
    }
    target_depth
}


} // verus!
