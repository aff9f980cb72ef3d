//! The per-turn move table and the legal-move enumeration.
//!
//! For every square, card and orientation the table stores the destination
//! squares reachable by the card's move vectors, clamped by the square's
//! edge mask.  The legal moves of a player are those destinations, for each
//! live piece and each held card, that do not land on the player's own
//! pieces.  The table's laws are proved here: destinations never leave the
//! board (edge containment) and the mirrored orientation equals the forward
//! orientation on the point-reflected board (move-table symmetry).

use vstd::prelude::*;
use crate::bits::lemma_one_bit_bounds;
use crate::bits::lemma_one_bit_injective;
use crate::board::{
    in_board_box, is_square, square_bit, square_index, is_edge_mask, shifted,
    shift_position, valid_moves_mask, square_index_of, lemma_masked_shift, lemma_box_reflect,
};
use crate::state::StateModel;

verus! {

/// Forward orientation of a card.
pub const DEFAULT_CARD_ROTATION: i32 = 1;

/// A card definition for one turn: its id and its four move vectors, each
/// stored as a net bit shift (columns plus five times rows).
#[derive(Clone, Copy, Debug)]
pub struct Card {
    pub id: i32,
    pub moves: [i32; 4],
}

/// A card is usable when its id is non-negative and each vector shifts by
/// at most two columns and two rows in either direction.
pub open spec fn card_ok(c: Card) -> bool {
    &&& c.id >= 0
    &&& c.moves@.len() == 4
    &&& forall|i: int| 0 <= i < 4 ==> -12 <= #[trigger] c.moves@[i] <= 12
}

/// A card list is usable when every card is and no id repeats.
pub open spec fn cards_ok(cards: Seq<Card>) -> bool {
    &&& forall|i: int| 0 <= i < cards.len() ==> card_ok(#[trigger] cards[i])
    &&& forall|i: int, j: int|
        0 <= i < j < cards.len() ==> (#[trigger] cards[i]).id != (#[trigger] cards[j]).id
}

/// The list has a card with this id.
pub open spec fn has_card(cards: Seq<Card>, id: int) -> bool {
    exists|i: int| 0 <= i < cards.len() && (#[trigger] cards[i]).id == id
}

/// Index of the first card with this id, or the length when there is none.
pub open spec fn find_card_from(cards: Seq<Card>, id: int, i: nat) -> int
    decreases cards.len() - i,
{
    if i >= cards.len() {
        cards.len() as int
    } else if cards[i as int].id == id {
        i as int
    } else {
        find_card_from(cards, id, i + 1)
    }
}

/// The move vectors of the card with this id.
pub open spec fn moves_of(cards: Seq<Card>, id: int) -> Seq<i32> {
    cards[find_card_from(cards, id, 0)].moves@
}

/// The destinations reached from square `k` by applying the vectors in
/// order with orientation `rot`: a zero vector is skipped, a vector that
/// slides off the board is discarded, every other vector contributes the
/// square it lands on.
pub open spec fn card_dest_seq(k: int, moves: Seq<i32>, rot: int) -> Seq<u32>
    decreases moves.len(),
{
    if moves.len() == 0 {
        Seq::empty()
    } else {
        let rest = card_dest_seq(k, moves.drop_last(), rot);
        let m = rot * moves.last();
        if moves.last() == 0 {
            rest
        } else if in_board_box(k, k + m) {
            rest.push(square_bit(k + m))
        } else {
            rest
        }
    }
}

/// Destination lists are at most as long as the vector lists behind them.
pub proof fn lemma_card_dest_len(k: int, moves: Seq<i32>, rot: int)
    ensures
        card_dest_seq(k, moves, rot).len() <= moves.len(),
    decreases moves.len(),
{
    if moves.len() > 0 {
        lemma_card_dest_len(k, moves.drop_last(), rot);
    }
}

/// Edge containment: every destination in a card's list is a single board
/// square inside the origin's box, and its bit is set in the origin's
/// edge-clamp mask.
pub proof fn lemma_edge_containment(k: int, moves: Seq<i32>, rot: int, mask: u32)
    requires
        0 <= k < 25,
        is_edge_mask(k, mask),
    ensures
        forall|i: int|
            0 <= i < card_dest_seq(k, moves, rot).len() ==> {
                let d = #[trigger] card_dest_seq(k, moves, rot)[i];
                &&& is_square(d)
                &&& in_board_box(k, square_index(d))
                &&& crate::bits::nth_bit(mask, square_index(d) as u32)
            },
    decreases moves.len(),
{
    if moves.len() > 0 {
        lemma_edge_containment(k, moves.drop_last(), rot, mask);
        let s = card_dest_seq(k, moves, rot);
        let rest = card_dest_seq(k, moves.drop_last(), rot);
        let m = rot * moves.last();
        if moves.last() != 0 && in_board_box(k, k + m) {
            lemma_square_index_of_bit(k + m);
            assert(is_square(square_bit(k + m)));
            assert forall|i: int| 0 <= i < s.len() implies {
                let d = #[trigger] s[i];
                &&& is_square(d)
                &&& in_board_box(k, square_index(d))
                &&& crate::bits::nth_bit(mask, square_index(d) as u32)
            } by {
                if i < rest.len() {
                    assert(s[i] == rest[i]);
                }
            }
        }
    }
}

/// Every destination in a card's list encodes a single board square.
pub proof fn lemma_card_dest_squares(k: int, moves: Seq<i32>, rot: int)
    ensures
        forall|i: int|
            0 <= i < card_dest_seq(k, moves, rot).len() ==> is_square(
                #[trigger] card_dest_seq(k, moves, rot)[i],
            ),
    decreases moves.len(),
{
    if moves.len() > 0 {
        lemma_card_dest_squares(k, moves.drop_last(), rot);
        let s = card_dest_seq(k, moves, rot);
        let rest = card_dest_seq(k, moves.drop_last(), rot);
        let m = rot * moves.last();
        assert forall|i: int| 0 <= i < s.len() implies is_square(#[trigger] s[i]) by {
            if i < rest.len() {
                assert(s[i] == rest[i]);
            } else {
                assert(in_board_box(k, k + m));
                assert(s[i] == square_bit(k + m));
                lemma_square_index_of_bit(k + m);
            }
        }
    }
}

/// A single-bit board word decodes back to the square it was built from.
pub proof fn lemma_square_index_of_bit(j: int)
    requires
        0 <= j < 25,
    ensures
        square_index(square_bit(j)) == j,
        is_square(square_bit(j)),
{
    assert(is_square(square_bit(j)));
    let k = square_index(square_bit(j));
    lemma_one_bit_injective(k as u32, j as u32);
}

/// The point reflection of a single-square word through the board centre.
pub open spec fn reflect_square(p: u32) -> u32 {
    square_bit(24 - square_index(p))
}

/// Move-table symmetry: the mirrored-orientation destinations from a square
/// are exactly the point reflections of the forward-orientation
/// destinations from the reflected square, in the same order.
pub proof fn lemma_move_table_symmetry(k: int, moves: Seq<i32>)
    requires
        0 <= k < 25,
        forall|i: int| 0 <= i < moves.len() ==> -12 <= #[trigger] moves[i] <= 12,
    ensures
        card_dest_seq(k, moves, -1) == card_dest_seq(24 - k, moves, 1).map_values(
            |p: u32| reflect_square(p),
        ),
    decreases moves.len(),
{
    let lhs = card_dest_seq(k, moves, -1);
    let rhs_base = card_dest_seq(24 - k, moves, 1);
    let rhs = rhs_base.map_values(|p: u32| reflect_square(p));
    if moves.len() == 0 {
        assert(lhs =~= rhs);
    } else {
        lemma_move_table_symmetry(k, moves.drop_last());
        let m = moves.last() as int;
        lemma_box_reflect(k, k - m);
        if m != 0 && in_board_box(k, k - m) {
            lemma_square_index_of_bit((24 - k) + m);
            assert(24 - (24 - k + m) == k - m);
            assert(lhs =~= rhs);
        } else {
            assert(lhs =~= rhs);
        }
    }
}

/// The per-turn move table: the cards in play and, for each of the 25
/// squares and each card, the destination lists for both orientations.
#[derive(Debug)]
pub struct PreCalculated {
    pub cards: Vec<Card>,
    pub positions_after_card_move_map: Vec<Vec<Vec<u32>>>,
    pub positions_after_rotated_card_move_map: Vec<Vec<Vec<u32>>>,
}

impl PreCalculated {
    /// The table covers all 25 squares and every card, and each entry is
    /// the specified destination list for its square, card and orientation.
    pub open spec fn wf(self) -> bool {
        &&& cards_ok(self.cards@)
        &&& self.positions_after_card_move_map@.len() == 25
        &&& self.positions_after_rotated_card_move_map@.len() == 25
        &&& forall|k: int|
            0 <= k < 25 ==> (#[trigger] self.positions_after_card_move_map@[k])@.len()
                == self.cards@.len()
        &&& forall|k: int|
            0 <= k < 25 ==> (#[trigger] self.positions_after_rotated_card_move_map@[k])@.len()
                == self.cards@.len()
        &&& forall|k: int, c: int|
            0 <= k < 25 && 0 <= c < self.cards@.len()
                ==> (#[trigger] self.positions_after_card_move_map@[k]@[c])@ == card_dest_seq(
                k,
                self.cards@[c].moves@,
                1,
            )
        &&& forall|k: int, c: int|
            0 <= k < 25 && 0 <= c < self.cards@.len()
                ==> (#[trigger] self.positions_after_rotated_card_move_map@[k]@[c])@
                == card_dest_seq(k, self.cards@[c].moves@, -1)
    }

    /// The destination list for a square, a card id and an orientation.
    pub open spec fn spec_dests(self, k: int, id: int, rot: int) -> Seq<u32> {
        card_dest_seq(k, moves_of(self.cards@, id), rot)
    }
}

/// Builds the move table for one turn from the card definitions.
pub fn build_pre_calculated(cards: Vec<Card>) -> (pre_calculated: PreCalculated)
    requires
        cards_ok(cards@),
    ensures
        pre_calculated.wf(),
        pre_calculated.cards@ == cards@,
{
    let mut plus: Vec<Vec<Vec<u32>>> = Vec::new();
    let mut minus: Vec<Vec<Vec<u32>>> = Vec::new();
    let mut k: usize = 0;
    while k < 25
        invariant
            k <= 25,
            cards_ok(cards@),
            plus@.len() == k,
            minus@.len() == k,
            forall|kk: int| 0 <= kk < k ==> (#[trigger] plus@[kk])@.len() == cards@.len(),
            forall|kk: int| 0 <= kk < k ==> (#[trigger] minus@[kk])@.len() == cards@.len(),
            forall|kk: int, c: int|
                0 <= kk < k && 0 <= c < cards@.len() ==> (#[trigger] plus@[kk]@[c])@
                    == card_dest_seq(kk, cards@[c].moves@, 1),
            forall|kk: int, c: int|
                0 <= kk < k && 0 <= c < cards@.len() ==> (#[trigger] minus@[kk]@[c])@
                    == card_dest_seq(kk, cards@[c].moves@, -1),
        decreases 25 - k,
    {
        let mask = valid_moves_mask(k);
        let position: u32 = 1u32 << (k as u32);
        proof {
            assert(position == square_bit(k as int));
        }
        let mut per_card_plus: Vec<Vec<u32>> = Vec::new();
        let mut per_card_minus: Vec<Vec<u32>> = Vec::new();
        let mut c: usize = 0;
        while c < cards.len()
            invariant
                k < 25,
                c <= cards@.len(),
                cards_ok(cards@),
                position == square_bit(k as int),
                is_edge_mask(k as int, mask),
                per_card_plus@.len() == c,
                per_card_minus@.len() == c,
                forall|cc: int|
                    0 <= cc < c ==> (#[trigger] per_card_plus@[cc])@ == card_dest_seq(
                        k as int,
                        cards@[cc].moves@,
                        1,
                    ),
                forall|cc: int|
                    0 <= cc < c ==> (#[trigger] per_card_minus@[cc])@ == card_dest_seq(
                        k as int,
                        cards@[cc].moves@,
                        -1,
                    ),
            decreases cards@.len() - c,
        {
            let card = cards[c];
            let mut dests_plus: Vec<u32> = Vec::new();
            let mut dests_minus: Vec<u32> = Vec::new();
            let mut mi: usize = 0;
            while mi < 4
                invariant
                    k < 25,
                    mi <= 4,
                    card_ok(card),
                    position == square_bit(k as int),
                    is_edge_mask(k as int, mask),
                    dests_plus@ == card_dest_seq(k as int, card.moves@.take(mi as int), 1),
                    dests_minus@ == card_dest_seq(k as int, card.moves@.take(mi as int), -1),
                decreases 4 - mi,
            {
                let card_move = card.moves[mi];
                proof {
                    assert(card.moves@.take(mi as int + 1).drop_last() =~= card.moves@.take(
                        mi as int,
                    ));
                    assert(card.moves@.take(mi as int + 1).last() == card.moves@[mi as int]);
                    if card_move != 0 {
                        lemma_masked_shift(k as int, card_move as int, mask);
                        lemma_masked_shift(k as int, -(card_move as int), mask);
                        if in_board_box(k as int, k as int + card_move as int) {
                            lemma_one_bit_bounds((k as int + card_move as int) as u32);
                        }
                        if in_board_box(k as int, k as int - card_move as int) {
                            lemma_one_bit_bounds((k as int - card_move as int) as u32);
                        }
                    }
                }
                if card_move != 0 {
                    let dest_plus = shift_position(position, card_move) & mask;
                    if dest_plus != 0 {
                        dests_plus.push(dest_plus);
                    }
                    let dest_minus = shift_position(position, -card_move) & mask;
                    if dest_minus != 0 {
                        dests_minus.push(dest_minus);
                    }
                }
                mi = mi + 1;
            }
            proof {
                assert(card.moves@.take(4) =~= card.moves@);
            }
            per_card_plus.push(dests_plus);
            per_card_minus.push(dests_minus);
            c = c + 1;
        }
        plus.push(per_card_plus);
        minus.push(per_card_minus);
        k = k + 1;
    }
    PreCalculated {
        cards,
        positions_after_card_move_map: plus,
        positions_after_rotated_card_move_map: minus,
    }
}

/// Index of the card with a given id in the table's card list.
pub fn find_card_index(cards: &Vec<Card>, card_id: i32) -> (index: usize)
    requires
        has_card(cards@, card_id as int),
    ensures
        index < cards@.len(),
        index == find_card_from(cards@, card_id as int, 0),
        cards@[index as int].id == card_id,
{
    let mut index: usize = 0;
    while index < cards.len()
        invariant
            index <= cards@.len(),
            has_card(cards@, card_id as int),
            find_card_from(cards@, card_id as int, 0) == find_card_from(
                cards@,
                card_id as int,
                index as nat,
            ),
            forall|i: int| 0 <= i < index ==> (#[trigger] cards@[i]).id != card_id,
        decreases cards@.len() - index,
    {
        if cards[index].id == card_id {
            return index;
        }
        index = index + 1;
    }
    proof {
        let w = choose|i: int| 0 <= i < cards@.len() && (#[trigger] cards@[i]).id == card_id as int;
        assert(false);
    }
    0
}

/// The precomputed destination list for a piece position, a card id and an
/// orientation.
pub fn get_possible_moves_from_position<'a>(
    pre_calculated: &'a PreCalculated,
    piece_position_before_move: u32,
    card_id: i32,
    card_rotation: i32,
) -> (destinations: &'a Vec<u32>)
    requires
        pre_calculated.wf(),
        is_square(piece_position_before_move),
        card_rotation == 1 || card_rotation == -1,
        has_card(pre_calculated.cards@, card_id as int),
    ensures
        destinations@ == pre_calculated.spec_dests(
            square_index(piece_position_before_move),
            card_id as int,
            card_rotation as int,
        ),
{
    let square = square_index_of(piece_position_before_move);
    let card_index = find_card_index(&pre_calculated.cards, card_id);
    proof {
        lemma_square_index_of_bit(square as int);
    }
    if card_rotation == DEFAULT_CARD_ROTATION {
        let row = &pre_calculated.positions_after_card_move_map[square];
        &row[card_index]
    } else {
        let row = &pre_calculated.positions_after_rotated_card_move_map[square];
        &row[card_index]
    }
}

/// The destinations kept after removing those on the mover's own pieces.
pub open spec fn filter_unblocked(dests: Seq<u32>, own_mask: u32) -> Seq<u32>
    decreases dests.len(),
{
    if dests.len() == 0 {
        Seq::empty()
    } else {
        let rest = filter_unblocked(dests.drop_last(), own_mask);
        if dests.last() & own_mask == 0 {
            rest.push(dests.last())
        } else {
            rest
        }
    }
}

/// Filtering never lengthens a list.
pub proof fn lemma_filter_unblocked_len(dests: Seq<u32>, own_mask: u32)
    ensures
        filter_unblocked(dests, own_mask).len() <= dests.len(),
    decreases dests.len(),
{
    if dests.len() > 0 {
        lemma_filter_unblocked_len(dests.drop_last(), own_mask);
    }
}

/// One legal move: a piece slot, a held-card slot and a destination square.
#[derive(Clone, Copy, PartialEq, Eq, Structural, Debug)]
pub struct MoveChoice {
    pub piece_index: usize,
    pub card_index: usize,
    pub dest: u32,
}

/// The legal destinations of one piece with one held card, as move choices.
pub open spec fn spec_card_moves(
    m: StateModel,
    pc: PreCalculated,
    player: int,
    piece: int,
    card: int,
) -> Seq<MoveChoice> {
    let pos = m.players[player].pieces[piece];
    let held = m.players[player].cards[card];
    filter_unblocked(
        card_dest_seq(square_index(pos), moves_of(pc.cards@, held.id), held.rot),
        m.players[player].bitmask,
    ).map_values(
        |d: u32|
            (MoveChoice {
                piece_index: piece as usize,
                card_index: card as usize,
                dest: d,
            }),
    )
}

/// The legal moves of one piece using the first `cards_upto` held cards.
pub open spec fn spec_piece_moves_upto(
    m: StateModel,
    pc: PreCalculated,
    player: int,
    piece: int,
    cards_upto: int,
) -> Seq<MoveChoice>
    decreases cards_upto,
{
    if cards_upto <= 0 {
        Seq::empty()
    } else {
        spec_piece_moves_upto(m, pc, player, piece, cards_upto - 1) + spec_card_moves(
            m,
            pc,
            player,
            piece,
            cards_upto - 1,
        )
    }
}

/// The legal moves of the first `pieces_upto` piece slots.
pub open spec fn spec_moves_upto(
    m: StateModel,
    pc: PreCalculated,
    player: int,
    pieces_upto: int,
) -> Seq<MoveChoice>
    decreases pieces_upto,
{
    if pieces_upto <= 0 {
        Seq::empty()
    } else {
        spec_moves_upto(m, pc, player, pieces_upto - 1) + (if m.players[player].pieces[pieces_upto
            - 1] == 0 {
            Seq::empty()
        } else {
            spec_piece_moves_upto(m, pc, player, pieces_upto - 1, 2)
        })
    }
}

/// Every legal move of a player, in generation order: pieces in slot order,
/// cards in slot order, destinations in table order.
pub open spec fn spec_all_moves(m: StateModel, pc: PreCalculated, player: int) -> Seq<MoveChoice> {
    spec_moves_upto(m, pc, player, 5)
}

/// Every card held by either player, and the middle card, appears in the
/// table's card list.
pub open spec fn state_cards_in_table(m: StateModel, pc: PreCalculated) -> bool {
    &&& forall|p: int, c: int|
        0 <= p < 2 && 0 <= c < 2 ==> has_card(pc.cards@, (#[trigger] m.players[p].cards[c]).id)
    &&& has_card(pc.cards@, m.middle.id)
}

/// A move list never exceeds eight entries per contributing piece.
pub proof fn lemma_moves_upto_len(m: StateModel, pc: PreCalculated, player: int, pieces_upto: int)
    requires
        0 <= pieces_upto <= 5,
    ensures
        spec_moves_upto(m, pc, player, pieces_upto).len() <= pieces_upto * 8,
    decreases pieces_upto,
{
    if pieces_upto > 0 {
        lemma_moves_upto_len(m, pc, player, pieces_upto - 1);
        lemma_piece_moves_upto_len(m, pc, player, pieces_upto - 1, 2);
    }
}

/// A single piece contributes at most four moves per held card.
pub proof fn lemma_piece_moves_upto_len(
    m: StateModel,
    pc: PreCalculated,
    player: int,
    piece: int,
    cards_upto: int,
)
    requires
        0 <= cards_upto <= 2,
    ensures
        spec_piece_moves_upto(m, pc, player, piece, cards_upto).len() <= cards_upto * 4,
    decreases cards_upto,
{
    if cards_upto > 0 {
        lemma_piece_moves_upto_len(m, pc, player, piece, cards_upto - 1);
        let held = m.players[player].cards[cards_upto - 1];
        let pos = m.players[player].pieces[piece];
        let dests = card_dest_seq(square_index(pos), moves_of(pc.cards@, held.id), held.rot);
        lemma_card_dest_len(square_index(pos), moves_of(pc.cards@, held.id), held.rot);
        lemma_filter_unblocked_len(dests, m.players[player].bitmask);
    }
}

/// Counts the legal moves of a player without applying any of them.
pub fn get_num_of_estimated_moves_for_player(
    game_state: &crate::state::GameState,
    pre_calculated: &PreCalculated,
    player_id: usize,
) -> (num_of_possible_moves: usize)
    requires
        game_state@.wf(),
        pre_calculated.wf(),
        player_id < 2,
        state_cards_in_table(game_state@, *pre_calculated),
    ensures
        num_of_possible_moves == spec_all_moves(game_state@, *pre_calculated, player_id as int).len(),
{
    let ghost m = game_state@;
    let ghost pc = *pre_calculated;
    let mut num_of_possible_moves: usize = 0;
    let mut piece_index: usize = 0;
    while piece_index < 5
        invariant
            piece_index <= 5,
            player_id < 2,
            m == game_state@,
            pc == *pre_calculated,
            m.wf(),
            pc.wf(),
            state_cards_in_table(m, pc),
            num_of_possible_moves == spec_moves_upto(m, pc, player_id as int, piece_index as int).len(),
        decreases 5 - piece_index,
    {
        proof {
            lemma_moves_upto_len(m, pc, player_id as int, piece_index as int);
        }
        let piece_position_before_move = crate::state::get_player_piece_position(
            game_state,
            player_id,
            piece_index,
        );
        if piece_position_before_move != 0 {
            let mut card_index: usize = 0;
            while card_index < 2
                invariant
                    piece_index < 5,
                    card_index <= 2,
                    player_id < 2,
                    m == game_state@,
                    pc == *pre_calculated,
                    m.wf(),
                    pc.wf(),
                    state_cards_in_table(m, pc),
                    m.players[player_id as int].pieces[piece_index as int] != 0,
                    piece_position_before_move == m.players[player_id as int].pieces[piece_index as int],
                    num_of_possible_moves == spec_moves_upto(m, pc, player_id as int, piece_index as int).len()
                        + spec_piece_moves_upto(
                        m,
                        pc,
                        player_id as int,
                        piece_index as int,
                        card_index as int,
                    ).len(),
                decreases 2 - card_index,
            {
                proof {
                    lemma_moves_upto_len(m, pc, player_id as int, piece_index as int);
                    lemma_piece_moves_upto_len(
                        m,
                        pc,
                        player_id as int,
                        piece_index as int,
                        card_index as int,
                    );
                }
                let (card_id, card_rotation) = crate::state::get_player_card(
                    game_state,
                    player_id,
                    card_index,
                );
                proof {
                    assert(m.players[player_id as int].wf());
                    assert(crate::state::valid_piece(
                        m.players[player_id as int].pieces[piece_index as int],
                    ));
                    assert(crate::state::valid_card(
                        m.players[player_id as int].cards[card_index as int],
                    ));
                }
                let piece_positions_after_move = get_possible_moves_from_position(
                    pre_calculated,
                    piece_position_before_move,
                    card_id,
                    card_rotation,
                );
                let ghost dests = card_dest_seq(
                    square_index(m.players[player_id as int].pieces[piece_index as int]),
                    moves_of(pc.cards@, m.players[player_id as int].cards[card_index as int].id),
                    m.players[player_id as int].cards[card_index as int].rot,
                );
                let ghost own_mask = m.players[player_id as int].bitmask;
                let own_pieces_bitmap = crate::state::get_player_pieces_bitmask(
                    game_state,
                    player_id,
                );
                proof {
                    lemma_card_dest_len(
                        square_index(m.players[player_id as int].pieces[piece_index as int]),
                        moves_of(pc.cards@, m.players[player_id as int].cards[card_index as int].id),
                        m.players[player_id as int].cards[card_index as int].rot,
                    );
                }
                let mut di: usize = 0;
                let mut kept: usize = 0;
                while di < piece_positions_after_move.len()
                    invariant
                        di <= piece_positions_after_move@.len(),
                        piece_positions_after_move@ == dests,
                        own_pieces_bitmap == own_mask,
                        kept == filter_unblocked(dests.take(di as int), own_mask).len(),
                        kept <= di,
                        dests.len() <= 4,
                    decreases piece_positions_after_move@.len() - di,
                {
                    let piece_position_after_move = piece_positions_after_move[di];
                    proof {
                        assert(dests.take(di as int + 1).drop_last() =~= dests.take(di as int));
                        assert(dests.take(di as int + 1).last() == dests[di as int]);
                        lemma_filter_unblocked_len(dests.take(di as int), own_mask);
                    }
                    let is_moving_on_own_piece = (piece_position_after_move & own_pieces_bitmap)
                        > 0;
                    if !is_moving_on_own_piece {
                        kept = kept + 1;
                    }
                    di = di + 1;
                }
                proof {
                    assert(dests.take(dests.len() as int) =~= dests);
                    assert(spec_card_moves(
                        m,
                        pc,
                        player_id as int,
                        piece_index as int,
                        card_index as int,
                    ).len() == filter_unblocked(dests, own_mask).len());
                    lemma_card_dest_len(
                        square_index(m.players[player_id as int].pieces[piece_index as int]),
                        moves_of(pc.cards@, m.players[player_id as int].cards[card_index as int].id),
                        m.players[player_id as int].cards[card_index as int].rot,
                    );
                }
                num_of_possible_moves = num_of_possible_moves + kept;
                card_index = card_index + 1;
            }
        }
        piece_index = piece_index + 1;
    }
    num_of_possible_moves
}

} // verus!
