//! Global laws of the engine's state transitions.
//!
//! Over any sequence of applied moves the cached occupancy bitmasks stay
//! equal to the union of the piece words, and the multiset of the five card
//! ids in play is conserved: a move only changes which slot holds which
//! card.  Terminal positions score exactly the win and loss values.

use vstd::prelude::*;
use vstd::assert_multisets_equal;
use vstd::multiset::Multiset;
use crate::bits::{lemma_one_bit_bounds, lemma_one_bit_and_one_bit};
use crate::board::{is_square, square_index};
use crate::state::{
    StateModel, spec_apply_move, spec_opponent, valid_piece, first_hit_from, mask_of,
    lemma_apply_move_preserves, lemma_mask_of_no_hit, lemma_first_hit_props, model_set_piece,
    model_set_card, model_set_middle, model_capture, WIZARD_INDEX, BLACK_PLAYER_SHRINE_MASK,
    WHITE_PLAYER_SHRINE_MASK,
};
use crate::score::{spec_state_score, spec_score_for};

verus! {

/// One requested transition: the mover, a piece slot, a card slot and a
/// destination word.
pub open spec fn move_ok(mv: (int, int, int, u32)) -> bool {
    &&& 0 <= mv.0 < 2
    &&& 0 <= mv.1 < 5
    &&& 0 <= mv.2 < 2
    &&& valid_piece(mv.3)
}

/// The state after applying a sequence of moves in order.
pub open spec fn apply_move_seq(m: StateModel, moves: Seq<(int, int, int, u32)>) -> StateModel
    decreases moves.len(),
{
    if moves.len() == 0 {
        m
    } else {
        let prev = apply_move_seq(m, moves.drop_last());
        let mv = moves.last();
        spec_apply_move(prev, mv.0, mv.1, mv.2, mv.3)
    }
}

/// The multiset of the five card ids in play: two held by each player and
/// the middle card.
pub open spec fn card_ids_multiset(m: StateModel) -> Multiset<int> {
    Multiset::empty().insert(m.players[0].cards[0].id).insert(m.players[0].cards[1].id).insert(
        m.players[1].cards[0].id,
    ).insert(m.players[1].cards[1].id).insert(m.middle.id)
}

/// One move conserves the multiset of card ids: the used card and the
/// middle card swap places and nothing else changes.
pub proof fn lemma_card_conservation_step(m: StateModel, p: int, piece: int, card: int, dest: u32)
    requires
        m.wf(),
        0 <= p < 2,
        0 <= piece < 5,
        0 <= card < 2,
        valid_piece(dest),
    ensures
        card_ids_multiset(spec_apply_move(m, p, piece, card, dest)) == card_ids_multiset(m),
{
    let result = spec_apply_move(m, p, piece, card, dest);
    lemma_apply_move_preserves(m, p, piece, card, dest);
    assert forall|q: int, c: int| 0 <= q < 2 && 0 <= c < 2 && (q != p || c != card) implies (
    #[trigger] result.players[q].cards[c]) == m.players[q].cards[c] by {}
    assert_multisets_equal!(card_ids_multiset(result), card_ids_multiset(m));
}

/// Occupancy invariant: after any sequence of moves each player's cached
/// occupancy bitmask equals the union of that player's piece words, and the
/// state stays well-formed.
pub proof fn lemma_occupancy_invariant(m: StateModel, moves: Seq<(int, int, int, u32)>)
    requires
        m.wf(),
        m.bitmask_ok(),
        forall|i: int| 0 <= i < moves.len() ==> move_ok(#[trigger] moves[i]),
    ensures
        apply_move_seq(m, moves).wf(),
        apply_move_seq(m, moves).bitmask_ok(),
    decreases moves.len(),
{
    if moves.len() > 0 {
        assert forall|i: int| 0 <= i < moves.drop_last().len() implies move_ok(
            #[trigger] moves.drop_last()[i],
        ) by {
            assert(moves.drop_last()[i] == moves[i]);
        }
        lemma_occupancy_invariant(m, moves.drop_last());
        let prev = apply_move_seq(m, moves.drop_last());
        let mv = moves.last();
        lemma_apply_move_preserves(prev, mv.0, mv.1, mv.2, mv.3);
    }
}

/// Card conservation: across any sequence of moves the multiset of the five
/// card ids in play is invariant.
pub proof fn lemma_card_conservation(m: StateModel, moves: Seq<(int, int, int, u32)>)
    requires
        m.wf(),
        m.bitmask_ok(),
        forall|i: int| 0 <= i < moves.len() ==> move_ok(#[trigger] moves[i]),
    ensures
        card_ids_multiset(apply_move_seq(m, moves)) == card_ids_multiset(m),
    decreases moves.len(),
{
    if moves.len() > 0 {
        assert forall|i: int| 0 <= i < moves.drop_last().len() implies move_ok(
            #[trigger] moves.drop_last()[i],
        ) by {
            assert(moves.drop_last()[i] == moves[i]);
        }
        lemma_card_conservation(m, moves.drop_last());
        lemma_occupancy_invariant(m, moves.drop_last());
        let prev = apply_move_seq(m, moves.drop_last());
        let mv = moves.last();
        lemma_card_conservation_step(prev, mv.0, mv.1, mv.2, mv.3);
    }
}

/// A legal move keeps the board overlap-free: when the destination avoids
/// the mover's own pieces, no two live pieces share a square afterwards.
/// The moved piece lands alone because the first opposing piece on the
/// destination, if any, is captured, and an overlap-free board holds at
/// most one.
pub proof fn lemma_no_overlap_preservation(m: StateModel, p: int, piece: int, card: int, dest: u32)
    requires
        m.wf(),
        m.bitmask_ok(),
        m.no_overlap(),
        0 <= p < 2,
        0 <= piece < 5,
        0 <= card < 2,
        is_square(dest),
        dest & m.players[p].bitmask == 0,
    ensures
        spec_apply_move(m, p, piece, card, dest).no_overlap(),
{
    let result = spec_apply_move(m, p, piece, card, dest);
    let opp = spec_opponent(p);
    lemma_apply_move_preserves(m, p, piece, card, dest);
    lemma_mask_of_no_hit(m.players[p].pieces, dest);

    let used = m.players[p].cards[card];
    let s1 = model_set_piece(m, p, piece, dest);
    let s2 = model_set_card(s1, p, card, m.middle.id, m.middle.rot);
    let s3 = model_set_middle(s2, used.id, -used.rot);
    let s4 = model_capture(s3, p, dest);
    assert(s3.players[opp].pieces == m.players[opp].pieces);
    let hit = first_hit_from(m.players[opp].pieces, dest, 0);
    lemma_first_hit_props(m.players[opp].pieces, dest, 0);

    // The mover's pieces after the move, and the opponent's after the
    // capture.
    assert(result.players[p].pieces == m.players[p].pieces.update(piece, dest));
    assert(result.players[opp].pieces == if hit < 5 {
        m.players[opp].pieces.update(hit, 0)
    } else {
        m.players[opp].pieces
    });

    let jd = square_index(dest);
    lemma_one_bit_bounds(jd as u32);
    assert(dest != 0);
    assert(dest & dest == dest) by (bit_vector);
    assert(opp == 0 || opp == 1);
    assert(m.players[opp].wf());

    // No opposing piece other than the captured one sits on the
    // destination.
    assert forall|i: int|
        0 <= i < 5 && i != hit && #[trigger] result.players[opp].pieces[i] != 0 implies result.players[opp].pieces[i] != dest by {
        let q = m.players[opp].pieces[i];
        assert(result.players[opp].pieces[i] == q);
        if q == dest {
            assert(dest & q != 0);
            assert(hit < 5);
            if i > hit {
                let captured = m.players[opp].pieces[hit];
                assert(dest & captured != 0);
                assert(captured != 0) by {
                    assert(dest & 0u32 == 0) by (bit_vector);
                }
                assert(valid_piece(captured));
                let jc = square_index(captured);
                lemma_one_bit_and_one_bit(jd as u32, jc as u32);
                assert(captured == dest);
                assert(m.players[opp].pieces[hit] == m.players[opp].pieces[i]);
            }
        }
    }

    // No mover piece other than the moved one sits on the destination.
    assert forall|i: int|
        0 <= i < 5 && i != piece && #[trigger] result.players[p].pieces[i] != 0 implies result.players[p].pieces[i] != dest by {
        let q = m.players[p].pieces[i];
        assert(result.players[p].pieces[i] == q);
        assert(dest & q == 0);
    }

    assert forall|p1: int, i1: int, p2: int, i2: int|
        0 <= p1 < 2 && 0 <= i1 < 5 && 0 <= p2 < 2 && 0 <= i2 < 5 && (p1 != p2 || i1 != i2) && (
        #[trigger] result.players[p1].pieces[i1]) != 0 implies result.players[p1].pieces[i1] != (
    #[trigger] result.players[p2].pieces[i2]) by {
        let a = result.players[p1].pieces[i1];
        let b = result.players[p2].pieces[i2];
        if b != 0 {
            let moved_one = p1 == p && i1 == piece;
            let moved_two = p2 == p && i2 == piece;
            if moved_one || moved_two {
                // One side of the pair is the moved piece on `dest`; the
                // other is a surviving piece shown above to avoid it.
            } else {
                // Both pieces are carried over unchanged.
                assert(a == m.players[p1].pieces[i1] && b == m.players[p2].pieces[i2]);
            }
        }
    }
}

/// Every move of the sequence, applied in order, is a legal step: a real
/// square as destination, not occupied by one of the mover's own pieces at
/// the moment the move is made.
pub open spec fn moves_legal_from(m: StateModel, moves: Seq<(int, int, int, u32)>) -> bool
    decreases moves.len(),
{
    if moves.len() == 0 {
        true
    } else {
        let prev = apply_move_seq(m, moves.drop_last());
        let mv = moves.last();
        &&& moves_legal_from(m, moves.drop_last())
        &&& move_ok(mv)
        &&& is_square(mv.3)
        &&& mv.3 & prev.players[mv.0].bitmask == 0
    }
}

/// A legal sequence preserves every data-model invariant at once: the
/// state stays well-formed, the cached bitmasks current, and no two live
/// pieces ever share a square.
pub proof fn lemma_overlap_free_invariant(m: StateModel, moves: Seq<(int, int, int, u32)>)
    requires
        m.wf(),
        m.bitmask_ok(),
        m.no_overlap(),
        moves_legal_from(m, moves),
    ensures
        apply_move_seq(m, moves).wf(),
        apply_move_seq(m, moves).bitmask_ok(),
        apply_move_seq(m, moves).no_overlap(),
    decreases moves.len(),
{
    if moves.len() > 0 {
        lemma_overlap_free_invariant(m, moves.drop_last());
        let prev = apply_move_seq(m, moves.drop_last());
        let mv = moves.last();
        lemma_apply_move_preserves(prev, mv.0, mv.1, mv.2, mv.3);
        lemma_no_overlap_preservation(prev, mv.0, mv.1, mv.2, mv.3);
    }
}

/// Terminal scoring: a state whose White wizard sits on Black's shrine
/// scores exactly 100000 from White's perspective, whatever else is on the
/// board; from Black's perspective it scores -100000.
pub proof fn lemma_terminal_scoring(m: StateModel)
    requires
        m.players[0].pieces[WIZARD_INDEX as int] == BLACK_PLAYER_SHRINE_MASK,
    ensures
        spec_state_score(m) == 100000,
        spec_score_for(m, 0) == 100000,
        spec_score_for(m, 1) == -100000,
{
    crate::state::lemma_shrine_squares();
    crate::bits::lemma_one_bit_bounds(22u32);
    assert(BLACK_PLAYER_SHRINE_MASK != 0) by (bit_vector);
}

} // verus!
