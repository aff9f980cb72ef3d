//! The evaluation function: a signed score from White's perspective.
//!
//! Decided games score plus or minus 100000.  Otherwise the score is 100
//! points per piece of material advantage plus 10 points per piece inside
//! the side's current target zone, a three-row band that advances toward the
//! opposing shrine as material leaves the board.

use vstd::prelude::*;
use crate::bits::{popcount, popcount32, lemma_popcount_u32};
use crate::state::{
    GameState, StateModel, WHITE_PLAYER_ID, BLACK_PLAYER_ID, WIZARD_INDEX,
    WHITE_PLAYER_SHRINE_MASK, BLACK_PLAYER_SHRINE_MASK, lemma_shrine_test, lemma_shrine_squares,
    get_player_piece_position, get_player_pieces_bitmask,
};

verus! {

pub const WHITE_EARLY_GAME_TARGET: u32 = 0b00000_00000_01110_01110_01110;

pub const WHITE_MID_GAME_TARGET: u32 = 0b00000_01110_01110_01110_00000;

pub const WHITE_END_GAME_TARGET: u32 = 0b01110_01110_01110_00000_00000;

pub const BLACK_EARLY_GAME_TARGET: u32 = 0b01110_01110_01110_00000_00000;

pub const BLACK_MID_GAME_TARGET: u32 = 0b00000_01110_01110_01110_00000;

pub const BLACK_END_GAME_TARGET: u32 = 0b00000_00000_01110_01110_01110;

/// The number of live (non-captured) pieces in a piece sequence.
pub open spec fn live_count(pieces: Seq<u32>) -> int
    decreases pieces.len(),
{
    if pieces.len() == 0 {
        0
    } else {
        live_count(pieces.drop_last()) + if pieces.last() != 0 {
            1int
        } else {
            0int
        }
    }
}

/// The target zone chosen for a total piece count: the early band for 9 or
/// more pieces, the middle band down to 5, the far band below that.
pub open spec fn spec_target_index(total: int) -> int {
    if total >= 9 {
        0
    } else if total >= 5 {
        1
    } else {
        2
    }
}

/// The target-zone mask of a player for a zone index.
pub open spec fn spec_target_mask(player: int, zone: int) -> u32 {
    if player == 0 {
        if zone == 0 {
            WHITE_EARLY_GAME_TARGET
        } else if zone == 1 {
            WHITE_MID_GAME_TARGET
        } else {
            WHITE_END_GAME_TARGET
        }
    } else {
        if zone == 0 {
            BLACK_EARLY_GAME_TARGET
        } else if zone == 1 {
            BLACK_MID_GAME_TARGET
        } else {
            BLACK_END_GAME_TARGET
        }
    }
}

/// The evaluation of an undecided state: material plus zone bonus.
pub open spec fn spec_material_score(m: StateModel) -> int {
    let white_count = live_count(m.players[0].pieces);
    let black_count = live_count(m.players[1].pieces);
    let zone = spec_target_index(white_count + black_count);
    let white_in_zone = popcount((m.players[0].bitmask & spec_target_mask(0, zone)) as int);
    let black_in_zone = popcount((m.players[1].bitmask & spec_target_mask(1, zone)) as int);
    white_count * 100 - black_count * 100 + white_in_zone * 10 - black_in_zone * 10
}

/// The full evaluation from White's perspective: a decided game scores plus
/// or minus 100000, an undecided one its material score.
pub open spec fn spec_state_score(m: StateModel) -> int {
    if m.players[0].pieces[WIZARD_INDEX as int] == 0 {
        -100000
    } else if m.players[0].pieces[WIZARD_INDEX as int] == BLACK_PLAYER_SHRINE_MASK {
        100000
    } else if m.players[1].pieces[WIZARD_INDEX as int] == 0 {
        100000
    } else if m.players[1].pieces[WIZARD_INDEX as int] == WHITE_PLAYER_SHRINE_MASK {
        -100000
    } else {
        spec_material_score(m)
    }
}

/// The evaluation seen by a designated maximizing player: White's score,
/// negated for Black.
pub open spec fn spec_score_for(m: StateModel, maximizing_player: int) -> int {
    if maximizing_player == 0 {
        spec_state_score(m)
    } else {
        -spec_state_score(m)
    }
}

/// A piece sequence holds between zero and `len` live pieces.
pub proof fn lemma_live_count_bounds(pieces: Seq<u32>)
    ensures
        0 <= live_count(pieces) <= pieces.len(),
    decreases pieces.len(),
{
    if pieces.len() > 0 {
        lemma_live_count_bounds(pieces.drop_last());
    }
}

/// Intersection never exceeds either operand.
pub proof fn lemma_and_le(a: u32, b: u32)
    by (bit_vector)
    ensures
        (a & b) <= b,
{
}

/// The evaluation is bounded by the win and loss scores.
pub proof fn lemma_score_bounds(m: StateModel)
    requires
        m.wf(),
    ensures
        -100000 <= spec_state_score(m) <= 100000,
{
    lemma_live_count_bounds(m.players[0].pieces);
    lemma_live_count_bounds(m.players[1].pieces);
    let zone = spec_target_index(
        live_count(m.players[0].pieces) + live_count(m.players[1].pieces),
    );
    lemma_and_le(m.players[0].bitmask, spec_target_mask(0, zone));
    lemma_and_le(m.players[1].bitmask, spec_target_mask(1, zone));
    lemma_popcount_u32(m.players[0].bitmask & spec_target_mask(0, zone));
    lemma_popcount_u32(m.players[1].bitmask & spec_target_mask(1, zone));
}

/// The number of live pieces a player has on the board.
pub fn get_num_of_player_pieces(game_state: &GameState, player_id: usize) -> (num_of_player_pieces: i32)
    requires
        player_id < 2,
    ensures
        num_of_player_pieces == live_count(game_state@.players[player_id as int].pieces),
        0 <= num_of_player_pieces <= 5,
{
    let ghost pieces = game_state@.players[player_id as int].pieces;
    let mut num_of_player_pieces: i32 = 0;
    let mut piece_index: usize = 0;
    while piece_index < 5
        invariant
            piece_index <= 5,
            player_id < 2,
            pieces == game_state@.players[player_id as int].pieces,
            pieces.len() == 5,
            num_of_player_pieces == live_count(pieces.take(piece_index as int)),
            0 <= num_of_player_pieces <= piece_index,
        decreases 5 - piece_index,
    {
        let piece_position = get_player_piece_position(game_state, player_id, piece_index);
        proof {
            assert(pieces.take(piece_index as int + 1).drop_last() =~= pieces.take(
                piece_index as int,
            ));
            assert(pieces.take(piece_index as int + 1).last() == pieces[piece_index as int]);
        }
        if piece_position > 0 {
            num_of_player_pieces = num_of_player_pieces + 1;
        }
        piece_index = piece_index + 1;
    }
    proof {
        assert(pieces.take(5) =~= pieces);
    }
    num_of_player_pieces
}

/// The target-zone mask of a player for a zone index.
fn game_target(player_id: usize, zone: usize) -> (mask: u32)
    requires
        player_id < 2,
        zone < 3,
    ensures
        mask == spec_target_mask(player_id as int, zone as int),
{
    if player_id == WHITE_PLAYER_ID {
        if zone == 0 {
            WHITE_EARLY_GAME_TARGET
        } else if zone == 1 {
            WHITE_MID_GAME_TARGET
        } else {
            WHITE_END_GAME_TARGET
        }
    } else {
        if zone == 0 {
            BLACK_EARLY_GAME_TARGET
        } else if zone == 1 {
            BLACK_MID_GAME_TARGET
        } else {
            BLACK_END_GAME_TARGET
        }
    }
}

/// Scores a state from White's perspective.
pub fn get_game_state_score(game_state: &GameState) -> (score: i32)
    requires
        game_state@.wf(),
    ensures
        score == spec_state_score(game_state@),
        -100000 <= score <= 100000,
{
    proof {
        lemma_score_bounds(game_state@);
        lemma_shrine_squares();
        lemma_shrine_test(
            game_state@.players[0].pieces[WIZARD_INDEX as int],
            BLACK_PLAYER_SHRINE_MASK,
        );
        lemma_shrine_test(
            game_state@.players[1].pieces[WIZARD_INDEX as int],
            WHITE_PLAYER_SHRINE_MASK,
        );
    }
    let white_wizard_position = get_player_piece_position(game_state, WHITE_PLAYER_ID, WIZARD_INDEX);
    if white_wizard_position == 0 {
        return -100000;
    }
    if (white_wizard_position & BLACK_PLAYER_SHRINE_MASK) > 0 {
        return 100000;
    }
    let black_wizard_position = get_player_piece_position(game_state, BLACK_PLAYER_ID, WIZARD_INDEX);
    if black_wizard_position == 0 {
        return 100000;
    }
    if (black_wizard_position & WHITE_PLAYER_SHRINE_MASK) > 0 {
        return -100000;
    }
    let num_of_white_pieces = get_num_of_player_pieces(game_state, WHITE_PLAYER_ID);
    let num_of_black_pieces = get_num_of_player_pieces(game_state, BLACK_PLAYER_ID);

    let points_from_num_of_pieces = num_of_white_pieces * 100 - num_of_black_pieces * 100;

    let num_of_total_pieces = num_of_white_pieces + num_of_black_pieces;

    let game_target_index: usize = match num_of_total_pieces {
        10 => 0,
        9 => 0,
        8 => 1,
        7 => 1,
        6 => 1,
        5 => 1,
        4 => 2,
        3 => 2,
        2 => 2,
        1 => 2,
        0 => 2,
        _ => 0,
    };

    let white_player_target_mask = game_target(WHITE_PLAYER_ID, game_target_index);
    let black_player_target_mask = game_target(BLACK_PLAYER_ID, game_target_index);

    let white_player_pieces_bitmap = get_player_pieces_bitmask(game_state, WHITE_PLAYER_ID);
    let black_player_pieces_bitmap = get_player_pieces_bitmask(game_state, BLACK_PLAYER_ID);

    proof {
        lemma_and_le(white_player_pieces_bitmap, white_player_target_mask);
        lemma_and_le(black_player_pieces_bitmap, black_player_target_mask);
        lemma_popcount_u32(white_player_pieces_bitmap & white_player_target_mask);
        lemma_popcount_u32(black_player_pieces_bitmap & black_player_target_mask);
    }
    let num_of_white_pieces_matching_mask = popcount32(
        white_player_pieces_bitmap & white_player_target_mask,
    ) as i32;
    let num_of_black_pieces_matching_mask = popcount32(
        black_player_pieces_bitmap & black_player_target_mask,
    ) as i32;

    let points_from_pieces_in_preferred_position = num_of_white_pieces_matching_mask * 10
        - num_of_black_pieces_matching_mask * 10;

    points_from_num_of_pieces + points_from_pieces_in_preferred_position
}

/// Scores a state from the maximizing player's perspective.
pub fn get_game_score_for_maximizing_player(game_state: &GameState, maximizing_player_id: usize) -> (score: i32)
    requires
        game_state@.wf(),
        maximizing_player_id < 2,
    ensures
        score == spec_score_for(game_state@, maximizing_player_id as int),
        -100000 <= score <= 100000,
{
    let score = get_game_state_score(game_state);
    if maximizing_player_id == WHITE_PLAYER_ID {
        score
    } else {
        -1 * score
    }
}

} // verus!
