//! The encoded game state: two players with five pieces, two held cards and a
//! cached occupancy bitmask each, plus the shared middle card.
//!
//! Contracts are stated over [`StateModel`], a ghost mirror of the state in
//! which piece slots are sequences and cards are id/rotation pairs over the
//! mathematical integers.  A move is applied by the same five steps the
//! engine performs: move the piece, hand the middle card to the mover, put
//! the used card (flipped) in the middle, capture, and recompute the
//! occupancy bitmasks.

use vstd::prelude::*;
use crate::bits::{lemma_one_bit_and_one_bit, lemma_one_bit_bounds};
use crate::board::{is_square, square_bit, square_index};

verus! {

pub const WHITE_PLAYER_ID: usize = 0;

pub const BLACK_PLAYER_ID: usize = 1;

/// Slot of the wizard piece within a player's five piece slots.
pub const WIZARD_INDEX: usize = 0;

/// Square in front of White's starting row: Black's wizard wins there.
pub const WHITE_PLAYER_SHRINE_MASK: u32 = 0b00000_00000_00000_00000_00100;

/// Centre of Black's starting row: White's wizard wins there.
pub const BLACK_PLAYER_SHRINE_MASK: u32 = 0b00100_00000_00000_00000_00000;

/// A held card: its id and the orientation (`1` forward, `-1` mirrored).
#[derive(Clone, Copy, PartialEq, Eq, Structural, Debug)]
pub struct CardSlot {
    pub id: i32,
    pub rotation: i32,
}

/// One player's half of the state.
#[derive(Clone, Copy, Debug)]
pub struct PlayerState {
    pub pieces: [u32; 5],
    pub cards: [CardSlot; 2],
    pub pieces_bitmask: u32,
}

/// The full encoded game state.
#[derive(Clone, Copy, Debug)]
pub struct GameState {
    pub players: [PlayerState; 2],
    pub middle_card: CardSlot,
}

/// Ghost mirror of a held card over the integers.
pub struct CardModel {
    pub id: int,
    pub rot: int,
}

/// Ghost mirror of one player's state.
pub struct PlayerModel {
    pub pieces: Seq<u32>,
    pub cards: Seq<CardModel>,
    pub bitmask: u32,
}

/// Ghost mirror of the full state.
pub struct StateModel {
    pub players: Seq<PlayerModel>,
    pub middle: CardModel,
}

impl View for CardSlot {
    type V = CardModel;

    open spec fn view(&self) -> CardModel {
        CardModel { id: self.id as int, rot: self.rotation as int }
    }
}

impl View for PlayerState {
    type V = PlayerModel;

    open spec fn view(&self) -> PlayerModel {
        PlayerModel {
            pieces: self.pieces@,
            cards: self.cards@.map_values(|c: CardSlot| c@),
            bitmask: self.pieces_bitmask,
        }
    }
}

impl View for GameState {
    type V = StateModel;

    open spec fn view(&self) -> StateModel {
        StateModel { players: self.players@.map_values(|p: PlayerState| p@), middle: self.middle_card@ }
    }
}

/// The opposing player id.
pub open spec fn spec_opponent(p: int) -> int {
    1 - p
}

/// A piece slot is either empty (captured) or a single board square.
pub open spec fn valid_piece(p: u32) -> bool {
    p == 0 || is_square(p)
}

/// A card slot holds a non-negative id and an orientation of `1` or `-1`.
pub open spec fn valid_card(c: CardModel) -> bool {
    c.id >= 0 && (c.rot == 1 || c.rot == -1)
}

/// The bitwise union of a player's piece words.
pub open spec fn mask_of(pieces: Seq<u32>) -> u32
    decreases pieces.len(),
{
    if pieces.len() == 0 {
        0u32
    } else {
        mask_of(pieces.drop_last()) | pieces.last()
    }
}

impl PlayerModel {
    /// Shape and slot validity of one player's half of the state.
    pub open spec fn wf(self) -> bool {
        &&& self.pieces.len() == 5
        &&& self.cards.len() == 2
        &&& forall|i: int| 0 <= i < 5 ==> valid_piece(#[trigger] self.pieces[i])
        &&& forall|c: int| 0 <= c < 2 ==> valid_card(#[trigger] self.cards[c])
    }
}

impl StateModel {
    /// Shape and slot validity of the whole state.
    pub open spec fn wf(self) -> bool {
        &&& self.players.len() == 2
        &&& self.players[0].wf()
        &&& self.players[1].wf()
        &&& valid_card(self.middle)
    }

    /// Both cached occupancy bitmasks equal the union of the piece words.
    pub open spec fn bitmask_ok(self) -> bool {
        forall|p: int|
            0 <= p < 2 ==> (#[trigger] self.players[p].bitmask) == mask_of(self.players[p].pieces)
    }

    /// No two live pieces, of either player, share a square.
    pub open spec fn no_overlap(self) -> bool {
        forall|p1: int, i1: int, p2: int, i2: int|
            0 <= p1 < 2 && 0 <= i1 < 5 && 0 <= p2 < 2 && 0 <= i2 < 5 && (p1 != p2 || i1 != i2)
                && (#[trigger] self.players[p1].pieces[i1]) != 0 ==> self.players[p1].pieces[i1] != (
            #[trigger] self.players[p2].pieces[i2])
    }
}

/// The model after writing piece slot `i` of player `p`.
pub open spec fn model_set_piece(m: StateModel, p: int, i: int, pos: u32) -> StateModel {
    StateModel {
        players: m.players.update(
            p,
            (PlayerModel {
                pieces: m.players[p].pieces.update(i, pos),
                cards: m.players[p].cards,
                bitmask: m.players[p].bitmask,
            }),
        ),
        middle: m.middle,
    }
}

/// The model after writing card slot `c` of player `p`.
pub open spec fn model_set_card(m: StateModel, p: int, c: int, id: int, rot: int) -> StateModel {
    StateModel {
        players: m.players.update(
            p,
            (PlayerModel {
                pieces: m.players[p].pieces,
                cards: m.players[p].cards.update(c, (CardModel { id: id, rot: rot })),
                bitmask: m.players[p].bitmask,
            }),
        ),
        middle: m.middle,
    }
}

/// The model after writing the middle card.
pub open spec fn model_set_middle(m: StateModel, id: int, rot: int) -> StateModel {
    StateModel { players: m.players, middle: (CardModel { id: id, rot: rot }) }
}

/// The model after writing the cached bitmask of player `p`.
pub open spec fn model_set_bitmask(m: StateModel, p: int, bitmask: u32) -> StateModel {
    StateModel {
        players: m.players.update(
            p,
            (PlayerModel {
                pieces: m.players[p].pieces,
                cards: m.players[p].cards,
                bitmask: bitmask,
            }),
        ),
        middle: m.middle,
    }
}

/// Index of the first piece slot from `i` up whose word meets `dest`, or 5.
pub open spec fn first_hit_from(pieces: Seq<u32>, dest: u32, i: nat) -> int
    decreases pieces.len() - i,
{
    if i >= pieces.len() {
        pieces.len() as int
    } else if dest & pieces[i as int] != 0 {
        i as int
    } else {
        first_hit_from(pieces, dest, i + 1)
    }
}

/// The model after resolving a capture: the mover's move to `dest` clears
/// the first opposing piece whose word meets `dest`, if there is one.
pub open spec fn model_capture(m: StateModel, mover: int, dest: u32) -> StateModel {
    let opp = spec_opponent(mover);
    let hit = first_hit_from(m.players[opp].pieces, dest, 0);
    if hit < m.players[opp].pieces.len() {
        model_set_piece(m, opp, hit, 0)
    } else {
        m
    }
}

/// The model after recomputing both cached occupancy bitmasks.
pub open spec fn model_recalc(m: StateModel) -> StateModel {
    model_set_bitmask(
        model_set_bitmask(m, 0, mask_of(m.players[0].pieces)),
        1,
        mask_of(m.players[1].pieces),
    )
}

/// The model after player `p` plays card slot `card`, moving piece slot
/// `piece` to `dest`: the five transition steps in order.
pub open spec fn spec_apply_move(m: StateModel, p: int, piece: int, card: int, dest: u32) -> StateModel {
    let used = m.players[p].cards[card];
    let s1 = model_set_piece(m, p, piece, dest);
    let s2 = model_set_card(s1, p, card, m.middle.id, m.middle.rot);
    let s3 = model_set_middle(s2, used.id, -used.rot);
    let s4 = model_capture(s3, p, dest);
    model_recalc(s4)
}

/// Applying a move preserves well-formedness, leaves the state with fresh
/// occupancy bitmasks, and swaps exactly the used card with the middle card
/// (the used card re-entering the middle with its orientation flipped).
pub proof fn lemma_apply_move_preserves(m: StateModel, p: int, piece: int, card: int, dest: u32)
    requires
        m.wf(),
        0 <= p < 2,
        0 <= piece < 5,
        0 <= card < 2,
        valid_piece(dest),
    ensures
        spec_apply_move(m, p, piece, card, dest).wf(),
        spec_apply_move(m, p, piece, card, dest).bitmask_ok(),
        spec_apply_move(m, p, piece, card, dest).players[p].cards[card] == m.middle,
        forall|q: int, c: int|
            0 <= q < 2 && 0 <= c < 2 && (q != p || c != card)
                ==> (#[trigger] spec_apply_move(m, p, piece, card, dest).players[q].cards[c])
                == m.players[q].cards[c],
        spec_apply_move(m, p, piece, card, dest).middle == (CardModel {
            id: m.players[p].cards[card].id,
            rot: -m.players[p].cards[card].rot,
        }),
        spec_apply_move(m, p, piece, card, dest).players[p].pieces == m.players[p].pieces.update(
            piece,
            dest,
        ),
{
    let result = spec_apply_move(m, p, piece, card, dest);
    let opp = spec_opponent(p);
    let used = m.players[p].cards[card];
    let s1 = model_set_piece(m, p, piece, dest);
    let s2 = model_set_card(s1, p, card, m.middle.id, m.middle.rot);
    let s3 = model_set_middle(s2, used.id, -used.rot);
    let s4 = model_capture(s3, p, dest);
    let hit = first_hit_from(s3.players[opp].pieces, dest, 0);
    lemma_first_hit_bounds(s3.players[opp].pieces, dest, 0);
    assert(result == model_recalc(s4));
    assert(result.players[p].pieces =~= m.players[p].pieces.update(piece, dest));
    assert forall|q: int, i: int| 0 <= q < 2 && 0 <= i < 5 implies valid_piece(
        #[trigger] result.players[q].pieces[i],
    ) by {
        assert(valid_piece(m.players[q].pieces[i]));
    }
    assert forall|q: int, c: int| 0 <= q < 2 && 0 <= c < 2 implies valid_card(
        #[trigger] result.players[q].cards[c],
    ) by {
        assert(valid_card(m.players[q].cards[c]));
    }
    assert(result.players[0].wf());
    assert(result.players[1].wf());
    assert(result.players[0].bitmask == mask_of(result.players[0].pieces));
    assert(result.players[1].bitmask == mask_of(result.players[1].pieces));
}

/// The first-hit index never exceeds the sequence length.
proof fn lemma_first_hit_bounds(pieces: Seq<u32>, dest: u32, i: nat)
    requires
        i <= pieces.len(),
    ensures
        i <= first_hit_from(pieces, dest, i) <= pieces.len(),
    decreases pieces.len() - i,
{
    if i < pieces.len() && dest & pieces[i as int] == 0 {
        lemma_first_hit_bounds(pieces, dest, i + 1);
    }
}

/// What the first-hit index means: it lands on a piece the word meets,
/// every earlier piece misses it, and when it equals the length every
/// piece misses it.
pub proof fn lemma_first_hit_props(pieces: Seq<u32>, dest: u32, i: nat)
    requires
        i <= pieces.len(),
    ensures
        i <= first_hit_from(pieces, dest, i) <= pieces.len(),
        first_hit_from(pieces, dest, i) < pieces.len() ==> dest & pieces[first_hit_from(
            pieces,
            dest,
            i,
        )] != 0,
        forall|j: int|
            i <= j < first_hit_from(pieces, dest, i) ==> dest & #[trigger] pieces[j] == 0,
        first_hit_from(pieces, dest, i) == pieces.len() ==> forall|j: int|
            i <= j < pieces.len() ==> dest & #[trigger] pieces[j] == 0,
    decreases pieces.len() - i,
{
    if i < pieces.len() && dest & pieces[i as int] == 0 {
        lemma_first_hit_props(pieces, dest, i + 1);
    }
}

/// A fresh state: every piece captured, every card id 0 with forward
/// orientation, both bitmasks empty.
pub fn new_game_state() -> (game_state: GameState)
    ensures
        game_state@.wf(),
        game_state@.bitmask_ok(),
        game_state@.no_overlap(),
        forall|p: int, i: int| 0 <= p < 2 && 0 <= i < 5 ==> (#[trigger] game_state@.players[p].pieces[i]) == 0,
        forall|p: int, c: int|
            0 <= p < 2 && 0 <= c < 2 ==> (#[trigger] game_state@.players[p].cards[c]) == (CardModel {
                id: 0,
                rot: 1,
            }),
        game_state@.middle == (CardModel { id: 0, rot: 1 }),
{
    let empty_card = CardSlot { id: 0, rotation: 1 };
    let player = PlayerState { pieces: [0u32; 5], cards: [empty_card; 2], pieces_bitmask: 0 };
    let game_state = GameState { players: [player; 2], middle_card: empty_card };
    proof {
        assert(mask_of(game_state@.players[0].pieces) == 0) by {
            lemma_mask_of_zeroes(game_state@.players[0].pieces);
        }
        assert(mask_of(game_state@.players[1].pieces) == 0) by {
            lemma_mask_of_zeroes(game_state@.players[1].pieces);
        }
    }
    game_state
}

/// An all-zero piece sequence has an empty union.
proof fn lemma_mask_of_zeroes(pieces: Seq<u32>)
    requires
        forall|i: int| 0 <= i < pieces.len() ==> #[trigger] pieces[i] == 0,
    ensures
        mask_of(pieces) == 0,
    decreases pieces.len(),
{
    if pieces.len() > 0 {
        lemma_mask_of_zeroes(pieces.drop_last());
        assert(mask_of(pieces.drop_last()) | pieces.last() == 0u32 | 0u32);
        assert(0u32 | 0u32 == 0u32) by (bit_vector);
    }
}

/// The opposing player id.
pub fn get_opponent_id(player_id: usize) -> (opponent_id: usize)
    requires
        player_id < 2,
    ensures
        opponent_id == spec_opponent(player_id as int),
        opponent_id < 2,
{
    if player_id == WHITE_PLAYER_ID {
        BLACK_PLAYER_ID
    } else {
        WHITE_PLAYER_ID
    }
}

/// The board word of one piece slot.
pub fn get_player_piece_position(game_state: &GameState, player_id: usize, piece_index: usize) -> (position: u32)
    requires
        player_id < 2,
        piece_index < 5,
    ensures
        position == game_state@.players[player_id as int].pieces[piece_index as int],
{
    game_state.players[player_id].pieces[piece_index]
}

/// The id and rotation of one held card.
pub fn get_player_card(game_state: &GameState, player_id: usize, card_index: usize) -> (card: (i32, i32))
    requires
        player_id < 2,
        card_index < 2,
    ensures
        card.0 == game_state@.players[player_id as int].cards[card_index as int].id,
        card.1 == game_state@.players[player_id as int].cards[card_index as int].rot,
{
    let slot = game_state.players[player_id].cards[card_index];
    (slot.id, slot.rotation)
}

/// The id and rotation of the middle card.
pub fn get_middle_card(game_state: &GameState) -> (card: (i32, i32))
    ensures
        card.0 == game_state@.middle.id,
        card.1 == game_state@.middle.rot,
{
    (game_state.middle_card.id, game_state.middle_card.rotation)
}

/// The cached occupancy bitmask of one player.
pub fn get_player_pieces_bitmask(game_state: &GameState, player_id: usize) -> (bitmask: u32)
    requires
        player_id < 2,
    ensures
        bitmask == game_state@.players[player_id as int].bitmask,
{
    game_state.players[player_id].pieces_bitmask
}

/// Writes one piece slot.
pub fn set_player_piece_position(
    game_state: &mut GameState,
    player_id: usize,
    piece_index: usize,
    piece_position: u32,
)
    requires
        player_id < 2,
        piece_index < 5,
    ensures
        final(game_state)@ == model_set_piece(
            old(game_state)@,
            player_id as int,
            piece_index as int,
            piece_position,
        ),
{
    let mut player = game_state.players[player_id];
    player.pieces[piece_index] = piece_position;
    game_state.players[player_id] = player;
    proof {
        assert(final(game_state)@.players =~= model_set_piece(
            old(game_state)@,
            player_id as int,
            piece_index as int,
            piece_position,
        ).players);
    }
}

/// Writes one held-card slot.
pub fn set_player_card(
    game_state: &mut GameState,
    player_id: usize,
    card_index: usize,
    card_id: i32,
    card_rotation: i32,
)
    requires
        player_id < 2,
        card_index < 2,
    ensures
        final(game_state)@ == model_set_card(
            old(game_state)@,
            player_id as int,
            card_index as int,
            card_id as int,
            card_rotation as int,
        ),
{
    let mut player = game_state.players[player_id];
    player.cards[card_index] = CardSlot { id: card_id, rotation: card_rotation };
    game_state.players[player_id] = player;
    proof {
        assert(final(game_state)@.players[player_id as int].cards =~= model_set_card(
            old(game_state)@,
            player_id as int,
            card_index as int,
            card_id as int,
            card_rotation as int,
        ).players[player_id as int].cards);
        assert(final(game_state)@.players =~= model_set_card(
            old(game_state)@,
            player_id as int,
            card_index as int,
            card_id as int,
            card_rotation as int,
        ).players);
    }
}

/// Writes the middle card.
pub fn set_middle_card(game_state: &mut GameState, card_id: i32, card_rotation: i32)
    requires
        true,
    ensures
        final(game_state)@ == model_set_middle(old(game_state)@, card_id as int, card_rotation as int),
{
    game_state.middle_card = CardSlot { id: card_id, rotation: card_rotation };
    proof {
        assert(final(game_state)@.players =~= old(game_state)@.players);
    }
}

/// Writes one cached occupancy bitmask.
pub fn set_player_pieces_bitmask(game_state: &mut GameState, player_id: usize, bitmap: u32)
    requires
        player_id < 2,
    ensures
        final(game_state)@ == model_set_bitmask(old(game_state)@, player_id as int, bitmap),
{
    let mut player = game_state.players[player_id];
    player.pieces_bitmask = bitmap;
    game_state.players[player_id] = player;
    proof {
        assert(final(game_state)@.players =~= model_set_bitmask(
            old(game_state)@,
            player_id as int,
            bitmap,
        ).players);
    }
}

/// True when the move word overlaps the mover's own cached bitmask.
pub fn is_player_moving_on_own_piece(game_state: &GameState, player_id: usize, player_move: u32) -> (blocked: bool)
    requires
        player_id < 2,
    ensures
        blocked == (player_move & game_state@.players[player_id as int].bitmask != 0),
{
    let own_pieces_bitmap = get_player_pieces_bitmask(game_state, player_id);
    (player_move & own_pieces_bitmap) > 0
}

/// Recomputes both players' cached occupancy bitmasks from the piece slots.
pub fn re_clculate_player_pieces_bitmap(game_state: &mut GameState)
    ensures
        final(game_state)@ == model_recalc(old(game_state)@),
{
    let mut player_id: usize = 0;
    while player_id < 2
        invariant
            player_id <= 2,
            player_id == 0 ==> game_state@ == old(game_state)@,
            player_id == 1 ==> game_state@ == model_set_bitmask(
                old(game_state)@,
                0,
                mask_of(old(game_state)@.players[0].pieces),
            ),
            player_id == 2 ==> game_state@ == model_recalc(old(game_state)@),
        decreases 2 - player_id,
    {
        let ghost entry_model = game_state@;
        let mut bitmask: u32 = 0;
        let mut piece_index: usize = 0;
        while piece_index < 5
            invariant
                piece_index <= 5,
                player_id < 2,
                game_state@ == entry_model,
                entry_model.players.len() == 2,
                entry_model.players[player_id as int].pieces.len() == 5,
                bitmask == mask_of(entry_model.players[player_id as int].pieces.take(piece_index as int)),
            decreases 5 - piece_index,
        {
            let position = get_player_piece_position(game_state, player_id, piece_index);
            proof {
                let pieces = entry_model.players[player_id as int].pieces;
                assert(pieces.take(piece_index as int + 1).drop_last() =~= pieces.take(
                    piece_index as int,
                ));
                assert(pieces.take(piece_index as int + 1).last() == pieces[piece_index as int]);
            }
            bitmask = bitmask | position;
            piece_index = piece_index + 1;
        }
        proof {
            let pieces = entry_model.players[player_id as int].pieces;
            assert(pieces.take(5) =~= pieces);
        }
        set_player_pieces_bitmask(game_state, player_id, bitmask);
        player_id = player_id + 1;
    }
}

/// Resolves a capture: if the mover's destination word overlaps the
/// opponent's cached bitmask, the first opposing piece on that word is
/// cleared.  The cached bitmask must be current for the scan to agree with
/// the early exit.
pub fn apply_player_move_to_opponent_pieces(game_state: &mut GameState, player_id: usize, player_move: u32)
    requires
        player_id < 2,
        old(game_state)@.players[spec_opponent(player_id as int)].bitmask == mask_of(
            old(game_state)@.players[spec_opponent(player_id as int)].pieces,
        ),
    ensures
        final(game_state)@ == model_capture(old(game_state)@, player_id as int, player_move),
{
    let opponent_id = get_opponent_id(player_id);
    let opponent_pieces_bitmap = get_player_pieces_bitmask(game_state, opponent_id);
    let ghost pieces = old(game_state)@.players[spec_opponent(player_id as int)].pieces;

    if (player_move & opponent_pieces_bitmap) == 0 {
        proof {
            lemma_mask_of_no_hit(pieces, player_move);
            lemma_first_hit_none(pieces, player_move, 0);
        }
        return ;
    }

    let mut opponent_piece_index: usize = 0;
    while opponent_piece_index < 5
        invariant
            opponent_piece_index <= 5,
            player_id < 2,
            opponent_id == spec_opponent(player_id as int),
            opponent_id < 2,
            game_state@ == old(game_state)@,
            pieces == game_state@.players[opponent_id as int].pieces,
            pieces.len() == 5,
            first_hit_from(pieces, player_move, 0) == first_hit_from(
                pieces,
                player_move,
                opponent_piece_index as nat,
            ),
        decreases 5 - opponent_piece_index,
    {
        let opponent_piece_position = get_player_piece_position(
            game_state,
            opponent_id,
            opponent_piece_index,
        );
        if (player_move & opponent_piece_position) != 0 {
            proof {
                assert(first_hit_from(pieces, player_move, opponent_piece_index as nat)
                    == opponent_piece_index as int);
            }
            set_player_piece_position(game_state, opponent_id, opponent_piece_index, 0);
            return ;
        }
        proof {
            lemma_first_hit_step(pieces, player_move, opponent_piece_index as nat);
        }
        opponent_piece_index = opponent_piece_index + 1;
    }
    proof {
        assert(first_hit_from(pieces, player_move, 5nat) == 5);
    }
}

/// A word misses the union of a piece sequence exactly when it misses every
/// piece in it.
pub proof fn lemma_mask_of_no_hit(pieces: Seq<u32>, dest: u32)
    ensures
        (dest & mask_of(pieces)) == 0 <==> forall|i: int|
            0 <= i < pieces.len() ==> (dest & #[trigger] pieces[i]) == 0,
    decreases pieces.len(),
{
    if pieces.len() == 0 {
        assert(dest & 0u32 == 0) by (bit_vector);
    } else {
        lemma_mask_of_no_hit(pieces.drop_last(), dest);
        let rest = mask_of(pieces.drop_last());
        let last = pieces.last();
        assert((dest & (rest | last)) == 0 <==> ((dest & rest) == 0 && (dest & last) == 0))
            by (bit_vector);
        if (dest & mask_of(pieces)) == 0 {
            assert forall|i: int| 0 <= i < pieces.len() implies (dest & #[trigger] pieces[i]) == 0 by {
                if i < pieces.len() - 1 {
                    assert(pieces[i] == pieces.drop_last()[i]);
                }
            }
        } else {
            if (dest & last) != 0 {
            } else {
                let w = choose|i: int|
                    0 <= i < pieces.drop_last().len() && (dest & #[trigger] pieces.drop_last()[i])
                        != 0;
                assert(pieces[w] == pieces.drop_last()[w]);
            }
        }
    }
}

/// When a hit exists, `first_hit_from` starting at 0 lands on it; the loop in
/// the capture routine steps this index forward one miss at a time.
proof fn lemma_first_hit_step(pieces: Seq<u32>, dest: u32, i: nat)
    requires
        i < pieces.len(),
        dest & pieces[i as int] == 0,
    ensures
        first_hit_from(pieces, dest, i) == first_hit_from(pieces, dest, i + 1),
{
}

/// When every piece from `i` on misses `dest`, there is no hit at all.
proof fn lemma_first_hit_none(pieces: Seq<u32>, dest: u32, i: nat)
    requires
        forall|j: int| i <= j < pieces.len() ==> (dest & #[trigger] pieces[j]) == 0,
    ensures
        first_hit_from(pieces, dest, i) == pieces.len(),
    decreases pieces.len() - i,
{
    if i < pieces.len() {
        lemma_first_hit_none(pieces, dest, i + 1);
    }
}

/// True when either wizard is captured or stands on the opposing shrine.
pub open spec fn spec_finished(m: StateModel) -> bool {
    ||| m.players[0].pieces[WIZARD_INDEX as int] == 0
    ||| m.players[0].pieces[WIZARD_INDEX as int] == BLACK_PLAYER_SHRINE_MASK
    ||| m.players[1].pieces[WIZARD_INDEX as int] == 0
    ||| m.players[1].pieces[WIZARD_INDEX as int] == WHITE_PLAYER_SHRINE_MASK
}

/// The shrine masks are the single-bit words of squares 2 and 22.
pub proof fn lemma_shrine_bits()
    by (bit_vector)
    ensures
        1u32 << 2u32 == 0b00000_00000_00000_00000_00100u32,
        1u32 << 22u32 == 0b00100_00000_00000_00000_00000u32,
{
}

/// The two shrine masks are single-square words.
pub proof fn lemma_shrine_squares()
    ensures
        is_square(WHITE_PLAYER_SHRINE_MASK),
        is_square(BLACK_PLAYER_SHRINE_MASK),
{
    lemma_shrine_bits();
    assert(square_bit(2) == 1u32 << 2u32);
    assert(square_bit(22) == 1u32 << 22u32);
}

/// A single-square word meets a shrine mask exactly when it is that square.
pub proof fn lemma_shrine_test(p: u32, shrine: u32)
    requires
        valid_piece(p),
        is_square(shrine),
    ensures
        (p & shrine != 0) <==> p == shrine,
{
    if p == 0 {
        assert(0u32 & shrine == 0) by (bit_vector);
        assert(shrine != 0) by {
            let k = square_index(shrine);
            lemma_one_bit_bounds(k as u32);
        }
    } else {
        let j = square_index(p);
        let k = square_index(shrine);
        lemma_one_bit_and_one_bit(j as u32, k as u32);
        lemma_one_bit_bounds(j as u32);
    }
}

/// True when the game is decided: a wizard is captured or sits on the
/// opposing shrine.
pub fn is_game_finished(game_state: &GameState) -> (finished: bool)
    requires
        game_state@.wf(),
    ensures
        finished == spec_finished(game_state@),
{
    let white_wizard_position = get_player_piece_position(game_state, WHITE_PLAYER_ID, WIZARD_INDEX);
    let black_wizard_position = get_player_piece_position(game_state, BLACK_PLAYER_ID, WIZARD_INDEX);
    proof {
        lemma_shrine_squares();
        lemma_shrine_test(game_state@.players[0].pieces[WIZARD_INDEX as int], BLACK_PLAYER_SHRINE_MASK);
        lemma_shrine_test(game_state@.players[1].pieces[WIZARD_INDEX as int], WHITE_PLAYER_SHRINE_MASK);
    }
    (white_wizard_position == 0) || ((white_wizard_position & BLACK_PLAYER_SHRINE_MASK) > 0)
        || (black_wizard_position == 0) || ((black_wizard_position & WHITE_PLAYER_SHRINE_MASK) > 0)
}

} // verus!
