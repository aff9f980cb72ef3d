//! The grid-quest rule set: terrain passability, points of interest, the
//! player's goal progression and the neighbourhood scan of the path search.

use vstd::prelude::*;
use vstd::string::StrSliceExecFns;

verus! {

#[derive(Debug, Copy, Clone, PartialEq, Eq, Structural)]
pub enum Terrain {
    Unknown,
    Grassland,
    Water,
    Mountain,
    Swamp,
    Ravine,
    PointOfInterest,
}

#[derive(Debug, Copy, Clone, PartialEq, Eq, Structural)]
pub enum PointOfInterest {
    Unknown,
    House,
    Castle,
    Blacksmith,
    Stable,
    Wizard,
    Princess,
    Dragon,
    Treasure,
}

#[derive(Debug, Copy, Clone, PartialEq, Eq, Structural)]
pub enum PlayerGoalStatus {
    Roaming,
    ObjectiveCompleted,
    RewardCollected,
}

#[derive(Debug, Copy, Clone, PartialEq, Eq, Structural)]
pub enum Weapon {
    Unarmed,
    Sword,
}

#[derive(Debug, Copy, Clone, PartialEq, Eq, Structural)]
pub enum Mount {
    OnFoot,
    Horse,
}

#[derive(Debug, Copy, Clone, PartialEq, Eq, Structural)]
pub struct Coordinates {
    pub x: usize,
    pub y: usize,
}

#[derive(Debug, Copy, Clone)]
pub struct MapCell {
    pub terrain: Terrain,
    pub point_of_interest: PointOfInterest,
}

/// The quest map: a terrain matrix and the located points of interest,
/// each appearing at most once.
#[derive(Debug)]
pub struct GameMap {
    pub width: usize,
    pub height: usize,
    pub map_matrix: Vec<Vec<MapCell>>,
    pub point_of_interest_map: Vec<(PointOfInterest, Coordinates)>,
}

impl GameMap {
    /// The matrix fills the stated dimensions and no point of interest
    /// repeats.
    pub open spec fn wf(self) -> bool {
        &&& self.map_matrix@.len() == self.height
        &&& forall|y: int|
            0 <= y < self.height ==> (#[trigger] self.map_matrix@[y])@.len() == self.width
        &&& self.width < 100000
        &&& self.height < 100000
        &&& forall|i: int, j: int|
            0 <= i < j < self.point_of_interest_map@.len() ==> (
            #[trigger] self.point_of_interest_map@[i]).0 != (
            #[trigger] self.point_of_interest_map@[j]).0
    }
}

#[derive(Debug, Copy, Clone, PartialEq, Eq, Structural)]
pub struct Player {
    pub location: PointOfInterest,
    pub weapon: Weapon,
    pub mount: Mount,
    pub objective: PointOfInterest,
    pub goal_status: PlayerGoalStatus,
}

/// The terrain named by a one-letter code.
pub open spec fn spec_terrain_of(s: Seq<char>) -> Result<Terrain, ()> {
    if s == "G"@ {
        Ok(Terrain::Grassland)
    } else if s == "W"@ {
        Ok(Terrain::Water)
    } else if s == "M"@ {
        Ok(Terrain::Mountain)
    } else if s == "S"@ {
        Ok(Terrain::Swamp)
    } else if s == "R"@ {
        Ok(Terrain::Ravine)
    } else if s == "I"@ {
        Ok(Terrain::PointOfInterest)
    } else {
        Err(())
    }
}

/// The point of interest named by its keyword.
pub open spec fn spec_point_of_interest_of(s: Seq<char>) -> Result<PointOfInterest, ()> {
    if s == "HOUSE"@ {
        Ok(PointOfInterest::House)
    } else if s == "CASTLE"@ {
        Ok(PointOfInterest::Castle)
    } else if s == "BLACKSMITH"@ {
        Ok(PointOfInterest::Blacksmith)
    } else if s == "STABLE"@ {
        Ok(PointOfInterest::Stable)
    } else if s == "WIZARD"@ {
        Ok(PointOfInterest::Wizard)
    } else if s == "PRINCESS"@ {
        Ok(PointOfInterest::Princess)
    } else if s == "DRAGON"@ {
        Ok(PointOfInterest::Dragon)
    } else if s == "TREASURE"@ {
        Ok(PointOfInterest::Treasure)
    } else {
        Err(())
    }
}

/// Character-by-character string equality.
fn str_eq(a: &str, b: &str) -> (r: bool)
    ensures
        r == (a@ == b@),
{
    let len_a = a.unicode_len();
    let len_b = b.unicode_len();
    if len_a != len_b {
        proof {
            assert(a@ != b@);
        }
        return false;
    }
    let mut i: usize = 0;
    while i < len_a
        invariant
            i <= len_a,
            len_a == a@.len(),
            len_a == b@.len(),
            forall|j: int| 0 <= j < i ==> a@[j] == b@[j],
        decreases len_a - i,
    {
        if a.get_char(i) != b.get_char(i) {
            proof {
                assert(a@[i as int] != b@[i as int]);
            }
            return false;
        }
        i = i + 1;
    }
    proof {
        assert(a@ =~= b@);
    }
    true
}

impl Terrain {
    /// Parses a one-letter terrain code.
    pub fn convert_str_to_enum(string: &str) -> (terrain: Result<Terrain, ()>)
        ensures
            terrain == spec_terrain_of(string@),
    {
        if str_eq(string, "G") {
            Ok(Terrain::Grassland)
        } else if str_eq(string, "W") {
            Ok(Terrain::Water)
        } else if str_eq(string, "M") {
            Ok(Terrain::Mountain)
        } else if str_eq(string, "S") {
            Ok(Terrain::Swamp)
        } else if str_eq(string, "R") {
            Ok(Terrain::Ravine)
        } else if str_eq(string, "I") {
            Ok(Terrain::PointOfInterest)
        } else {
            Err(())
        }
    }
}

impl PointOfInterest {
    /// Parses a point-of-interest keyword.
    pub fn convert_str_to_enum(string: &str) -> (point_of_interest: Result<PointOfInterest, ()>)
        ensures
            point_of_interest == spec_point_of_interest_of(string@),
    {
        if str_eq(string, "HOUSE") {
            Ok(PointOfInterest::House)
        } else if str_eq(string, "CASTLE") {
            Ok(PointOfInterest::Castle)
        } else if str_eq(string, "BLACKSMITH") {
            Ok(PointOfInterest::Blacksmith)
        } else if str_eq(string, "STABLE") {
            Ok(PointOfInterest::Stable)
        } else if str_eq(string, "WIZARD") {
            Ok(PointOfInterest::Wizard)
        } else if str_eq(string, "PRINCESS") {
            Ok(PointOfInterest::Princess)
        } else if str_eq(string, "DRAGON") {
            Ok(PointOfInterest::Dragon)
        } else if str_eq(string, "TREASURE") {
            Ok(PointOfInterest::Treasure)
        } else {
            Err(())
        }
    }
}

/// A full value copy of a player.
pub fn clone_player(player: &Player) -> (cloned: Player)
    ensures
        cloned == *player,
{
    Player {
        location: player.location,
        weapon: player.weapon,
        mount: player.mount,
        objective: player.objective,
        goal_status: player.goal_status,
    }
}

/// Terrain passability: ravines block everyone, water blocks a sword
/// bearer, mountains block a rider.
pub open spec fn spec_can_move_to(player: Player, terrain: Terrain) -> bool {
    &&& terrain != Terrain::Ravine
    &&& !(player.weapon == Weapon::Sword && terrain == Terrain::Water)
    &&& !(player.mount == Mount::Horse && terrain == Terrain::Mountain)
}

/// Whether the player may step onto the terrain.
pub fn can_player_move_to_terrain(player: &Player, terrain: Terrain) -> (can_move: bool)
    ensures
        can_move == spec_can_move_to(*player, terrain),
{
    if terrain == Terrain::Ravine {
        return false;
    }
    if player.weapon == Weapon::Sword && terrain == Terrain::Water {
        return false;
    }
    if player.mount == Mount::Horse && terrain == Terrain::Mountain {
        return false;
    }
    true
}

/// Whether the player wants to travel to a point of interest: the castle
/// once the objective is complete, the princess while she is the objective
/// and the player still roams, and nothing else.
pub open spec fn spec_interested(next: PointOfInterest, player: Player) -> bool {
    if player.location == next {
        false
    } else if next == PointOfInterest::Castle {
        player.goal_status == PlayerGoalStatus::ObjectiveCompleted
    } else if next == PointOfInterest::Princess {
        player.objective == PointOfInterest::Princess && player.goal_status
            == PlayerGoalStatus::Roaming
    } else {
        false
    }
}

/// Whether the player wants to travel to a point of interest.
pub fn is_player_interested_moving_to_point_of_interest(
    next_point_of_interest: PointOfInterest,
    player: &Player,
) -> (interested: bool)
    ensures
        interested == spec_interested(next_point_of_interest, *player),
{
    if player.location == next_point_of_interest {
        return false;
    }
    match next_point_of_interest {
        PointOfInterest::House => false,
        PointOfInterest::Castle => player.goal_status == PlayerGoalStatus::ObjectiveCompleted,
        PointOfInterest::Princess => player.objective == PointOfInterest::Princess
            && player.goal_status == PlayerGoalStatus::Roaming,
        _ => false,
    }
}

/// The player after arriving at a point of interest.
pub open spec fn spec_apply_effect(player: Player, poi: PointOfInterest) -> Player {
    let moved = Player { location: poi, ..player };
    if poi == PointOfInterest::Castle {
        Player { goal_status: PlayerGoalStatus::RewardCollected, ..moved }
    } else if poi == PointOfInterest::Princess {
        if player.objective != PointOfInterest::Princess {
            moved
        } else {
            Player { goal_status: PlayerGoalStatus::ObjectiveCompleted, ..moved }
        }
    } else if poi == PointOfInterest::Blacksmith {
        Player { weapon: Weapon::Sword, ..moved }
    } else if poi == PointOfInterest::Stable {
        Player { mount: Mount::Horse, ..moved }
    } else {
        moved
    }
}

/// Arrives at a point of interest: records the location and grants its
/// effect (reward, objective completion, sword or horse).
pub fn apply_point_of_interest_effect_on_player(player: &mut Player, point_of_interest: PointOfInterest)
    ensures
        *final(player) == spec_apply_effect(*old(player), point_of_interest),
{
    player.location = point_of_interest;
    match point_of_interest {
        PointOfInterest::Castle => {
            player.goal_status = PlayerGoalStatus::RewardCollected;
        },
        PointOfInterest::Princess => {
            if player.objective != PointOfInterest::Princess {
                return ;
            }
            player.goal_status = PlayerGoalStatus::ObjectiveCompleted;
        },
        PointOfInterest::Blacksmith => {
            player.weapon = Weapon::Sword;
        },
        PointOfInterest::Stable => {
            player.mount = Mount::Horse;
        },
        _ => (),
    }
}

/// How far the player still is from collecting the reward.
pub open spec fn goal_rank(status: PlayerGoalStatus) -> int {
    match status {
        PlayerGoalStatus::Roaming => 2,
        PlayerGoalStatus::ObjectiveCompleted => 1,
        PlayerGoalStatus::RewardCollected => 0,
    }
}

/// The points of interest, among the first `n` map entries, that the
/// player wants to visit, in map order.
pub open spec fn spec_interesting_upto(
    player: Player,
    pois: Seq<(PointOfInterest, Coordinates)>,
    n: int,
) -> Seq<PointOfInterest>
    decreases n,
{
    if n <= 0 {
        Seq::empty()
    } else {
        let rest = spec_interesting_upto(player, pois, n - 1);
        if spec_interested(pois[n - 1].0, player) {
            rest.push(pois[n - 1].0)
        } else {
            rest
        }
    }
}

/// A node of the goal-path tree.
#[derive(Debug)]
pub struct PlayerGoalPathTreeNode {
    pub player: Player,
    pub children: Vec<PlayerGoalPathTreeNode>,
}

/// The goal-path tree of a player: once the reward is collected the node is
/// a leaf; otherwise it has one subtree per interesting point of interest,
/// in map order, rooted at the player after travelling there.
pub open spec fn spec_goal_tree(
    n: PlayerGoalPathTreeNode,
    player: Player,
    pois: Seq<(PointOfInterest, Coordinates)>,
) -> bool
    decreases n,
{
    &&& n.player == player
    &&& if player.goal_status == PlayerGoalStatus::RewardCollected {
        n.children@.len() == 0
    } else {
        let keep = spec_interesting_upto(player, pois, pois.len() as int);
        &&& n.children@.len() == keep.len()
        &&& forall|i: int|
            0 <= i < keep.len() ==> spec_goal_tree(
                #[trigger] n.children@[i],
                spec_apply_effect(player, keep[i]),
                pois,
            )
    }
}

impl PlayerGoalPathTreeNode {
    /// Builds the player's goal-path tree over the map's points of
    /// interest.
    pub fn new(player: &Player, game_map: &GameMap) -> (node: PlayerGoalPathTreeNode)
        ensures
            spec_goal_tree(node, *player, game_map.point_of_interest_map@),
        decreases goal_rank(player.goal_status),
    {
        let ghost pois = game_map.point_of_interest_map@;
        let mut children: Vec<PlayerGoalPathTreeNode> = Vec::new();

        if player.goal_status != PlayerGoalStatus::RewardCollected {
            let mut entry_index: usize = 0;
            while entry_index < game_map.point_of_interest_map.len()
                invariant
                    entry_index <= pois.len(),
                    pois == game_map.point_of_interest_map@,
                    player.goal_status != PlayerGoalStatus::RewardCollected,
                    children@.len() == spec_interesting_upto(
                        *player,
                        pois,
                        entry_index as int,
                    ).len(),
                    forall|i: int|
                        0 <= i < children@.len() ==> spec_goal_tree(
                            #[trigger] children@[i],
                            spec_apply_effect(
                                *player,
                                spec_interesting_upto(*player, pois, entry_index as int)[i],
                            ),
                            pois,
                        ),
                decreases pois.len() - entry_index,
            {
                let (next_point_of_interest, _) = game_map.point_of_interest_map[entry_index];
                if is_player_interested_moving_to_point_of_interest(next_point_of_interest, player)
                {
                    let mut cloned_player = clone_player(player);
                    apply_point_of_interest_effect_on_player(
                        &mut cloned_player,
                        next_point_of_interest,
                    );
                    proof {
                        assert(goal_rank(cloned_player.goal_status) < goal_rank(
                            player.goal_status,
                        ));
                    }
                    let child = PlayerGoalPathTreeNode::new(&cloned_player, game_map);
                    children.push(child);
                    proof {
                        let keep_new = spec_interesting_upto(*player, pois, entry_index as int + 1);
                        let keep_old = spec_interesting_upto(*player, pois, entry_index as int);
                        assert(keep_new =~= keep_old.push(next_point_of_interest));
                    }
                } else {
                    proof {
                        assert(spec_interesting_upto(*player, pois, entry_index as int + 1)
                            =~= spec_interesting_upto(*player, pois, entry_index as int));
                    }
                }
                entry_index = entry_index + 1;
            }
        }

        let node = PlayerGoalPathTreeNode { player: clone_player(player), children };
        node
    }
}

/// The path-search context: the moving player and the map.
#[derive(Debug)]
pub struct AStar<'p, 'gm> {
    pub player: &'p Player,
    pub game_map: &'gm GameMap,
}

/// The neighbour candidate of index `n` in scan order: the 3-by-3 block
/// around a cell, column by column.
pub open spec fn spec_neighbour_kept(
    player: Player,
    map: GameMap,
    c: Coordinates,
    n: int,
) -> bool {
    let diff_x = n / 3;
    let diff_y = n % 3;
    &&& !(c.x == 0 && diff_x == 0)
    &&& !(c.y == 0 && diff_y == 0)
    &&& {
        let cx = c.x + diff_x - 1;
        let cy = c.y + diff_y - 1;
        &&& !(cx == c.x && cy == c.y)
        &&& cx < map.width
        &&& cy < map.height
        &&& spec_can_move_to(player, map.map_matrix@[cy]@[cx].terrain)
    }
}

/// The coordinates of neighbour candidate `n`.
pub open spec fn spec_neighbour_at(c: Coordinates, n: int) -> Coordinates {
    Coordinates { x: (c.x + n / 3 - 1) as usize, y: (c.y + n % 3 - 1) as usize }
}

/// The kept neighbours among the first `n` candidates, in scan order.
pub open spec fn spec_neighbours_upto(
    player: Player,
    map: GameMap,
    c: Coordinates,
    n: int,
) -> Seq<Coordinates>
    decreases n,
{
    if n <= 0 {
        Seq::empty()
    } else {
        let rest = spec_neighbours_upto(player, map, c, n - 1);
        if spec_neighbour_kept(player, map, c, n - 1) {
            rest.push(spec_neighbour_at(c, n - 1))
        } else {
            rest
        }
    }
}

impl<'p, 'gm> AStar<'p, 'gm> {
    /// The passable neighbours of a cell: the surrounding cells on the map
    /// whose terrain the player can enter.
    pub fn get_valid_neighbours(&self, coordinates: &Coordinates) -> (neighbours: Vec<Coordinates>)
        requires
            self.game_map.wf(),
            coordinates.x < self.game_map.width,
            coordinates.y < self.game_map.height,
        ensures
            neighbours@ == spec_neighbours_upto(*self.player, *self.game_map, *coordinates, 9),
    {
        let mut neighbours: Vec<Coordinates> = Vec::with_capacity(8);
        let mut diff_x: usize = 0;
        while diff_x < 3
            invariant
                diff_x <= 3,
                self.game_map.wf(),
                coordinates.x < self.game_map.width,
                coordinates.y < self.game_map.height,
                neighbours@ == spec_neighbours_upto(
                    *self.player,
                    *self.game_map,
                    *coordinates,
                    3 * diff_x as int,
                ),
            decreases 3 - diff_x,
        {
            let mut diff_y: usize = 0;
            while diff_y < 3
                invariant
                    diff_x < 3,
                    diff_y <= 3,
                    self.game_map.wf(),
                    coordinates.x < self.game_map.width,
                    coordinates.y < self.game_map.height,
                    neighbours@ == spec_neighbours_upto(
                        *self.player,
                        *self.game_map,
                        *coordinates,
                        3 * diff_x as int + diff_y as int,
                    ),
                decreases 3 - diff_y,
            {
                let ghost n = 3 * diff_x as int + diff_y as int;
                proof {
                    assert(n / 3 == diff_x as int && n % 3 == diff_y as int) by (nonlinear_arith)
                        requires
                            n == 3 * (diff_x as int) + (diff_y as int),
                            0 <= (diff_x as int) < 3,
                            0 <= (diff_y as int) < 3,
                    ;
                }
                if (coordinates.x == 0 && diff_x == 0) || (coordinates.y == 0 && diff_y == 0) {
                } else {
                    let c_x = coordinates.x + diff_x - 1;
                    let c_y = coordinates.y + diff_y - 1;

                    if (coordinates.x == c_x && coordinates.y == c_y) || (c_x
                        >= self.game_map.width) || (c_y >= self.game_map.height) {
                    } else {
                        if !can_player_move_to_terrain(
                            self.player,
                            self.game_map.map_matrix[c_y][c_x].terrain,
                        ) {
                        } else {
                            let neighbour_coordinates = Coordinates { x: c_x, y: c_y };
                            neighbours.push(neighbour_coordinates);
                        }
                    }
                }
                diff_y = diff_y + 1;
            }
            diff_x = diff_x + 1;
        }
        neighbours
    }
}

} // verus!
