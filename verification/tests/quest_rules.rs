use onitama::quest::{
    apply_point_of_interest_effect_on_player, can_player_move_to_terrain, clone_player,
    is_player_interested_moving_to_point_of_interest, AStar, Coordinates, GameMap, MapCell, Mount,
    Player, PlayerGoalPathTreeNode, PlayerGoalStatus, PointOfInterest, Terrain, Weapon,
};

fn roaming_player() -> Player {
    Player {
        location: PointOfInterest::House,
        weapon: Weapon::Unarmed,
        mount: Mount::OnFoot,
        objective: PointOfInterest::Princess,
        goal_status: PlayerGoalStatus::Roaming,
    }
}

#[test]
fn terrain_codes_parse() {
    assert_eq!(Terrain::convert_str_to_enum("G"), Ok(Terrain::Grassland));
    assert_eq!(Terrain::convert_str_to_enum("W"), Ok(Terrain::Water));
    assert_eq!(Terrain::convert_str_to_enum("M"), Ok(Terrain::Mountain));
    assert_eq!(Terrain::convert_str_to_enum("S"), Ok(Terrain::Swamp));
    assert_eq!(Terrain::convert_str_to_enum("R"), Ok(Terrain::Ravine));
    assert_eq!(Terrain::convert_str_to_enum("I"), Ok(Terrain::PointOfInterest));
    assert_eq!(Terrain::convert_str_to_enum("X"), Err(()));
    assert_eq!(Terrain::convert_str_to_enum(""), Err(()));
}

#[test]
fn point_of_interest_keywords_parse() {
    assert_eq!(PointOfInterest::convert_str_to_enum("HOUSE"), Ok(PointOfInterest::House));
    assert_eq!(PointOfInterest::convert_str_to_enum("CASTLE"), Ok(PointOfInterest::Castle));
    assert_eq!(PointOfInterest::convert_str_to_enum("BLACKSMITH"), Ok(PointOfInterest::Blacksmith));
    assert_eq!(PointOfInterest::convert_str_to_enum("STABLE"), Ok(PointOfInterest::Stable));
    assert_eq!(PointOfInterest::convert_str_to_enum("WIZARD"), Ok(PointOfInterest::Wizard));
    assert_eq!(PointOfInterest::convert_str_to_enum("PRINCESS"), Ok(PointOfInterest::Princess));
    assert_eq!(PointOfInterest::convert_str_to_enum("DRAGON"), Ok(PointOfInterest::Dragon));
    assert_eq!(PointOfInterest::convert_str_to_enum("TREASURE"), Ok(PointOfInterest::Treasure));
    assert_eq!(PointOfInterest::convert_str_to_enum("DUNGEON"), Err(()));
}

#[test]
fn cloning_copies_every_field() {
    let player = roaming_player();
    let cloned = clone_player(&player);
    assert_eq!(cloned, player);
}

#[test]
fn terrain_passability_rules() {
    let bare = roaming_player();
    assert!(can_player_move_to_terrain(&bare, Terrain::Grassland));
    assert!(can_player_move_to_terrain(&bare, Terrain::Water));
    assert!(!can_player_move_to_terrain(&bare, Terrain::Ravine));
    let mut armed = roaming_player();
    armed.weapon = Weapon::Sword;
    assert!(!can_player_move_to_terrain(&armed, Terrain::Water));
    assert!(can_player_move_to_terrain(&armed, Terrain::Mountain));
    let mut riding = roaming_player();
    riding.mount = Mount::Horse;
    assert!(!can_player_move_to_terrain(&riding, Terrain::Mountain));
    assert!(can_player_move_to_terrain(&riding, Terrain::Water));
}

#[test]
fn interest_follows_the_goal() {
    let roaming = roaming_player();
    assert!(is_player_interested_moving_to_point_of_interest(PointOfInterest::Princess, &roaming));
    assert!(!is_player_interested_moving_to_point_of_interest(PointOfInterest::Castle, &roaming));
    assert!(!is_player_interested_moving_to_point_of_interest(PointOfInterest::House, &roaming));
    let mut done = roaming_player();
    done.goal_status = PlayerGoalStatus::ObjectiveCompleted;
    assert!(is_player_interested_moving_to_point_of_interest(PointOfInterest::Castle, &done));
    assert!(!is_player_interested_moving_to_point_of_interest(PointOfInterest::Princess, &done));
    // Standing on the spot already kills the interest.
    let mut there = roaming_player();
    there.location = PointOfInterest::Princess;
    assert!(!is_player_interested_moving_to_point_of_interest(PointOfInterest::Princess, &there));
}

#[test]
fn effects_apply_on_arrival() {
    let mut player = roaming_player();
    apply_point_of_interest_effect_on_player(&mut player, PointOfInterest::Blacksmith);
    assert_eq!(player.location, PointOfInterest::Blacksmith);
    assert_eq!(player.weapon, Weapon::Sword);
    apply_point_of_interest_effect_on_player(&mut player, PointOfInterest::Stable);
    assert_eq!(player.mount, Mount::Horse);
    apply_point_of_interest_effect_on_player(&mut player, PointOfInterest::Princess);
    assert_eq!(player.goal_status, PlayerGoalStatus::ObjectiveCompleted);
    apply_point_of_interest_effect_on_player(&mut player, PointOfInterest::Castle);
    assert_eq!(player.goal_status, PlayerGoalStatus::RewardCollected);
    // The princess does nothing for a player after another objective.
    let mut other = roaming_player();
    other.objective = PointOfInterest::Treasure;
    apply_point_of_interest_effect_on_player(&mut other, PointOfInterest::Princess);
    assert_eq!(other.goal_status, PlayerGoalStatus::Roaming);
}

fn grass_map() -> GameMap {
    let row = vec![
        MapCell { terrain: Terrain::Grassland, point_of_interest: PointOfInterest::Unknown };
        4
    ];
    GameMap {
        width: 4,
        height: 3,
        map_matrix: vec![row.clone(), row.clone(), row],
        point_of_interest_map: vec![
            (PointOfInterest::Princess, Coordinates { x: 1, y: 1 }),
            (PointOfInterest::Castle, Coordinates { x: 3, y: 2 }),
        ],
    }
}

#[test]
fn goal_path_tree_walks_princess_then_castle() {
    let player = roaming_player();
    let map = grass_map();
    let root = PlayerGoalPathTreeNode::new(&player, &map);
    assert_eq!(root.player, player);
    // Roaming with the princess as objective: one interesting stop.
    assert_eq!(root.children.len(), 1);
    let after_princess = &root.children[0];
    assert_eq!(after_princess.player.location, PointOfInterest::Princess);
    assert_eq!(after_princess.player.goal_status, PlayerGoalStatus::ObjectiveCompleted);
    // Then the castle, which ends the quest.
    assert_eq!(after_princess.children.len(), 1);
    let after_castle = &after_princess.children[0];
    assert_eq!(after_castle.player.goal_status, PlayerGoalStatus::RewardCollected);
    assert_eq!(after_castle.children.len(), 0);
}

#[test]
fn neighbours_respect_edges_and_terrain() {
    let mut map = grass_map();
    // A ravine at (1, 0) blocks that neighbour.
    map.map_matrix[0][1].terrain = Terrain::Ravine;
    let player = roaming_player();
    let astar = AStar { player: &player, game_map: &map };
    // From the corner (0, 0): candidates are (1, 0), (0, 1), (1, 1); the
    // ravine removes (1, 0).
    let corner = astar.get_valid_neighbours(&Coordinates { x: 0, y: 0 });
    assert_eq!(corner, vec![Coordinates { x: 0, y: 1 }, Coordinates { x: 1, y: 1 }]);
    // From the middle (1, 1): all eight neighbours but the ravine.
    let middle = astar.get_valid_neighbours(&Coordinates { x: 1, y: 1 });
    assert_eq!(middle.len(), 7);
    assert!(!middle.contains(&Coordinates { x: 1, y: 0 }));
}
