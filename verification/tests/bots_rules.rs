use onitama::bots::{
    ActionConfiguration, ActionName, AmIAlone, AmIInDanger, Command, ConditionName, Coordinates,
    DefaultTrue, Direction, Escape, GameAI, HasEnemyNextToMe, LocalArea, SeekFriends, Vector,
    WouldSelfDestructDamageOpponentMore,
};

fn area_from_grid(grid: [[i8; 5]; 5]) -> LocalArea {
    let mut local_area = LocalArea::new(0);
    for y in 0..5 {
        for x in 0..5 {
            local_area.set_local_area_cell(&Coordinates::new(x as i8, y as i8), grid[y][x]);
        }
    }
    local_area
}

#[test]
fn coordinates_arithmetic() {
    let c = Coordinates::new(2, 2);
    let moved = c.add_vector(&Vector::new(-1, 1));
    assert_eq!(moved.x, 1);
    assert_eq!(moved.y, 3);
    let origin = Coordinates::new(0, 0);
    let far = Coordinates::new(3, -4);
    assert_eq!(origin.manhattan_distance_from(&far), 7);
    assert_eq!(far.manhattan_distance_from(&far), 0);
}

#[test]
fn vectors_name_their_directions() {
    assert_eq!(Vector::new(0, -1).to_enum(), Direction::UP);
    assert_eq!(Vector::new(0, 1).to_enum(), Direction::DOWN);
    assert_eq!(Vector::new(-1, 0).to_enum(), Direction::LEFT);
    assert_eq!(Vector::new(1, 0).to_enum(), Direction::RIGHT);
}

#[test]
fn words_of_commands_and_directions() {
    assert_eq!(Command::MOVE.to_str(), "MOVE");
    assert_eq!(Command::ATTACK.to_str(), "ATTACK");
    assert_eq!(Command::GUARD.to_str(), "GUARD");
    assert_eq!(Command::SELFDESTRUCTION.to_str(), "SELFDESTRUCTION");
    assert_eq!(Direction::UP.to_str(), "UP");
    assert_eq!(Direction::DOWN.to_str(), "DOWN");
    assert_eq!(Direction::LEFT.to_str(), "LEFT");
    assert_eq!(Direction::RIGHT.to_str(), "RIGHT");
    let dirs = Direction::iterator();
    assert_eq!(
        dirs,
        vec![Direction::UP, Direction::LEFT, Direction::DOWN, Direction::RIGHT]
    );
    assert_eq!(Direction::UP.to_vector(), Vector::new(0, -1));
    assert_eq!(Direction::RIGHT.to_vector(), Vector::new(1, 0));
}

#[test]
fn local_area_records_cells_and_robots() {
    let mut local_area = LocalArea::new(3);
    assert_eq!(local_area.id, 3);
    local_area.set_local_area_cell(&Coordinates::new(2, 2), 9);
    local_area.set_local_area_cell(&Coordinates::new(1, 2), -4);
    local_area.set_local_area_cell(&Coordinates::new(0, 0), 0);
    assert_eq!(local_area.get_robot_health_at_coords(&Coordinates::new(2, 2)), 9);
    assert_eq!(local_area.get_robot_health_at_coords(&Coordinates::new(1, 2)), -4);
    assert_eq!(local_area.get_robot_health_at_coords(&Coordinates::new(0, 0)), 0);
    assert!(local_area.is_friendly_at_coords(&Coordinates::new(2, 2)));
    assert!(local_area.is_enemy_at_coords(&Coordinates::new(1, 2)));
    assert!(!local_area.is_enemy_at_coords(&Coordinates::new(0, 0)));
    assert_eq!(local_area.robots.len(), 2);
    assert_eq!(local_area.robots[0].id, 0);
    assert!(local_area.robots[0].is_friendly);
    assert_eq!(local_area.robots[0].health, 9);
    assert!(!local_area.robots[1].is_friendly);
    assert_eq!(local_area.robots[1].health, 4);
}

#[test]
fn danger_needs_two_adjacent_enemies() {
    let mut one_enemy = [[0i8; 5]; 5];
    one_enemy[2][2] = 5;
    one_enemy[1][2] = -3;
    let la = area_from_grid(one_enemy);
    assert!(!(AmIInDanger {}).is_true(&la));
    assert!((HasEnemyNextToMe {}).is_true(&la));

    let mut two_enemies = one_enemy;
    two_enemies[2][1] = -2;
    let la2 = area_from_grid(two_enemies);
    assert!((AmIInDanger {}).is_true(&la2));

    let mut diagonal = [[0i8; 5]; 5];
    diagonal[1][1] = -3;
    diagonal[3][3] = -3;
    let la3 = area_from_grid(diagonal);
    // Diagonal enemies are not adjacent.
    assert!(!(HasEnemyNextToMe {}).is_true(&la3));
    assert!((DefaultTrue {}).is_true(&la3));
}

#[test]
fn loneliness_counts_friendly_robots() {
    let mut alone = [[0i8; 5]; 5];
    alone[2][2] = 5;
    alone[1][1] = -2;
    assert!((AmIAlone {}).is_true(&area_from_grid(alone)));
    let mut accompanied = alone;
    accompanied[4][4] = 3;
    assert!(!(AmIAlone {}).is_true(&area_from_grid(accompanied)));
}

#[test]
fn blast_accounting_compares_both_sides() {
    // Own robot with 5 health; adjacent enemies worth 3 and 10 health
    // (damage 3 and 4), no friends hit: enemy damage 7 > own 5.
    let mut worth_it = [[0i8; 5]; 5];
    worth_it[2][2] = 5;
    worth_it[1][2] = -3;
    worth_it[2][3] = -10;
    assert!((WouldSelfDestructDamageOpponentMore {}).is_true(&area_from_grid(worth_it)));
    // A friend in the blast turns the trade bad: enemy 7 vs own 5 + 4.
    let mut friendly_fire = worth_it;
    friendly_fire[3][2] = 8;
    assert!(!(WouldSelfDestructDamageOpponentMore {}).is_true(&area_from_grid(friendly_fire)));
}

#[test]
fn attack_hits_the_first_adjacent_enemy() {
    let mut grid = [[0i8; 5]; 5];
    grid[2][2] = 5;
    // Enemies left and down; the scan order UP, LEFT, DOWN, RIGHT picks
    // LEFT first.
    grid[2][1] = -2;
    grid[3][2] = -2;
    let command = (onitama::bots::AttackEnemy {}).get_command(&area_from_grid(grid));
    assert_eq!(command, "ATTACK LEFT");
}

#[test]
fn escape_takes_the_first_free_cell() {
    let mut grid = [[0i8; 5]; 5];
    grid[2][2] = 5;
    grid[1][2] = -1;
    grid[2][1] = 4;
    let command = (Escape {}).get_command(&area_from_grid(grid));
    // UP holds an enemy, LEFT a friend; DOWN is the first free cell.
    assert_eq!(command, "MOVE DOWN");
    // Fully surrounded: self-destruct.
    let mut boxed = grid;
    boxed[3][2] = -1;
    boxed[2][3] = 2;
    let command2 = (Escape {}).get_command(&area_from_grid(boxed));
    assert_eq!(command2, "SELFDESTRUCTION");
}

#[test]
fn seeking_friends_picks_the_quietest_direction() {
    let mut grid = [[0i8; 5]; 5];
    grid[2][2] = 5;
    // Two enemies scanned ahead of UP, none ahead of LEFT.
    grid[0][2] = -1;
    grid[1][2] = -1;
    let command = (SeekFriends {}).get_command(&area_from_grid(grid));
    // UP scans 2 enemies; LEFT scans 0 and comes before DOWN and RIGHT.
    assert_eq!(command, "MOVE LEFT");
    // Every step cell held by friends: guard.
    let mut blocked = [[0i8; 5]; 5];
    blocked[2][2] = 5;
    blocked[1][2] = 1;
    blocked[2][1] = 1;
    blocked[3][2] = 1;
    blocked[2][3] = 1;
    let command2 = (SeekFriends {}).get_command(&area_from_grid(blocked));
    assert_eq!(command2, "GUARD");
}

fn reference_rule_table() -> Vec<ActionConfiguration> {
    vec![
        ActionConfiguration::new(
            ActionName::SelfDestruct,
            vec![
                ConditionName::AmIInDanger,
                ConditionName::WouldSelfDestructDamageOpponentMore,
            ],
        ),
        ActionConfiguration::new(ActionName::Escape, vec![ConditionName::AmIInDanger]),
        ActionConfiguration::new(ActionName::AttackEnemy, vec![ConditionName::HasEnemyNextToMe]),
        ActionConfiguration::new(ActionName::SeekFriends, vec![ConditionName::AmIAlone]),
        ActionConfiguration::new(ActionName::GuardMySelf, vec![ConditionName::DefaultTrue]),
    ]
}

#[test]
fn rule_table_picks_first_matching_action() {
    let configs = reference_rule_table();
    let game_ai = GameAI { action_configurations: &configs };

    // A lone robot with no neighbours seeks friends.
    let mut lonely = [[0i8; 5]; 5];
    lonely[2][2] = 5;
    let la = area_from_grid(lonely);
    assert_eq!(game_ai.pick_action(&la), ActionName::SeekFriends);
    assert_eq!(game_ai.get_command_for_robot(&la), "MOVE UP");

    // One adjacent enemy and a distant friend: attack.
    let mut fighting = lonely;
    fighting[1][2] = -4;
    fighting[4][4] = 6;
    let la2 = area_from_grid(fighting);
    assert_eq!(game_ai.pick_action(&la2), ActionName::AttackEnemy);
    assert_eq!(game_ai.get_command_for_robot(&la2), "ATTACK UP");

    // Two adjacent enemies, blast not worth it: escape.
    let mut cornered = fighting;
    cornered[2][1] = -1;
    cornered[2][2] = 9;
    let la3 = area_from_grid(cornered);
    assert_eq!(game_ai.pick_action(&la3), ActionName::Escape);
    assert_eq!(game_ai.get_command_for_robot(&la3), "MOVE DOWN");

    // Two adjacent heavy enemies against a weak robot: self-destruct.
    let mut trading = [[0i8; 5]; 5];
    trading[2][2] = 1;
    trading[1][2] = -9;
    trading[2][1] = -9;
    let la4 = area_from_grid(trading);
    assert_eq!(game_ai.pick_action(&la4), ActionName::SelfDestruct);
    assert_eq!(game_ai.get_command_for_robot(&la4), "SELFDESTRUCTION");
}
