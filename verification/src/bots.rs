//! The robot-arena rule engine: a 5-by-5 local scan grid around a robot,
//! condition checks over it, and the rule table that picks the robot's
//! command.
//!
//! Grid cells hold signed robot health: positive for friendly robots,
//! negative for enemies, zero for empty ground; health magnitudes stay
//! within ten.

use vstd::prelude::*;
use vstd::math::abs;
use vstd::string::{StringExecFns, StrSliceExecFns};

verus! {

#[derive(Debug, Clone, Copy, PartialEq, Eq, Structural)]
pub struct Coordinates {
    pub x: i8,
    pub y: i8,
}

impl Coordinates {
    pub fn new(x: i8, y: i8) -> (coordinates: Coordinates)
        ensures
            coordinates.x == x,
            coordinates.y == y,
    {
        Coordinates { x, y }
    }

    /// The cell reached by following a vector.
    pub fn add_vector(&self, vector: &Vector) -> (moved: Coordinates)
        requires
            -128 <= self.x + vector.x <= 127,
            -128 <= self.y + vector.y <= 127,
        ensures
            moved.x == self.x + vector.x,
            moved.y == self.y + vector.y,
    {
        Coordinates::new(self.x + vector.x, self.y + vector.y)
    }

    /// The scan-grid distance measure between two cells: the absolute
    /// difference of the coordinates' magnitudes, summed over both axes.
    pub fn manhattan_distance_from(&self, other: &Coordinates) -> (distance: i8)
        requires
            -63 <= self.x <= 63,
            -63 <= self.y <= 63,
            -63 <= other.x <= 63,
            -63 <= other.y <= 63,
        ensures
            distance == abs(abs(other.x as int) - abs(self.x as int)) + abs(
                abs(other.y as int) - abs(self.y as int),
            ),
    {
        let diff_x = abs_i8(other.x) - abs_i8(self.x);
        let diff_y = abs_i8(other.y) - abs_i8(self.y);
        abs_i8(diff_x) + abs_i8(diff_y)
    }
}

/// Absolute value on the small signed range.
fn abs_i8(value: i8) -> (magnitude: i8)
    requires
        value > -128,
    ensures
        magnitude == abs(value as int),
{
    if value < 0 {
        -value
    } else {
        value
    }
}

#[derive(Debug, PartialEq, Eq, Structural)]
pub struct Vector {
    pub x: i8,
    pub y: i8,
}

impl Vector {
    pub fn new(x: i8, y: i8) -> (vector: Vector)
        ensures
            vector.x == x,
            vector.y == y,
    {
        Vector { x, y }
    }

    /// The direction of a unit vector.
    pub fn to_enum(&self) -> (direction: Direction)
        requires
            (self.x == 0 && (self.y == -1 || self.y == 1)) || (self.y == 0 && (self.x == -1
                || self.x == 1)),
        ensures
            self.x == 0 && self.y == -1 ==> direction == Direction::UP,
            self.x == 0 && self.y == 1 ==> direction == Direction::DOWN,
            self.x == -1 && self.y == 0 ==> direction == Direction::LEFT,
            self.x == 1 && self.y == 0 ==> direction == Direction::RIGHT,
    {
        if self.x == 0 && self.y == -1 {
            Direction::UP
        } else if self.x == 0 && self.y == 1 {
            Direction::DOWN
        } else if self.x == -1 && self.y == 0 {
            Direction::LEFT
        } else {
            Direction::RIGHT
        }
    }
}

#[derive(Debug, Copy, Clone, PartialEq, Eq, Structural)]
pub enum Command {
    MOVE,
    ATTACK,
    GUARD,
    SELFDESTRUCTION,
}

/// The protocol word of a command.
pub open spec fn spec_command_word(c: Command) -> Seq<char> {
    match c {
        Command::MOVE => "MOVE"@,
        Command::ATTACK => "ATTACK"@,
        Command::GUARD => "GUARD"@,
        Command::SELFDESTRUCTION => "SELFDESTRUCTION"@,
    }
}

impl Command {
    pub fn to_str(&self) -> (word: &'static str)
        ensures
            word@ == spec_command_word(*self),
    {
        match self {
            Command::MOVE => "MOVE",
            Command::ATTACK => "ATTACK",
            Command::GUARD => "GUARD",
            Command::SELFDESTRUCTION => "SELFDESTRUCTION",
        }
    }
}

#[derive(Debug, Copy, Clone, PartialEq, Eq, Structural)]
pub enum Direction {
    UP,
    DOWN,
    LEFT,
    RIGHT,
}

/// The protocol word of a direction.
pub open spec fn spec_direction_word(d: Direction) -> Seq<char> {
    match d {
        Direction::UP => "UP"@,
        Direction::DOWN => "DOWN"@,
        Direction::LEFT => "LEFT"@,
        Direction::RIGHT => "RIGHT"@,
    }
}

/// The column and row offsets of a one-cell step in a direction.
pub open spec fn spec_dir_offset(d: Direction) -> (int, int) {
    match d {
        Direction::UP => (0, -1),
        Direction::DOWN => (0, 1),
        Direction::LEFT => (-1, 0),
        Direction::RIGHT => (1, 0),
    }
}

/// The scan order of the four directions.
pub open spec fn nth_dir(i: int) -> Direction {
    if i == 0 {
        Direction::UP
    } else if i == 1 {
        Direction::LEFT
    } else if i == 2 {
        Direction::DOWN
    } else {
        Direction::RIGHT
    }
}

impl Direction {
    pub fn to_str(&self) -> (word: &'static str)
        ensures
            word@ == spec_direction_word(*self),
    {
        match self {
            Direction::UP => "UP",
            Direction::DOWN => "DOWN",
            Direction::LEFT => "LEFT",
            Direction::RIGHT => "RIGHT",
        }
    }

    /// The unit vector of a direction.
    pub fn to_vector(&self) -> (vector: Vector)
        ensures
            vector.x == spec_dir_offset(*self).0,
            vector.y == spec_dir_offset(*self).1,
    {
        match self {
            Direction::UP => Vector { x: 0, y: -1 },
            Direction::DOWN => Vector { x: 0, y: 1 },
            Direction::LEFT => Vector { x: -1, y: 0 },
            Direction::RIGHT => Vector { x: 1, y: 0 },
        }
    }

    /// The four directions in scan order.
    pub fn iterator() -> (directions: Vec<Direction>)
        ensures
            directions@.len() == 4,
            forall|i: int| 0 <= i < 4 ==> directions@[i] == nth_dir(i),
    {
        let mut directions: Vec<Direction> = Vec::new();
        directions.push(Direction::UP);
        directions.push(Direction::LEFT);
        directions.push(Direction::DOWN);
        directions.push(Direction::RIGHT);
        directions
    }
}

/// One robot seen in the local scan.
#[derive(Debug, Clone)]
pub struct Robot {
    pub id: usize,
    pub is_friendly: bool,
    pub health: i8,
    pub coordinates: Coordinates,
}

/// The 5-by-5 scan around one robot, with the robots read out of it.
#[derive(Debug)]
pub struct LocalArea {
    pub id: usize,
    pub grid: [[i8; 5]; 5],
    pub robots: Vec<Robot>,
}

/// The signed health in one scan cell.
pub open spec fn spec_cell(la: LocalArea, x: int, y: int) -> i8 {
    la.grid@[y][x]
}

impl LocalArea {
    /// Every cell's health magnitude stays within the arena's range.
    pub open spec fn wf(self) -> bool {
        forall|y: int, x: int| 0 <= y < 5 && 0 <= x < 5 ==> -10 <= #[trigger] self.grid@[y][x] <= 10
    }

    /// An empty scan.
    pub fn new(id: usize) -> (local_area: LocalArea)
        ensures
            local_area.id == id,
            local_area.robots@.len() == 0,
            forall|y: int, x: int| 0 <= y < 5 && 0 <= x < 5 ==> spec_cell(local_area, x, y) == 0,
            local_area.wf(),
    {
        LocalArea { id, grid: [[0; 5]; 5], robots: Vec::new() }
    }

    /// Records one scanned cell: writes the health value and, when the cell
    /// is occupied, appends the robot standing on it.
    pub fn set_local_area_cell(&mut self, coordinates: &Coordinates, value: i8)
        requires
            0 <= coordinates.x < 5,
            0 <= coordinates.y < 5,
            -10 <= value <= 10,
        ensures
            forall|y: int, x: int|
                0 <= y < 5 && 0 <= x < 5 ==> spec_cell(*final(self), x, y) == (if x
                    == coordinates.x && y == coordinates.y {
                    value
                } else {
                    spec_cell(*old(self), x, y)
                }),
            final(self).id == old(self).id,
            value == 0 ==> final(self).robots@ == old(self).robots@,
            value != 0 ==> final(self).robots@ == old(self).robots@.push(
                (Robot {
                    id: old(self).robots@.len() as usize,
                    is_friendly: value > 0,
                    health: abs(value as int) as i8,
                    coordinates: *coordinates,
                }),
            ),
            old(self).wf() ==> final(self).wf(),
    {
        let mut row = self.grid[coordinates.y as usize];
        row[coordinates.x as usize] = value;
        self.grid[coordinates.y as usize] = row;
        if value == 0 {
            return ;
        }
        let id = self.robots.len();
        let is_friendly = value > 0;
        let health = abs_i8(value);
        self.robots.push(Robot { id, is_friendly, health, coordinates: *coordinates });
    }

    /// The signed health at a cell.
    pub fn get_robot_health_at_coords(&self, coordinates: &Coordinates) -> (health: i8)
        requires
            0 <= coordinates.x < 5,
            0 <= coordinates.y < 5,
        ensures
            health == spec_cell(*self, coordinates.x as int, coordinates.y as int),
    {
        self.grid[coordinates.y as usize][coordinates.x as usize]
    }

    /// True when an enemy robot stands on the cell.
    pub fn is_enemy_at_coords(&self, coordinates: &Coordinates) -> (enemy: bool)
        requires
            0 <= coordinates.x < 5,
            0 <= coordinates.y < 5,
        ensures
            enemy == (spec_cell(*self, coordinates.x as int, coordinates.y as int) < 0),
    {
        self.get_robot_health_at_coords(coordinates) < 0
    }

    /// True when a friendly robot stands on the cell.
    pub fn is_friendly_at_coords(&self, coordinates: &Coordinates) -> (friendly: bool)
        requires
            0 <= coordinates.x < 5,
            0 <= coordinates.y < 5,
        ensures
            friendly == (spec_cell(*self, coordinates.x as int, coordinates.y as int) > 0),
    {
        self.get_robot_health_at_coords(coordinates) > 0
    }
}

/// The cell one step from the centre in a direction.
pub open spec fn spec_adjacent_x(d: Direction) -> int {
    2 + spec_dir_offset(d).0
}

/// The cell one step from the centre in a direction.
pub open spec fn spec_adjacent_y(d: Direction) -> int {
    2 + spec_dir_offset(d).1
}

/// An enemy stands one step from the centre in this direction.
pub open spec fn spec_enemy_adjacent(la: LocalArea, d: Direction) -> bool {
    spec_cell(la, spec_adjacent_x(d), spec_adjacent_y(d)) < 0
}

/// A friendly robot stands one step from the centre in this direction.
pub open spec fn spec_friendly_adjacent(la: LocalArea, d: Direction) -> bool {
    spec_cell(la, spec_adjacent_x(d), spec_adjacent_y(d)) > 0
}

/// How many of the first `n` adjacent cells, in scan order, hold an enemy.
pub open spec fn spec_enemy_adjacent_count_upto(la: LocalArea, n: int) -> int
    decreases n,
{
    if n <= 0 {
        0
    } else {
        spec_enemy_adjacent_count_upto(la, n - 1) + if spec_enemy_adjacent(la, nth_dir(n - 1)) {
            1int
        } else {
            0int
        }
    }
}

/// Danger: at least two enemies stand next to the robot.
pub open spec fn spec_am_i_in_danger(la: LocalArea) -> bool {
    spec_enemy_adjacent_count_upto(la, 4) >= 2
}

/// An enemy stands next to the robot.
pub open spec fn spec_has_enemy_next_to_me(la: LocalArea) -> bool {
    exists|i: int| 0 <= i < 4 && spec_enemy_adjacent(la, nth_dir(i))
}

/// The number of friendly robots in a scan's robot list.
pub open spec fn spec_friendly_robot_count(robots: Seq<Robot>) -> int
    decreases robots.len(),
{
    if robots.len() == 0 {
        0
    } else {
        spec_friendly_robot_count(robots.drop_last()) + if robots.last().is_friendly {
            1int
        } else {
            0int
        }
    }
}

/// Loneliness: the robot itself is the only friendly robot in its scan.
pub open spec fn spec_am_i_alone(la: LocalArea) -> bool {
    spec_friendly_robot_count(la.robots@) == 1
}

/// The eight cells around the centre, in scan order.
pub open spec fn spec_vicinity_offset(i: int) -> (int, int) {
    if i == 0 {
        (-1, -1)
    } else if i == 1 {
        (0, -1)
    } else if i == 2 {
        (1, -1)
    } else if i == 3 {
        (-1, 0)
    } else if i == 4 {
        (1, 0)
    } else if i == 5 {
        (-1, 1)
    } else if i == 6 {
        (0, 1)
    } else {
        (1, 1)
    }
}

/// The blast damage dealt to a robot of this health: its full health up to
/// the blast strength of four.
pub open spec fn spec_damage_of(health: int) -> int {
    if abs(health) < 4 {
        abs(health) as int
    } else {
        4
    }
}

/// Blast damage dealt to enemies within the first `n` surrounding cells.
pub open spec fn spec_enemy_blast_damage_upto(la: LocalArea, n: int) -> int
    decreases n,
{
    if n <= 0 {
        0
    } else {
        let c = spec_cell(
            la,
            2 + spec_vicinity_offset(n - 1).0,
            2 + spec_vicinity_offset(n - 1).1,
        );
        spec_enemy_blast_damage_upto(la, n - 1) + if c < 0 {
            spec_damage_of(c as int)
        } else {
            0int
        }
    }
}

/// Blast damage dealt to friendly robots within the first `n` surrounding
/// cells, the exploding robot aside.
pub open spec fn spec_own_blast_damage_upto(la: LocalArea, n: int) -> int
    decreases n,
{
    if n <= 0 {
        0
    } else {
        let c = spec_cell(
            la,
            2 + spec_vicinity_offset(n - 1).0,
            2 + spec_vicinity_offset(n - 1).1,
        );
        spec_own_blast_damage_upto(la, n - 1) + if c > 0 {
            spec_damage_of(c as int)
        } else {
            0int
        }
    }
}

/// Worthwhile blast: exploding hurts the enemy more than one's own side,
/// the exploding robot's remaining health included.
pub open spec fn spec_would_self_destruct_damage_opponent_more(la: LocalArea) -> bool {
    spec_enemy_blast_damage_upto(la, 8) > spec_cell(la, 2, 2) + spec_own_blast_damage_upto(la, 8)
}

pub struct DefaultTrue {}

impl DefaultTrue {
    /// The rule table's catch-all condition.
    pub fn is_true(&self, _local_area: &LocalArea) -> (holds: bool)
        ensures
            holds,
    {
        true
    }
}

pub struct AmIInDanger {}

impl AmIInDanger {
    /// At least two enemies stand next to the robot.
    pub fn is_true(&self, local_area: &LocalArea) -> (holds: bool)
        ensures
            holds == spec_am_i_in_danger(*local_area),
    {
        let robot_coordinates = Coordinates::new(2, 2);
        let mut num_of_enemies_next_to_me: u8 = 0;
        let directions = Direction::iterator();
        let mut i: usize = 0;
        while i < 4
            invariant
                i <= 4,
                directions@.len() == 4,
                forall|j: int| 0 <= j < 4 ==> directions@[j] == nth_dir(j),
                robot_coordinates.x == 2 && robot_coordinates.y == 2,
                num_of_enemies_next_to_me == spec_enemy_adjacent_count_upto(*local_area, i as int),
                num_of_enemies_next_to_me <= i,
            decreases 4 - i,
        {
            let direction = directions[i];
            let vector = direction.to_vector();
            let neighbouring_cell = robot_coordinates.add_vector(&vector);
            if local_area.is_enemy_at_coords(&neighbouring_cell) {
                num_of_enemies_next_to_me = num_of_enemies_next_to_me + 1;
            }
            i = i + 1;
        }
        num_of_enemies_next_to_me >= 2
    }
}

pub struct WouldSelfDestructDamageOpponentMore {}

impl WouldSelfDestructDamageOpponentMore {
    /// Exploding hurts the enemy more than one's own side.
    pub fn is_true(&self, local_area: &LocalArea) -> (holds: bool)
        requires
            local_area.wf(),
        ensures
            holds == spec_would_self_destruct_damage_opponent_more(*local_area),
    {
        let robot_coordinates = Coordinates::new(2, 2);
        let mut damage_caused_to_enemy: i8 = 0;
        let mut damage_caused_to_own: i8 = local_area.get_robot_health_at_coords(
            &robot_coordinates,
        );
        let mut i: usize = 0;
        while i < 8
            invariant
                i <= 8,
                local_area.wf(),
                robot_coordinates.x == 2 && robot_coordinates.y == 2,
                damage_caused_to_enemy == spec_enemy_blast_damage_upto(*local_area, i as int),
                damage_caused_to_own == spec_cell(*local_area, 2, 2)
                    + spec_own_blast_damage_upto(*local_area, i as int),
                0 <= damage_caused_to_enemy <= 4 * i,
                spec_cell(*local_area, 2, 2) <= damage_caused_to_own,
                damage_caused_to_own <= 10 + 4 * i,
            decreases 8 - i,
        {
            let (x, y) = vicinity_offset(i);
            let vector = Vector::new(x, y);
            let cell_being_scanned = robot_coordinates.add_vector(&vector);
            let robot_health_at_coords = local_area.get_robot_health_at_coords(&cell_being_scanned);
            if robot_health_at_coords != 0 {
                let is_enemy = robot_health_at_coords < 0;
                let mut damage_caused: i8 = 4;
                if abs_i8(robot_health_at_coords) < 4 {
                    damage_caused = abs_i8(robot_health_at_coords);
                }
                if is_enemy {
                    damage_caused_to_enemy = damage_caused_to_enemy + damage_caused;
                } else {
                    damage_caused_to_own = damage_caused_to_own + damage_caused;
                }
            }
            i = i + 1;
        }
        damage_caused_to_enemy > damage_caused_to_own
    }
}

/// The surrounding cell of a scan index.
fn vicinity_offset(i: usize) -> (offset: (i8, i8))
    requires
        i < 8,
    ensures
        offset.0 == spec_vicinity_offset(i as int).0,
        offset.1 == spec_vicinity_offset(i as int).1,
{
    match i {
        0 => (-1, -1),
        1 => (0, -1),
        2 => (1, -1),
        3 => (-1, 0),
        4 => (1, 0),
        5 => (-1, 1),
        6 => (0, 1),
        _ => (1, 1),
    }
}

pub struct AmIAlone {}

impl AmIAlone {
    /// The robot itself is the only friendly robot in its scan.
    pub fn is_true(&self, local_area: &LocalArea) -> (holds: bool)
        ensures
            holds == spec_am_i_alone(*local_area),
    {
        let ghost robots = local_area.robots@;
        let mut num_of_friendly: usize = 0;
        let mut i: usize = 0;
        while i < local_area.robots.len()
            invariant
                i <= robots.len(),
                robots == local_area.robots@,
                num_of_friendly == spec_friendly_robot_count(robots.take(i as int)),
                num_of_friendly <= i,
            decreases robots.len() - i,
        {
            proof {
                assert(robots.take(i as int + 1).drop_last() =~= robots.take(i as int));
                assert(robots.take(i as int + 1).last() == robots[i as int]);
            }
            if local_area.robots[i].is_friendly {
                num_of_friendly = num_of_friendly + 1;
            }
            i = i + 1;
        }
        proof {
            assert(robots.take(robots.len() as int) =~= robots);
        }
        num_of_friendly == 1
    }
}

pub struct HasEnemyNextToMe {}

impl HasEnemyNextToMe {
    /// An enemy stands next to the robot.
    pub fn is_true(&self, local_area: &LocalArea) -> (holds: bool)
        ensures
            holds == spec_has_enemy_next_to_me(*local_area),
    {
        let robot_coordinates = Coordinates::new(2, 2);
        let directions = Direction::iterator();
        let mut i: usize = 0;
        while i < 4
            invariant
                i <= 4,
                directions@.len() == 4,
                forall|j: int| 0 <= j < 4 ==> directions@[j] == nth_dir(j),
                robot_coordinates.x == 2 && robot_coordinates.y == 2,
                forall|j: int| 0 <= j < i ==> !spec_enemy_adjacent(*local_area, nth_dir(j)),
            decreases 4 - i,
        {
            let direction = directions[i];
            let vector = direction.to_vector();
            let neighbouring_cell = robot_coordinates.add_vector(&vector);
            if local_area.is_enemy_at_coords(&neighbouring_cell) {
                proof {
                    assert(spec_enemy_adjacent(*local_area, nth_dir(i as int)));
                }
                return true;
            }
            i = i + 1;
        }
        false
    }
}

#[derive(Debug, Copy, Clone, PartialEq, Eq, Structural)]
pub enum ConditionName {
    AmIAlone,
    AmIInDanger,
    DefaultTrue,
    HasEnemyNextToMe,
    WouldSelfDestructDamageOpponentMore,
}

/// The truth value of a named condition over a scan.
pub open spec fn spec_condition_true(name: ConditionName, la: LocalArea) -> bool {
    match name {
        ConditionName::AmIAlone => spec_am_i_alone(la),
        ConditionName::AmIInDanger => spec_am_i_in_danger(la),
        ConditionName::DefaultTrue => true,
        ConditionName::HasEnemyNextToMe => spec_has_enemy_next_to_me(la),
        ConditionName::WouldSelfDestructDamageOpponentMore =>
            spec_would_self_destruct_damage_opponent_more(la),
    }
}

/// Evaluates a named condition over a scan.
pub fn is_condition_true(name: ConditionName, local_area: &LocalArea) -> (holds: bool)
    requires
        local_area.wf(),
    ensures
        holds == spec_condition_true(name, *local_area),
{
    match name {
        ConditionName::AmIAlone => (AmIAlone {  }).is_true(local_area),
        ConditionName::AmIInDanger => (AmIInDanger {  }).is_true(local_area),
        ConditionName::DefaultTrue => (DefaultTrue {  }).is_true(local_area),
        ConditionName::HasEnemyNextToMe => (HasEnemyNextToMe {  }).is_true(local_area),
        ConditionName::WouldSelfDestructDamageOpponentMore => (
        WouldSelfDestructDamageOpponentMore {  }).is_true(local_area),
    }
}

#[derive(Debug, Copy, Clone, PartialEq, Eq, Structural)]
pub enum ActionName {
    AttackEnemy,
    SeekFriends,
    GuardMySelf,
    Escape,
    SelfDestruct,
}

/// The cell scanned ahead of a move in a direction: six cells forward of
/// the centre, in scan order.
pub open spec fn spec_scan_offset(d: Direction, i: int) -> (int, int) {
    match d {
        Direction::UP => if i == 0 {
            (-1, -2)
        } else if i == 1 {
            (-1, -1)
        } else if i == 2 {
            (0, -2)
        } else if i == 3 {
            (0, -1)
        } else if i == 4 {
            (1, -2)
        } else {
            (1, -1)
        },
        Direction::LEFT => if i == 0 {
            (-2, -1)
        } else if i == 1 {
            (-1, -1)
        } else if i == 2 {
            (-2, 0)
        } else if i == 3 {
            (-1, 0)
        } else if i == 4 {
            (-2, 1)
        } else {
            (-1, 1)
        },
        Direction::DOWN => if i == 0 {
            (-1, 2)
        } else if i == 1 {
            (-1, 1)
        } else if i == 2 {
            (0, 2)
        } else if i == 3 {
            (0, 1)
        } else if i == 4 {
            (1, 2)
        } else {
            (1, 1)
        },
        Direction::RIGHT => if i == 0 {
            (2, -1)
        } else if i == 1 {
            (1, -1)
        } else if i == 2 {
            (2, 0)
        } else if i == 3 {
            (1, 0)
        } else if i == 4 {
            (2, 1)
        } else {
            (1, 1)
        },
    }
}

/// The forward-scan cell of a direction and index.
fn scan_offset(d: Direction, i: usize) -> (offset: (i8, i8))
    requires
        i < 6,
    ensures
        offset.0 == spec_scan_offset(d, i as int).0,
        offset.1 == spec_scan_offset(d, i as int).1,
{
    match d {
        Direction::UP => match i {
            0 => (-1, -2),
            1 => (-1, -1),
            2 => (0, -2),
            3 => (0, -1),
            4 => (1, -2),
            _ => (1, -1),
        },
        Direction::LEFT => match i {
            0 => (-2, -1),
            1 => (-1, -1),
            2 => (-2, 0),
            3 => (-1, 0),
            4 => (-2, 1),
            _ => (-1, 1),
        },
        Direction::DOWN => match i {
            0 => (-1, 2),
            1 => (-1, 1),
            2 => (0, 2),
            3 => (0, 1),
            4 => (1, 2),
            _ => (1, 1),
        },
        Direction::RIGHT => match i {
            0 => (2, -1),
            1 => (1, -1),
            2 => (2, 0),
            3 => (1, 0),
            4 => (2, 1),
            _ => (1, 1),
        },
    }
}

/// How many of the first `n` forward-scan cells of a direction hold an
/// enemy.
pub open spec fn spec_scan_enemies_upto(la: LocalArea, d: Direction, n: int) -> int
    decreases n,
{
    if n <= 0 {
        0
    } else {
        spec_scan_enemies_upto(la, d, n - 1) + if spec_cell(
            la,
            2 + spec_scan_offset(d, n - 1).0,
            2 + spec_scan_offset(d, n - 1).1,
        ) < 0 {
            1int
        } else {
            0int
        }
    }
}

/// The best direction to seek friends among the first `n` directions in
/// scan order: directions whose step cell holds a friend are skipped, and
/// of the rest the one whose forward scan shows strictly the fewest
/// enemies, earliest first, is kept with its enemy count.
pub open spec fn spec_seek_best_upto(la: LocalArea, n: int) -> Option<(Direction, int)>
    decreases n,
{
    if n <= 0 {
        None
    } else {
        let prev = spec_seek_best_upto(la, n - 1);
        let d = nth_dir(n - 1);
        if spec_friendly_adjacent(la, d) {
            prev
        } else {
            let count = spec_scan_enemies_upto(la, d, 6);
            match prev {
                Option::None => Some((d, count)),
                Option::Some(pc) => if count < pc.1 {
                    Some((d, count))
                } else {
                    prev
                },
            }
        }
    }
}

/// The word commanding a move in a direction.
pub open spec fn spec_move_command(d: Direction) -> Seq<char> {
    spec_command_word(Command::MOVE) + " "@ + spec_direction_word(d)
}

/// The word commanding an attack in a direction.
pub open spec fn spec_attack_command(d: Direction) -> Seq<char> {
    spec_command_word(Command::ATTACK) + " "@ + spec_direction_word(d)
}

pub struct SeekFriends {}

impl SeekFriends {
    /// Moves toward the quietest direction not blocked by a friend, or
    /// guards when every direction is blocked.
    pub fn get_command(&self, local_area: &LocalArea) -> (command: String)
        ensures
            spec_seek_best_upto(*local_area, 4) is None ==> command@ == spec_command_word(
                Command::GUARD,
            ),
            spec_seek_best_upto(*local_area, 4) matches Some(dc) ==> command@
                == spec_move_command(dc.0),
    {
        let mut num_of_enemies_at_chosen_direction: u8 = 100;
        let mut chosen_direction: Option<Direction> = None;
        let robot_coordinates = Coordinates::new(2, 2);
        let directions = Direction::iterator();
        let mut i: usize = 0;
        while i < 4
            invariant
                i <= 4,
                directions@.len() == 4,
                forall|j: int| 0 <= j < 4 ==> directions@[j] == nth_dir(j),
                robot_coordinates.x == 2 && robot_coordinates.y == 2,
                chosen_direction is None ==> num_of_enemies_at_chosen_direction == 100
                    && spec_seek_best_upto(*local_area, i as int) is None,
                chosen_direction matches Some(d) ==> spec_seek_best_upto(*local_area, i as int)
                    == Some((d, num_of_enemies_at_chosen_direction as int))
                    && num_of_enemies_at_chosen_direction <= 6,
            decreases 4 - i,
        {
            let direction = directions[i];
            let would_move_to = robot_coordinates.add_vector(&direction.to_vector());
            if local_area.is_friendly_at_coords(&would_move_to) {
            } else {
                let mut num_of_enemies: u8 = 0;
                let mut k: usize = 0;
                while k < 6
                    invariant
                        k <= 6,
                        robot_coordinates.x == 2 && robot_coordinates.y == 2,
                        num_of_enemies == spec_scan_enemies_upto(*local_area, direction, k as int),
                        num_of_enemies <= k,
                    decreases 6 - k,
                {
                    let (x, y) = scan_offset(direction, k);
                    let vector = Vector::new(x, y);
                    let cell_being_scanned = robot_coordinates.add_vector(&vector);
                    if local_area.is_enemy_at_coords(&cell_being_scanned) {
                        num_of_enemies = num_of_enemies + 1;
                    }
                    k = k + 1;
                }
                if num_of_enemies < num_of_enemies_at_chosen_direction {
                    num_of_enemies_at_chosen_direction = num_of_enemies;
                    chosen_direction = Some(direction);
                }
            }
            i = i + 1;
        }
        match chosen_direction {
            Option::None => {
                let command = String::from_str(Command::GUARD.to_str());
                command
            },
            Option::Some(direction) => {
                let mut command = String::from_str(Command::MOVE.to_str());
                command.append(" ");
                command.append(direction.to_str());
                command
            },
        }
    }
}

/// The first escape direction from index `i` on: one step onto empty
/// ground, neither enemy nor friend, or 4 when there is none.
pub open spec fn spec_escape_from(la: LocalArea, i: nat) -> int
    decreases 4 - i,
{
    if i >= 4 {
        4
    } else if !spec_enemy_adjacent(la, nth_dir(i as int)) && !spec_friendly_adjacent(
        la,
        nth_dir(i as int),
    ) {
        i as int
    } else {
        spec_escape_from(la, i + 1)
    }
}

pub struct Escape {}

impl Escape {
    /// Steps onto the first free neighbouring cell, or self-destructs when
    /// surrounded.
    pub fn get_command(&self, local_area: &LocalArea) -> (command: String)
        ensures
            spec_escape_from(*local_area, 0) < 4 ==> command@ == spec_move_command(
                nth_dir(spec_escape_from(*local_area, 0)),
            ),
            spec_escape_from(*local_area, 0) >= 4 ==> command@ == spec_command_word(
                Command::SELFDESTRUCTION,
            ),
    {
        let robot_coordinates = Coordinates::new(2, 2);
        let directions = Direction::iterator();
        let mut i: usize = 0;
        while i < 4
            invariant
                i <= 4,
                directions@.len() == 4,
                forall|j: int| 0 <= j < 4 ==> directions@[j] == nth_dir(j),
                robot_coordinates.x == 2 && robot_coordinates.y == 2,
                spec_escape_from(*local_area, 0) == spec_escape_from(*local_area, i as nat),
            decreases 4 - i,
        {
            let direction = directions[i];
            let vector = direction.to_vector();
            let neighbouring_cell = robot_coordinates.add_vector(&vector);
            if !local_area.is_enemy_at_coords(&neighbouring_cell)
                && !local_area.is_friendly_at_coords(&neighbouring_cell) {
                let mut command = String::from_str(Command::MOVE.to_str());
                command.append(" ");
                command.append(direction.to_str());
                return command;
            }
            i = i + 1;
        }
        String::from_str(Command::SELFDESTRUCTION.to_str())
    }
}

/// The first direction from index `i` on whose neighbouring cell holds an
/// enemy, or 4 when there is none.
pub open spec fn spec_attack_from(la: LocalArea, i: nat) -> int
    decreases 4 - i,
{
    if i >= 4 {
        4
    } else if spec_enemy_adjacent(la, nth_dir(i as int)) {
        i as int
    } else {
        spec_attack_from(la, i + 1)
    }
}

pub struct AttackEnemy {}

impl AttackEnemy {
    /// Attacks the first adjacent enemy in scan order.
    pub fn get_command(&self, local_area: &LocalArea) -> (command: String)
        requires
            spec_has_enemy_next_to_me(*local_area),
        ensures
            spec_attack_from(*local_area, 0) < 4,
            command@ == spec_attack_command(nth_dir(spec_attack_from(*local_area, 0))),
    {
        let robot_coordinates = Coordinates::new(2, 2);
        let directions = Direction::iterator();
        let mut i: usize = 0;
        while i < 4
            invariant
                i <= 4,
                directions@.len() == 4,
                forall|j: int| 0 <= j < 4 ==> directions@[j] == nth_dir(j),
                robot_coordinates.x == 2 && robot_coordinates.y == 2,
                spec_attack_from(*local_area, 0) == spec_attack_from(*local_area, i as nat),
                forall|j: int| 0 <= j < i ==> !spec_enemy_adjacent(*local_area, nth_dir(j)),
            decreases 4 - i,
        {
            let direction = directions[i];
            let vector = direction.to_vector();
            let neighbouring_cell = robot_coordinates.add_vector(&vector);
            if local_area.is_enemy_at_coords(&neighbouring_cell) {
                let mut command = String::from_str(Command::ATTACK.to_str());
                command.append(" ");
                command.append(direction.to_str());
                return command;
            }
            i = i + 1;
        }
        proof {
            let w = choose|j: int| 0 <= j < 4 && spec_enemy_adjacent(*local_area, nth_dir(j));
            assert(false);
        }
        String::from_str(Command::SELFDESTRUCTION.to_str())
    }
}

pub struct GuardMySelf {}

impl GuardMySelf {
    /// Guards in place.
    pub fn get_command(&self, _local_area: &LocalArea) -> (command: String)
        ensures
            command@ == spec_command_word(Command::GUARD),
    {
        String::from_str(Command::GUARD.to_str())
    }
}

pub struct SelfDestruct {}

impl SelfDestruct {
    /// Self-destructs.
    pub fn get_command(&self, _local_area: &LocalArea) -> (command: String)
        ensures
            command@ == spec_command_word(Command::SELFDESTRUCTION),
    {
        String::from_str(Command::SELFDESTRUCTION.to_str())
    }
}

/// The command a named action issues over a scan; the attack spec is empty
/// when no enemy is adjacent, a case its caller rules out.
pub open spec fn spec_action_command(name: ActionName, la: LocalArea) -> Seq<char> {
    match name {
        ActionName::AttackEnemy => if spec_attack_from(la, 0) < 4 {
            spec_attack_command(nth_dir(spec_attack_from(la, 0)))
        } else {
            Seq::empty()
        },
        ActionName::SeekFriends => match spec_seek_best_upto(la, 4) {
            Option::None => spec_command_word(Command::GUARD),
            Option::Some(dc) => spec_move_command(dc.0),
        },
        ActionName::GuardMySelf => spec_command_word(Command::GUARD),
        ActionName::Escape => if spec_escape_from(la, 0) < 4 {
            spec_move_command(nth_dir(spec_escape_from(la, 0)))
        } else {
            spec_command_word(Command::SELFDESTRUCTION)
        },
        ActionName::SelfDestruct => spec_command_word(Command::SELFDESTRUCTION),
    }
}

/// Whether a named action can issue a command over a scan: attacking needs
/// an adjacent enemy, everything else always works.
pub open spec fn spec_action_executable(name: ActionName, la: LocalArea) -> bool {
    match name {
        ActionName::AttackEnemy => spec_has_enemy_next_to_me(la),
        _ => true,
    }
}

/// Issues the command of a named action.
pub fn get_action_command(name: ActionName, local_area: &LocalArea) -> (command: String)
    requires
        spec_action_executable(name, *local_area),
    ensures
        command@ == spec_action_command(name, *local_area),
{
    match name {
        ActionName::AttackEnemy => (AttackEnemy {  }).get_command(local_area),
        ActionName::SeekFriends => (SeekFriends {  }).get_command(local_area),
        ActionName::GuardMySelf => (GuardMySelf {  }).get_command(local_area),
        ActionName::Escape => (Escape {  }).get_command(local_area),
        ActionName::SelfDestruct => (SelfDestruct {  }).get_command(local_area),
    }
}

/// One rule of the rule table: an action guarded by its preconditions.
pub struct ActionConfiguration {
    pub conditions: Vec<ConditionName>,
    pub action_name: ActionName,
}

/// All of a rule's preconditions hold over a scan.
pub open spec fn spec_config_matches(config: ActionConfiguration, la: LocalArea) -> bool {
    forall|i: int|
        0 <= i < config.conditions@.len() ==> spec_condition_true(
            #[trigger] config.conditions@[i],
            la,
        )
}

impl ActionConfiguration {
    /// A rule from its action and preconditions.
    pub fn new(action_name: ActionName, conditions: Vec<ConditionName>) -> (config: ActionConfiguration)
        ensures
            config.action_name == action_name,
            config.conditions@ == conditions@,
    {
        ActionConfiguration { action_name, conditions }
    }

    /// Whether every precondition of the rule holds.
    pub fn is_matching_preconditions(&self, local_area: &LocalArea) -> (matching: bool)
        requires
            local_area.wf(),
        ensures
            matching == spec_config_matches(*self, *local_area),
    {
        let mut i: usize = 0;
        while i < self.conditions.len()
            invariant
                i <= self.conditions@.len(),
                local_area.wf(),
                forall|j: int|
                    0 <= j < i ==> spec_condition_true(
                        #[trigger] self.conditions@[j],
                        *local_area,
                    ),
            decreases self.conditions@.len() - i,
        {
            let precondition = self.conditions[i];
            let is_true = is_condition_true(precondition, local_area);
            if !is_true {
                return false;
            }
            i = i + 1;
        }
        true
    }
}

/// Index of the first rule from `i` on whose preconditions all hold, or
/// the table length when none do.
pub open spec fn spec_pick_from(configs: Seq<ActionConfiguration>, la: LocalArea, i: nat) -> int
    decreases configs.len() - i,
{
    if i >= configs.len() {
        configs.len() as int
    } else if spec_config_matches(configs[i as int], la) {
        i as int
    } else {
        spec_pick_from(configs, la, i + 1)
    }
}

/// The rule-table engine.
pub struct GameAI<'a> {
    pub action_configurations: &'a Vec<ActionConfiguration>,
}

impl GameAI<'_> {
    /// The action of the first rule whose preconditions all hold.
    pub fn pick_action(&self, local_area: &LocalArea) -> (action: ActionName)
        requires
            local_area.wf(),
            exists|i: int|
                0 <= i < self.action_configurations@.len() && spec_config_matches(
                    #[trigger] self.action_configurations@[i],
                    *local_area,
                ),
        ensures
            spec_pick_from(self.action_configurations@, *local_area, 0)
                < self.action_configurations@.len(),
            action == self.action_configurations@[spec_pick_from(
                self.action_configurations@,
                *local_area,
                0,
            )].action_name,
    {
        let ghost configs = self.action_configurations@;
        let mut i: usize = 0;
        while i < self.action_configurations.len()
            invariant
                i <= configs.len(),
                configs == self.action_configurations@,
                local_area.wf(),
                spec_pick_from(configs, *local_area, 0) == spec_pick_from(
                    configs,
                    *local_area,
                    i as nat,
                ),
                forall|j: int|
                    0 <= j < i ==> !spec_config_matches(#[trigger] configs[j], *local_area),
                exists|j: int|
                    0 <= j < configs.len() && spec_config_matches(
                        #[trigger] configs[j],
                        *local_area,
                    ),
            decreases configs.len() - i,
        {
            let action_configuration = &self.action_configurations[i];
            let is_matching = action_configuration.is_matching_preconditions(local_area);
            if is_matching {
                return action_configuration.action_name;
            }
            i = i + 1;
        }
        proof {
            let w = choose|j: int|
                0 <= j < configs.len() && spec_config_matches(#[trigger] configs[j], *local_area);
            assert(false);
        }
        ActionName::GuardMySelf
    }

    /// The command of the first applicable rule's action.
    pub fn get_command_for_robot(&self, local_area: &LocalArea) -> (command: String)
        requires
            local_area.wf(),
            exists|i: int|
                0 <= i < self.action_configurations@.len() && spec_config_matches(
                    #[trigger] self.action_configurations@[i],
                    *local_area,
                ),
            spec_action_executable(
                self.action_configurations@[spec_pick_from(
                    self.action_configurations@,
                    *local_area,
                    0,
                )].action_name,
                *local_area,
            ),
        ensures
            command@ == spec_action_command(
                self.action_configurations@[spec_pick_from(
                    self.action_configurations@,
                    *local_area,
                    0,
                )].action_name,
                *local_area,
            ),
    {
        let action_name = self.pick_action(local_area);
        get_action_command(action_name, local_area)
    }
}


} // verus!
