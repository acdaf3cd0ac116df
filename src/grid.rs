//! The demonstrator's infinite grid: directions, positions, players, and the
//! messages and records that fields exchange.
use vstd::prelude::*;

verus! {

/// One of the four neighbours of a field.
#[derive(Debug, Clone, Copy, PartialEq, Eq, Structural)]
pub enum Direction {
    North,
    West,
    South,
    East,
}

/// The opposite of `d`.
pub open spec fn opposite(d: Direction) -> Direction {
    match d {
        Direction::North => Direction::South,
        Direction::West => Direction::East,
        Direction::South => Direction::North,
        Direction::East => Direction::West,
    }
}

impl Direction {
    /// The opposite direction.
    pub fn reverse(&self) -> (r: Direction)
        ensures
            r == opposite(*self),
    {
        match self {
            Direction::North => Direction::South,
            Direction::West => Direction::East,
            Direction::South => Direction::North,
            Direction::East => Direction::West,
        }
    }
}

/// Turning around twice faces the starting direction, and no direction is its own opposite.
pub proof fn reverse_is_involution(d: Direction)
    ensures
        opposite(opposite(d)) == d,
        opposite(d) != d,
{
}

/// The position of a field in the grid.
#[derive(Debug, Clone, Copy, PartialEq, Eq, Structural)]
pub struct Position {
    pub x: i64,
    pub y: i64,
}

/// The position one step from `p` towards `d`: north is `y + 1`, east is `x + 1`.
pub open spec fn step(p: Position, d: Direction) -> (int, int) {
    match d {
        Direction::North => (p.x as int, p.y + 1),
        Direction::West => (p.x - 1, p.y as int),
        Direction::South => (p.x as int, p.y - 1),
        Direction::East => (p.x + 1, p.y as int),
    }
}

/// Whether the neighbour of `p` towards `d` lies within the 64-bit grid.
pub open spec fn has_neighbour(p: Position, d: Direction) -> bool {
    let (x, y) = step(p, d);
    i64::MIN <= x <= i64::MAX && i64::MIN <= y <= i64::MAX
}

impl Position {
    /// The neighbouring position towards `direction`.
    pub fn next(&self, direction: &Direction) -> (r: Position)
        requires
            has_neighbour(*self, *direction),
        ensures
            (r.x as int, r.y as int) == step(*self, *direction),
    {
        match direction {
            Direction::North => Position { x: self.x, y: self.y + 1 },
            Direction::West => Position { x: self.x - 1, y: self.y },
            Direction::South => Position { x: self.x, y: self.y - 1 },
            Direction::East => Position { x: self.x + 1, y: self.y },
        }
    }
}

/// Stepping to a neighbour and back returns to the start.
pub proof fn step_back_returns(p: Position, d: Direction)
    requires
        has_neighbour(p, d),
    ensures
        ({
            let (x, y) = step(p, d);
            step(Position { x: x as i64, y: y as i64 }, opposite(d)) == (p.x as int, p.y as int)
        }),
{
}

/// A player, told apart by its number.
#[derive(Debug, Clone, Copy, PartialEq, Eq, Structural, Hash)]
pub struct Player(pub u64);

/// Tells a field that a player enters it from a direction.
#[derive(Debug, Clone, Copy, PartialEq, Eq, Structural)]
pub struct PlayerEnters {
    pub player: Player,
    pub from: Direction,
}

/// Asks a field to print its current state.
#[derive(Debug, Clone, Copy, PartialEq, Eq, Structural)]
pub struct DebugQuery;

/// What the collector records of one field.
#[derive(Debug, Clone, Copy, PartialEq, Eq, Structural)]
pub struct ActorInfo {
    pub position: Position,
    pub num_figures: usize,
}

/// A minimal field: its players and its position, once known.
#[derive(Debug)]
pub struct Field {
    players: Vec<()>,
    position: Option<(i64, i64)>,
}

impl Field {
    /// Whether the field holds no players.
    pub closed spec fn is_vacant(&self) -> bool {
        self.players@.len() == 0
    }

    /// The field's position, once known.
    pub closed spec fn place(&self) -> Option<(i64, i64)> {
        self.position
    }

    /// An empty field without a position.
    pub fn new() -> (r: Field)
        ensures
            r.is_vacant(),
            r.place() is None,
    {
        Field { players: Vec::new(), position: None }
    }

    /// The type tag fields are spawned under.
    pub fn type_id() -> (r: &'static str)
        ensures
            r@ == "FIELD"@,
    {
        "FIELD"
    }

    /// Whether the field holds no players.
    pub fn is_empty(&self) -> (r: bool)
        ensures
            r == self.is_vacant(),
    {
        self.players.len() == 0
    }
}

} // verus!
