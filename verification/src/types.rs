//! Board vocabulary: positions, directions, walls and squares.
use vstd::prelude::*;

verus! {

/// An absolute position on the board; `y` grows towards the south.
#[derive(Clone, Copy, Debug, PartialEq, Eq, Structural, Hash)]
pub struct MapPosition {
    pub x: i32,
    pub y: i32,
}

#[derive(Clone, Copy, Debug, PartialEq, Eq, Structural, Hash)]
pub enum MoveDirection {
    North,
    East,
    South,
    West,
}

#[derive(Clone, Copy, Debug, PartialEq, Eq, Structural, Hash)]
pub enum WallType {
    Clear,
    Impassable,
    PurpleDoor,
    OrangeDoor,
    GreenDoor,
    YellowDoor,
}

#[derive(Clone, Copy, Debug, PartialEq, Eq, Structural, Hash)]
pub enum SquareType {
    Normal,
    Escalator,
    PurpleTeleportPad,
    OrangeTeleportPad,
    GreenTeleportPad,
    YellowTeleportPad,
    TimerFlip,
}

#[derive(Clone, Copy, Debug, PartialEq, Eq, Structural, Hash)]
pub enum HeisterColor {
    Yellow,
    Purple,
    Green,
    Orange,
}

#[derive(Clone, Copy, Debug, PartialEq, Eq, Structural, Hash)]
pub enum Ability {
    MoveNorth,
    MoveEast,
    MoveSouth,
    MoveWest,
    Teleport,
    RevealTiles,
    UseEscalator,
}

/// One square of a tile, with its four walls.
#[derive(Clone, Copy, Debug, PartialEq, Eq, Structural, Hash)]
pub struct Square {
    pub north_wall: WallType,
    pub east_wall: WallType,
    pub south_wall: WallType,
    pub west_wall: WallType,
    pub square_type: SquareType,
}

#[derive(Clone, Copy, Debug, PartialEq, Eq, Structural, Hash)]
pub struct Heister {
    pub heister_color: HeisterColor,
    pub map_position: MapPosition,
}

/// A heister move request: move the heister of this color to `position`.
#[derive(Clone, Copy, Debug, PartialEq, Eq, Structural, Hash)]
pub struct Move {
    pub heister_color: HeisterColor,
    pub position: MapPosition,
}

/// A tile placement request, naming the entrance square of the new tile.
#[derive(Clone, Copy, Debug, PartialEq, Eq, Structural, Hash)]
pub struct PlaceTile {
    pub tile_entrance: MapPosition,
}

pub open spec fn is_door(w: WallType) -> bool {
    ||| w == WallType::PurpleDoor
    ||| w == WallType::OrangeDoor
    ||| w == WallType::GreenDoor
    ||| w == WallType::YellowDoor
}

pub open spec fn opposite_of(d: MoveDirection) -> MoveDirection {
    match d {
        MoveDirection::North => MoveDirection::South,
        MoveDirection::East => MoveDirection::West,
        MoveDirection::South => MoveDirection::North,
        MoveDirection::West => MoveDirection::East,
    }
}

/// The position one step away in direction `d`.
pub open spec fn step_in(p: MapPosition, d: MoveDirection) -> (int, int) {
    match d {
        MoveDirection::North => (p.x as int, p.y - 1),
        MoveDirection::East => (p.x + 1, p.y as int),
        MoveDirection::South => (p.x as int, p.y + 1),
        MoveDirection::West => (p.x - 1, p.y as int),
    }
}

pub open spec fn at(p: MapPosition) -> (int, int) {
    (p.x as int, p.y as int)
}

pub open spec fn abs_int(v: int) -> int {
    if v < 0 { -v } else { v }
}

/// Two positions are adjacent when they differ by one step along one axis.
pub open spec fn adjacent(a: MapPosition, b: MapPosition) -> bool {
    abs_int(b.x - a.x) + abs_int(b.y - a.y) == 1
}

/// The direction in which `dest` lies from `from` (meaningful for adjacent positions).
pub open spec fn direction_towards(from: MapPosition, dest: MapPosition) -> MoveDirection {
    if dest.y < from.y {
        MoveDirection::North
    } else if dest.x > from.x {
        MoveDirection::East
    } else if dest.y > from.y {
        MoveDirection::South
    } else {
        MoveDirection::West
    }
}

pub open spec fn wall_in(s: Square, d: MoveDirection) -> WallType {
    match d {
        MoveDirection::North => s.north_wall,
        MoveDirection::East => s.east_wall,
        MoveDirection::South => s.south_wall,
        MoveDirection::West => s.west_wall,
    }
}

pub open spec fn with_wall(s: Square, d: MoveDirection, w: WallType) -> Square {
    match d {
        MoveDirection::North => Square { north_wall: w, ..s },
        MoveDirection::East => Square { east_wall: w, ..s },
        MoveDirection::South => Square { south_wall: w, ..s },
        MoveDirection::West => Square { west_wall: w, ..s },
    }
}

pub open spec fn square_has_door(s: Square) -> bool {
    is_door(s.north_wall) || is_door(s.east_wall) || is_door(s.south_wall) || is_door(s.west_wall)
}

pub open spec fn is_teleport_type(t: SquareType) -> bool {
    ||| t == SquareType::PurpleTeleportPad
    ||| t == SquareType::OrangeTeleportPad
    ||| t == SquareType::GreenTeleportPad
    ||| t == SquareType::YellowTeleportPad
}

/// The color of a teleport pad square type.
pub open spec fn teleport_color(t: SquareType) -> Option<HeisterColor> {
    match t {
        SquareType::PurpleTeleportPad => Some(HeisterColor::Purple),
        SquareType::OrangeTeleportPad => Some(HeisterColor::Orange),
        SquareType::GreenTeleportPad => Some(HeisterColor::Green),
        SquareType::YellowTeleportPad => Some(HeisterColor::Yellow),
        _ => None,
    }
}

/// The heister color that may walk through a door.
pub open spec fn door_color(w: WallType) -> Option<HeisterColor> {
    match w {
        WallType::PurpleDoor => Some(HeisterColor::Purple),
        WallType::OrangeDoor => Some(HeisterColor::Orange),
        WallType::GreenDoor => Some(HeisterColor::Green),
        WallType::YellowDoor => Some(HeisterColor::Yellow),
        _ => None,
    }
}

/// A square turned a quarter turn clockwise: what faced west now faces north.
pub open spec fn rotated_square(s: Square) -> Square {
    Square {
        north_wall: s.west_wall,
        east_wall: s.north_wall,
        south_wall: s.east_wall,
        west_wall: s.south_wall,
        square_type: s.square_type,
    }
}

impl MoveDirection {
    pub fn opposite(&self) -> (r: MoveDirection)
        ensures
            r == opposite_of(*self),
    {
        match self {
            MoveDirection::North => MoveDirection::South,
            MoveDirection::East => MoveDirection::West,
            MoveDirection::South => MoveDirection::North,
            MoveDirection::West => MoveDirection::East,
        }
    }
}

impl MapPosition {
    pub fn is_adjacent(&self, other: &MapPosition) -> (r: bool)
        ensures
            r == adjacent(*self, *other),
    {
        let dx: i64 = other.x as i64 - self.x as i64;
        let dy: i64 = other.y as i64 - self.y as i64;
        let ax: i64 = if dx < 0 { -dx } else { dx };
        let ay: i64 = if dy < 0 { -dy } else { dy };
        ax + ay == 1
    }

    pub fn adjacent_move_direction(&self, dest: &MapPosition) -> (r: MoveDirection)
        ensures
            r == direction_towards(*self, *dest),
    {
        if dest.y < self.y {
            MoveDirection::North
        } else if dest.x > self.x {
            MoveDirection::East
        } else if dest.y > self.y {
            MoveDirection::South
        } else {
            MoveDirection::West
        }
    }

    pub fn move_in_direction(&self, dir: &MoveDirection) -> (r: MapPosition)
        requires
            i32::MIN < self.x < i32::MAX,
            i32::MIN < self.y < i32::MAX,
        ensures
            at(r) == step_in(*self, *dir),
    {
        match dir {
            MoveDirection::North => MapPosition { x: self.x, y: self.y - 1 },
            MoveDirection::East => MapPosition { x: self.x + 1, y: self.y },
            MoveDirection::South => MapPosition { x: self.x, y: self.y + 1 },
            MoveDirection::West => MapPosition { x: self.x - 1, y: self.y },
        }
    }
}

pub fn wall_is_door(w: WallType) -> (r: bool)
    ensures
        r == is_door(w),
{
    match w {
        WallType::PurpleDoor | WallType::OrangeDoor | WallType::GreenDoor | WallType::YellowDoor => true,
        _ => false,
    }
}

impl Square {
    pub fn has_door(&self) -> (r: bool)
        ensures
            r == square_has_door(*self),
    {
        wall_is_door(self.north_wall) || wall_is_door(self.east_wall) || wall_is_door(
            self.south_wall,
        ) || wall_is_door(self.west_wall)
    }

    pub fn is_teleport(&self) -> (r: bool)
        ensures
            r == is_teleport_type(self.square_type),
    {
        match self.square_type {
            SquareType::PurpleTeleportPad
            | SquareType::OrangeTeleportPad
            | SquareType::GreenTeleportPad
            | SquareType::YellowTeleportPad => true,
            _ => false,
        }
    }

    pub fn wall(&self, dir: MoveDirection) -> (r: WallType)
        ensures
            r == wall_in(*self, dir),
    {
        match dir {
            MoveDirection::North => self.north_wall,
            MoveDirection::East => self.east_wall,
            MoveDirection::South => self.south_wall,
            MoveDirection::West => self.west_wall,
        }
    }

    pub fn set_wall(&mut self, dir: MoveDirection, w: WallType)
        ensures
            *final(self) == with_wall(*old(self), dir, w),
    {
        match dir {
            MoveDirection::North => { self.north_wall = w; },
            MoveDirection::East => { self.east_wall = w; },
            MoveDirection::South => { self.south_wall = w; },
            MoveDirection::West => { self.west_wall = w; },
        }
    }

    pub fn rotate_clockwise(&self) -> (r: Square)
        ensures
            r == rotated_square(*self),
    {
        Square {
            north_wall: self.west_wall,
            east_wall: self.north_wall,
            south_wall: self.east_wall,
            west_wall: self.south_wall,
            square_type: self.square_type,
        }
    }
}

} // verus!
