//! Tiles: four-by-four blocks of squares placed on the board.
use vstd::prelude::*;
use crate::types::{
    at, rotated_square, teleport_color, with_wall, HeisterColor, MapPosition, MoveDirection, Square,
    SquareType, WallType,
};

verus! {

/// Number of squares along one side of a tile.
pub const TILE_SIDE: i32 = 4;

/// A tile of the board. Squares are stored row by row: square `i` sits at
/// column `i % 4` and row `i / 4` from the tile's top-left `position`.
/// `escalators` links pairs of square indices joined by an escalator.
pub struct Tile {
    pub name: String,
    pub position: MapPosition,
    pub squares: Vec<Square>,
    pub escalators: Vec<(usize, usize)>,
    pub num_rotations: u8,
}

pub struct TileView {
    pub name: Seq<char>,
    pub position: MapPosition,
    pub squares: Seq<Square>,
    pub escalators: Seq<(usize, usize)>,
    pub num_rotations: u8,
}

impl View for Tile {
    type V = TileView;

    open spec fn view(&self) -> TileView {
        TileView {
            name: self.name@,
            position: self.position,
            squares: self.squares@,
            escalators: self.escalators@,
            num_rotations: self.num_rotations,
        }
    }
}

/// The coordinates a tile may take: every square of it, and every square next
/// to it, has coordinates that fit in an `i32` with room to spare.
pub open spec fn tile_position_ok(p: MapPosition) -> bool {
    &&& i32::MIN + 8 <= p.x <= i32::MAX - 8
    &&& i32::MIN + 8 <= p.y <= i32::MAX - 8
}

/// Sixteen squares, and escalator links between squares of the tile.
pub open spec fn tile_shape_ok(t: TileView) -> bool {
    &&& t.squares.len() == 16
    &&& forall|k: int| 0 <= k < t.escalators.len() ==> #[trigger] t.escalators[k].0 < 16
        && t.escalators[k].1 < 16
}

pub open spec fn tile_wf(t: TileView) -> bool {
    &&& tile_shape_ok(t)
    &&& tile_position_ok(t.position)
}

pub open spec fn covers(t: TileView, p: MapPosition) -> bool {
    &&& t.position.x <= p.x < t.position.x + 4
    &&& t.position.y <= p.y < t.position.y + 4
}

/// Index of the square of `t` at absolute position `p` (when `t` covers `p`).
pub open spec fn local_index(t: TileView, p: MapPosition) -> int {
    (p.y - t.position.y) * 4 + (p.x - t.position.x)
}

/// Absolute coordinates of square `i` of `t`.
pub open spec fn square_coords(t: TileView, i: int) -> (int, int) {
    (t.position.x + i % 4, t.position.y + i / 4)
}

pub open spec fn square_at(t: TileView, p: MapPosition) -> Square {
    t.squares[local_index(t, p)]
}

/// The square at the middle of each edge through which a tile may be entered
/// or left: the one on the north edge, the east edge, and so on.
pub open spec fn entrance_slot(d: MoveDirection) -> int {
    match d {
        MoveDirection::North => 2,
        MoveDirection::East => 11,
        MoveDirection::South => 13,
        MoveDirection::West => 4,
    }
}

/// The square just outside entrance `d` of `t`.
pub open spec fn outside_entrance(t: TileView, d: MoveDirection) -> (int, int) {
    let c = square_coords(t, entrance_slot(d));
    match d {
        MoveDirection::North => (c.0, c.1 - 1),
        MoveDirection::East => (c.0 + 1, c.1),
        MoveDirection::South => (c.0, c.1 + 1),
        MoveDirection::West => (c.0 - 1, c.1),
    }
}

/// The square linked by an escalator to square `idx`, scanning the links in order.
pub open spec fn escalator_partner(links: Seq<(usize, usize)>, idx: int) -> Option<int>
    decreases links.len(),
{
    if links.len() == 0 {
        None
    } else if links[0].0 == idx {
        Some(links[0].1 as int)
    } else if links[0].1 == idx {
        Some(links[0].0 as int)
    } else {
        escalator_partner(links.drop_first(), idx)
    }
}

/// Where the escalator at `p` leads, if `p` is on a linked escalator square of `t`.
pub open spec fn escalator_dest(t: TileView, p: MapPosition) -> Option<(int, int)> {
    match escalator_partner(t.escalators, local_index(t, p)) {
        Some(j) => Some(square_coords(t, j)),
        None => None,
    }
}

/// The teleport pads among the first `n` squares of `t`, with their colors, in square order.
pub open spec fn teleporters_upto(t: TileView, n: int) -> Seq<(HeisterColor, (int, int))>
    decreases n,
{
    if n <= 0 {
        seq![]
    } else {
        let prev = teleporters_upto(t, n - 1);
        match teleport_color(t.squares[n - 1].square_type) {
            Some(c) => prev.push((c, square_coords(t, n - 1))),
            None => prev,
        }
    }
}

pub open spec fn teleporters(t: TileView) -> Seq<(HeisterColor, (int, int))> {
    teleporters_upto(t, 16)
}

/// Index that square `i` moves to when the tile turns a quarter turn clockwise.
pub open spec fn rotate_index(i: int) -> int {
    (i % 4) * 4 + (3 - i / 4)
}

/// Index of the square that moves to `i` when the tile turns a quarter turn clockwise.
pub open spec fn rotate_source(i: int) -> int {
    (3 - i % 4) * 4 + i / 4
}

pub open spec fn rotated_squares(s: Seq<Square>) -> Seq<Square> {
    Seq::new(16, |i: int| rotated_square(s[rotate_source(i)]))
}

pub open spec fn rotated_links(l: Seq<(usize, usize)>) -> Seq<(usize, usize)> {
    Seq::new(
        l.len(),
        |k: int| (rotate_index(l[k].0 as int) as usize, rotate_index(l[k].1 as int) as usize),
    )
}

pub open spec fn rotated_squares_n(s: Seq<Square>, n: nat) -> Seq<Square>
    decreases n,
{
    if n == 0 {
        s
    } else {
        rotated_squares(rotated_squares_n(s, (n - 1) as nat))
    }
}

pub open spec fn rotated_links_n(l: Seq<(usize, usize)>, n: nat) -> Seq<(usize, usize)>
    decreases n,
{
    if n == 0 {
        l
    } else {
        rotated_links(rotated_links_n(l, (n - 1) as nat))
    }
}

/// `t` turned `n` quarter turns clockwise and put at `position`.
pub open spec fn placed_tile(t: TileView, position: MapPosition, n: u8) -> TileView {
    TileView {
        name: t.name,
        position: position,
        squares: rotated_squares_n(t.squares, n as nat),
        escalators: rotated_links_n(t.escalators, n as nat),
        num_rotations: n,
    }
}

/// `t` with the wall of entrance `d` set to `w`.
pub open spec fn with_entrance_wall(t: TileView, d: MoveDirection, w: WallType) -> TileView {
    let i = entrance_slot(d);
    TileView { squares: t.squares.update(i, with_wall(t.squares[i], d, w)), ..t }
}

/// Copies a vector of plain values.
pub fn copy_vec<T: Copy>(v: &Vec<T>) -> (r: Vec<T>)
    ensures
        r@ == v@,
{
    let mut r: Vec<T> = Vec::new();
    let n = v.len();
    for i in 0..n
        invariant
            n == v.len(),
            r@ == v@.subrange(0, i as int),
    {
        r.push(v[i]);
    }
    r
}

/// Compares two vectors of plain values item by item.
pub fn same_squares(a: &Vec<Square>, b: &Vec<Square>) -> (r: bool)
    ensures
        r == (a@ == b@),
{
    if a.len() != b.len() {
        return false;
    }
    let n = a.len();
    for i in 0..n
        invariant
            n == a.len(),
            n == b.len(),
            forall|k: int| 0 <= k < i ==> a@[k] == b@[k],
    {
        if a[i] != b[i] {
            return false;
        }
    }
    assert(a@ =~= b@);
    true
}

pub fn same_links(a: &Vec<(usize, usize)>, b: &Vec<(usize, usize)>) -> (r: bool)
    ensures
        r == (a@ == b@),
{
    if a.len() != b.len() {
        return false;
    }
    let n = a.len();
    for i in 0..n
        invariant
            n == a.len(),
            n == b.len(),
            forall|k: int| 0 <= k < i ==> a@[k] == b@[k],
    {
        if a[i].0 != b[i].0 || a[i].1 != b[i].1 {
            return false;
        }
    }
    assert(a@ =~= b@);
    true
}

impl Tile {
    /// A copy of the tile.
    pub fn duplicate(&self) -> (r: Tile)
        ensures
            r@ == self@,
    {
        Tile {
            name: self.name.clone(),
            position: self.position,
            squares: copy_vec(&self.squares),
            escalators: copy_vec(&self.escalators),
            num_rotations: self.num_rotations,
        }
    }

    /// Whether two tiles are equal in every field.
    pub fn same_as(&self, other: &Tile) -> (r: bool)
        ensures
            r == (self@ == other@),
    {
        let r = self.name == other.name && self.position == other.position && same_squares(
            &self.squares,
            &other.squares,
        ) && same_links(&self.escalators, &other.escalators) && self.num_rotations
            == other.num_rotations;
        if r {
            assert(self@ =~= other@);
        }
        r
    }

    pub fn covers_position(&self, p: &MapPosition) -> (r: bool)
        ensures
            r == covers(self@, *p),
    {
        let dx: i64 = p.x as i64 - self.position.x as i64;
        let dy: i64 = p.y as i64 - self.position.y as i64;
        0 <= dx && dx < 4 && 0 <= dy && dy < 4
    }

    pub fn square_index(&self, p: &MapPosition) -> (r: usize)
        requires
            covers(self@, *p),
        ensures
            r == local_index(self@, *p),
            r < 16,
    {
        let dx: i64 = p.x as i64 - self.position.x as i64;
        let dy: i64 = p.y as i64 - self.position.y as i64;
        (dy * 4 + dx) as usize
    }

    /// Absolute position of square `i`.
    pub fn square_position(&self, i: usize) -> (r: MapPosition)
        requires
            i < 16,
            tile_position_ok(self.position),
        ensures
            at(r) == square_coords(self@, i as int),
    {
        let col: i32 = (i % 4) as i32;
        let row: i32 = (i / 4) as i32;
        MapPosition { x: self.position.x + col, y: self.position.y + row }
    }

    /// Where the escalator at `pos` leads, if `pos` is a linked escalator square.
    pub fn get_escalator_dest(&self, pos: &MapPosition) -> (r: Option<MapPosition>)
        requires
            tile_wf(self@),
            covers(self@, *pos),
        ensures
            match escalator_dest(self@, *pos) {
                Some(c) => r.is_some() && at(r.unwrap()) == c,
                None => r.is_none(),
            },
    {
        let idx = self.square_index(pos);
        let n = self.escalators.len();
        assert(self.escalators@.skip(0) =~= self.escalators@);
        for k in 0..n
            invariant
                n == self.escalators.len(),
                tile_wf(self@),
                idx == local_index(self@, *pos),
                idx < 16,
                escalator_partner(self.escalators@, idx as int) == escalator_partner(
                    self.escalators@.skip(k as int),
                    idx as int,
                ),
        {
            let link = self.escalators[k];
            assert(self.escalators@.skip(k as int)[0] == link);
            assert(self.escalators@.skip(k as int).drop_first() =~= self.escalators@.skip(
                k + 1,
            ));
            if link.0 == idx {
                return Some(self.square_position(link.1));
            }
            if link.1 == idx {
                return Some(self.square_position(link.0));
            }
        }
        assert(self.escalators@.skip(n as int).len() == 0);
        None
    }

    /// The teleport pads of the tile, with their colors and positions, in square order.
    pub fn get_teleporters(&self) -> (r: Vec<(HeisterColor, MapPosition)>)
        requires
            tile_wf(self@),
        ensures
            r@.len() == teleporters(self@).len(),
            forall|k: int|
                0 <= k < r@.len() ==> #[trigger] r@[k].0 == teleporters(self@)[k].0 && at(r@[k].1)
                    == teleporters(self@)[k].1,
    {
        let mut r: Vec<(HeisterColor, MapPosition)> = Vec::new();
        for i in 0..16usize
            invariant
                tile_wf(self@),
                r@.len() == teleporters_upto(self@, i as int).len(),
                forall|k: int|
                    #![trigger r@[k]]
                    0 <= k < r@.len() ==> r@[k].0 == teleporters_upto(self@, i as int)[k].0 && at(
                        r@[k].1,
                    ) == teleporters_upto(self@, i as int)[k].1,
        {
            let st = self.squares[i].square_type;
            let color = match st {
                SquareType::PurpleTeleportPad => Some(HeisterColor::Purple),
                SquareType::OrangeTeleportPad => Some(HeisterColor::Orange),
                SquareType::GreenTeleportPad => Some(HeisterColor::Green),
                SquareType::YellowTeleportPad => Some(HeisterColor::Yellow),
                _ => None,
            };
            assert(color == teleport_color(self@.squares[i as int].square_type));
            let ghost prev = teleporters_upto(self@, i as int);
            let ghost old_r = r@;
            assert(teleporters_upto(self@, i + 1) == match color {
                Some(c) => prev.push((c, square_coords(self@, i as int))),
                None => prev,
            });
            match color {
                Some(c) => {
                    let p = self.square_position(i);
                    r.push((c, p));
                    assert forall|k: int| #![trigger r@[k]] 0 <= k < r@.len() implies r@[k].0
                        == teleporters_upto(self@, i + 1)[k].0 && at(r@[k].1) == teleporters_upto(
                        self@,
                        i + 1,
                    )[k].1 by {
                        if k < old_r.len() {
                            assert(r@[k] == old_r[k]);
                        }
                    }
                },
                None => {},
            }
        }
        r
    }

    /// For each side, in the order north, east, south, west: the side and the
    /// square just outside the tile's entrance on that side.
    pub fn adjacent_entrances(&self) -> (r: Vec<(MoveDirection, MapPosition)>)
        requires
            tile_position_ok(self.position),
        ensures
            r@.len() == 4,
            r@[0].0 == MoveDirection::North,
            r@[1].0 == MoveDirection::East,
            r@[2].0 == MoveDirection::South,
            r@[3].0 == MoveDirection::West,
            forall|k: int| 0 <= k < 4 ==> at(#[trigger] r@[k].1) == outside_entrance(self@, r@[k].0),
    {
        let x = self.position.x;
        let y = self.position.y;
        let mut r: Vec<(MoveDirection, MapPosition)> = Vec::new();
        r.push((MoveDirection::North, MapPosition { x: x + 2, y: y - 1 }));
        r.push((MoveDirection::East, MapPosition { x: x + 4, y: y + 2 }));
        r.push((MoveDirection::South, MapPosition { x: x + 1, y: y + 4 }));
        r.push((MoveDirection::West, MapPosition { x: x - 1, y: y + 1 }));
        r
    }

    fn set_entrance_wall(&mut self, dir: MoveDirection, w: WallType)
        requires
            old(self).squares@.len() == 16,
        ensures
            final(self)@ == with_entrance_wall(old(self)@, dir, w),
    {
        let i: usize = match dir {
            MoveDirection::North => 2,
            MoveDirection::East => 11,
            MoveDirection::South => 13,
            MoveDirection::West => 4,
        };
        let mut s = self.squares[i];
        s.set_wall(dir, w);
        self.squares.set(i, s);
        assert(self@ =~= with_entrance_wall(old(self)@, dir, w));
    }

    /// Replaces the door of the entrance on side `dir` with a clear passage.
    pub fn open_door_in_dir(&mut self, dir: MoveDirection)
        requires
            old(self).squares@.len() == 16,
        ensures
            final(self)@ == with_entrance_wall(old(self)@, dir, WallType::Clear),
    {
        self.set_entrance_wall(dir, WallType::Clear);
    }

    /// Walls off the entrance on side `dir`.
    pub fn close_door_in_dir(&mut self, dir: MoveDirection)
        requires
            old(self).squares@.len() == 16,
        ensures
            final(self)@ == with_entrance_wall(old(self)@, dir, WallType::Impassable),
    {
        self.set_entrance_wall(dir, WallType::Impassable);
    }
}

/// The squares of a tile turned a quarter turn clockwise.
pub fn rotate_squares_clockwise(s: &Vec<Square>) -> (r: Vec<Square>)
    requires
        s@.len() == 16,
    ensures
        r@ == rotated_squares(s@),
{
    let mut r: Vec<Square> = Vec::new();
    for i in 0..16usize
        invariant
            s@.len() == 16,
            r@.len() == i,
            forall|k: int| 0 <= k < i ==> #[trigger] r@[k] == rotated_square(s@[rotate_source(k)]),
    {
        let src: usize = (3 - i % 4) * 4 + i / 4;
        r.push(s[src].rotate_clockwise());
    }
    assert(r@ =~= rotated_squares(s@));
    r
}

/// Escalator links renumbered for a quarter turn clockwise.
pub fn rotate_links_clockwise(l: &Vec<(usize, usize)>) -> (r: Vec<(usize, usize)>)
    requires
        forall|k: int| 0 <= k < l@.len() ==> #[trigger] l@[k].0 < 16 && l@[k].1 < 16,
    ensures
        r@ == rotated_links(l@),
        forall|k: int| 0 <= k < r@.len() ==> #[trigger] r@[k].0 < 16 && r@[k].1 < 16,
{
    let mut r: Vec<(usize, usize)> = Vec::new();
    let n = l.len();
    for k in 0..n
        invariant
            n == l@.len(),
            forall|j: int| 0 <= j < l@.len() ==> #[trigger] l@[j].0 < 16 && l@[j].1 < 16,
            r@.len() == k,
            forall|j: int|
                0 <= j < k ==> #[trigger] r@[j] == (
                    rotate_index(l@[j].0 as int) as usize,
                    rotate_index(l@[j].1 as int) as usize,
                ),
    {
        let (a, b) = l[k];
        r.push(((a % 4) * 4 + (3 - a / 4), (b % 4) * 4 + (3 - b / 4)));
    }
    assert(r@ =~= rotated_links(l@));
    r
}

} // verus!
