//! The rules for revealing and laying a new tile, over the board's model.
use vstd::prelude::*;
use crate::messages::{no_door_square_msg, no_tile_at_msg};
use crate::rules::{as_position, first_door_dir};
use crate::search::first_match;
use crate::state::{first_cover, grid_get, lemma_grid_has_cover};
use crate::text::position_text;
use crate::tile::{
    covers, outside_entrance, tile_shape_ok, tile_position_ok, with_entrance_wall, TileView,
};
use crate::types::{
    opposite_of, square_has_door, step_in, with_wall, MapPosition, MoveDirection, Square,
    WallType,
};

verus! {

/// Why a door could not be opened (or why the board has no square somewhere).
#[derive(Clone, Copy, Debug, PartialEq, Eq, Structural)]
pub enum GameError {
    NoSquareAt(MapPosition),
    NoTileAt(MapPosition),
    NoMatchingDoorSquare,
}

pub open spec fn error_text(e: GameError) -> Seq<char> {
    match e {
        GameError::NoSquareAt(p) => "No square at pos "@ + position_text(p),
        GameError::NoTileAt(p) => no_tile_at_msg(p),
        GameError::NoMatchingDoorSquare => no_door_square_msg(),
    }
}

/// Top-left corner of the tile revealed through entrance square `p`, when the
/// heister leaves its tile going `d`. The entrance of every tile is its square
/// at column 1, row 3, turned to face the way the heister comes from.
pub open spec fn new_tile_pos(p: MapPosition, d: MoveDirection) -> (int, int) {
    match d {
        MoveDirection::North => (p.x - 1, p.y - 3),
        MoveDirection::East => (p.x as int, p.y - 1),
        MoveDirection::South => (p.x - 2, p.y as int),
        MoveDirection::West => (p.x - 3, p.y - 2),
    }
}

/// Top-left corner of the tile a heister stands on, from its door square `p`
/// whose door faces `d`.
pub open spec fn current_tile_pos(p: MapPosition, d: MoveDirection) -> (int, int) {
    match d {
        MoveDirection::North => (p.x - 2, p.y as int),
        MoveDirection::West => (p.x as int, p.y - 1),
        MoveDirection::South => (p.x - 1, p.y - 3),
        MoveDirection::East => (p.x - 3, p.y - 2),
    }
}

/// Quarter turns clockwise a tile revealed going `d` is laid with.
pub open spec fn rotations_for(d: MoveDirection) -> u8 {
    match d {
        MoveDirection::North => 0,
        MoveDirection::East => 1,
        MoveDirection::South => 2,
        MoveDirection::West => 3,
    }
}

pub open spec fn positioned_at(c: (int, int)) -> spec_fn(TileView) -> bool {
    |t: TileView| t.position.x == c.0 && t.position.y == c.1
}

pub open spec fn equal_to(sq: Square) -> spec_fn(Square) -> bool {
    |s: Square| s == sq
}

/// The board with the door of `src` (door square `door_pos`, door facing `d`)
/// opened: in the first tile whose corner is where the heister's tile should
/// be, the first square equal to `src` gets a clear wall on side `d`.
pub open spec fn opened_tiles(tiles: Seq<TileView>, door_pos: MapPosition, src: Square, d: MoveDirection) -> Result<Seq<TileView>, GameError> {
    match first_match(tiles, positioned_at(current_tile_pos(door_pos, d))) {
        None => Err(GameError::NoTileAt(door_pos)),
        Some(i) => {
            let t = tiles[i];
            if t.squares.len() == 0 {
                Err(GameError::NoTileAt(door_pos))
            } else {
                match first_match(t.squares, equal_to(src)) {
                    None => Err(GameError::NoMatchingDoorSquare),
                    Some(k) => Ok(
                        tiles.update(
                            i,
                            TileView {
                                squares: t.squares.update(k, with_wall(t.squares[k], d, WallType::Clear)),
                                ..t
                            },
                        ),
                    ),
                }
            }
        },
    }
}

/// Doors on side `d` of tile `idx`, matched against the board `snap` as it was
/// when the tile was laid: where both sides have a door, both open; where only
/// the new tile's side has one, it is walled off; where only the neighbour's
/// side has one, the neighbour's is walled off.
pub open spec fn door_step(live: Seq<TileView>, snap: Seq<TileView>, idx: int, d: MoveDirection) -> Seq<TileView> {
    let pos = as_position(outside_entrance(snap[idx], d));
    match grid_get(snap, pos) {
        None => live,
        Some(neighbor) => {
            let mine = grid_get(snap, as_position(step_in(pos, opposite_of(d))))->0;
            if square_has_door(mine) {
                if square_has_door(neighbor) {
                    let live1 = live.update(idx, with_entrance_wall(live[idx], d, WallType::Clear));
                    let j = first_cover(live1, pos)->0;
                    live1.update(j, with_entrance_wall(live1[j], opposite_of(d), WallType::Clear))
                } else {
                    live.update(idx, with_entrance_wall(live[idx], d, WallType::Impassable))
                }
            } else if square_has_door(neighbor) {
                let j = first_cover(live, pos)->0;
                live.update(j, with_entrance_wall(live[j], opposite_of(d), WallType::Impassable))
            } else {
                live
            }
        },
    }
}

/// The doors of newly laid tile `idx` matched with its neighbours, side by side.
pub open spec fn doors_updated(tiles: Seq<TileView>, idx: int) -> Seq<TileView> {
    let t1 = door_step(tiles, tiles, idx, MoveDirection::North);
    let t2 = door_step(t1, tiles, idx, MoveDirection::East);
    let t3 = door_step(t2, tiles, idx, MoveDirection::South);
    door_step(t3, tiles, idx, MoveDirection::West)
}

/// The squares of `a` and `b` are of the same kinds, square by square.
pub open spec fn same_kinds(a: TileView, b: TileView) -> bool {
    forall|k: int| 0 <= k < a.squares.len() ==> (#[trigger] a.squares[k]).square_type == b.squares[k].square_type
}

/// Same shapes, corners and kinds of squares, tile by tile: only walls differ.
pub open spec fn same_layout(a: Seq<TileView>, b: Seq<TileView>) -> bool {
    &&& a.len() == b.len()
    &&& forall|i: int| 0 <= i < a.len() ==> (#[trigger] a[i]).position == b[i].position
        && a[i].squares.len() == b[i].squares.len() && a[i].escalators == b[i].escalators
        && same_kinds(a[i], b[i])
}

pub open spec fn tiles_shape_ok(tiles: Seq<TileView>) -> bool {
    forall|i: int| 0 <= i < tiles.len() ==> #[trigger] tile_shape_ok(tiles[i])
}

pub proof fn lemma_same_layout_cover(a: Seq<TileView>, b: Seq<TileView>, p: MapPosition)
    requires
        same_layout(a, b),
    ensures
        first_cover(a, p) == first_cover(b, p),
    decreases a.len(),
{
    if a.len() > 0 {
        assert(a[0].position == b[0].position);
        let a1 = a.drop_first();
        let b1 = b.drop_first();
        assert forall|i: int| 0 <= i < a1.len() implies (#[trigger] a1[i]).position == b1[i].position
            && a1[i].squares.len() == b1[i].squares.len() && a1[i].escalators == b1[i].escalators
            && same_kinds(a1[i], b1[i]) by {
            assert(a1[i] == a[i + 1]);
            assert(b1[i] == b[i + 1]);
        }
        lemma_same_layout_cover(a1, b1, p);
    }
}

/// Opening or closing an entrance changes walls only.
pub proof fn lemma_entrance_wall_layout(t: TileView, d: MoveDirection, w: WallType)
    requires
        t.squares.len() == 16,
    ensures
        with_entrance_wall(t, d, w).position == t.position,
        with_entrance_wall(t, d, w).squares.len() == 16,
        with_entrance_wall(t, d, w).escalators == t.escalators,
        forall|k: int|
            0 <= k < 16 ==> (#[trigger] with_entrance_wall(t, d, w).squares[k]).square_type
                == t.squares[k].square_type,
{
}

pub proof fn lemma_door_step_layout(live: Seq<TileView>, snap: Seq<TileView>, idx: int, d: MoveDirection)
    requires
        0 <= idx < snap.len(),
        same_layout(live, snap),
        tiles_shape_ok(live),
    ensures
        same_layout(door_step(live, snap, idx, d), snap),
        tiles_shape_ok(door_step(live, snap, idx, d)),
{
    let pos = as_position(outside_entrance(snap[idx], d));
    let r = door_step(live, snap, idx, d);
    assert(tile_shape_ok(live[idx]));
    lemma_entrance_wall_layout(live[idx], d, WallType::Clear);
    lemma_entrance_wall_layout(live[idx], d, WallType::Impassable);
    if let Some(_) = grid_get(snap, pos) {
        lemma_grid_has_cover(snap, pos);
        lemma_same_layout_cover(live, snap, pos);
        let j = first_cover(live, pos)->0;
        assert(tile_shape_ok(live[j]));
        lemma_entrance_wall_layout(live[j], opposite_of(d), WallType::Clear);
        lemma_entrance_wall_layout(live[j], opposite_of(d), WallType::Impassable);
        let live1 = live.update(idx, with_entrance_wall(live[idx], d, WallType::Clear));
        assert(same_layout(live1, snap));
        lemma_same_layout_cover(live1, live, pos);
        assert(live1[j] == if j == idx { with_entrance_wall(live[idx], d, WallType::Clear) } else { live[j] });
        if j == idx {
            lemma_entrance_wall_layout(with_entrance_wall(live[idx], d, WallType::Clear), opposite_of(d), WallType::Clear);
        }
    }
    assert forall|i: int| 0 <= i < r.len() implies #[trigger] tile_shape_ok(r[i]) by {
        assert(tile_shape_ok(live[i]));
    }
}


/// A tile corner with room around it inside the `i32` range.
pub open spec fn corner_ok(c: (int, int)) -> bool {
    &&& i32::MIN + 8 <= c.0 <= i32::MAX - 8
    &&& i32::MIN + 8 <= c.1 <= i32::MAX - 8
}

/// Matching the doors of a newly laid tile changes walls only.
pub proof fn lemma_doors_updated_layout(tiles: Seq<TileView>, idx: int)
    requires
        0 <= idx < tiles.len(),
        tiles_shape_ok(tiles),
    ensures
        same_layout(doors_updated(tiles, idx), tiles),
        tiles_shape_ok(doors_updated(tiles, idx)),
{
    let t1 = door_step(tiles, tiles, idx, MoveDirection::North);
    let t2 = door_step(t1, tiles, idx, MoveDirection::East);
    let t3 = door_step(t2, tiles, idx, MoveDirection::South);
    lemma_door_step_layout(tiles, tiles, idx, MoveDirection::North);
    lemma_door_step_layout(t1, tiles, idx, MoveDirection::East);
    lemma_door_step_layout(t2, tiles, idx, MoveDirection::South);
    lemma_door_step_layout(t3, tiles, idx, MoveDirection::West);
}

} // verus!
