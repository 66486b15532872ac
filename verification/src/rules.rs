//! The rules of movement, stated over the board's mathematical model.
use vstd::prelude::*;
use crate::messages::{
    different_tiles_msg, door_wall_msg, impassable_msg, invalid_move_msg, missing_heister_square_msg,
    no_direction_msg, no_escalators_msg, no_teleporters_msg, not_escalator_msg, not_in_grid_msg,
    not_on_escalator_msg, occupied_msg, off_grid_dest_msg, teleporter_color_msg,
    teleporters_differ_msg,
};
use crate::search::{first_match, lemma_first_match};
use crate::state::{abilities_of, first_cover, grid_get, of_color, standing_at, GameStateView, PlayerView};
use crate::tile::{escalator_dest, TileView};
use crate::types::{
    adjacent, direction_towards, door_color, is_door, is_teleport_type, step_in, teleport_color,
    wall_in, Ability, Heister, HeisterColor, MapPosition, Move, MoveDirection, Square, SquareType,
    WallType,
};

verus! {

/// Whether the wall between the heister's square and the adjacent `dest` lets it through.
pub open spec fn wall_check(tiles: Seq<TileView>, from: MapPosition, dest: MapPosition) -> Option<
    Seq<char>,
> {
    match grid_get(tiles, from) {
        None => Some(missing_heister_square_msg(from)),
        Some(sq) => {
            let w = wall_in(sq, direction_towards(from, dest));
            if w == WallType::Clear {
                None
            } else if w == WallType::Impassable {
                Some(impassable_msg())
            } else {
                Some(door_wall_msg(w))
            }
        },
    }
}

/// Refuses `pos` when a heister stands there (naming the first such heister).
pub open spec fn occupancy_check(hs: Seq<Heister>, pos: MapPosition) -> Option<Seq<char>> {
    match first_match(hs, standing_at(pos)) {
        Some(i) => Some(occupied_msg(hs[i].heister_color, pos)),
        None => None,
    }
}

pub open spec fn adjacent_check(tiles: Seq<TileView>, hs: Seq<Heister>, from: MapPosition, dest: MapPosition) -> Option<Seq<char>> {
    match wall_check(tiles, from, dest) {
        Some(m) => Some(m),
        None => occupancy_check(hs, dest),
    }
}

pub open spec fn move_ability(d: MoveDirection) -> Ability {
    match d {
        MoveDirection::North => Ability::MoveNorth,
        MoveDirection::East => Ability::MoveEast,
        MoveDirection::South => Ability::MoveSouth,
        MoveDirection::West => Ability::MoveWest,
    }
}

/// Whether the player may move heisters in the direction of `dest`.
pub open spec fn direction_check(players: Seq<PlayerView>, name: Seq<char>, from: MapPosition, dest: MapPosition) -> Option<Seq<char>> {
    let d = direction_towards(from, dest);
    if abilities_of(players, name).contains(move_ability(d)) {
        None
    } else {
        Some(no_direction_msg(d))
    }
}

/// Both ends of an escalator ride are escalator squares of the same tile.
pub open spec fn escalator_check(tiles: Seq<TileView>, from: MapPosition, dest: MapPosition) -> Option<Seq<char>> {
    match grid_get(tiles, dest) {
        None => Some(not_in_grid_msg(dest)),
        Some(dsq) => if dsq.square_type != SquareType::Escalator {
            Some(not_escalator_msg(dest))
        } else if grid_get(tiles, from)->0.square_type != SquareType::Escalator {
            Some(not_on_escalator_msg())
        } else if tiles[first_cover(tiles, from)->0] == tiles[first_cover(tiles, dest)->0] {
            None
        } else {
            Some(different_tiles_msg())
        },
    }
}

/// A heister teleports from a pad of its own color to a pad of the same color.
pub open spec fn teleport_check(tiles: Seq<TileView>, h: Heister, dest: MapPosition) -> Option<Seq<char>> {
    let from_type = grid_get(tiles, h.map_position)->0.square_type;
    match grid_get(tiles, dest) {
        None => Some(off_grid_dest_msg(dest)),
        Some(dsq) => if teleport_color(from_type) != Some(h.heister_color) {
            Some(teleporter_color_msg())
        } else if from_type == dsq.square_type {
            None
        } else {
            Some(teleporters_differ_msg())
        },
    }
}

/// The heister a move request is about (the first of that color).
pub open spec fn moving_heister(s: GameStateView, c: HeisterColor) -> Heister {
    s.heisters[first_match(s.heisters, of_color(c))->0]
}

/// The player's abilities are consulted: the move goes to an adjacent square,
/// or the heister stands on an escalator or a teleport pad.
pub open spec fn move_needs_player(s: GameStateView, m: Move) -> bool {
    let from = moving_heister(s, m.heister_color).map_position;
    ||| adjacent(from, m.position)
    ||| (grid_get(s.tiles, from) matches Some(sq) && (sq.square_type == SquareType::Escalator
        || is_teleport_type(sq.square_type)))
}

/// `None` when the move is accepted, else the reason it is refused.
pub open spec fn move_outcome(s: GameStateView, m: Move, name: Seq<char>) -> Option<Seq<char>> {
    let h = moving_heister(s, m.heister_color);
    let from = h.map_position;
    let dest = m.position;
    let abilities = abilities_of(s.players, name);
    if adjacent(from, dest) {
        match direction_check(s.players, name, from, dest) {
            Some(msg) => Some(msg),
            None => adjacent_check(s.tiles, s.heisters, from, dest),
        }
    } else {
        match grid_get(s.tiles, from) {
            Some(sq) => if sq.square_type == SquareType::Escalator {
                if !abilities.contains(Ability::UseEscalator) {
                    Some(no_escalators_msg())
                } else {
                    escalator_check(s.tiles, from, dest)
                }
            } else if is_teleport_type(sq.square_type) {
                if !abilities.contains(Ability::UseEscalator) {
                    Some(no_teleporters_msg())
                } else {
                    teleport_check(s.tiles, h, dest)
                }
            } else {
                Some(invalid_move_msg(m.heister_color, from, dest))
            },
            None => Some(invalid_move_msg(m.heister_color, from, dest)),
        }
    }
}


/// The direction of the first door of a square, looking north, east, south, then west.
pub open spec fn first_door_dir(sq: Square) -> Option<MoveDirection> {
    if is_door(sq.north_wall) {
        Some(MoveDirection::North)
    } else if is_door(sq.east_wall) {
        Some(MoveDirection::East)
    } else if is_door(sq.south_wall) {
        Some(MoveDirection::South)
    } else if is_door(sq.west_wall) {
        Some(MoveDirection::West)
    } else {
        None
    }
}

/// The first door of a square, looking north, east, south, then west.
pub open spec fn first_door(sq: Square) -> Option<WallType> {
    match first_door_dir(sq) {
        Some(d) => Some(wall_in(sq, d)),
        None => None,
    }
}

/// Every heister stands on a square of the board.
pub open spec fn heisters_on_grid(tiles: Seq<TileView>, hs: Seq<Heister>) -> bool {
    forall|i: int| 0 <= i < hs.len() ==> #[trigger] grid_get(tiles, hs[i].map_position) is Some
}

/// A heister may reveal a tile from its square when the square's door is of its color.
pub open spec fn at_own_door(tiles: Seq<TileView>, h: Heister) -> bool {
    let sq = grid_get(tiles, h.map_position)->0;
    first_door(sq) matches Some(w) && door_color(w) == Some(h.heister_color)
}

/// The squares of heisters standing at a door of their own color, in heister order.
pub open spec fn placement_positions(tiles: Seq<TileView>, hs: Seq<Heister>) -> Seq<MapPosition>
    decreases hs.len(),
{
    if hs.len() == 0 {
        seq![]
    } else {
        let prev = placement_positions(tiles, hs.drop_last());
        if at_own_door(tiles, hs.last()) {
            prev.push(hs.last().map_position)
        } else {
            prev
        }
    }
}

pub open spec fn as_position(c: (int, int)) -> MapPosition {
    MapPosition { x: c.0 as i32, y: c.1 as i32 }
}

/// Where a tile revealed from door square `p` would be entered.
pub open spec fn entrance_from(tiles: Seq<TileView>, p: MapPosition) -> MapPosition {
    as_position(step_in(p, first_door_dir(grid_get(tiles, p)->0)->0))
}

pub open spec fn keyed<K, V>(k: K) -> spec_fn((K, V)) -> bool {
    |e: (K, V)| e.0 == k
}

/// `s` as a map from keys to values: `k` now maps to `v`, keeping the entry's place.
pub open spec fn insert_keyed<K, V>(s: Seq<(K, V)>, k: K, v: V) -> Seq<(K, V)> {
    match first_match(s, keyed::<K, V>(k)) {
        Some(i) => s.update(i, (k, v)),
        None => s.push((k, v)),
    }
}

/// Door squares mapped to the entrance of the tile that would be revealed there.
pub open spec fn entrance_map(tiles: Seq<TileView>, ps: Seq<MapPosition>) -> Seq<(MapPosition, MapPosition)>
    decreases ps.len(),
{
    if ps.len() == 0 {
        seq![]
    } else {
        let prev = entrance_map(tiles, ps.drop_last());
        insert_keyed(prev, ps.last(), entrance_from(tiles, ps.last()))
    }
}

pub open spec fn tile_entrances(tiles: Seq<TileView>, hs: Seq<Heister>) -> Seq<(MapPosition, MapPosition)> {
    entrance_map(tiles, placement_positions(tiles, hs))
}

/// Where new tiles can be revealed from the heisters' current squares.
pub open spec fn placements(tiles: Seq<TileView>, hs: Seq<Heister>) -> Seq<MapPosition> {
    tile_entrances(tiles, hs).map_values(|e: (MapPosition, MapPosition)| e.1)
}

/// Where the escalator under heister `h` leads.
pub open spec fn escalator_target(tiles: Seq<TileView>, h: Heister) -> MapPosition {
    as_position(escalator_dest(tiles[first_cover(tiles, h.map_position)->0], h.map_position)->0)
}

pub open spec fn on_escalator(tiles: Seq<TileView>, h: Heister) -> bool {
    grid_get(tiles, h.map_position)->0.square_type == SquareType::Escalator
}

/// For each color, where an escalator ride would take the heister of that color.
pub open spec fn escalator_entries(tiles: Seq<TileView>, hs: Seq<Heister>) -> Seq<(HeisterColor, MapPosition)>
    decreases hs.len(),
{
    if hs.len() == 0 {
        seq![]
    } else {
        let prev = escalator_entries(tiles, hs.drop_last());
        let h = hs.last();
        if on_escalator(tiles, h) {
            insert_keyed(prev, h.heister_color, escalator_target(tiles, h))
        } else {
            prev
        }
    }
}

/// Every heister on an escalator square has an escalator leading somewhere.
pub open spec fn escalators_linked(tiles: Seq<TileView>, hs: Seq<Heister>) -> bool {
    forall|i: int|
        0 <= i < hs.len() && #[trigger] on_escalator(tiles, hs[i]) ==> (first_cover(
            tiles,
            hs[i].map_position,
        ) matches Some(j) && escalator_dest(tiles[j], hs[i].map_position) is Some)
}

/// The revealed teleport pads of color `c`, in the order they were revealed.
pub open spec fn pads_of(revealed: Seq<(HeisterColor, MapPosition)>, c: HeisterColor) -> Seq<MapPosition>
    decreases revealed.len(),
{
    if revealed.len() == 0 {
        seq![]
    } else {
        let prev = pads_of(revealed.drop_last(), c);
        if revealed.last().0 == c {
            prev.push(revealed.last().1)
        } else {
            prev
        }
    }
}

/// For each color whose heister stands on a teleport pad of its own color, the
/// revealed pads of that color: the destinations a teleport move can reach.
pub open spec fn teleport_entries(tiles: Seq<TileView>, hs: Seq<Heister>, revealed: Seq<(HeisterColor, MapPosition)>) -> Seq<(HeisterColor, Seq<MapPosition>)>
    decreases hs.len(),
{
    if hs.len() == 0 {
        seq![]
    } else {
        let prev = teleport_entries(tiles, hs.drop_last(), revealed);
        let h = hs.last();
        let pads = pads_of(revealed, h.heister_color);
        if teleport_color(grid_get(tiles, h.map_position)->0.square_type) == Some(h.heister_color)
            && pads.len() > 0 {
            insert_keyed(prev, h.heister_color, pads)
        } else {
            prev
        }
    }
}

/// No key occurs twice in `s`, read as a map from keys to values.
pub open spec fn keys_unique<K, V>(s: Seq<(K, V)>) -> bool {
    forall|i: int, j: int| #![trigger s[i], s[j]] 0 <= i < j < s.len() ==> s[i].0 != s[j].0
}

/// Inserting into a list whose keys are unique keeps them unique.
pub proof fn lemma_insert_keyed_unique<K, V>(s: Seq<(K, V)>, k: K, v: V)
    requires
        keys_unique(s),
    ensures
        keys_unique(insert_keyed(s, k, v)),
{
    lemma_first_match(s, keyed::<K, V>(k));
    let t = insert_keyed(s, k, v);
    match first_match(s, keyed::<K, V>(k)) {
        Some(i) => {
            assert(keyed::<K, V>(k)(s[i]));
            assert forall|a: int, b: int| #![trigger t[a], t[b]] 0 <= a < b < t.len() implies t[a].0 != t[b].0 by {
                assert(t[a].0 == s[a].0);
                assert(t[b].0 == s[b].0);
                assert(s[a].0 != s[b].0);
            }
        },
        None => {
            assert forall|a: int, b: int| #![trigger t[a], t[b]] 0 <= a < b < t.len() implies t[a].0 != t[b].0 by {
                if b == s.len() {
                    assert(!keyed::<K, V>(k)(s[a]));
                } else {
                    assert(s[a].0 != s[b].0);
                }
            }
        },
    }
}

/// Each door square occurs once in the entrance map.
pub proof fn lemma_entrance_map_unique(tiles: Seq<TileView>, ps: Seq<MapPosition>)
    ensures
        keys_unique(entrance_map(tiles, ps)),
    decreases ps.len(),
{
    if ps.len() > 0 {
        lemma_entrance_map_unique(tiles, ps.drop_last());
        lemma_insert_keyed_unique(entrance_map(tiles, ps.drop_last()), ps.last(), entrance_from(tiles, ps.last()));
    }
}

/// Each color occurs once among the escalator destinations.
pub proof fn lemma_escalator_entries_unique(tiles: Seq<TileView>, hs: Seq<Heister>)
    ensures
        keys_unique(escalator_entries(tiles, hs)),
    decreases hs.len(),
{
    if hs.len() > 0 {
        lemma_escalator_entries_unique(tiles, hs.drop_last());
        if on_escalator(tiles, hs.last()) {
            lemma_insert_keyed_unique(
                escalator_entries(tiles, hs.drop_last()),
                hs.last().heister_color,
                escalator_target(tiles, hs.last()),
            );
        }
    }
}

/// Each color occurs once among the teleport destinations.
pub proof fn lemma_teleport_entries_unique(tiles: Seq<TileView>, hs: Seq<Heister>, revealed: Seq<(HeisterColor, MapPosition)>)
    ensures
        keys_unique(teleport_entries(tiles, hs, revealed)),
    decreases hs.len(),
{
    if hs.len() > 0 {
        lemma_teleport_entries_unique(tiles, hs.drop_last(), revealed);
        let h = hs.last();
        lemma_insert_keyed_unique(
            teleport_entries(tiles, hs.drop_last(), revealed),
            h.heister_color,
            pads_of(revealed, h.heister_color),
        );
    }
}

} // verus!
