//! What holds of the game across its operations.
use vstd::prelude::*;
use vstd::set_lib::{lemma_int_range, lemma_len_subset, lemma_subset_equality, set_int_range};
use crate::abilities::{ability_sets, lemma_ability_sets_cover_all};
use crate::types::{is_teleport_type, WallType};
use crate::chance::is_permutation;
use crate::game::{
    pads_of_tiles,
    after_move, door_side, game_wf, placement_result, placement_target, started_state,
    TIMER_DURATION_SECS,
    with_heisters, with_state, GameView,
};
use crate::messages::empty_deck_msg;
use crate::placement::{
    current_tile_pos, equal_to, lemma_doors_updated_layout, new_tile_pos, opened_tiles,
    positioned_at, rotations_for, same_layout, tiles_shape_ok,
};
use crate::rules::{
    direction_check, first_door, tile_entrances,
    as_position, at_own_door, escalator_check, escalator_target, on_escalator, pads_of,
    teleport_check, entrance_from, entrance_map, keyed, move_ability, move_outcome,
    moving_heister,
    occupancy_check, placement_positions, placements,
};
use crate::search::{
    first_match, last_match, lemma_first_match, lemma_first_match_at, lemma_last_match,
    lemma_last_match_at,
};
use crate::state::{
    abilities_of, covering, first_cover, grid_get, tiles_wf, has_player_named, named, of_color, standing_at, GameStateView,
    GameStatus,
};
use crate::tile::{
    covers, escalator_dest, escalator_partner, square_at, teleporters_upto, entrance_slot, local_index, placed_tile, square_coords, rotate_index, rotate_source, rotated_links,
    rotated_links_n, rotated_squares, rotated_squares_n, tile_shape_ok, tile_wf, TileView,
};
use crate::types::{
    adjacent, at, direction_towards, opposite_of, rotated_square, Ability, Heister, MapPosition, Move, MoveDirection,
    teleport_color, HeisterColor, PlaceTile, Square, SquareType,
};

verus! {

/// The tile a heister stands on, found from its door square going `d`, is laid
/// where a tile revealed through that square going the other way would be:
/// locating the current tile is revealing a new one with the direction reversed.
pub proof fn law_current_tile_is_new_tile_reversed(p: MapPosition, d: MoveDirection)
    ensures
        current_tile_pos(p, d) == new_tile_pos(p, opposite_of(d)),
{
}

/// Index `i` after `n` quarter turns clockwise.
pub open spec fn rotate_index_n(i: int, n: nat) -> int
    decreases n,
{
    if n == 0 {
        i
    } else {
        rotate_index(rotate_index_n(i, (n - 1) as nat))
    }
}

/// A square after `n` quarter turns clockwise.
pub open spec fn rotated_square_n(s: Square, n: nat) -> Square
    decreases n,
{
    if n == 0 {
        s
    } else {
        rotated_square(rotated_square_n(s, (n - 1) as nat))
    }
}

proof fn lemma_rotate_index_range(i: int, n: nat)
    requires
        0 <= i < 16,
    ensures
        0 <= rotate_index_n(i, n) < 16,
    decreases n,
{
    if n > 0 {
        lemma_rotate_index_range(i, (n - 1) as nat);
    }
}

proof fn lemma_rotate_squares_len(s: Seq<Square>, n: nat)
    requires
        s.len() == 16,
    ensures
        rotated_squares_n(s, n).len() == 16,
    decreases n,
{
    if n > 0 {
        lemma_rotate_squares_len(s, (n - 1) as nat);
    }
}

/// Square `i` of a tile, after `n` quarter turns, is square
/// `rotate_index_n(i, n)` of the turned tile, itself turned `n` times.
pub proof fn lemma_rotated_square_moves(s: Seq<Square>, i: int, n: nat)
    requires
        s.len() == 16,
        0 <= i < 16,
    ensures
        rotated_squares_n(s, n)[rotate_index_n(i, n)] == rotated_square_n(s[i], n),
    decreases n,
{
    if n > 0 {
        let m = (n - 1) as nat;
        lemma_rotated_square_moves(s, i, m);
        lemma_rotate_index_range(i, m);
        lemma_rotate_squares_len(s, m);
        let k = rotate_index_n(i, m);
        assert(rotate_source(rotate_index(k)) == k);
    }
}

/// A tile revealed through entrance square `e` going `d` covers `e`; `e` is the
/// tile's entrance square on the side facing where the heister comes from, and
/// it holds the deck tile's south entrance square, turned with the tile.
pub proof fn law_new_tile_covers_entrance(e: MapPosition, d: MoveDirection, t: TileView)
    requires
        t.squares.len() == 16,
        i32::MIN + 8 <= new_tile_pos(e, d).0 <= i32::MAX - 8,
        i32::MIN + 8 <= new_tile_pos(e, d).1 <= i32::MAX - 8,
    ensures
        covers(placed_tile(t, as_position(new_tile_pos(e, d)), rotations_for(d)), e),
        local_index(placed_tile(t, as_position(new_tile_pos(e, d)), rotations_for(d)), e)
            == entrance_slot(opposite_of(d)),
        local_index(placed_tile(t, as_position(new_tile_pos(e, d)), rotations_for(d)), e)
            == rotate_index_n(entrance_slot(MoveDirection::South), rotations_for(d) as nat),
        placed_tile(t, as_position(new_tile_pos(e, d)), rotations_for(d)).squares[entrance_slot(opposite_of(d))]
            == rotated_square_n(t.squares[entrance_slot(MoveDirection::South)], rotations_for(d) as nat),
{
    let n = rotations_for(d) as nat;
    assert(rotate_index_n(13, n) == entrance_slot(opposite_of(d))) by {
        reveal_with_fuel(rotate_index_n, 4);
    }
    lemma_rotated_square_moves(t.squares, 13, n);
}

proof fn lemma_index_four_turns(i: int)
    requires
        0 <= i < 16,
    ensures
        rotate_source(rotate_source(rotate_source(rotate_source(i)))) == i,
        rotate_index(rotate_index(rotate_index(rotate_index(i)))) == i,
{
    if i == 0 {} else if i == 1 {} else if i == 2 {} else if i == 3 {}
    else if i == 4 {} else if i == 5 {} else if i == 6 {} else if i == 7 {}
    else if i == 8 {} else if i == 9 {} else if i == 10 {} else if i == 11 {}
    else if i == 12 {} else if i == 13 {} else if i == 14 {} else {}
}

proof fn lemma_source_range(i: int)
    requires
        0 <= i < 16,
    ensures
        0 <= rotate_source(i) < 16,
{
}

/// Four quarter turns bring a tile's squares and escalator links back as they were.
pub proof fn law_four_turns_are_identity(s: Seq<Square>, l: Seq<(usize, usize)>)
    requires
        s.len() == 16,
        forall|k: int| 0 <= k < l.len() ==> #[trigger] l[k].0 < 16 && l[k].1 < 16,
    ensures
        rotated_squares_n(s, 4) == s,
        rotated_links_n(l, 4) == l,
{
    reveal_with_fuel(rotated_squares_n, 5);
    reveal_with_fuel(rotated_links_n, 5);
    let s1 = rotated_squares(s);
    let s2 = rotated_squares(s1);
    let s3 = rotated_squares(s2);
    let s4 = rotated_squares(s3);
    assert forall|i: int| 0 <= i < 16 implies #[trigger] s4[i] == s[i] by {
        lemma_source_range(i);
        let a = rotate_source(i);
        lemma_source_range(a);
        let b = rotate_source(a);
        lemma_source_range(b);
        let c = rotate_source(b);
        lemma_index_four_turns(i);
        assert(s4[i] == rotated_square(s3[a]));
        assert(s3[a] == rotated_square(s2[b]));
        assert(s2[b] == rotated_square(s1[c]));
        assert(s1[c] == rotated_square(s[rotate_source(c)]));
    }
    assert(s4 =~= s);
    let l1 = rotated_links(l);
    let l2 = rotated_links(l1);
    let l3 = rotated_links(l2);
    let l4 = rotated_links(l3);
    assert forall|k: int| 0 <= k < l.len() implies #[trigger] l4[k] == l[k] by {
        let x = l[k].0 as int;
        let y = l[k].1 as int;
        lemma_index_four_turns(x);
        lemma_index_four_turns(y);
    }
    assert(l4 =~= l);
}

/// A move request changes nothing but the position of the heister it names: a
/// refused move changes nothing at all, and an accepted one puts that heister
/// (the first of its color) on the square asked for.
pub proof fn law_move_changes_only_its_heister(g: GameView, m: Move, name: Seq<char>)
    requires
        first_match(g.state.heisters, of_color(m.heister_color)) is Some,
    ensures
        move_outcome(g.state, m, name) is Some ==> after_move(g, m, name) == g,
        move_outcome(g.state, m, name) is None ==> {
            let a = after_move(g, m, name);
            let i = first_match(g.state.heisters, of_color(m.heister_color))->0;
            &&& a == with_state(g, with_heisters(g.state, a.state.heisters))
            &&& a.state.heisters.len() == g.state.heisters.len()
            &&& a.state.heisters[i] == Heister { map_position: m.position, ..g.state.heisters[i] }
            &&& forall|j: int| 0 <= j < g.state.heisters.len() && j != i ==> #[trigger] a.state.heisters[j] == g.state.heisters[j]
        },
{
    lemma_first_match(g.state.heisters, of_color(m.heister_color));
}

/// No two heisters share a square.
pub open spec fn heisters_apart(hs: Seq<Heister>) -> bool {
    forall|i: int, j: int|
        0 <= i < hs.len() && 0 <= j < hs.len() && i != j ==> (#[trigger] hs[i]).map_position
            != (#[trigger] hs[j]).map_position
}

/// A step to an adjacent square never puts two heisters on one square: a step
/// onto an occupied square is refused.
pub proof fn law_steps_keep_heisters_apart(g: GameView, m: Move, name: Seq<char>)
    requires
        heisters_apart(g.state.heisters),
        first_match(g.state.heisters, of_color(m.heister_color)) is Some,
        adjacent(moving_heister(g.state, m.heister_color).map_position, m.position),
    ensures
        heisters_apart(after_move(g, m, name).state.heisters),
{
    let hs = g.state.heisters;
    lemma_first_match(hs, of_color(m.heister_color));
    if move_outcome(g.state, m, name) is None {
        let i = first_match(hs, of_color(m.heister_color))->0;
        let a = after_move(g, m, name).state.heisters;
        assert(occupancy_check(hs, m.position) is None);
        lemma_first_match(hs, standing_at(m.position));
        assert forall|x: int, y: int|
            0 <= x < a.len() && 0 <= y < a.len() && x != y implies (#[trigger] a[x]).map_position
            != (#[trigger] a[y]).map_position by {
            if x == i {
                assert(!standing_at(m.position)(hs[y]));
            } else if y == i {
                assert(!standing_at(m.position)(hs[x]));
            } else {
                assert(hs[x].map_position != hs[y].map_position);
            }
        }
    }
}

/// A player who joins is then found among the players.
pub proof fn law_joined_player_is_present(players: Seq<crate::state::PlayerView>, name: Seq<char>)
    ensures
        has_player_named(players.push(crate::state::PlayerView { name: name, abilities: seq![] }), name),
{
    let p2 = players.push(crate::state::PlayerView { name: name, abilities: seq![] });
    lemma_first_match(p2, named(name));
    if first_match(p2, named(name)) is None {
        assert(!named(name)(p2[players.len() as int]));
    }
}

/// Every index below `n` is taken by a permutation of `0..n`.
pub proof fn lemma_permutation_onto(perm: Seq<usize>, n: nat, j: int)
    requires
        is_permutation(perm, n),
        0 <= j < n,
    ensures
        exists|i: int| 0 <= i < perm.len() && perm[i] == j,
{
    let ints = perm.map_values(|x: usize| x as int);
    assert(ints.no_duplicates()) by {
        assert forall|a: int, b: int| 0 <= a < ints.len() && 0 <= b < ints.len() && a != b implies ints[a] != ints[b] by {
            assert(perm[a] != perm[b]);
        }
    }
    ints.unique_seq_to_set();
    lemma_int_range(0, n as int);
    let r = set_int_range(0, n as int);
    assert(ints.to_set().subset_of(r)) by {
        assert forall|x: int| ints.to_set().contains(x) implies r.contains(x) by {
            let k = choose|k: int| 0 <= k < ints.len() && ints[k] == x;
            assert(perm[k] < n);
        }
    }
    lemma_len_subset(ints.to_set(), r);
    lemma_subset_equality(ints.to_set(), r);
    assert(r.contains(j));
    assert(ints.to_set().contains(j));
    let k = choose|k: int| 0 <= k < ints.len() && ints[k] == j;
    assert(perm[k] == j);
}

/// Once the game starts with one to eight players, every ability is held by
/// some player.
pub proof fn law_started_players_hold_every_ability(s: GameStateView, now: u64, perm: Seq<usize>, a: Ability)
    requires
        1 <= s.players.len() <= 8,
        is_permutation(perm, ability_sets(s.players.len()).len()),
    ensures
        exists|i: int|
            0 <= i < s.players.len() && (#[trigger] started_state(s, now, perm).players[i]).abilities.contains(a),
{
    let n = s.players.len();
    lemma_ability_sets_cover_all(n, a);
    let sets = ability_sets(n);
    let j = choose|j: int| 0 <= j < sets.len() && #[trigger] sets[j].contains(a);
    lemma_permutation_onto(perm, sets.len(), j);
    let i = choose|i: int| 0 <= i < perm.len() && perm[i] == j;
    let st = started_state(s, now, perm);
    assert(st.players[i].abilities == sets[perm[i] as int]);
}


/// Some heister stands at `p`, at a door of its own color.
pub open spec fn door_heister_at(tiles: Seq<TileView>, hs: Seq<Heister>, p: MapPosition) -> bool {
    exists|i: int| 0 <= i < hs.len() && at_own_door(tiles, hs[i]) && hs[i].map_position == p
}

proof fn lemma_placement_positions_from_heisters(tiles: Seq<TileView>, hs: Seq<Heister>)
    ensures
        forall|k: int|
            0 <= k < placement_positions(tiles, hs).len() ==> door_heister_at(
                tiles,
                hs,
                #[trigger] placement_positions(tiles, hs)[k],
            ),
    decreases hs.len(),
{
    if hs.len() > 0 {
        let prev = hs.drop_last();
        lemma_placement_positions_from_heisters(tiles, prev);
        let ps = placement_positions(tiles, hs);
        let pp = placement_positions(tiles, prev);
        assert forall|k: int| 0 <= k < ps.len() implies door_heister_at(tiles, hs, #[trigger] ps[k]) by {
            if k < pp.len() {
                assert(ps[k] == pp[k]);
                assert(door_heister_at(tiles, prev, pp[k]));
                let i = choose|i: int|
                    0 <= i < prev.len() && at_own_door(tiles, prev[i]) && prev[i].map_position == pp[k];
                assert(hs[i] == prev[i]);
            } else {
                assert(ps.len() != pp.len());
                assert(at_own_door(tiles, hs.last()));
                assert(ps[k] == hs.last().map_position);
                assert(hs[hs.len() - 1] == hs.last());
            }
        }
    }
}

proof fn lemma_entrance_map_values(tiles: Seq<TileView>, ps: Seq<MapPosition>)
    ensures
        forall|k: int|
            0 <= k < entrance_map(tiles, ps).len() ==> exists|pi: int|
                0 <= pi < ps.len() && ps[pi] == (#[trigger] entrance_map(tiles, ps)[k]).0
                    && entrance_map(tiles, ps)[k].1 == entrance_from(tiles, ps[pi]),
    decreases ps.len(),
{
    if ps.len() > 0 {
        let prev_ps = ps.drop_last();
        lemma_entrance_map_values(tiles, prev_ps);
        let prev = entrance_map(tiles, prev_ps);
        let m = entrance_map(tiles, ps);
        let key = ps.last();
        lemma_first_match(prev, keyed::<MapPosition, MapPosition>(key));
        assert forall|k: int| 0 <= k < m.len() implies exists|pi: int|
            0 <= pi < ps.len() && ps[pi] == (#[trigger] m[k]).0 && m[k].1 == entrance_from(tiles, ps[pi]) by {
            if k < prev.len() && m[k] == prev[k] {
                let pj = choose|pj: int|
                    0 <= pj < prev_ps.len() && prev_ps[pj] == prev[k].0 && prev[k].1 == entrance_from(tiles, prev_ps[pj]);
                assert(ps[pj] == prev_ps[pj]);
            } else {
                assert(ps[ps.len() - 1] == key);
            }
        }
    }
}

/// Every place offered for revealing a tile lies just past the door of a
/// heister standing at a door of its own color: no placement is offered for a
/// heister at a door of another color.
pub proof fn law_placements_next_to_own_doors(tiles: Seq<TileView>, hs: Seq<Heister>)
    ensures
        forall|k: int|
            0 <= k < placements(tiles, hs).len() ==> exists|i: int|
                0 <= i < hs.len() && at_own_door(tiles, hs[i]) && #[trigger] placements(tiles, hs)[k]
                    == entrance_from(tiles, hs[i].map_position),
{
    let ps = placement_positions(tiles, hs);
    lemma_placement_positions_from_heisters(tiles, hs);
    lemma_entrance_map_values(tiles, ps);
    let m = entrance_map(tiles, ps);
    assert forall|k: int| 0 <= k < placements(tiles, hs).len() implies exists|i: int|
        0 <= i < hs.len() && at_own_door(tiles, hs[i]) && #[trigger] placements(tiles, hs)[k]
            == entrance_from(tiles, hs[i].map_position) by {
        assert(placements(tiles, hs)[k] == m[k].1);
        let pi = choose|pi: int| 0 <= pi < ps.len() && ps[pi] == m[k].0 && m[k].1 == entrance_from(tiles, ps[pi]);
        assert(door_heister_at(tiles, hs, ps[pi]));
        let i = choose|i: int| 0 <= i < hs.len() && at_own_door(tiles, hs[i]) && hs[i].map_position == ps[pi];
    }
}

proof fn lemma_rotate_links_ok(l: Seq<(usize, usize)>, n: nat)
    requires
        forall|k: int| 0 <= k < l.len() ==> #[trigger] l[k].0 < 16 && l[k].1 < 16,
    ensures
        rotated_links_n(l, n).len() == l.len(),
        forall|k: int|
            0 <= k < rotated_links_n(l, n).len() ==> #[trigger] rotated_links_n(l, n)[k].0 < 16
                && rotated_links_n(l, n)[k].1 < 16,
    decreases n,
{
    if n > 0 {
        lemma_rotate_links_ok(l, (n - 1) as nat);
    }
}

/// A deck tile keeps its shape when it is turned and laid.
pub proof fn lemma_placed_tile_shape(t: TileView, p: MapPosition, n: u8)
    requires
        tile_shape_ok(t),
    ensures
        tile_shape_ok(placed_tile(t, p, n)),
{
    lemma_rotate_squares_len(t.squares, n as nat);
    lemma_rotate_links_ok(t.escalators, n as nat);
}

/// Opening a door keeps every tile's shape and corner.
pub proof fn lemma_opened_layout(tiles: Seq<TileView>, door_pos: MapPosition, src: Square, d: MoveDirection)
    requires
        tiles_shape_ok(tiles),
        opened_tiles(tiles, door_pos, src, d) is Ok,
    ensures
        same_layout(opened_tiles(tiles, door_pos, src, d)->Ok_0, tiles),
        tiles_shape_ok(opened_tiles(tiles, door_pos, src, d)->Ok_0),
{
    let c = current_tile_pos(door_pos, d);
    lemma_first_match(tiles, positioned_at(c));
    let i = first_match(tiles, positioned_at(c))->0;
    lemma_first_match(tiles[i].squares, equal_to(src));
    let t1 = opened_tiles(tiles, door_pos, src, d)->Ok_0;
    assert forall|j: int| 0 <= j < t1.len() implies #[trigger] tile_shape_ok(t1[j]) by {
        assert(tile_shape_ok(tiles[j]));
    }
}

/// Revealing a tile moves one tile from the deck to the board, and a refused
/// request moves none: the tiles on the board and in the deck stay as many.
pub proof fn law_placement_conserves_tiles(g: GameView, pt: PlaceTile, name: Seq<char>)
    requires
        game_wf(g),
    ensures
        placement_result(g, pt, name).0.state.tiles.len() + placement_result(g, pt, name).0.deck.len()
            == g.state.tiles.len() + g.deck.len(),
{
    let s = g.state;
    assert(tiles_shape_ok(s.tiles)) by {
        assert forall|i: int| 0 <= i < s.tiles.len() implies #[trigger] tile_shape_ok(s.tiles[i]) by {
            assert(tile_wf(s.tiles[i]));
        }
    }
    if abilities_of(s.players, name).contains(Ability::RevealTiles) {
        if let Some(hp) = placement_target(s, pt) {
            let sq = grid_get(s.tiles, hp)->0;
            let d = door_side(s, hp);
            if let Ok(t1) = opened_tiles(s.tiles, hp, sq, d) {
                lemma_opened_layout(s.tiles, hp, sq, d);
                if g.deck.len() > 0 {
                    let nt = placed_tile(g.deck.last(), as_position(new_tile_pos(pt.tile_entrance, d)), rotations_for(d));
                    assert(tile_shape_ok(g.deck[g.deck.len() - 1]));
                    lemma_placed_tile_shape(g.deck.last(), as_position(new_tile_pos(pt.tile_entrance, d)), rotations_for(d));
                    let pushed = t1.push(nt);
                    assert forall|i: int| 0 <= i < pushed.len() implies #[trigger] tile_shape_ok(pushed[i]) by {
                        if i < t1.len() {
                            assert(tile_shape_ok(t1[i]));
                        }
                    }
                    lemma_doors_updated_layout(pushed, t1.len() as int);
                }
            }
        }
    }
}

/// A refused tile placement changes nothing, unless it was refused for want of
/// tiles in the deck: then the door was already opened.
pub proof fn law_refused_placement_changes_nothing(g: GameView, pt: PlaceTile, name: Seq<char>)
    requires
        placement_result(g, pt, name).1 matches Some(msg) && msg != empty_deck_msg(),
    ensures
        placement_result(g, pt, name).0 == g,
{
}


/// Square `i` of `t` lies at `p` exactly when `t` covers `p` and `i` is `p`'s index in `t`.
pub proof fn lemma_square_lies_at(t: TileView, i: int, p: MapPosition)
    requires
        0 <= i < 16,
    ensures
        (square_coords(t, i) == at(p)) <==> (covers(t, p) && i == local_index(t, p)),
{
    if covers(t, p) && i == local_index(t, p) {
        let dx = p.x - t.position.x;
        let dy = p.y - t.position.y;
        assert(i == dy * 4 + dx);
        assert(i % 4 == dx);
        assert(i / 4 == dy);
    }
}

/// The board as `get_absolute_grid` lists it, entry `16 * k + i` being square
/// `i` of tile `k`, answers as a map that keeps the last entry for each
/// position: a position has a square exactly when some entry lies there, and
/// the square is that of the last such entry.
pub proof fn law_grid_keeps_last_entry(tiles: Seq<TileView>, p: MapPosition)
    requires
        forall|k: int| 0 <= k < tiles.len() ==> (#[trigger] tiles[k]).squares.len() == 16,
    ensures
        grid_get(tiles, p) is None <==> forall|k: int, i: int|
            0 <= k < tiles.len() && 0 <= i < 16 ==> #[trigger] square_coords(tiles[k], i) != at(p),
        grid_get(tiles, p) matches Some(sq) ==> exists|k: int, i: int|
            0 <= k < tiles.len() && 0 <= i < 16 && #[trigger] square_coords(tiles[k], i) == at(p)
                && tiles[k].squares[i] == sq && forall|k2: int, i2: int|
                k < k2 < tiles.len() && 0 <= i2 < 16 ==> #[trigger] square_coords(tiles[k2], i2) != at(p),
{
    lemma_last_match(tiles, covering(p));
    match last_match(tiles, covering(p)) {
        Some(k) => {
            let i = local_index(tiles[k], p);
            lemma_square_lies_at(tiles[k], i, p);
            assert forall|k2: int, i2: int|
                k < k2 < tiles.len() && 0 <= i2 < 16 implies #[trigger] square_coords(tiles[k2], i2) != at(p) by {
                lemma_square_lies_at(tiles[k2], i2, p);
                assert(!covering(p)(tiles[k2]));
            }
            assert(square_coords(tiles[k], i) == at(p));
        },
        None => {
            assert forall|k: int, i: int|
                0 <= k < tiles.len() && 0 <= i < 16 implies #[trigger] square_coords(tiles[k], i) != at(p) by {
                lemma_square_lies_at(tiles[k], i, p);
                assert(!covering(p)(tiles[k]));
            }
        },
    }
}


/// A player holding no ability can change nothing: each move and each tile
/// placement they ask for is refused and leaves the game as it was.
pub proof fn law_powerless_player_changes_nothing(g: GameView, m: Move, pt: PlaceTile, name: Seq<char>)
    requires
        abilities_of(g.state.players, name).len() == 0,
    ensures
        move_outcome(g.state, m, name) is Some,
        after_move(g, m, name) == g,
        placement_result(g, pt, name).1 is Some,
        placement_result(g, pt, name).0 == g,
{
    let a = abilities_of(g.state.players, name);
    assert(!a.contains(Ability::RevealTiles));
    assert(!a.contains(Ability::UseEscalator));
    let from = moving_heister(g.state, m.heister_color).map_position;
    assert(!a.contains(move_ability(direction_towards(from, m.position))));
}


/// Starting the game keeps who plays, marks the game as going on, and sets the
/// timer to run out five minutes after the start.
pub proof fn law_start_sets_timer(s: GameStateView, now: u64, perm: Seq<usize>)
    requires
        now <= u64::MAX - TIMER_DURATION_SECS,
    ensures
        started_state(s, now, perm).game_status == GameStatus::Ongoing,
        started_state(s, now, perm).timer_runs_out == started_state(s, now, perm).game_started + TIMER_DURATION_SECS,
        started_state(s, now, perm).players.len() == s.players.len(),
        forall|i: int| 0 <= i < s.players.len() ==> (#[trigger] started_state(s, now, perm).players[i]).name == s.players[i].name,
        started_state(s, now, perm).heisters == s.heisters,
        started_state(s, now, perm).tiles == s.tiles,
{
}

/// No position of the board is covered by two tiles.
pub open spec fn tiles_apart(tiles: Seq<TileView>) -> bool {
    forall|i: int, j: int, p: MapPosition|
        0 <= i < j < tiles.len() && #[trigger] covers(tiles[i], p) ==> !#[trigger] covers(tiles[j], p)
}

/// Every escalator link of every tile joins two escalator squares.
pub open spec fn links_join_escalators(tiles: Seq<TileView>) -> bool {
    forall|i: int, k: int|
        0 <= i < tiles.len() && 0 <= k < tiles[i].escalators.len() ==> {
            let link = #[trigger] tiles[i].escalators[k];
            &&& tiles[i].squares[link.0 as int].square_type == SquareType::Escalator
            &&& tiles[i].squares[link.1 as int].square_type == SquareType::Escalator
        }
}

/// The square an escalator leads to is one end of one of the tile's links.
pub proof fn lemma_partner_in_links(links: Seq<(usize, usize)>, idx: int)
    ensures
        escalator_partner(links, idx) matches Some(q) ==> exists|k: int|
            0 <= k < links.len() && (q == (#[trigger] links[k]).0 || q == links[k].1),
    decreases links.len(),
{
    if links.len() > 0 && links[0].0 != idx && links[0].1 != idx {
        let rest = links.drop_first();
        lemma_partner_in_links(rest, idx);
        if let Some(q) = escalator_partner(links, idx) {
            let k = choose|k: int| 0 <= k < rest.len() && (q == (#[trigger] rest[k]).0 || q == rest[k].1);
            assert(links[k + 1] == rest[k]);
        }
    }
}

/// On a board whose tiles share no position, a tile covering `p` is the first
/// and the last tile covering it, so the board shows that tile's square there.
pub proof fn lemma_only_cover(tiles: Seq<TileView>, j: int, p: MapPosition)
    requires
        tiles_apart(tiles),
        0 <= j < tiles.len(),
        covers(tiles[j], p),
    ensures
        first_cover(tiles, p) == Some(j),
        grid_get(tiles, p) == Some(square_at(tiles[j], p)),
{
    assert forall|i: int| 0 <= i < j implies !covering(p)(#[trigger] tiles[i]) by {
        if covers(tiles[i], p) {
            assert(!covers(tiles[j], p));
        }
    }
    lemma_first_match_at(tiles, covering(p), j);
    assert forall|i: int| j < i < tiles.len() implies !covering(p)(#[trigger] tiles[i]) by {
        if covers(tiles[i], p) {
            assert(!covers(tiles[i], p));
        }
    }
    lemma_last_match_at(tiles, covering(p), j);
}

/// The listed escalator destination can be reached by riding the escalator:
/// where no two tiles share a position and every escalator link joins two
/// escalator squares, a heister standing on a linked escalator square passes
/// the escalator rules when it moves to where the escalator leads, and the move
/// is accepted when its player may use escalators and the destination is not
/// next to the heister (a step there follows the rules of walking).
pub proof fn law_escalator_destination_reachable(s: GameStateView, c: HeisterColor, name: Seq<char>)
    requires
        tiles_wf(s.tiles),
        tiles_apart(s.tiles),
        links_join_escalators(s.tiles),
        grid_get(s.tiles, moving_heister(s, c).map_position) is Some,
        on_escalator(s.tiles, moving_heister(s, c)),
        escalator_dest(
            s.tiles[first_cover(s.tiles, moving_heister(s, c).map_position)->0],
            moving_heister(s, c).map_position,
        ) is Some,
    ensures
        escalator_check(
            s.tiles,
            moving_heister(s, c).map_position,
            escalator_target(s.tiles, moving_heister(s, c)),
        ) is None,
        abilities_of(s.players, name).contains(Ability::UseEscalator) && !adjacent(
            moving_heister(s, c).map_position,
            escalator_target(s.tiles, moving_heister(s, c)),
        ) ==> move_outcome(
            s,
            Move { heister_color: c, position: escalator_target(s.tiles, moving_heister(s, c)) },
            name,
        ) is None,
{
    let tiles = s.tiles;
    let h = moving_heister(s, c);
    let from = h.map_position;
    crate::state::lemma_grid_has_cover(tiles, from);
    let j = first_cover(tiles, from)->0;
    let t = tiles[j];
    assert(tile_wf(t));
    let q = escalator_partner(t.escalators, local_index(t, from))->0;
    lemma_partner_in_links(t.escalators, local_index(t, from));
    let k = choose|k: int|
        0 <= k < t.escalators.len() && (q == (#[trigger] t.escalators[k]).0 || q == t.escalators[k].1);
    assert(t.escalators[k].0 < 16 && t.escalators[k].1 < 16);
    assert(0 <= q < 16);
    assert(t.squares[q].square_type == SquareType::Escalator) by {
        assert(tiles[j].escalators[k] == t.escalators[k]);
    }
    let dest = escalator_target(tiles, h);
    assert(dest == as_position(square_coords(t, q)));
    assert(0 <= q % 4 < 4 && 0 <= q / 4 < 4);
    assert(at(dest) == square_coords(t, q));
    lemma_square_lies_at(t, q, dest);
    assert(covers(t, dest) && local_index(t, dest) == q);
    lemma_only_cover(tiles, j, dest);
    assert(grid_get(tiles, dest) == Some(t.squares[q]));
}

/// Every revealed teleport pad is on the board, as a pad of its color.
pub open spec fn revealed_on_board(tiles: Seq<TileView>, revealed: Seq<(HeisterColor, MapPosition)>) -> bool {
    forall|k: int|
        0 <= k < revealed.len() ==> (grid_get(tiles, (#[trigger] revealed[k]).1) matches Some(sq)
            && teleport_color(sq.square_type) == Some(revealed[k].0))
}

/// Each pad listed for color `c` comes from an entry of that color.
pub proof fn lemma_pads_of_revealed(revealed: Seq<(HeisterColor, MapPosition)>, c: HeisterColor, i: int)
    requires
        0 <= i < pads_of(revealed, c).len(),
    ensures
        exists|k: int| 0 <= k < revealed.len() && #[trigger] revealed[k] == (c, pads_of(revealed, c)[i]),
    decreases revealed.len(),
{
    let rest = revealed.drop_last();
    let prev = pads_of(rest, c);
    if i < prev.len() {
        lemma_pads_of_revealed(rest, c, i);
        let k = choose|k: int| 0 <= k < rest.len() && #[trigger] rest[k] == (c, prev[i]);
        assert(revealed[k] == rest[k]);
    } else {
        let last = revealed.len() - 1;
        assert(revealed[last] == (c, pads_of(revealed, c)[i]));
    }
}

/// The listed teleport destinations can be reached by teleporting: where every
/// revealed pad is still on the board as a pad of its color, a heister standing
/// on a pad of its own color passes the teleport rules when it moves to any
/// revealed pad of that color, and the move is accepted when its player holds
/// the ability the game asks of teleports (that of using escalators) and the
/// pad is not next to the heister (a step there follows the rules of walking).
/// (`law_laid_pads_on_board` gives the condition for a game whose tiles share
/// no position: every operation keeps the revealed pads those of the tiles.)
pub proof fn law_teleport_destinations_reachable(
    s: GameStateView,
    revealed: Seq<(HeisterColor, MapPosition)>,
    c: HeisterColor,
    name: Seq<char>,
    i: int,
)
    requires
        revealed_on_board(s.tiles, revealed),
        grid_get(s.tiles, moving_heister(s, c).map_position) matches Some(sq) && teleport_color(
            sq.square_type,
        ) == Some(moving_heister(s, c).heister_color),
        0 <= i < pads_of(revealed, moving_heister(s, c).heister_color).len(),
    ensures
        teleport_check(
            s.tiles,
            moving_heister(s, c),
            pads_of(revealed, moving_heister(s, c).heister_color)[i],
        ) is None,
        abilities_of(s.players, name).contains(Ability::UseEscalator) && !adjacent(
            moving_heister(s, c).map_position,
            pads_of(revealed, moving_heister(s, c).heister_color)[i],
        ) ==> move_outcome(
            s,
            Move { heister_color: c, position: pads_of(revealed, moving_heister(s, c).heister_color)[i] },
            name,
        ) is None,
{
    let h = moving_heister(s, c);
    let dest = pads_of(revealed, h.heister_color)[i];
    lemma_pads_of_revealed(revealed, h.heister_color, i);
    let k = choose|k: int| 0 <= k < revealed.len() && #[trigger] revealed[k] == (h.heister_color, dest);
    assert(grid_get(s.tiles, revealed[k].1) is Some);
    let from_type = grid_get(s.tiles, h.map_position)->0.square_type;
    let dest_type = grid_get(s.tiles, dest)->0.square_type;
    assert(teleport_color(dest_type) == Some(h.heister_color));
    assert(from_type == dest_type);
}

/// Each pad listed among the first `n` squares of `t` is one of those squares,
/// a pad of the listed color.
pub proof fn lemma_teleporters_upto_entry(t: TileView, n: int, k: int)
    requires
        0 <= k < teleporters_upto(t, n).len(),
    ensures
        exists|m: int|
            0 <= m < n && teleport_color((#[trigger] t.squares[m]).square_type) == Some(
                teleporters_upto(t, n)[k].0,
            ) && teleporters_upto(t, n)[k].1 == square_coords(t, m),
    decreases n,
{
    if n > 0 {
        let prev = teleporters_upto(t, n - 1);
        if k < prev.len() {
            lemma_teleporters_upto_entry(t, n - 1, k);
            let m = choose|m: int|
                0 <= m < n - 1 && teleport_color((#[trigger] t.squares[m]).square_type) == Some(prev[k].0)
                    && prev[k].1 == square_coords(t, m);
            assert(t.squares[m] == t.squares[m]);
        } else {
            assert(t.squares[n - 1] == t.squares[n - 1]);
        }
    }
}

/// Each pad of the board's tiles is a square of one of the tiles, a pad of
/// the listed color.
pub proof fn lemma_pads_of_tiles_entry(tiles: Seq<TileView>, k: int)
    requires
        tiles_wf(tiles),
        0 <= k < pads_of_tiles(tiles).len(),
    ensures
        exists|j: int, m: int|
            0 <= j < tiles.len() && 0 <= m < 16 && teleport_color(
                (#[trigger] tiles[j].squares[m]).square_type,
            ) == Some(pads_of_tiles(tiles)[k].0) && at(pads_of_tiles(tiles)[k].1) == square_coords(
                tiles[j],
                m,
            ),
    decreases tiles.len(),
{
    let rest = tiles.drop_last();
    let prev = pads_of_tiles(rest);
    assert forall|i: int| 0 <= i < rest.len() implies #[trigger] tile_wf(rest[i]) by {
        assert(tile_wf(tiles[i]));
    }
    if k < prev.len() {
        lemma_pads_of_tiles_entry(rest, k);
        let (j, m) = choose|j: int, m: int|
            0 <= j < rest.len() && 0 <= m < 16 && teleport_color((#[trigger] rest[j].squares[m]).square_type)
                == Some(prev[k].0) && at(prev[k].1) == square_coords(rest[j], m);
        assert(rest[j] == tiles[j]);
        assert(tiles[j].squares[m] == rest[j].squares[m]);
    } else {
        let t = tiles.last();
        assert(tile_wf(tiles[tiles.len() - 1]));
        let k2 = k - prev.len();
        lemma_teleporters_upto_entry(t, 16, k2);
        let m = choose|m: int|
            0 <= m < 16 && teleport_color((#[trigger] t.squares[m]).square_type) == Some(
                teleporters_upto(t, 16)[k2].0,
            ) && teleporters_upto(t, 16)[k2].1 == square_coords(t, m);
        assert(tiles[tiles.len() - 1].squares[m] == t.squares[m]);
    }
}

/// On a board whose tiles share no position, every pad of the laid tiles is
/// on the board as a pad of its color; so the revealed pads of a game, which
/// are those of its tiles, can all be teleported to.
pub proof fn law_laid_pads_on_board(tiles: Seq<TileView>)
    requires
        tiles_wf(tiles),
        tiles_apart(tiles),
    ensures
        revealed_on_board(tiles, pads_of_tiles(tiles)),
{
    let r = pads_of_tiles(tiles);
    assert forall|k: int| 0 <= k < r.len() implies (grid_get(tiles, (#[trigger] r[k]).1) matches Some(sq)
        && teleport_color(sq.square_type) == Some(r[k].0)) by {
        lemma_pads_of_tiles_entry(tiles, k);
        let (j, m) = choose|j: int, m: int|
            0 <= j < tiles.len() && 0 <= m < 16 && teleport_color((#[trigger] tiles[j].squares[m]).square_type)
                == Some(r[k].0) && at(r[k].1) == square_coords(tiles[j], m);
        lemma_square_lies_at(tiles[j], m, r[k].1);
        lemma_only_cover(tiles, j, r[k].1);
    }
}

/// The door `w` is one that a heister of color `c` may open: each color opens
/// the doors of that color only.
pub open spec fn opens_door(w: WallType, c: HeisterColor) -> bool {
    ||| w == WallType::PurpleDoor && c == HeisterColor::Purple
    ||| w == WallType::OrangeDoor && c == HeisterColor::Orange
    ||| w == WallType::GreenDoor && c == HeisterColor::Green
    ||| w == WallType::YellowDoor && c == HeisterColor::Yellow
}

/// Heister `h` stands on a square whose door it may open.
pub open spec fn stands_at_door_it_opens(tiles: Seq<TileView>, h: Heister) -> bool {
    first_door(grid_get(tiles, h.map_position)->0) matches Some(w) && opens_door(w, h.heister_color)
}

/// Tiles are revealed only through doors of the revealing heister's own
/// color: every square offered to reveal from holds a heister who may open
/// that square's door, every offered placement lies just past such a door,
/// and a tile placement request is accepted only when such a heister stands at
/// the door it is revealed from. A heister at a door of another color gets no
/// placement, and its request is refused.
pub proof fn law_reveal_only_through_own_color_door(g: GameView, pt: PlaceTile, name: Seq<char>)
    ensures
        forall|k: int|
            0 <= k < placement_positions(g.state.tiles, g.state.heisters).len() ==> exists|i: int|
                0 <= i < g.state.heisters.len() && g.state.heisters[i].map_position
                    == #[trigger] placement_positions(g.state.tiles, g.state.heisters)[k]
                    && stands_at_door_it_opens(g.state.tiles, g.state.heisters[i]),
        forall|k: int|
            0 <= k < placements(g.state.tiles, g.state.heisters).len() ==> exists|i: int|
                0 <= i < g.state.heisters.len() && #[trigger] placements(g.state.tiles, g.state.heisters)[k]
                    == entrance_from(g.state.tiles, g.state.heisters[i].map_position)
                    && stands_at_door_it_opens(g.state.tiles, g.state.heisters[i]),
        placement_result(g, pt, name).1 is None ==> abilities_of(g.state.players, name).contains(
            Ability::RevealTiles,
        ),
        placement_result(g, pt, name).1 is None ==> exists|i: int|
            0 <= i < g.state.heisters.len() && Some(g.state.heisters[i].map_position) == placement_target(
                g.state,
                pt,
            ) && stands_at_door_it_opens(g.state.tiles, g.state.heisters[i]),
{
    let tiles = g.state.tiles;
    let hs = g.state.heisters;
    let ps = placement_positions(tiles, hs);
    lemma_placement_positions_from_heisters(tiles, hs);
    assert forall|k: int| 0 <= k < ps.len() implies exists|i: int|
        0 <= i < hs.len() && hs[i].map_position == #[trigger] ps[k]
            && stands_at_door_it_opens(tiles, hs[i]) by {
        assert(door_heister_at(tiles, hs, ps[k]));
        let i = choose|i: int| 0 <= i < hs.len() && at_own_door(tiles, hs[i]) && hs[i].map_position == ps[k];
        assert(at_own_door(tiles, hs[i]));
    }
    law_placements_next_to_own_doors(tiles, hs);
    assert forall|k: int| 0 <= k < placements(tiles, hs).len() implies exists|i: int|
        0 <= i < hs.len() && #[trigger] placements(tiles, hs)[k] == entrance_from(tiles, hs[i].map_position)
            && stands_at_door_it_opens(tiles, hs[i]) by {
        let i = choose|i: int|
            0 <= i < hs.len() && at_own_door(tiles, hs[i]) && #[trigger] placements(tiles, hs)[k]
                == entrance_from(tiles, hs[i].map_position);
        assert(at_own_door(tiles, hs[i]));
    }
    if placement_result(g, pt, name).1 is None {
        let es = tile_entrances(tiles, hs);
        lemma_first_match(es, crate::game::entering_at(pt.tile_entrance));
        let j = first_match(es, crate::game::entering_at(pt.tile_entrance))->0;
        let hp = es[j].0;
        lemma_entrance_map_values(tiles, ps);
        let pi = choose|pi: int| 0 <= pi < ps.len() && ps[pi] == es[j].0 && es[j].1 == entrance_from(tiles, ps[pi]);
        assert(door_heister_at(tiles, hs, ps[pi]));
        let i = choose|i: int| 0 <= i < hs.len() && at_own_door(tiles, hs[i]) && hs[i].map_position == ps[pi];
        assert(at_own_door(tiles, hs[i]));
        assert(Some(hs[i].map_position) == placement_target(g.state, pt));
    }
}

/// A step needs the ability of its own direction: a step north, east, south or
/// west passes the ability check exactly when the player holds the ability to
/// move that way, and a step is accepted only when the player holds it.
pub proof fn law_step_needs_its_direction(s: GameStateView, m: Move, name: Seq<char>)
    ensures
        ({
            let from = moving_heister(s, m.heister_color).map_position;
            let dest = m.position;
            let a = abilities_of(s.players, name);
            &&& dest.x == from.x && dest.y == from.y - 1 ==> (direction_check(s.players, name, from, dest) is None
                <==> a.contains(Ability::MoveNorth))
            &&& dest.x == from.x + 1 && dest.y == from.y ==> (direction_check(s.players, name, from, dest) is None
                <==> a.contains(Ability::MoveEast))
            &&& dest.x == from.x && dest.y == from.y + 1 ==> (direction_check(s.players, name, from, dest) is None
                <==> a.contains(Ability::MoveSouth))
            &&& dest.x == from.x - 1 && dest.y == from.y ==> (direction_check(s.players, name, from, dest) is None
                <==> a.contains(Ability::MoveWest))
            &&& move_outcome(s, m, name) is None && dest.x == from.x && dest.y == from.y - 1 ==> a.contains(Ability::MoveNorth)
            &&& move_outcome(s, m, name) is None && dest.x == from.x + 1 && dest.y == from.y ==> a.contains(Ability::MoveEast)
            &&& move_outcome(s, m, name) is None && dest.x == from.x && dest.y == from.y + 1 ==> a.contains(Ability::MoveSouth)
            &&& move_outcome(s, m, name) is None && dest.x == from.x - 1 && dest.y == from.y ==> a.contains(Ability::MoveWest)
        }),
{
}

/// An escalator ride stays on its tile: when a heister on an escalator square
/// is accepted to move to a square not next to it, the destination is an
/// escalator square, and the tile under the start is the tile under the
/// destination.
pub proof fn law_escalator_ride_stays_on_tile(s: GameStateView, m: Move, name: Seq<char>)
    requires
        (grid_get(s.tiles, moving_heister(s, m.heister_color).map_position) matches Some(sq)
            && sq.square_type == SquareType::Escalator),
        !adjacent(moving_heister(s, m.heister_color).map_position, m.position),
        move_outcome(s, m, name) is None,
    ensures
        (grid_get(s.tiles, m.position) matches Some(d) && d.square_type == SquareType::Escalator),
        abilities_of(s.players, name).contains(Ability::UseEscalator),
        first_cover(s.tiles, moving_heister(s, m.heister_color).map_position) is Some,
        first_cover(s.tiles, m.position) is Some,
        s.tiles[first_cover(s.tiles, moving_heister(s, m.heister_color).map_position)->0]
            == s.tiles[first_cover(s.tiles, m.position)->0],
{
    crate::state::lemma_grid_has_cover(s.tiles, moving_heister(s, m.heister_color).map_position);
    crate::state::lemma_grid_has_cover(s.tiles, m.position);
}

/// A teleport ends on a pad of the heister's own color: when a heister on a
/// teleport pad is accepted to move to a square not next to it, it stands on a
/// pad of its own color and the destination is a pad of the same kind.
pub proof fn law_teleport_lands_on_own_pad(s: GameStateView, m: Move, name: Seq<char>)
    requires
        (grid_get(s.tiles, moving_heister(s, m.heister_color).map_position) matches Some(sq)
            && is_teleport_type(sq.square_type)),
        !adjacent(moving_heister(s, m.heister_color).map_position, m.position),
        move_outcome(s, m, name) is None,
    ensures
        (grid_get(s.tiles, m.position) matches Some(d) && d.square_type == grid_get(
            s.tiles,
            moving_heister(s, m.heister_color).map_position,
        )->0.square_type),
        teleport_color(grid_get(s.tiles, m.position)->0.square_type) == Some(
            moving_heister(s, m.heister_color).heister_color,
        ),
        is_teleport_type(grid_get(s.tiles, m.position)->0.square_type),
        abilities_of(s.players, name).contains(Ability::UseEscalator),
{
}

/// A step goes only through an open side: when a heister is accepted to step
/// north, east, south or west, its square has a clear wall on that side, and
/// no heister stands on the square it steps to.
pub proof fn law_step_through_clear_wall(s: GameStateView, m: Move, name: Seq<char>)
    requires
        move_outcome(s, m, name) is None,
        adjacent(moving_heister(s, m.heister_color).map_position, m.position),
    ensures
        ({
            let from = moving_heister(s, m.heister_color).map_position;
            let dest = m.position;
            let sq = grid_get(s.tiles, from)->0;
            &&& grid_get(s.tiles, from) is Some
            &&& dest.y == from.y - 1 ==> sq.north_wall == WallType::Clear
            &&& dest.x == from.x + 1 ==> sq.east_wall == WallType::Clear
            &&& dest.y == from.y + 1 ==> sq.south_wall == WallType::Clear
            &&& dest.x == from.x - 1 ==> sq.west_wall == WallType::Clear
            &&& forall|k: int| 0 <= k < s.heisters.len() ==> (#[trigger] s.heisters[k]).map_position != dest
        }),
{
    let dest = m.position;
    lemma_first_match(s.heisters, standing_at(dest));
    assert forall|k: int| 0 <= k < s.heisters.len() implies (#[trigger] s.heisters[k]).map_position != dest by {
        assert(!standing_at(dest)(s.heisters[k]));
    }
}

/// Every ability set dealt holds at least one ability, and none twice: no
/// player is left without a way to help, for any number of players.
pub proof fn law_ability_sets_never_empty(n: nat)
    ensures
        forall|i: int| 0 <= i < ability_sets(n).len() ==> (#[trigger] ability_sets(n)[i]).len() > 0,
        forall|i: int| 0 <= i < ability_sets(n).len() ==> (#[trigger] ability_sets(n)[i]).no_duplicates(),
{
    let s = ability_sets(n);
    assert forall|i: int| 0 <= i < s.len() implies (#[trigger] s[i]).len() > 0 && s[i].no_duplicates() by {
        reveal_with_fuel(Seq::no_duplicates, 1);
    }
}

/// Once the game starts, every player holds at least one ability.
pub proof fn law_started_players_can_act(s: GameStateView, now: u64, perm: Seq<usize>)
    requires
        s.players.len() <= 8,
        is_permutation(perm, ability_sets(s.players.len()).len()),
    ensures
        forall|i: int|
            0 <= i < s.players.len() ==> (#[trigger] started_state(s, now, perm).players[i]).abilities.len() > 0,
{
    law_ability_sets_never_empty(s.players.len());
    let n = s.players.len();
    lemma_ability_sets_cover_all(n, Ability::MoveNorth);
    assert forall|i: int| 0 <= i < n implies (#[trigger] started_state(s, now, perm).players[i]).abilities.len() > 0 by {
        assert(perm[i] < ability_sets(n).len());
        assert(started_state(s, now, perm).players[i].abilities == ability_sets(n)[perm[i] as int]);
    }
}

} // verus!
