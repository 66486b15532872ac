//! A game: its state, its deck of tiles, and the requests players make of it.
use vstd::prelude::*;
use crate::abilities::{ability_sets, get_player_abilities, views_of};
use crate::chance::{current_time_secs, is_permutation, random_permutation};
use crate::placement::{
    corner_ok, current_tile_pos, door_step, doors_updated, equal_to, error_text,
    lemma_door_step_layout, lemma_doors_updated_layout, lemma_entrance_wall_layout,
    lemma_same_layout_cover, new_tile_pos, opened_tiles, positioned_at, rotations_for, same_kinds,
    same_layout, tiles_shape_ok, GameError,
};
use crate::search::{first_match, last_match, lemma_first_match, lemma_first_match_at, lemma_first_match_none, lemma_last_match, lemma_last_match_at, lemma_last_match_none};
use crate::state::{
    lemma_covered_on_grid, lemma_grid_has_cover,
    abilities_of, covering, first_cover, grid_get, has_player_named, named, of_color, players_view,
    standing_at,
    tiles_view, tiles_wf, Body, MainMessage, GameHandle, GameState, GameStateView, GameStatus, Player, PlayerName,
    PlayerView,
};
use crate::tile::{
    escalator_dest, teleporters_upto,
    covers, local_index, outside_entrance, placed_tile, rotate_links_clockwise,
    rotate_squares_clockwise, rotated_links_n, rotated_squares_n, square_at, square_coords,
    teleporters, tile_shape_ok, tile_wf, with_entrance_wall, Tile, TileView,
};
use crate::messages::{
    door_failed_message, door_failed_msg, door_wall_message, empty_deck_msg, invalid_move_message,
    invalid_request_from_player_msg, state_from_player_msg,
    no_reveal_msg, no_tile_at_message, not_at_door_msg, missing_heister_square_message, no_direction_message,
    not_escalator_message, not_escalator_msg, not_in_grid_message, not_in_grid_msg, occupied_message,
    off_grid_dest_message,
};
use crate::rules::{
    adjacent_check, as_position, direction_check, entrance_from, entrance_map, escalator_check,
    escalator_entries, escalators_linked, first_door, first_door_dir, heisters_on_grid,
    insert_keyed, keyed, keys_unique, lemma_entrance_map_unique, lemma_escalator_entries_unique,
    lemma_teleport_entries_unique, move_needs_player, move_outcome, occupancy_check, on_escalator, pads_of,
    placement_positions, placements, teleport_check, teleport_entries, tile_entrances, wall_check,
};
use crate::types::{
    at, teleport_color, wall_is_door, with_wall, Ability, Heister, HeisterColor, MapPosition, Move, MoveDirection,
    PlaceTile, Square, SquareType, WallType,
};

verus! {

/// How long the players have once the game starts, in seconds.
pub const TIMER_DURATION_SECS: u64 = 300;

pub struct Game {
    pub game_handle: GameHandle,
    pub game_state: GameState,
    pub tile_deck: Vec<Tile>,
    pub game_created: u64,
    /// The teleport pads on the board, with their colors, in the order they were revealed.
    pub revealed_teleporters: Vec<(HeisterColor, MapPosition)>,
}

pub struct GameOptions {
    pub shuffle_tiles: bool,
}

impl Default for GameOptions {
    fn default() -> (r: Self)
        ensures
            r.shuffle_tiles,
    {
        GameOptions { shuffle_tiles: true }
    }
}

/// The answer to a request: accepted, or refused with the reason.
#[derive(Clone, PartialEq, Debug)]
pub enum MoveValidity {
    Valid,
    Invalid(String),
}

/// `None` for an accepted request, the reason's text for a refused one.
pub open spec fn outcome(v: MoveValidity) -> Option<Seq<char>> {
    match v {
        MoveValidity::Valid => None,
        MoveValidity::Invalid(s) => Some(s@),
    }
}

pub struct GameView {
    pub handle: Seq<char>,
    pub state: GameStateView,
    pub deck: Seq<TileView>,
    pub game_created: u64,
    pub revealed: Seq<(HeisterColor, MapPosition)>,
}

impl View for Game {
    type V = GameView;

    open spec fn view(&self) -> GameView {
        GameView {
            handle: self.game_handle.0@,
            state: self.game_state@,
            deck: tiles_view(self.tile_deck@),
            game_created: self.game_created,
            revealed: self.revealed_teleporters@,
        }
    }
}

pub open spec fn deck_wf(deck: Seq<TileView>) -> bool {
    &&& deck.len() <= u32::MAX
    &&& forall|i: int| 0 <= i < deck.len() ==> #[trigger] tile_shape_ok(deck[i])
}

/// The tiles on the board and in the deck are well formed.
pub open spec fn game_wf(g: GameView) -> bool {
    &&& tiles_wf(g.state.tiles)
    &&& deck_wf(g.deck)
}

/// The four heisters at the middle squares of the start tile.
pub open spec fn starting_heisters(p: MapPosition) -> Seq<Heister> {
    seq![
        Heister { heister_color: HeisterColor::Yellow, map_position: MapPosition { x: (p.x + 1) as i32, y: (p.y + 2) as i32 } },
        Heister { heister_color: HeisterColor::Purple, map_position: MapPosition { x: (p.x + 1) as i32, y: (p.y + 1) as i32 } },
        Heister { heister_color: HeisterColor::Green, map_position: MapPosition { x: (p.x + 2) as i32, y: (p.y + 2) as i32 } },
        Heister { heister_color: HeisterColor::Orange, map_position: MapPosition { x: (p.x + 2) as i32, y: (p.y + 1) as i32 } },
    ]
}

/// The teleport pads of the tiles on the board, tile by tile in the order laid.
pub open spec fn pads_of_tiles(tiles: Seq<TileView>) -> Seq<(HeisterColor, MapPosition)>
    decreases tiles.len(),
{
    if tiles.len() == 0 {
        seq![]
    } else {
        pads_of_tiles(tiles.drop_last()) + teleporters_as_positions(tiles.last())
    }
}

/// The revealed teleport pads are exactly those of the tiles laid, in the order laid.
pub open spec fn pads_revealed(g: GameView) -> bool {
    g.revealed == pads_of_tiles(g.state.tiles)
}

/// The teleport pads of a tile depend on its corner and the kinds of its squares only.
pub proof fn lemma_teleporters_same_kinds(a: TileView, b: TileView, n: int)
    requires
        a.position == b.position,
        a.squares.len() == b.squares.len(),
        same_kinds(a, b),
        n <= a.squares.len(),
    ensures
        teleporters_upto(a, n) == teleporters_upto(b, n),
    decreases n,
{
    if n > 0 {
        lemma_teleporters_same_kinds(a, b, n - 1);
        assert(a.squares[n - 1].square_type == b.squares[n - 1].square_type);
    }
}

/// Boards that differ in walls only have the same teleport pads.
pub proof fn lemma_same_layout_pads(a: Seq<TileView>, b: Seq<TileView>)
    requires
        same_layout(a, b),
        tiles_shape_ok(a),
    ensures
        pads_of_tiles(a) == pads_of_tiles(b),
    decreases a.len(),
{
    if a.len() > 0 {
        let a1 = a.drop_last();
        let b1 = b.drop_last();
        assert forall|i: int| 0 <= i < a1.len() implies (#[trigger] a1[i]).position == b1[i].position
            && a1[i].squares.len() == b1[i].squares.len() && a1[i].escalators == b1[i].escalators
            && same_kinds(a1[i], b1[i]) by {
            assert(a1[i] == a[i]);
            assert(b1[i] == b[i]);
        }
        assert forall|i: int| 0 <= i < a1.len() implies #[trigger] tile_shape_ok(a1[i]) by {
            assert(tile_shape_ok(a[i]));
        }
        lemma_same_layout_pads(a1, b1);
        assert(tile_shape_ok(a[a.len() - 1]));
        lemma_teleporters_same_kinds(a.last(), b.last(), 16);
    }
}

/// Laying a tile adds its pads after those already on the board.
pub proof fn lemma_pads_push(tiles: Seq<TileView>, t: TileView)
    ensures
        pads_of_tiles(tiles.push(t)) == pads_of_tiles(tiles) + teleporters_as_positions(t),
{
    assert(tiles.push(t).drop_last() =~= tiles);
}

/// Laying a tile keeps the revealed pads those of the board.
pub proof fn lemma_laid_pads(g: GameView, entrance: MapPosition, d: MoveDirection)
    requires
        tiles_shape_ok(g.state.tiles),
        deck_wf(g.deck),
        pads_revealed(g),
    ensures
        pads_revealed(laid(g, entrance, d)),
{
    if g.deck.len() > 0 {
        let nt = placed_tile(g.deck.last(), as_position(new_tile_pos(entrance, d)), rotations_for(d));
        assert(tile_shape_ok(g.deck[g.deck.len() - 1]));
        crate::laws::lemma_placed_tile_shape(g.deck.last(), as_position(new_tile_pos(entrance, d)), rotations_for(d));
        let t2 = g.state.tiles.push(nt);
        assert forall|i: int| 0 <= i < t2.len() implies #[trigger] tile_shape_ok(t2[i]) by {
            if i < g.state.tiles.len() {
                assert(t2[i] == g.state.tiles[i]);
            }
        }
        lemma_doors_updated_layout(t2, g.state.tiles.len() as int);
        lemma_same_layout_pads(doors_updated(t2, g.state.tiles.len() as int), t2);
        lemma_pads_push(g.state.tiles, nt);
    }
}

/// A tile placement request keeps the revealed pads those of the board.
pub proof fn lemma_placement_pads(g: GameView, pt: PlaceTile, name: Seq<char>)
    requires
        game_wf(g),
        pads_revealed(g),
    ensures
        pads_revealed(placement_result(g, pt, name).0),
{
    assert(tiles_shape_ok(g.state.tiles)) by {
        assert forall|i: int| 0 <= i < g.state.tiles.len() implies #[trigger] tile_shape_ok(g.state.tiles[i]) by {
            assert(tile_wf(g.state.tiles[i]));
        }
    }
    if abilities_of(g.state.players, name).contains(Ability::RevealTiles) {
        if let Some(hp) = placement_target(g.state, pt) {
            let sq = grid_get(g.state.tiles, hp)->0;
            let d = door_side(g.state, hp);
            if let Ok(t1) = opened_tiles(g.state.tiles, hp, sq, d) {
                crate::laws::lemma_opened_layout(g.state.tiles, hp, sq, d);
                lemma_same_layout_pads(t1, g.state.tiles);
                let g1 = with_state(g, with_tiles(g.state, t1));
                lemma_laid_pads(g1, pt.tile_entrance, d);
            }
        }
    }
}

/// A game just created with handle `handle` from start tile `start` and deck
/// `deck`: in the staging phase with no players, the four heisters in the
/// middle of the start tile, the start tile's teleport pads revealed, and the
/// deck as given or, when `shuffle` is set, in some order.
pub open spec fn fresh_game(r: GameView, handle: Seq<char>, shuffle: bool, start: TileView, deck: Seq<TileView>) -> bool {
    &&& game_wf(r)
    &&& r.handle == handle
    &&& r.state.game_name == handle
    &&& r.state.game_started == 0
    &&& r.state.timer_runs_out == 0
    &&& r.state.game_status == GameStatus::Staging
    &&& r.state.players.len() == 0
    &&& r.state.heisters == starting_heisters(start.position)
    &&& r.state.tiles == seq![start]
    &&& r.state.remaining_tiles == deck.len()
    &&& r.state.possible_placements.len() == 0
    &&& r.state.possible_escalators.len() == 0
    &&& r.state.possible_teleports.len() == 0
    &&& r.revealed == teleporters_as_positions(start)
    &&& pads_revealed(r)
    &&& shuffle ==> exists|perm: Seq<usize>| deck_in_order(r.deck, deck, perm)
    &&& !shuffle ==> r.deck == deck
}

/// The deck `deck` laid out in the order `perm`.
pub open spec fn deck_in_order(out: Seq<TileView>, deck: Seq<TileView>, perm: Seq<usize>) -> bool {
    &&& out.len() == deck.len()
    &&& is_permutation(perm, deck.len())
    &&& forall|i: int| 0 <= i < out.len() ==> #[trigger] out[i] == deck[perm[i] as int]
}

pub fn copy_string(s: &String) -> (r: String)
    ensures
        r@ == s@,
{
    s.clone()
}

fn copy_tiles(t: &Vec<Tile>) -> (r: Vec<Tile>)
    ensures
        tiles_view(r@) == tiles_view(t@),
{
    let mut r: Vec<Tile> = Vec::new();
    let n = t.len();
    for i in 0..n
        invariant
            n == t@.len(),
            r@.len() == i,
            forall|k: int| 0 <= k < i ==> #[trigger] r@[k]@ == t@[k]@,
    {
        r.push(t[i].duplicate());
    }
    assert(tiles_view(r@) =~= tiles_view(t@));
    r
}

fn copy_abilities(a: &Vec<Ability>) -> (r: Vec<Ability>)
    ensures
        r@ == a@,
{
    crate::tile::copy_vec(a)
}

fn copy_players(p: &Vec<Player>) -> (r: Vec<Player>)
    ensures
        players_view(r@) == players_view(p@),
{
    let mut r: Vec<Player> = Vec::new();
    let n = p.len();
    for i in 0..n
        invariant
            n == p@.len(),
            r@.len() == i,
            forall|k: int| 0 <= k < i ==> #[trigger] r@[k]@ == p@[k]@,
    {
        r.push(Player { name: copy_string(&p[i].name), abilities: copy_abilities(&p[i].abilities) });
    }
    assert(players_view(r@) =~= players_view(p@));
    r
}

fn copy_teleports(t: &Vec<(HeisterColor, Vec<MapPosition>)>) -> (r: Vec<(HeisterColor, Vec<MapPosition>)>)
    ensures
        crate::state::teleports_view(r@) == crate::state::teleports_view(t@),
{
    let mut r: Vec<(HeisterColor, Vec<MapPosition>)> = Vec::new();
    let n = t.len();
    for i in 0..n
        invariant
            n == t@.len(),
            r@.len() == i,
            forall|k: int| #![trigger r@[k]] 0 <= k < i ==> r@[k].0 == t@[k].0 && r@[k].1@ == t@[k].1@,
    {
        r.push((t[i].0, crate::tile::copy_vec(&t[i].1)));
    }
    assert(crate::state::teleports_view(r@) =~= crate::state::teleports_view(t@));
    r
}

impl GameState {
    /// A game in the staging phase with the start tile on the board and the
    /// four heisters on its middle squares.
    pub fn new(game_name: GameHandle, start_tile: Tile) -> (r: GameState)
        requires
            tile_wf(start_tile@),
        ensures
            r@.game_name == game_name.0@,
            r@.game_started == 0,
            r@.timer_runs_out == 0,
            r@.game_status == GameStatus::Staging,
            r@.players.len() == 0,
            r@.heisters == starting_heisters(start_tile.position),
            r@.tiles == seq![start_tile@],
            r@.remaining_tiles == 0,
            r@.possible_placements.len() == 0,
            r@.possible_escalators.len() == 0,
            r@.possible_teleports.len() == 0,
    {
        let p = start_tile.position;
        let mut heisters: Vec<Heister> = Vec::new();
        heisters.push(Heister { heister_color: HeisterColor::Yellow, map_position: MapPosition { x: p.x + 1, y: p.y + 2 } });
        heisters.push(Heister { heister_color: HeisterColor::Purple, map_position: MapPosition { x: p.x + 1, y: p.y + 1 } });
        heisters.push(Heister { heister_color: HeisterColor::Green, map_position: MapPosition { x: p.x + 2, y: p.y + 2 } });
        heisters.push(Heister { heister_color: HeisterColor::Orange, map_position: MapPosition { x: p.x + 2, y: p.y + 1 } });
        let mut tiles: Vec<Tile> = Vec::new();
        tiles.push(start_tile);
        let r = GameState {
            game_name,
            game_started: 0,
            timer_runs_out: 0,
            game_status: GameStatus::Staging,
            players: Vec::new(),
            heisters,
            tiles,
            remaining_tiles: 0,
            possible_placements: Vec::new(),
            possible_escalators: Vec::new(),
            possible_teleports: Vec::new(),
        };
        assert(r@.heisters =~= starting_heisters(p));
        assert(r@.tiles =~= seq![r.tiles@[0]@]);
        r
    }

    /// A copy of the state.
    pub fn duplicate(&self) -> (r: GameState)
        ensures
            r@ == self@,
    {
        GameState {
            game_name: GameHandle(copy_string(&self.game_name.0)),
            game_started: self.game_started,
            timer_runs_out: self.timer_runs_out,
            game_status: self.game_status,
            players: copy_players(&self.players),
            heisters: crate::tile::copy_vec(&self.heisters),
            tiles: copy_tiles(&self.tiles),
            remaining_tiles: self.remaining_tiles,
            possible_placements: crate::tile::copy_vec(&self.possible_placements),
            possible_escalators: crate::tile::copy_vec(&self.possible_escalators),
            possible_teleports: copy_teleports(&self.possible_teleports),
        }
    }
}

/// The deck laid out in the order `perm`.
fn reorder_deck(deck: &Vec<Tile>, perm: &Vec<usize>) -> (r: Vec<Tile>)
    requires
        is_permutation(perm@, deck@.len()),
    ensures
        deck_in_order(tiles_view(r@), tiles_view(deck@), perm@),
{
    let mut r: Vec<Tile> = Vec::new();
    let n = perm.len();
    for i in 0..n
        invariant
            n == perm@.len(),
            is_permutation(perm@, deck@.len()),
            r@.len() == i,
            forall|k: int| 0 <= k < i ==> #[trigger] r@[k]@ == deck@[perm@[k] as int]@,
    {
        r.push(deck[perm[i]].duplicate());
    }
    r
}

impl Game {
    /// A new game in the staging phase, created at time `now`. The start tile
    /// is laid, and the deck is shuffled when the options ask for it.
    pub fn new_at(game_handle: GameHandle, game_options: GameOptions, start_tile: Tile, tile_deck: Vec<Tile>, now: u64) -> (r: Game)
        requires
            tile_wf(start_tile@),
            deck_wf(tiles_view(tile_deck@)),
        ensures
            fresh_game(r@, game_handle.0@, game_options.shuffle_tiles, start_tile@, tiles_view(tile_deck@)),
            r@.game_created == now,
    {
        let start_position = start_tile.position;
        let revealed_teleporters = Self::revealed_from(&start_tile);
        let mut game_state = GameState::new(GameHandle(copy_string(&game_handle.0)), start_tile);
        game_state.remaining_tiles = tile_deck.len() as u32;
        let ghost mut witness: Seq<usize> = Seq::empty();
        let deck = if game_options.shuffle_tiles {
            let perm = random_permutation(tile_deck.len());
            let d = reorder_deck(&tile_deck, &perm);
            proof {
                witness = perm@;
            }
            d
        } else {
            tile_deck
        };
        let game_created = now;
        let r = Game {
            game_handle,
            game_state,
            tile_deck: deck,
            game_created,
            revealed_teleporters,
        };
        assert forall|i: int| 0 <= i < r@.deck.len() implies #[trigger] tile_shape_ok(r@.deck[i]) by {
            if game_options.shuffle_tiles {
                assert(r@.deck[i] == tiles_view(tile_deck@)[witness[i] as int]);
            }
        }
        if game_options.shuffle_tiles {
            assert(deck_in_order(r@.deck, tiles_view(tile_deck@), witness));
        }
        proof {
            lemma_pads_push(seq![], start_tile@);
            assert(seq![start_tile@] =~= Seq::<TileView>::empty().push(start_tile@));
            assert(teleporters_as_positions(start_tile@) =~= Seq::empty() + teleporters_as_positions(start_tile@));
        }
        r
    }

    /// A new game in the staging phase, created at the current time (see `new_at`).
    pub fn new(game_handle: GameHandle, game_options: GameOptions, start_tile: Tile, tile_deck: Vec<Tile>) -> (r: Game)
        requires
            tile_wf(start_tile@),
            deck_wf(tiles_view(tile_deck@)),
        ensures
            fresh_game(r@, game_handle.0@, game_options.shuffle_tiles, start_tile@, tiles_view(tile_deck@)),
    {
        let now = current_time_secs();
        Self::new_at(game_handle, game_options, start_tile, tile_deck, now)
    }
}

/// The teleport pads of a tile, with their colors, as board positions.
pub open spec fn teleporters_as_positions(t: TileView) -> Seq<(HeisterColor, MapPosition)> {
    teleporters(t).map_values(
        |e: (HeisterColor, (int, int))| (e.0, MapPosition { x: e.1.0 as i32, y: e.1.1 as i32 }),
    )
}

impl Game {
    fn revealed_from(t: &Tile) -> (r: Vec<(HeisterColor, MapPosition)>)
        requires
            tile_wf(t@),
        ensures
            r@ == teleporters_as_positions(t@),
    {
        let r = t.get_teleporters();
        proof {
            assert forall|k: int| 0 <= k < r@.len() implies #[trigger] r@[k] == teleporters_as_positions(t@)[k] by {
                assert(r@[k].0 == teleporters(t@)[k].0);
            }
        }
        assert(r@ =~= teleporters_as_positions(t@));
        r
    }
}


pub open spec fn with_state(g: GameView, s: GameStateView) -> GameView {
    GameView { state: s, ..g }
}

pub open spec fn with_remaining(s: GameStateView, n: u32) -> GameStateView {
    GameStateView { remaining_tiles: n, ..s }
}

pub open spec fn with_players(s: GameStateView, p: Seq<PlayerView>) -> GameStateView {
    GameStateView { players: p, ..s }
}

pub open spec fn with_heisters(s: GameStateView, h: Seq<Heister>) -> GameStateView {
    GameStateView { heisters: h, ..s }
}

pub open spec fn with_tiles(s: GameStateView, t: Seq<TileView>) -> GameStateView {
    GameStateView { tiles: t, ..s }
}

/// The state with a new player of that name, holding no ability yet.
pub open spec fn joined(s: GameStateView, name: Seq<char>) -> GameStateView {
    with_players(s, s.players.push(PlayerView { name: name, abilities: seq![] }))
}

/// The game `g`, asked to start at time `now`, answered `r` and ended as `fin`:
/// with the clock past the last second at which the timer's end fits in a
/// `u64`, the request is refused and nothing changes; otherwise the game starts
/// with the ability sets dealt in some order.
pub open spec fn start_served(g: GameView, now: u64, r: MoveValidity, fin: GameView) -> bool {
    if now > u64::MAX - TIMER_DURATION_SECS {
        outcome(r) == Some(clock_message()) && fin == g
    } else {
        r == MoveValidity::Valid && exists|perm: Seq<usize>|
            is_permutation(perm, ability_sets(g.state.players.len()).len())
                && fin == with_state(g, started_state(g.state, now, perm))
    }
}

/// The state after the game starts at time `now`, the players getting the
/// ability sets in the order `perm`.
pub open spec fn started_state(s: GameStateView, now: u64, perm: Seq<usize>) -> GameStateView {
    let sets = ability_sets(s.players.len());
    GameStateView {
        game_started: now,
        timer_runs_out: (now + TIMER_DURATION_SECS) as u64,
        game_status: GameStatus::Ongoing,
        players: Seq::new(
            s.players.len(),
            |i: int| PlayerView { name: s.players[i].name, abilities: sets[perm[i] as int] },
        ),
        ..s
    }
}

/// The players' ability sets turned one place: each player gets the set of
/// the player before, and the first player the set of the last.
pub open spec fn rotated_players(p: Seq<PlayerView>) -> Seq<PlayerView> {
    Seq::new(
        p.len(),
        |i: int|
            PlayerView {
                name: p[i].name,
                abilities: p[if i == 0 { p.len() - 1 } else { i - 1 }].abilities,
            },
    )
}

/// The heister of color `c` (the first one, should there be several) moved to `dest`.
pub open spec fn moved_heister(hs: Seq<Heister>, c: HeisterColor, dest: MapPosition) -> Seq<Heister> {
    match first_match(hs, of_color(c)) {
        Some(i) => hs.update(i, Heister { map_position: dest, ..hs[i] }),
        None => hs,
    }
}

impl Game {
    /// Takes the tile at the end of the deck, if any.
    pub fn draw_tile(&mut self) -> (r: Option<Tile>)
        requires
            old(self)@.deck.len() <= u32::MAX + 1,
        ensures
            old(self)@.deck.len() > 0 ==> r.is_some() && r.unwrap()@ == old(self)@.deck.last()
                && final(self)@.deck == old(self)@.deck.drop_last(),
            old(self)@.deck.len() == 0 ==> r.is_none() && final(self)@.deck == old(self)@.deck,
            final(self)@.state == with_remaining(old(self)@.state, final(self)@.deck.len() as u32),
            final(self)@.deck.len() <= u32::MAX,
            final(self)@.handle == old(self)@.handle,
            final(self)@.game_created == old(self)@.game_created,
            final(self)@.revealed == old(self)@.revealed,
    {
        let tile = self.tile_deck.pop();
        self.game_state.remaining_tiles = self.tile_deck.len() as u32;
        proof {
            if old(self)@.deck.len() > 0 {
                assert(tiles_view(self.tile_deck@) =~= old(self)@.deck.drop_last());
            }
        }
        tile
    }

    /// Registers a player while the game is staging; once it has started, the
    /// request is accepted and changes nothing.
    pub fn add_player(&mut self, name: String) -> (r: Result<(), GameError>)
        ensures
            r.is_ok(),
            old(self)@.state.game_status == GameStatus::Staging ==> final(self)@ == with_state(
                old(self)@,
                joined(old(self)@.state, name@),
            ),
            old(self)@.state.game_status != GameStatus::Staging ==> final(self)@ == old(self)@,
    {
        if self.game_state.game_status != GameStatus::Staging {
            return Ok(());
        }
        let ghost name_view = name@;
        self.game_state.players.push(Player { name, abilities: Vec::new() });
        assert(players_view(self.game_state.players@) =~= joined(old(self)@.state, name_view).players);
        Ok(())
    }

    /// Index of the first player of that name.
    fn player_index(&self, name: &String) -> (r: Option<usize>)
        ensures
            r matches Some(i) ==> i < self.game_state.players@.len(),
            match first_match(self@.state.players, named(name@)) {
                Some(i) => r matches Some(k) && k == i,
                None => r.is_none(),
            },
    {
        let n = self.game_state.players.len();
        for i in 0..n
            invariant
                n == self.game_state.players@.len(),
                forall|k: int| 0 <= k < i ==> !named(name@)(#[trigger] self@.state.players[k]),
        {
            if self.game_state.players[i].name == *name {
                proof {
                    lemma_first_match_at(self@.state.players, named(name@), i as int);
                }
                return Some(i);
            }
        }
        proof {
            lemma_first_match_none(self@.state.players, named(name@));
        }
        None
    }

    /// Whether a player of that name takes part.
    pub fn has_player(&self, name: &str) -> (r: bool)
        ensures
            r == has_player_named(self@.state.players, name@),
    {
        let s = String::from_str(name);
        self.player_index(&s).is_some()
    }

    /// Whether the (first) player of that name holds `ability`.
    pub fn player_has_ability(&self, player_name: &PlayerName, ability: &Ability) -> (r: bool)
        requires
            has_player_named(self@.state.players, player_name.0@),
        ensures
            r == abilities_of(self@.state.players, player_name.0@).contains(*ability),
    {
        let i = self.player_index(&player_name.0).unwrap();
        assert(self@.state.players[i as int] == self.game_state.players@[i as int]@);
        let abilities = &self.game_state.players[i].abilities;
        let n = abilities.len();
        for k in 0..n
            invariant
                n == abilities@.len(),
                abilities@ == abilities_of(self@.state.players, player_name.0@),
                forall|j: int| 0 <= j < k ==> abilities@[j] != *ability,
        {
            if abilities[k] == *ability {
                assert(abilities@[k as int] == *ability);
                return true;
            }
        }
        false
    }

    /// A copy of the state the players see.
    pub fn get_game_state(&self) -> (r: GameState)
        ensures
            r@ == self@.state,
    {
        self.game_state.duplicate()
    }

    /// Starts the game at time `now`: the players get the ability sets for
    /// their number, in random order, and the timer runs for five minutes.
    /// Where `now` is so late that the end of the timer would not fit in a
    /// `u64`, the game is left as it is and the request is refused.
    pub fn start_game_at(&mut self, now: u64) -> (r: MoveValidity)
        requires
            old(self)@.state.players.len() <= 8,
        ensures
            start_served(old(self)@, now, r, final(self)@),
    {
        if now > u64::MAX - TIMER_DURATION_SECS {
            return MoveValidity::Invalid(String::from_str("The clock reads too late to start the timer"));
        }
        let n = self.game_state.players.len();
        let sets = get_player_abilities(n);
        let ghost perm = choose|perm: Seq<usize>|
            crate::abilities::arranged_by(views_of(sets@), ability_sets(n as nat), perm);
        assert(sets@.len() == ability_sets(n as nat).len());
        assert(n <= sets@.len()) by {
            assert(ability_sets(n as nat).len() == if n <= 1 { 1 } else { n as nat });
        }
        let mut players: Vec<Player> = Vec::new();
        for i in 0..n
            invariant
                n == self.game_state.players@.len(),
                n <= sets@.len(),
                crate::abilities::arranged_by(views_of(sets@), ability_sets(n as nat), perm),
                players@.len() == i,
                forall|k: int|
                    #![trigger players@[k]]
                    0 <= k < i ==> players@[k]@ == (PlayerView {
                        name: self@.state.players[k].name,
                        abilities: ability_sets(n as nat)[perm[k] as int],
                    }),
        {
            let name = copy_string(&self.game_state.players[i].name);
            let abilities = copy_abilities(&sets[i]);
            assert(views_of(sets@)[i as int] == sets@[i as int]@);
            players.push(Player { name, abilities });
        }
        self.game_state.players = players;
        self.game_state.game_started = now;
        self.game_state.timer_runs_out = now + TIMER_DURATION_SECS;
        self.game_state.game_status = GameStatus::Ongoing;
        assert(players_view(self.game_state.players@) =~= started_state(old(self)@.state, now, perm).players);
        assert(self@ == with_state(old(self)@, started_state(old(self)@.state, now, perm)));
        assert(is_permutation(perm, ability_sets(old(self)@.state.players.len()).len()));
        MoveValidity::Valid
    }

    /// Starts the game at the current time (see `start_game_at`).
    pub fn start_game(&mut self) -> (r: MoveValidity)
        requires
            old(self)@.state.players.len() <= 8,
        ensures
            exists|now: u64| start_served(old(self)@, now, r, final(self)@),
    {
        let now = current_time_secs();
        let r = self.start_game_at(now);
        assert(start_served(old(self)@, now, r, self@));
        r
    }

    /// Turns the ability sets one place among the players.
    fn rotate_abilities(&mut self)
        ensures
            final(self)@ == with_state(
                old(self)@,
                with_players(old(self)@.state, rotated_players(old(self)@.state.players)),
            ),
    {
        let n = self.game_state.players.len();
        if n == 0 {
            assert(rotated_players(old(self)@.state.players) =~= old(self)@.state.players);
            return;
        }
        let mut players: Vec<Player> = Vec::new();
        for i in 0..n
            invariant
                n == self.game_state.players@.len(),
                n > 0,
                players@.len() == i,
                forall|k: int|
                    #![trigger players@[k]]
                    0 <= k < i ==> players@[k]@ == rotated_players(self@.state.players)[k],
        {
            let prev = if i == 0 { n - 1 } else { i - 1 };
            let name = copy_string(&self.game_state.players[i].name);
            let abilities = copy_abilities(&self.game_state.players[prev].abilities);
            players.push(Player { name, abilities });
        }
        self.game_state.players = players;
        assert(players_view(self.game_state.players@) =~= rotated_players(old(self)@.state.players));
    }

    /// Every square of every tile with its board position, tile by tile, each
    /// tile's squares row by row. Where tiles overlap, the entry that comes
    /// last for a position is the square the board shows there.
    pub fn get_absolute_grid(&self) -> (r: Vec<(MapPosition, Square)>)
        requires
            tiles_wf(self@.state.tiles),
        ensures
            r@.len() == 16 * self@.state.tiles.len(),
            forall|k: int, i: int|
                #![trigger r@[16 * k + i]]
                0 <= k < self@.state.tiles.len() && 0 <= i < 16 ==> at(r@[16 * k + i].0)
                    == square_coords(self@.state.tiles[k], i) && r@[16 * k + i].1
                    == self@.state.tiles[k].squares[i],
    {
        let mut grid: Vec<(MapPosition, Square)> = Vec::new();
        let n = self.game_state.tiles.len();
        for k in 0..n
            invariant
                n == self@.state.tiles.len(),
                tiles_wf(self@.state.tiles),
                grid@.len() == 16 * k,
                forall|kk: int, i: int|
                    #![trigger grid@[16 * kk + i]]
                    0 <= kk < k && 0 <= i < 16 ==> at(grid@[16 * kk + i].0) == square_coords(
                        self@.state.tiles[kk],
                        i,
                    ) && grid@[16 * kk + i].1 == self@.state.tiles[kk].squares[i],
        {
            let tile = &self.game_state.tiles[k];
            assert(tile@ == self@.state.tiles[k as int]);
            assert(tile_wf(tile@));
            for i in 0..16usize
                invariant
                    n == self@.state.tiles.len(),
                    tiles_wf(self@.state.tiles),
                    tile@ == self@.state.tiles[k as int],
                    tile_wf(tile@),
                    k < n,
                    grid@.len() == 16 * k + i,
                    forall|kk: int, j: int|
                        #![trigger grid@[16 * kk + j]]
                        (0 <= kk < k && 0 <= j < 16) || (kk == k && 0 <= j < i) ==> at(
                            grid@[16 * kk + j].0,
                        ) == square_coords(self@.state.tiles[kk], j) && grid@[16 * kk + j].1
                            == self@.state.tiles[kk].squares[j],
            {
                let mp = tile.square_position(i);
                grid.push((mp, tile.squares[i]));
                assert(grid@[16 * k + i] == (mp, tile.squares@[i as int]));
            }
        }
        grid
    }

    /// The heister of that color (the first one, should there be several).
    pub fn get_heister_from_vec(&self, hc: HeisterColor) -> (r: Option<Heister>)
        ensures
            match first_match(self@.state.heisters, of_color(hc)) {
                Some(i) => r == Some(self@.state.heisters[i]),
                None => r.is_none(),
            },
    {
        match self.heister_index(hc) {
            Some(i) => Some(self.game_state.heisters[i]),
            None => None,
        }
    }

    fn heister_index(&self, hc: HeisterColor) -> (r: Option<usize>)
        ensures
            r matches Some(i) ==> i < self.game_state.heisters@.len(),
            match first_match(self@.state.heisters, of_color(hc)) {
                Some(i) => r matches Some(k) && k == i,
                None => r.is_none(),
            },
    {
        let n = self.game_state.heisters.len();
        for i in 0..n
            invariant
                n == self@.state.heisters.len(),
                forall|k: int| 0 <= k < i ==> !of_color(hc)(#[trigger] self@.state.heisters[k]),
        {
            if self.game_state.heisters[i].heister_color == hc {
                proof {
                    lemma_first_match_at(self@.state.heisters, of_color(hc), i as int);
                }
                return Some(i);
            }
        }
        proof {
            lemma_first_match_none(self@.state.heisters, of_color(hc));
        }
        None
    }

    /// Moves the heister of that color (the first one) to `dest`.
    fn set_heister_position(&mut self, hc: HeisterColor, dest: MapPosition)
        ensures
            final(self)@ == with_state(
                old(self)@,
                with_heisters(old(self)@.state, moved_heister(old(self)@.state.heisters, hc, dest)),
            ),
    {
        match self.heister_index(hc) {
            Some(i) => {
                let h = self.game_state.heisters[i];
                self.game_state.heisters.set(i, Heister { map_position: dest, ..h });
            },
            None => {},
        }
    }

    /// The first tile laid that covers `position`, with its index.
    fn get_tile_with_index(&self, position: &MapPosition) -> (r: Option<(usize, Tile)>)
        ensures
            match first_cover(self@.state.tiles, *position) {
                Some(i) => r.is_some() && r.unwrap().0 == i && r.unwrap().1@ == self@.state.tiles[i],
                None => r.is_none(),
            },
    {
        let n = self.game_state.tiles.len();
        for i in 0..n
            invariant
                n == self@.state.tiles.len(),
                forall|k: int| 0 <= k < i ==> !covering(*position)(#[trigger] self@.state.tiles[k]),
        {
            if self.game_state.tiles[i].covers_position(position) {
                proof {
                    lemma_first_match_at(self@.state.tiles, covering(*position), i as int);
                }
                return Some((i, self.game_state.tiles[i].duplicate()));
            }
        }
        proof {
            lemma_first_match_none(self@.state.tiles, covering(*position));
        }
        None
    }
}

pub open spec fn clock_message() -> Seq<char> {
    "The clock reads too late to start the timer"@
}

/// The square the board shows at `p`.
pub fn grid_square(tiles: &Vec<Tile>, p: &MapPosition) -> (r: Option<Square>)
    requires
        tiles_wf(tiles_view(tiles@)),
    ensures
        r == grid_get(tiles_view(tiles@), *p),
{
    let ghost tv = tiles_view(tiles@);
    let n = tiles.len();
    let mut i = n;
    while i > 0
        invariant
            n == tiles@.len(),
            tv == tiles_view(tiles@),
            tiles_wf(tv),
            i <= n,
            forall|k: int| i <= k < n ==> !covering(*p)(#[trigger] tv[k]),
        decreases i,
    {
        i = i - 1;
        if tiles[i].covers_position(p) {
            proof {
                lemma_last_match_at(tv, covering(*p), i as int);
                assert(tile_wf(tv[i as int]));
            }
            let idx = tiles[i].square_index(p);
            return Some(tiles[i].squares[idx]);
        }
    }
    proof {
        lemma_last_match_none(tv, covering(*p));
    }
    None
}


/// The game after a move request: the heister moves when the move is accepted,
/// and nothing else changes.
pub open spec fn after_move(g: GameView, m: Move, name: Seq<char>) -> GameView {
    if move_outcome(g.state, m, name) is None {
        with_state(g, with_heisters(g.state, moved_heister(g.state.heisters, m.heister_color, m.position)))
    } else {
        g
    }
}

/// Whether a move request can be served without failing: the heister exists,
/// and the player exists where their abilities are consulted.
pub open spec fn move_servable(s: GameStateView, m: Move, name: Seq<char>) -> bool {
    &&& first_match(s.heisters, of_color(m.heister_color)) is Some
    &&& move_needs_player(s, m) ==> has_player_named(s.players, name)
}

pub open spec fn teleport_matches(t: SquareType, c: HeisterColor) -> bool {
    teleport_color(t) == Some(c)
}

impl Game {
    fn move_blocked_by_wall(&self, heister_pos: &MapPosition, dest_pos: &MapPosition) -> (r: MoveValidity)
        requires
            tiles_wf(self@.state.tiles),
        ensures
            outcome(r) == wall_check(self@.state.tiles, *heister_pos, *dest_pos),
    {
        let heister_square = match grid_square(&self.game_state.tiles, heister_pos) {
            Some(s) => s,
            None => {
                return MoveValidity::Invalid(missing_heister_square_message(heister_pos));
            },
        };
        let blocking_wall = heister_square.wall(heister_pos.adjacent_move_direction(dest_pos));
        match blocking_wall {
            WallType::Clear => MoveValidity::Valid,
            WallType::Impassable => MoveValidity::Invalid(
                String::from_str("Can't pass through impassable wall"),
            ),
            _ => MoveValidity::Invalid(door_wall_message(blocking_wall)),
        }
    }

    fn position_is_occupied(&self, position: &MapPosition) -> (r: MoveValidity)
        ensures
            outcome(r) == occupancy_check(self@.state.heisters, *position),
    {
        let n = self.game_state.heisters.len();
        for i in 0..n
            invariant
                n == self@.state.heisters.len(),
                forall|k: int| 0 <= k < i ==> !standing_at(*position)(#[trigger] self@.state.heisters[k]),
        {
            let h = self.game_state.heisters[i];
            if h.map_position == *position {
                proof {
                    lemma_first_match_at(self@.state.heisters, standing_at(*position), i as int);
                }
                return MoveValidity::Invalid(occupied_message(h.heister_color, position));
            }
        }
        proof {
            lemma_first_match_none(self@.state.heisters, standing_at(*position));
        }
        MoveValidity::Valid
    }

    fn teleport_matches_color(teleport_type: SquareType, color: HeisterColor) -> (r: bool)
        ensures
            r == teleport_matches(teleport_type, color),
    {
        match teleport_type {
            SquareType::PurpleTeleportPad => color == HeisterColor::Purple,
            SquareType::OrangeTeleportPad => color == HeisterColor::Orange,
            SquareType::GreenTeleportPad => color == HeisterColor::Green,
            SquareType::YellowTeleportPad => color == HeisterColor::Yellow,
            _ => false,
        }
    }

    fn position_squaretype(tiles: &Vec<Tile>, pos: &MapPosition) -> (r: Result<SquareType, GameError>)
        requires
            tiles_wf(tiles_view(tiles@)),
        ensures
            match grid_get(tiles_view(tiles@), *pos) {
                Some(sq) => r == Ok::<SquareType, GameError>(sq.square_type),
                None => r == Err::<SquareType, GameError>(GameError::NoSquareAt(*pos)),
            },
    {
        match grid_square(tiles, pos) {
            Some(s) => Ok(s.square_type),
            None => Err(GameError::NoSquareAt(*pos)),
        }
    }

    fn position_is_escalator(tiles: &Vec<Tile>, pos: &MapPosition) -> (r: MoveValidity)
        requires
            tiles_wf(tiles_view(tiles@)),
        ensures
            outcome(r) == match grid_get(tiles_view(tiles@), *pos) {
                None => Some(not_in_grid_msg(*pos)),
                Some(sq) => if sq.square_type == SquareType::Escalator {
                    None
                } else {
                    Some(not_escalator_msg(*pos))
                },
            },
    {
        match grid_square(tiles, pos) {
            Some(square) => match square.square_type {
                SquareType::Escalator => MoveValidity::Valid,
                _ => MoveValidity::Invalid(not_escalator_message(pos)),
            },
            None => MoveValidity::Invalid(not_in_grid_message(pos)),
        }
    }

    /// An escalator ride needs the destination to be an escalator square, the
    /// heister to stand on an escalator square, and both to be on the same tile.
    fn validate_escalator_move(&self, heister_pos: &MapPosition, dest_pos: &MapPosition) -> (r: MoveValidity)
        requires
            tiles_wf(self@.state.tiles),
            grid_get(self@.state.tiles, *heister_pos) is Some,
        ensures
            outcome(r) == escalator_check(self@.state.tiles, *heister_pos, *dest_pos),
    {
        let v = Self::position_is_escalator(&self.game_state.tiles, dest_pos);
        match v {
            MoveValidity::Valid => {
                let hsq = grid_square(&self.game_state.tiles, heister_pos).unwrap();
                match hsq.square_type {
                    SquareType::Escalator => {
                        proof {
                            lemma_grid_has_cover(self@.state.tiles, *heister_pos);
                            lemma_grid_has_cover(self@.state.tiles, *dest_pos);
                        }
                        let ht = self.get_tile_with_index(heister_pos).unwrap().1;
                        let dt = self.get_tile_with_index(dest_pos).unwrap().1;
                        if ht.same_as(&dt) {
                            MoveValidity::Valid
                        } else {
                            MoveValidity::Invalid(
                                String::from_str("Heister and dest escalator are on different tiles"),
                            )
                        }
                    },
                    _ => MoveValidity::Invalid(String::from_str("Heister is not on an escalator")),
                }
            },
            _ => v,
        }
    }

    /// A teleport needs the heister on a pad of its own color and the
    /// destination a pad of the same color.
    fn validate_teleport(&self, heister: &Heister, dest_pos: &MapPosition) -> (r: MoveValidity)
        requires
            tiles_wf(self@.state.tiles),
            grid_get(self@.state.tiles, heister.map_position) is Some,
        ensures
            outcome(r) == teleport_check(self@.state.tiles, *heister, *dest_pos),
    {
        let heister_color = heister.heister_color;
        let heister_square_type = Self::position_squaretype(&self.game_state.tiles, &heister.map_position).unwrap();
        match Self::position_squaretype(&self.game_state.tiles, dest_pos) {
            Ok(dest_square_type) => {
                if !Self::teleport_matches_color(heister_square_type, heister_color) {
                    return MoveValidity::Invalid(String::from_str("Heister and teleporter color do not match"));
                }
                if heister_square_type == dest_square_type {
                    MoveValidity::Valid
                } else {
                    MoveValidity::Invalid(String::from_str("Source and Dest teleporter colors do not match"))
                }
            },
            Err(_) => MoveValidity::Invalid(off_grid_dest_message(dest_pos)),
        }
    }

    fn validate_adjacent_move(&self, heister_pos: &MapPosition, dest_pos: &MapPosition) -> (r: MoveValidity)
        requires
            tiles_wf(self@.state.tiles),
        ensures
            outcome(r) == adjacent_check(self@.state.tiles, self@.state.heisters, *heister_pos, *dest_pos),
    {
        let validity = self.move_blocked_by_wall(heister_pos, dest_pos);
        match validity {
            MoveValidity::Invalid(_) => {
                return validity;
            },
            _ => {},
        }
        self.position_is_occupied(dest_pos)
    }

    fn validate_player_has_move_direction_ability(&self, current_pos: &MapPosition, dest_pos: &MapPosition, player_name: &PlayerName) -> (r: MoveValidity)
        requires
            has_player_named(self@.state.players, player_name.0@),
        ensures
            outcome(r) == direction_check(self@.state.players, player_name.0@, *current_pos, *dest_pos),
    {
        let direction = current_pos.adjacent_move_direction(dest_pos);
        let needed = match direction {
            MoveDirection::North => Ability::MoveNorth,
            MoveDirection::East => Ability::MoveEast,
            MoveDirection::South => Ability::MoveSouth,
            MoveDirection::West => Ability::MoveWest,
        };
        if !self.player_has_ability(player_name, &needed) {
            return MoveValidity::Invalid(no_direction_message(direction));
        }
        MoveValidity::Valid
    }

    /// Serves a move request: an adjacent step, an escalator ride or a teleport.
    pub fn process_move(&mut self, m: Move, player_name: &PlayerName) -> (r: MoveValidity)
        requires
            tiles_wf(old(self)@.state.tiles),
            move_servable(old(self)@.state, m, player_name.0@),
        ensures
            outcome(r) == move_outcome(old(self)@.state, m, player_name.0@),
            final(self)@ == after_move(old(self)@, m, player_name.0@),
    {
        let heister_color = m.heister_color;
        proof {
            lemma_first_match(self@.state.heisters, of_color(heister_color));
        }
        let heister = self.get_heister_from_vec(heister_color).unwrap();
        let heister_pos = heister.map_position;
        let dest_pos = m.position;
        if heister_pos.is_adjacent(&dest_pos) {
            let ability_validity = self.validate_player_has_move_direction_ability(
                &heister_pos,
                &dest_pos,
                player_name,
            );
            if let MoveValidity::Invalid(_) = ability_validity {
                return ability_validity;
            }
            let validity = self.validate_adjacent_move(&heister_pos, &dest_pos);
            if let MoveValidity::Valid = validity {
                self.set_heister_position(heister_color, dest_pos);
            }
            return validity;
        }
        match Self::position_squaretype(&self.game_state.tiles, &heister_pos) {
            Ok(SquareType::Escalator) => {
                if !self.player_has_ability(player_name, &Ability::UseEscalator) {
                    return MoveValidity::Invalid(String::from_str("You cannot use escalators"));
                }
                let validity = self.validate_escalator_move(&heister_pos, &dest_pos);
                if let MoveValidity::Valid = validity {
                    self.set_heister_position(heister_color, dest_pos);
                }
                validity
            },
            Ok(SquareType::OrangeTeleportPad)
            | Ok(SquareType::YellowTeleportPad)
            | Ok(SquareType::PurpleTeleportPad)
            | Ok(SquareType::GreenTeleportPad) => {
                if !self.player_has_ability(player_name, &Ability::UseEscalator) {
                    return MoveValidity::Invalid(String::from_str("You cannot use teleporters"));
                }
                let validity = self.validate_teleport(&heister, &dest_pos);
                if let MoveValidity::Valid = validity {
                    self.set_heister_position(heister_color, dest_pos);
                }
                validity
            },
            _ => MoveValidity::Invalid(invalid_move_message(heister_color, &heister_pos, &dest_pos)),
        }
    }
}



/// The state with the derived lists recomputed from the board and the heisters.
pub open spec fn refreshed(g: GameView) -> GameStateView {
    GameStateView {
        possible_placements: placements(g.state.tiles, g.state.heisters),
        possible_escalators: escalator_entries(g.state.tiles, g.state.heisters),
        possible_teleports: teleport_entries(g.state.tiles, g.state.heisters, g.revealed),
        ..g.state
    }
}

/// The escalator and teleport lists, read as maps from colors, name each color at most once.
pub open spec fn lists_keyed_once(s: GameStateView) -> bool {
    &&& keys_unique(s.possible_escalators)
    &&& keys_unique(s.possible_teleports)
}

/// The derived lists can be recomputed without failing: every heister is on the
/// board, and every heister on an escalator has somewhere to ride to.
pub open spec fn refreshable(g: GameView) -> bool {
    &&& heisters_on_grid(g.state.tiles, g.state.heisters)
    &&& escalators_linked(g.state.tiles, g.state.heisters)
}

/// A square of a well-formed board lies well inside the `i32` range.
pub proof fn lemma_on_grid_bounds(tiles: Seq<TileView>, p: MapPosition)
    requires
        tiles_wf(tiles),
        grid_get(tiles, p) is Some,
    ensures
        i32::MIN + 8 <= p.x <= i32::MAX - 5,
        i32::MIN + 8 <= p.y <= i32::MAX - 5,
{
    lemma_last_match(tiles, covering(p));
    let j = last_match(tiles, covering(p))->0;
    assert(tile_wf(tiles[j]));
}

pub fn insert_entrance(v: &mut Vec<(MapPosition, MapPosition)>, k: MapPosition, val: MapPosition)
    ensures
        final(v)@ == insert_keyed(old(v)@, k, val),
{
    let n = v.len();
    for i in 0..n
        invariant
            n == v@.len(),
            v@ == old(v)@,
            forall|j: int| 0 <= j < i ==> !keyed::<MapPosition, MapPosition>(k)(#[trigger] v@[j]),
    {
        if v[i].0 == k {
            proof {
                lemma_first_match_at(v@, keyed::<MapPosition, MapPosition>(k), i as int);
            }
            v.set(i, (k, val));
            return;
        }
    }
    proof {
        lemma_first_match_none(v@, keyed::<MapPosition, MapPosition>(k));
    }
    v.push((k, val));
}

pub fn insert_escalator(v: &mut Vec<(HeisterColor, MapPosition)>, k: HeisterColor, val: MapPosition)
    ensures
        final(v)@ == insert_keyed(old(v)@, k, val),
{
    let n = v.len();
    for i in 0..n
        invariant
            n == v@.len(),
            v@ == old(v)@,
            forall|j: int| 0 <= j < i ==> !keyed::<HeisterColor, MapPosition>(k)(#[trigger] v@[j]),
    {
        if v[i].0 == k {
            proof {
                lemma_first_match_at(v@, keyed::<HeisterColor, MapPosition>(k), i as int);
            }
            v.set(i, (k, val));
            return;
        }
    }
    proof {
        lemma_first_match_none(v@, keyed::<HeisterColor, MapPosition>(k));
    }
    v.push((k, val));
}

pub fn insert_teleports(v: &mut Vec<(HeisterColor, Vec<MapPosition>)>, k: HeisterColor, val: Vec<MapPosition>)
    ensures
        crate::state::teleports_view(final(v)@) == insert_keyed(crate::state::teleports_view(old(v)@), k, val@),
{
    let ghost tv = crate::state::teleports_view(old(v)@);
    let n = v.len();
    for i in 0..n
        invariant
            n == v@.len(),
            v@ == old(v)@,
            tv == crate::state::teleports_view(v@),
            forall|j: int| 0 <= j < i ==> !keyed::<HeisterColor, Seq<MapPosition>>(k)(#[trigger] tv[j]),
    {
        if v[i].0 == k {
            proof {
                lemma_first_match_at(tv, keyed::<HeisterColor, Seq<MapPosition>>(k), i as int);
            }
            let ghost val_view = val@;
            v.set(i, (k, val));
            assert(crate::state::teleports_view(v@) =~= tv.update(i as int, (k, val_view)));
            return;
        }
    }
    proof {
        lemma_first_match_none(tv, keyed::<HeisterColor, Seq<MapPosition>>(k));
    }
    let ghost val_view = val@;
    v.push((k, val));
    assert(crate::state::teleports_view(v@) =~= tv.push((k, val_view)));
}

impl Game {
    /// The first door of a square, looking north, east, south, then west.
    fn get_door_wall(square: &Square) -> (r: Option<WallType>)
        ensures
            r == first_door(*square),
    {
        match Self::get_door_direction(square) {
            Some(d) => Some(square.wall(d)),
            None => None,
        }
    }

    /// The side of the first door of a square, looking north, east, south, then west.
    fn get_door_direction(square: &Square) -> (r: Option<MoveDirection>)
        ensures
            r == first_door_dir(*square),
    {
        if wall_is_door(square.north_wall) {
            Some(MoveDirection::North)
        } else if wall_is_door(square.east_wall) {
            Some(MoveDirection::East)
        } else if wall_is_door(square.south_wall) {
            Some(MoveDirection::South)
        } else if wall_is_door(square.west_wall) {
            Some(MoveDirection::West)
        } else {
            None
        }
    }

    /// The squares from which a tile could be revealed: those where a heister
    /// stands at a door of its own color.
    fn heister_tile_placement_positions(&self) -> (r: Vec<MapPosition>)
        requires
            tiles_wf(self@.state.tiles),
            heisters_on_grid(self@.state.tiles, self@.state.heisters),
        ensures
            r@ == placement_positions(self@.state.tiles, self@.state.heisters),
    {
        let ghost tiles = self@.state.tiles;
        let ghost hs = self@.state.heisters;
        let mut placement_locations: Vec<MapPosition> = Vec::new();
        let n = self.game_state.heisters.len();
        for i in 0..n
            invariant
                n == hs.len(),
                tiles == self@.state.tiles,
                hs == self@.state.heisters,
                tiles_wf(tiles),
                heisters_on_grid(tiles, hs),
                placement_locations@ == placement_positions(tiles, hs.take(i as int)),
        {
            let heister = self.game_state.heisters[i];
            assert(hs.take(i + 1).drop_last() =~= hs.take(i as int));
            assert(hs.take(i + 1).last() == heister);
            assert(grid_get(tiles, hs[i as int].map_position) is Some);
            let square = grid_square(&self.game_state.tiles, &heister.map_position).unwrap();
            let color = heister.heister_color;
            let matches = match Self::get_door_wall(&square) {
                Some(WallType::PurpleDoor) => color == HeisterColor::Purple,
                Some(WallType::OrangeDoor) => color == HeisterColor::Orange,
                Some(WallType::GreenDoor) => color == HeisterColor::Green,
                Some(WallType::YellowDoor) => color == HeisterColor::Yellow,
                _ => false,
            };
            if matches {
                placement_locations.push(heister.map_position);
            }
        }
        assert(hs.take(n as int) =~= hs);
        placement_locations
    }

    /// Each door square mapped to the entrance of the tile it would reveal.
    fn heister_to_tile_entrance_positions(&self) -> (r: Vec<(MapPosition, MapPosition)>)
        requires
            tiles_wf(self@.state.tiles),
            heisters_on_grid(self@.state.tiles, self@.state.heisters),
        ensures
            r@ == tile_entrances(self@.state.tiles, self@.state.heisters),
            keys_unique(r@),
    {
        let ghost tiles = self@.state.tiles;
        let positions = self.heister_tile_placement_positions();
        proof {
            lemma_placements_on_grid(tiles, self@.state.heisters);
        }
        let mut entrances: Vec<(MapPosition, MapPosition)> = Vec::new();
        let n = positions.len();
        for i in 0..n
            invariant
                n == positions@.len(),
                tiles == self@.state.tiles,
                tiles_wf(tiles),
                forall|k: int| 0 <= k < positions@.len() ==> #[trigger] grid_get(tiles, positions@[k]) is Some
                    && first_door_dir(grid_get(tiles, positions@[k])->0) is Some,
                entrances@ == entrance_map(tiles, positions@.take(i as int)),
        {
            let heister_pos = positions[i];
            assert(positions@.take(i + 1).drop_last() =~= positions@.take(i as int));
            assert(grid_get(tiles, positions@[i as int]) is Some);
            proof {
                lemma_on_grid_bounds(tiles, heister_pos);
            }
            let square = grid_square(&self.game_state.tiles, &heister_pos).unwrap();
            let dir = Self::get_door_direction(&square).unwrap();
            let entrance = heister_pos.move_in_direction(&dir);
            insert_entrance(&mut entrances, heister_pos, entrance);
            assert(entrance == entrance_from(tiles, heister_pos));
        }
        assert(positions@.take(n as int) =~= positions@);
        proof {
            lemma_entrance_map_unique(tiles, positions@);
        }
        entrances
    }

    fn update_possible_placements(&mut self)
        requires
            tiles_wf(old(self)@.state.tiles),
            heisters_on_grid(old(self)@.state.tiles, old(self)@.state.heisters),
        ensures
            final(self)@ == with_state(
                old(self)@,
                with_placements(old(self)@.state, placements(old(self)@.state.tiles, old(self)@.state.heisters)),
            ),
    {
        let entrances = self.heister_to_tile_entrance_positions();
        let mut v: Vec<MapPosition> = Vec::new();
        let n = entrances.len();
        for i in 0..n
            invariant
                n == entrances@.len(),
                v@ == entrances@.take(i as int).map_values(|e: (MapPosition, MapPosition)| e.1),
        {
            assert(entrances@.take(i + 1).map_values(|e: (MapPosition, MapPosition)| e.1) =~= v@.push(entrances@[i as int].1));
            v.push(entrances[i].1);
        }
        assert(entrances@.take(n as int) =~= entrances@);
        self.game_state.possible_placements = v;
    }

    fn update_possible_escalators(&mut self)
        requires
            tiles_wf(old(self)@.state.tiles),
            heisters_on_grid(old(self)@.state.tiles, old(self)@.state.heisters),
            escalators_linked(old(self)@.state.tiles, old(self)@.state.heisters),
        ensures
            final(self)@ == with_state(
                old(self)@,
                with_escalators(old(self)@.state, escalator_entries(old(self)@.state.tiles, old(self)@.state.heisters)),
            ),
    {
        let ghost tiles = self@.state.tiles;
        let ghost hs = self@.state.heisters;
        let mut m: Vec<(HeisterColor, MapPosition)> = Vec::new();
        let n = self.game_state.heisters.len();
        for i in 0..n
            invariant
                n == hs.len(),
                tiles == self@.state.tiles,
                hs == self@.state.heisters,
                self@ == old(self)@,
                tiles_wf(tiles),
                heisters_on_grid(tiles, hs),
                escalators_linked(tiles, hs),
                m@ == escalator_entries(tiles, hs.take(i as int)),
        {
            let heister = self.game_state.heisters[i];
            assert(hs.take(i + 1).drop_last() =~= hs.take(i as int));
            assert(hs.take(i + 1).last() == heister);
            assert(grid_get(tiles, hs[i as int].map_position) is Some);
            let square = grid_square(&self.game_state.tiles, &heister.map_position).unwrap();
            if square.square_type == SquareType::Escalator {
                assert(on_escalator(tiles, hs[i as int]));
                proof {
                    lemma_grid_has_cover(tiles, heister.map_position);
                    assert(tile_wf(tiles[first_cover(tiles, heister.map_position)->0]));
                }
                let (_idx, tile) = self.get_tile_with_index(&heister.map_position).unwrap();
                let dest_pos = tile.get_escalator_dest(&heister.map_position).unwrap();
                insert_escalator(&mut m, heister.heister_color, dest_pos);
            }
        }
        assert(hs.take(n as int) =~= hs);
        self.game_state.possible_escalators = m;
    }

    /// The revealed teleport pads of one color, in the order they were revealed.
    fn pads_of_color(&self, c: HeisterColor) -> (r: Vec<MapPosition>)
        ensures
            r@ == pads_of(self@.revealed, c),
    {
        let ghost rv = self@.revealed;
        let mut r: Vec<MapPosition> = Vec::new();
        let n = self.revealed_teleporters.len();
        for i in 0..n
            invariant
                n == rv.len(),
                rv == self@.revealed,
                r@ == pads_of(rv.take(i as int), c),
        {
            assert(rv.take(i + 1).drop_last() =~= rv.take(i as int));
            let e = self.revealed_teleporters[i];
            if e.0 == c {
                r.push(e.1);
            }
        }
        assert(rv.take(n as int) =~= rv);
        r
    }

    fn update_possible_teleports(&mut self)
        requires
            tiles_wf(old(self)@.state.tiles),
            heisters_on_grid(old(self)@.state.tiles, old(self)@.state.heisters),
        ensures
            final(self)@ == with_state(
                old(self)@,
                with_teleports(old(self)@.state, teleport_entries(old(self)@.state.tiles, old(self)@.state.heisters, old(self)@.revealed)),
            ),
    {
        let ghost tiles = self@.state.tiles;
        let ghost hs = self@.state.heisters;
        let mut m: Vec<(HeisterColor, Vec<MapPosition>)> = Vec::new();
        let n = self.game_state.heisters.len();
        for i in 0..n
            invariant
                n == hs.len(),
                tiles == self@.state.tiles,
                hs == self@.state.heisters,
                self@ == old(self)@,
                tiles_wf(tiles),
                heisters_on_grid(tiles, hs),
                crate::state::teleports_view(m@) == teleport_entries(tiles, hs.take(i as int), self@.revealed),
        {
            let heister = self.game_state.heisters[i];
            assert(hs.take(i + 1).drop_last() =~= hs.take(i as int));
            assert(hs.take(i + 1).last() == heister);
            assert(grid_get(tiles, hs[i as int].map_position) is Some);
            let square = grid_square(&self.game_state.tiles, &heister.map_position).unwrap();
            if Self::teleport_matches_color(square.square_type, heister.heister_color) {
                let list = self.pads_of_color(heister.heister_color);
                if list.len() > 0 {
                    insert_teleports(&mut m, heister.heister_color, list);
                }
            }
        }
        assert(hs.take(n as int) =~= hs);
        self.game_state.possible_teleports = m;
    }

    /// Recomputes where tiles can be revealed, where escalators lead and where
    /// heisters can teleport.
    fn update_auxiliary_state(&mut self)
        requires
            tiles_wf(old(self)@.state.tiles),
            refreshable(old(self)@),
        ensures
            final(self)@ == with_state(old(self)@, refreshed(old(self)@)),
            lists_keyed_once(final(self)@.state),
    {
        proof {
            lemma_escalator_entries_unique(old(self)@.state.tiles, old(self)@.state.heisters);
            lemma_teleport_entries_unique(old(self)@.state.tiles, old(self)@.state.heisters, old(self)@.revealed);
        }
        self.update_possible_placements();
        self.update_possible_escalators();
        self.update_possible_teleports();
    }

    /// Adds the teleport pads of a newly laid tile to those already revealed.
    fn update_revealed_teleporters(already_revealed: &mut Vec<(HeisterColor, MapPosition)>, new_tile: &Tile)
        requires
            tile_wf(new_tile@),
        ensures
            final(already_revealed)@ == old(already_revealed)@ + teleporters_as_positions(new_tile@),
    {
        let found = Self::revealed_from(new_tile);
        let n = found.len();
        for i in 0..n
            invariant
                n == found@.len(),
                already_revealed@ == old(already_revealed)@ + found@.take(i as int),
        {
            assert(found@.take(i + 1) =~= found@.take(i as int).push(found@[i as int]));
            already_revealed.push(found[i]);
        }
        assert(found@.take(n as int) =~= found@);
    }
}

pub open spec fn with_placements(s: GameStateView, p: Seq<MapPosition>) -> GameStateView {
    GameStateView { possible_placements: p, ..s }
}

pub open spec fn with_escalators(s: GameStateView, e: Seq<(HeisterColor, MapPosition)>) -> GameStateView {
    GameStateView { possible_escalators: e, ..s }
}

pub open spec fn with_teleports(s: GameStateView, t: Seq<(HeisterColor, Seq<MapPosition>)>) -> GameStateView {
    GameStateView { possible_teleports: t, ..s }
}

/// Door squares from which tiles can be revealed are on the board and have a door.
pub proof fn lemma_placements_on_grid(tiles: Seq<TileView>, hs: Seq<Heister>)
    requires
        heisters_on_grid(tiles, hs),
    ensures
        forall|k: int|
            0 <= k < placement_positions(tiles, hs).len() ==> #[trigger] grid_get(tiles, placement_positions(tiles, hs)[k]) is Some
                && first_door_dir(grid_get(tiles, placement_positions(tiles, hs)[k])->0) is Some,
    decreases hs.len(),
{
    if hs.len() > 0 {
        let prev = hs.drop_last();
        assert forall|i: int| 0 <= i < prev.len() implies #[trigger] grid_get(tiles, prev[i].map_position) is Some by {
            assert(prev[i] == hs[i]);
        }
        lemma_placements_on_grid(tiles, prev);
        assert(grid_get(tiles, hs[hs.len() - 1].map_position) is Some);
    }
}


/// The game after the tile at the end of the deck is laid through entrance
/// square `entrance`, revealed going `d`; with an empty deck only the count of
/// remaining tiles is refreshed.
pub open spec fn laid(g: GameView, entrance: MapPosition, d: MoveDirection) -> GameView {
    if g.deck.len() == 0 {
        with_state(g, with_remaining(g.state, 0))
    } else {
        let nt = placed_tile(g.deck.last(), as_position(new_tile_pos(entrance, d)), rotations_for(d));
        GameView {
            state: with_remaining(
                with_tiles(g.state, doors_updated(g.state.tiles.push(nt), g.state.tiles.len() as int)),
                (g.deck.len() - 1) as u32,
            ),
            deck: g.deck.drop_last(),
            revealed: g.revealed + teleporters_as_positions(nt),
            ..g
        }
    }
}

pub open spec fn laid_outcome(g: GameView) -> Option<Seq<char>> {
    if g.deck.len() == 0 {
        Some(empty_deck_msg())
    } else {
        None
    }
}

pub open spec fn entering_at(p: MapPosition) -> spec_fn((MapPosition, MapPosition)) -> bool {
    |e: (MapPosition, MapPosition)| e.1 == p
}

/// The door square of the heister whose tile would be entered at `pt`'s
/// entrance (the first such, in the order the heisters are listed).
pub open spec fn placement_target(s: GameStateView, pt: PlaceTile) -> Option<MapPosition> {
    let es = tile_entrances(s.tiles, s.heisters);
    match first_match(es, entering_at(pt.tile_entrance)) {
        Some(i) => Some(es[i].0),
        None => None,
    }
}

/// The side of the door a tile is revealed through from door square `p`.
pub open spec fn door_side(s: GameStateView, p: MapPosition) -> MoveDirection {
    first_door_dir(grid_get(s.tiles, p)->0)->0
}

/// The game after a tile placement request, and the answer to it.
pub open spec fn placement_result(g: GameView, pt: PlaceTile, name: Seq<char>) -> (GameView, Option<Seq<char>>) {
    if !abilities_of(g.state.players, name).contains(Ability::RevealTiles) {
        (g, Some(no_reveal_msg()))
    } else {
        match placement_target(g.state, pt) {
            None => (g, Some(not_at_door_msg())),
            Some(hp) => {
                let sq = grid_get(g.state.tiles, hp)->0;
                let d = door_side(g.state, hp);
                match opened_tiles(g.state.tiles, hp, sq, d) {
                    Err(e) => (g, Some(door_failed_msg(error_text(e)))),
                    Ok(t1) => {
                        let g1 = with_state(g, with_tiles(g.state, t1));
                        (laid(g1, pt.tile_entrance, d), laid_outcome(g1))
                    },
                }
            },
        }
    }
}

/// A placement request can be served without failing: the player exists, the
/// heisters stand on the board, and a tile laid stays inside the `i32` range.
pub open spec fn placement_servable(g: GameView, pt: PlaceTile, name: Seq<char>) -> bool {
    &&& has_player_named(g.state.players, name)
    &&& heisters_on_grid(g.state.tiles, g.state.heisters)
    &&& placement_target(g.state, pt) matches Some(hp) ==> corner_ok(new_tile_pos(pt.tile_entrance, door_side(g.state, hp)))
}

/// A copy of `t` turned `n` quarter turns clockwise, laid at `position`.
fn laid_tile(t: Tile, position: MapPosition, n: u8) -> (r: Tile)
    requires
        tile_shape_ok(t@),
    ensures
        r@ == placed_tile(t@, position, n),
        tile_shape_ok(r@),
{
    let mut squares = t.squares;
    let mut links = t.escalators;
    let ghost s0 = squares@;
    let ghost l0 = links@;
    assert forall|j: int| 0 <= j < links@.len() implies #[trigger] links@[j].0 < 16 && links@[j].1 < 16 by {
        assert(t@.escalators[j] == links@[j]);
    }
    let mut k: u8 = 0;
    while k < n
        invariant
            k <= n,
            squares@ == rotated_squares_n(s0, k as nat),
            links@ == rotated_links_n(l0, k as nat),
            squares@.len() == 16,
            forall|j: int| 0 <= j < links@.len() ==> #[trigger] links@[j].0 < 16 && links@[j].1 < 16,
        decreases n - k,
    {
        squares = rotate_squares_clockwise(&squares);
        links = rotate_links_clockwise(&links);
        k = k + 1;
    }
    Tile { name: t.name, position, squares, escalators: links, num_rotations: n }
}

fn error_message(e: GameError) -> (r: String)
    ensures
        r@ == error_text(e),
{
    match e {
        GameError::NoSquareAt(p) => {
            let mut s = String::from_str("No square at pos ");
            let t = crate::text::format_position(&p);
            s.append(t.as_str());
            s
        },
        GameError::NoTileAt(p) => no_tile_at_message(&p),
        GameError::NoMatchingDoorSquare => String::from_str(
            "When opening a door, we expect the square to have a door to open",
        ),
    }
}

impl Game {
    /// Corner of the tile revealed through entrance square `position` when the
    /// heister leaves its tile going `dir`.
    pub fn new_tile_position(position: &MapPosition, dir: &MoveDirection) -> (r: MapPosition)
        requires
            corner_ok(new_tile_pos(*position, *dir)),
        ensures
            at(r) == new_tile_pos(*position, *dir),
    {
        match dir {
            MoveDirection::North => MapPosition { x: position.x - 1, y: position.y - 3 },
            MoveDirection::East => MapPosition { x: position.x, y: position.y - 1 },
            MoveDirection::South => MapPosition { x: position.x - 2, y: position.y },
            MoveDirection::West => MapPosition { x: position.x - 3, y: position.y - 2 },
        }
    }

    /// Corner of the tile a heister is on, from its door square `position`
    /// whose door faces `dir`.
    pub fn current_tile_position(position: &MapPosition, dir: &MoveDirection) -> (r: MapPosition)
        requires
            i32::MIN + 3 <= position.x,
            i32::MIN + 3 <= position.y,
        ensures
            at(r) == current_tile_pos(*position, *dir),
    {
        match dir {
            MoveDirection::North => MapPosition { x: position.x - 2, y: position.y },
            MoveDirection::West => MapPosition { x: position.x, y: position.y - 1 },
            MoveDirection::South => MapPosition { x: position.x - 1, y: position.y - 3 },
            MoveDirection::East => MapPosition { x: position.x - 3, y: position.y - 2 },
        }
    }

    /// Clears the door that the heister at `door_pos` leaves its tile through.
    fn open_door(&mut self, door_pos: MapPosition, src_square: Square, dir: &MoveDirection) -> (r: Result<(), GameError>)
        requires
            tiles_wf(old(self)@.state.tiles),
            i32::MIN + 3 <= door_pos.x,
            i32::MIN + 3 <= door_pos.y,
        ensures
            match opened_tiles(old(self)@.state.tiles, door_pos, src_square, *dir) {
                Ok(t) => r.is_ok() && final(self)@ == with_state(old(self)@, with_tiles(old(self)@.state, t)),
                Err(e) => r == Err::<(), GameError>(e) && final(self)@ == old(self)@,
            },
            tiles_wf(final(self)@.state.tiles),
    {
        let ghost tv = self@.state.tiles;
        let ctp = Self::current_tile_position(&door_pos, dir);
        let ghost c = current_tile_pos(door_pos, *dir);
        let n = self.game_state.tiles.len();
        let mut found: Option<usize> = None;
        let mut i: usize = 0;
        while i < n
            invariant_except_break
                n == tv.len(),
                tv == self@.state.tiles,
                at(ctp) == c,
                found.is_none(),
                i <= n,
                forall|k: int| 0 <= k < i ==> !positioned_at(c)(#[trigger] tv[k]),
            ensures
                tv == self@.state.tiles,
                match found {
                    Some(j) => j < n && first_match(tv, positioned_at(c)) == Some(j as int),
                    None => forall|k: int| 0 <= k < n ==> !positioned_at(c)(#[trigger] tv[k]),
                },
            decreases n - i,
        {
            assert(tv[i as int] == self.game_state.tiles@[i as int]@);
            if self.game_state.tiles[i].position == ctp {
                proof {
                    lemma_first_match_at(tv, positioned_at(c), i as int);
                }
                found = Some(i);
                break;
            }
            i = i + 1;
        }
        if found.is_none() {
            proof {
                lemma_first_match_none(tv, positioned_at(c));
            }
        }
        let ti = match found {
            Some(j) => j,
            None => {
                return Err(GameError::NoTileAt(door_pos));
            },
        };
        let mut tile = self.game_state.tiles[ti].duplicate();
        assert(tile_wf(tv[ti as int]));
        if tile.squares.len() == 0 {
            return Err(GameError::NoTileAt(door_pos));
        }
        let m = tile.squares.len();
        for k in 0..m
            invariant
                m == tile.squares@.len(),
                m == 16,
                tile@ == tv[ti as int],
                tv == self@.state.tiles,
                self@ == old(self)@,
                ti < tv.len(),
                c == current_tile_pos(door_pos, *dir),
                first_match(tv, positioned_at(c)) == Some(ti as int),
                tiles_wf(tv),
                forall|j: int| 0 <= j < k ==> !equal_to(src_square)(#[trigger] tile.squares@[j]),
        {
            if tile.squares[k] == src_square {
                proof {
                    lemma_first_match_at(tile.squares@, equal_to(src_square), k as int);
                }
                let mut sq = tile.squares[k];
                sq.set_wall(*dir, WallType::Clear);
                let ghost old_tile = tile@;
                tile.squares.set(k, sq);
                let ghost new_tile = tile@;
                assert(new_tile =~= TileView {
                    squares: old_tile.squares.update(k as int, with_wall(old_tile.squares[k as int], *dir, WallType::Clear)),
                    ..old_tile
                });
                assert(tile_wf(old_tile));
                self.game_state.tiles.set(ti, tile);
                assert(tiles_view(self.game_state.tiles@) =~= tv.update(ti as int, new_tile));
                assert(opened_tiles(tv, door_pos, src_square, *dir) == Ok::<Seq<TileView>, GameError>(tv.update(ti as int, new_tile)));
                assert(self@.state =~= with_tiles(old(self)@.state, tv.update(ti as int, new_tile)));
                assert(self@ == with_state(old(self)@, with_tiles(old(self)@.state, tv.update(ti as int, new_tile))));
                assert(tile_wf(new_tile));
                assert forall|j: int| 0 <= j < self@.state.tiles.len() implies #[trigger] tile_wf(self@.state.tiles[j]) by {
                    if j != ti {
                        assert(tile_wf(tv[j]));
                    }
                }
                return Ok(());
            }
        }
        proof {
            lemma_first_match_none(tile.squares@, equal_to(src_square));
        }
        Err(GameError::NoMatchingDoorSquare)
    }

    /// Matches the doors on side `dir` of newly laid tile `idx` with its
    /// neighbour, as seen on the board `snap` from before any door was changed.
    fn apply_door_step(&mut self, snap: &Vec<Tile>, idx: usize, dir: MoveDirection, position: MapPosition)
        requires
            tiles_wf(tiles_view(snap@)),
            same_layout(old(self)@.state.tiles, tiles_view(snap@)),
            tiles_shape_ok(old(self)@.state.tiles),
            idx < snap@.len(),
            at(position) == outside_entrance(tiles_view(snap@)[idx as int], dir),
        ensures
            final(self)@ == with_state(
                old(self)@,
                with_tiles(old(self)@.state, door_step(old(self)@.state.tiles, tiles_view(snap@), idx as int, dir)),
            ),
    {
        let ghost sv = tiles_view(snap@);
        let ghost live = self@.state.tiles;
        proof {
            assert(tile_wf(sv[idx as int]));
            assert(tile_shape_ok(live[idx as int]));
            assert(as_position(at(position)) == position);
        }
        match grid_square(snap, &position) {
            Some(neighbor_square) => {
                proof {
                    lemma_grid_has_cover(sv, position);
                    lemma_same_layout_cover(live, sv, position);
                }
                let my_door_pos = position.move_in_direction(&dir.opposite());
                proof {
                    assert(covers(sv[idx as int], my_door_pos));
                    lemma_covered_on_grid(sv, idx as int, my_door_pos);
                }
                let my_square = grid_square(snap, &my_door_pos).unwrap();
                if my_square.has_door() {
                    if neighbor_square.has_door() {
                        let mut t = self.game_state.tiles[idx].duplicate();
                        t.open_door_in_dir(dir);
                        self.game_state.tiles.set(idx, t);
                        let ghost live1 = self@.state.tiles;
                        assert(live1 =~= live.update(idx as int, with_entrance_wall(live[idx as int], dir, WallType::Clear)));
                        proof {
                            lemma_entrance_wall_layout(live[idx as int], dir, WallType::Clear);
                            assert(same_layout(live1, live));
                            lemma_same_layout_cover(live1, live, position);
                            let j = first_cover(live1, position)->0;
                            assert(tile_shape_ok(live[j]));
                        }
                        let (j, mut nt) = self.get_tile_with_index(&position).unwrap();
                        nt.open_door_in_dir(dir.opposite());
                        self.game_state.tiles.set(j, nt);
                        assert(self@.state.tiles =~= door_step(live, sv, idx as int, dir));
                    } else {
                        let mut t = self.game_state.tiles[idx].duplicate();
                        t.close_door_in_dir(dir);
                        self.game_state.tiles.set(idx, t);
                        assert(self@.state.tiles =~= door_step(live, sv, idx as int, dir));
                    }
                } else if neighbor_square.has_door() {
                    proof {
                        let j = first_cover(live, position)->0;
                        assert(tile_shape_ok(live[j]));
                    }
                    let (j, mut nt) = self.get_tile_with_index(&position).unwrap();
                    nt.close_door_in_dir(dir.opposite());
                    self.game_state.tiles.set(j, nt);
                    assert(self@.state.tiles =~= door_step(live, sv, idx as int, dir));
                }
            },
            None => {},
        }
    }

    /// Matches the doors of newly laid tile `tile_idx` with its neighbours.
    fn update_tile_doors(&mut self, tile_idx: usize)
        requires
            tiles_wf(old(self)@.state.tiles),
            tile_idx < old(self)@.state.tiles.len(),
        ensures
            final(self)@ == with_state(
                old(self)@,
                with_tiles(old(self)@.state, doors_updated(old(self)@.state.tiles, tile_idx as int)),
            ),
            tiles_wf(final(self)@.state.tiles),
    {
        let ghost tv = self@.state.tiles;
        let snapshot = copy_tiles(&self.game_state.tiles);
        assert(tiles_view(snapshot@) == tv);
        assert(tile_wf(tv[tile_idx as int]));
        assert forall|i: int| 0 <= i < tv.len() implies #[trigger] tile_shape_ok(tv[i]) by {
            assert(tile_wf(tv[i]));
        }
        let entrances = snapshot[tile_idx].adjacent_entrances();
        let ghost t1 = door_step(tv, tv, tile_idx as int, MoveDirection::North);
        let ghost t2 = door_step(t1, tv, tile_idx as int, MoveDirection::East);
        let ghost t3 = door_step(t2, tv, tile_idx as int, MoveDirection::South);
        proof {
            lemma_door_step_layout(tv, tv, tile_idx as int, MoveDirection::North);
            lemma_door_step_layout(t1, tv, tile_idx as int, MoveDirection::East);
            lemma_door_step_layout(t2, tv, tile_idx as int, MoveDirection::South);
            lemma_door_step_layout(t3, tv, tile_idx as int, MoveDirection::West);
        }
        self.apply_door_step(&snapshot, tile_idx, entrances[0].0, entrances[0].1);
        self.apply_door_step(&snapshot, tile_idx, entrances[1].0, entrances[1].1);
        self.apply_door_step(&snapshot, tile_idx, entrances[2].0, entrances[2].1);
        self.apply_door_step(&snapshot, tile_idx, entrances[3].0, entrances[3].1);
        proof {
            lemma_doors_updated_layout(tv, tile_idx as int);
            let r = self@.state.tiles;
            assert forall|i: int| 0 <= i < r.len() implies #[trigger] tile_wf(r[i]) by {
                assert(tile_wf(tv[i]));
                assert(tile_shape_ok(r[i]));
            }
        }
    }

    /// Lays the tile at the end of the deck through entrance square `position`,
    /// revealed going `direction`.
    fn place_tile(&mut self, position: &MapPosition, direction: &MoveDirection) -> (r: MoveValidity)
        requires
            game_wf(old(self)@),
            old(self)@.deck.len() > 0 ==> corner_ok(new_tile_pos(*position, *direction)),
        ensures
            final(self)@ == laid(old(self)@, *position, *direction),
            outcome(r) == laid_outcome(old(self)@),
            game_wf(final(self)@),
            pads_revealed(old(self)@) ==> pads_revealed(final(self)@),
    {
        proof {
            if pads_revealed(self@) {
                assert forall|i: int| 0 <= i < self@.state.tiles.len() implies #[trigger] tile_shape_ok(
                    self@.state.tiles[i],
                ) by {
                    assert(tile_wf(self@.state.tiles[i]));
                }
                lemma_laid_pads(self@, *position, *direction);
            }
        }
        let tile = self.draw_tile();
        match tile {
            Some(t) => {
                proof {
                    assert(tile_shape_ok(old(self)@.deck[old(self)@.deck.len() - 1]));
                }
                let new_pos = Self::new_tile_position(position, direction);
                let num_rotations: u8 = match direction {
                    MoveDirection::North => 0,
                    MoveDirection::East => 1,
                    MoveDirection::South => 2,
                    MoveDirection::West => 3,
                };
                let rotated_tile = laid_tile(t, new_pos, num_rotations);
                assert(new_pos == as_position(new_tile_pos(*position, *direction)));
                let new_tile_idx = self.game_state.tiles.len();
                Self::update_revealed_teleporters(&mut self.revealed_teleporters, &rotated_tile);
                let ghost nt = rotated_tile@;
                self.game_state.tiles.push(rotated_tile);
                assert(self@.state.tiles =~= old(self)@.state.tiles.push(nt));
                assert forall|i: int| 0 <= i < self@.state.tiles.len() implies #[trigger] tile_wf(self@.state.tiles[i]) by {
                    if i < old(self)@.state.tiles.len() {
                        assert(tile_wf(old(self)@.state.tiles[i]));
                    }
                }
                self.update_tile_doors(new_tile_idx);
                proof {
                    assert forall|i: int| 0 <= i < self@.deck.len() implies #[trigger] tile_shape_ok(self@.deck[i]) by {
                        assert(tile_shape_ok(old(self)@.deck[i]));
                    }
                }
                MoveValidity::Valid
            },
            None => MoveValidity::Invalid(String::from_str("No tiles left in deck to draw")),
        }
    }

    /// Serves a request to reveal a tile through the entrance `pt.tile_entrance`.
    pub fn process_tile_placement(&mut self, pt: PlaceTile, player_name: &PlayerName) -> (r: MoveValidity)
        requires
            game_wf(old(self)@),
            placement_servable(old(self)@, pt, player_name.0@),
        ensures
            final(self)@ == placement_result(old(self)@, pt, player_name.0@).0,
            outcome(r) == placement_result(old(self)@, pt, player_name.0@).1,
            game_wf(final(self)@),
            pads_revealed(old(self)@) ==> pads_revealed(final(self)@),
    {
        proof {
            if pads_revealed(self@) {
                lemma_placement_pads(self@, pt, player_name.0@);
            }
        }
        if !self.player_has_ability(player_name, &Ability::RevealTiles) {
            return MoveValidity::Invalid(String::from_str("You cannot reveal tiles"));
        }
        let ghost tiles = self@.state.tiles;
        let (heister_pos, dir) = match self.placement_door(&pt) {
            Some(found) => found,
            None => {
                return MoveValidity::Invalid(
                    String::from_str("When placing a tile, the heister must be at a tile-reveal door"),
                );
            },
        };
        proof {
            lemma_on_grid_bounds(tiles, heister_pos);
        }
        let heister_square = grid_square(&self.game_state.tiles, &heister_pos).unwrap();
        match self.open_door(heister_pos, heister_square, &dir) {
            Ok(_) => {
                proof {
                    assert(game_wf(self@));
                }
                self.place_tile(&pt.tile_entrance, &dir)
            },
            Err(e) => MoveValidity::Invalid(door_failed_message(&error_message(e))),
        }
    }
}

/// Every entry of the entrance map is keyed by one of the door squares it was
/// built from, and maps it to that square's entrance.
pub proof fn lemma_entrance_map_keys(tiles: Seq<TileView>, ps: Seq<MapPosition>)
    ensures
        forall|k: int|
            0 <= k < entrance_map(tiles, ps).len() ==> exists|pi: int|
                0 <= pi < ps.len() && ps[pi] == (#[trigger] entrance_map(tiles, ps)[k]).0,
    decreases ps.len(),
{
    if ps.len() > 0 {
        let prev_ps = ps.drop_last();
        lemma_entrance_map_keys(tiles, prev_ps);
        let prev = entrance_map(tiles, prev_ps);
        let m = entrance_map(tiles, ps);
        let key = ps.last();
        lemma_first_match(prev, keyed::<MapPosition, MapPosition>(key));
        assert forall|k: int| 0 <= k < m.len() implies exists|pi: int|
            0 <= pi < ps.len() && ps[pi] == (#[trigger] m[k]).0 by {
            if k < prev.len() && m[k] == prev[k] {
                let pj = choose|pj: int| 0 <= pj < prev_ps.len() && prev_ps[pj] == prev[k].0;
                assert(ps[pj] == prev_ps[pj]);
            } else {
                assert(m[k].0 == key);
                assert(ps[ps.len() - 1] == key);
            }
        }
    }
}


/// The request can be served without failing.
pub open spec fn message_servable(g: GameView, b: Body, name: Seq<char>) -> bool {
    match b {
        Body::StartGame => g.state.players.len() <= 8,
        Body::Move(m) => move_servable(g.state, m, name),
        Body::PlaceTile(pt) => placement_servable(g, pt, name),
        _ => true,
    }
}

/// The game after a request other than a start takes effect, before the
/// derived lists are recomputed.
pub open spec fn effect(g: GameView, b: Body, name: Seq<char>) -> GameView {
    match b {
        Body::Move(m) => after_move(g, m, name),
        Body::PlaceTile(pt) => placement_result(g, pt, name).0,
        _ => g,
    }
}

/// The answer to a request other than a start.
pub open spec fn answer(g: GameView, b: Body, name: Seq<char>) -> Option<Seq<char>> {
    match b {
        Body::StartGame => None,
        Body::Move(m) => move_outcome(g.state, m, name),
        Body::PlaceTile(pt) => placement_result(g, pt, name).1,
        Body::GameState => Some(state_from_player_msg()),
        Body::InvalidRequest(_) => Some(invalid_request_from_player_msg()),
        Body::Chat(_) => None,
    }
}

/// `g1` with its derived lists recomputed.
pub open spec fn settled(g1: GameView) -> GameView {
    with_state(g1, refreshed(g1))
}

/// The game `g` served request `b` from player `name` with the clock reading
/// `now`, answering `r` and ending as `fin`: a start begins the game at `now`
/// (or, with the clock out of range, is refused), any other request has its
/// effect and answer; either way the derived lists are recomputed.
pub open spec fn served_at(g: GameView, b: Body, name: Seq<char>, now: u64, r: MoveValidity, fin: GameView) -> bool {
    match b {
        Body::StartGame => if now > u64::MAX - TIMER_DURATION_SECS {
            outcome(r) == Some(clock_message()) && fin == settled(g)
        } else {
            r == MoveValidity::Valid && exists|perm: Seq<usize>|
                is_permutation(perm, ability_sets(g.state.players.len()).len())
                    && fin == settled(with_state(g, started_state(g.state, now, perm)))
        },
        _ => outcome(r) == answer(g, b, name) && fin == settled(effect(g, b, name)),
    }
}

/// The game `g` served request `b` from player `name` at some reading of the clock.
pub open spec fn served(g: GameView, b: Body, name: Seq<char>, r: MoveValidity, fin: GameView) -> bool {
    exists|now: u64| #[trigger] served_at(g, b, name, now, r, fin)
}

impl Game {
    /// Serves a request from a player, the clock reading `now`, and recomputes
    /// where tiles can be revealed, where escalators lead and where heisters
    /// can teleport.
    pub fn handle_message_at(&mut self, message: MainMessage, player_name: &PlayerName, now: u64) -> (r: MoveValidity)
        requires
            game_wf(old(self)@),
            message.body is Some,
            message_servable(old(self)@, message.body->0, player_name.0@),
            refreshable(effect(old(self)@, message.body->0, player_name.0@)),
        ensures
            served_at(old(self)@, message.body->0, player_name.0@, now, r, final(self)@),
            game_wf(final(self)@),
            lists_keyed_once(final(self)@.state),
            pads_revealed(old(self)@) ==> pads_revealed(final(self)@),
    {
        let ghost g = self@;
        proof {
            if pads_revealed(g) {
                if let Body::PlaceTile(pt) = message.body->0 {
                    lemma_placement_pads(g, pt, player_name.0@);
                }
            }
        }
        let ghost b = message.body->0;
        let body = message.body.unwrap();
        let validity = match body {
            Body::StartGame => self.start_game_at(now),
            Body::Move(m) => self.process_move(m, player_name),
            Body::PlaceTile(pt) => self.process_tile_placement(pt, player_name),
            Body::GameState => MoveValidity::Invalid(
                String::from_str("GameState Message is invalid from players"),
            ),
            Body::InvalidRequest(_) => MoveValidity::Invalid(
                String::from_str("InvalidRequest Message is invalid from players"),
            ),
            Body::Chat(_) => MoveValidity::Valid,
        };
        let ghost g1 = self@;
        proof {
            assert(refreshable(g1));
            assert(tiles_wf(g1.state.tiles));
        }
        self.update_auxiliary_state();
        validity
    }

    /// Serves a request from a player at the current time (see `handle_message_at`).
    pub fn handle_message(&mut self, message: MainMessage, player_name: &PlayerName) -> (r: MoveValidity)
        requires
            game_wf(old(self)@),
            message.body is Some,
            message_servable(old(self)@, message.body->0, player_name.0@),
            refreshable(effect(old(self)@, message.body->0, player_name.0@)),
        ensures
            served(old(self)@, message.body->0, player_name.0@, r, final(self)@),
            game_wf(final(self)@),
            lists_keyed_once(final(self)@.state),
            pads_revealed(old(self)@) ==> pads_revealed(final(self)@),
    {
        let now = current_time_secs();
        let ghost b = message.body->0;
        let r = self.handle_message_at(message, player_name, now);
        assert(served_at(old(self)@, b, player_name.0@, now, r, self@));
        r
    }
}

/// Whether `t` has sixteen squares and escalator links between them.
fn tile_shape_is_ok(t: &Tile) -> (r: bool)
    ensures
        r == tile_shape_ok(t@),
{
    if t.squares.len() != 16 {
        return false;
    }
    let n = t.escalators.len();
    for k in 0..n
        invariant
            n == t.escalators@.len(),
            forall|j: int| 0 <= j < k ==> #[trigger] t.escalators@[j].0 < 16 && t.escalators@[j].1 < 16,
    {
        if t.escalators[k].0 >= 16 || t.escalators[k].1 >= 16 {
            assert(!(t@.escalators[k as int].0 < 16 && t@.escalators[k as int].1 < 16));
            return false;
        }
    }
    true
}

/// Whether `t` is well formed: its shape, and a corner with room around it.
fn tile_is_wf(t: &Tile) -> (r: bool)
    ensures
        r == tile_wf(t@),
{
    let p = t.position;
    tile_shape_is_ok(t) && i32::MIN + 8 <= p.x && p.x <= i32::MAX - 8 && i32::MIN + 8 <= p.y
        && p.y <= i32::MAX - 8
}

/// Whether a tile laid through entrance `e` in direction `d` has its corner
/// well inside the `i32` range.
fn corner_fits(e: &MapPosition, d: &MoveDirection) -> (r: bool)
    ensures
        r == corner_ok(new_tile_pos(*e, *d)),
{
    let ex: i64 = e.x as i64;
    let ey: i64 = e.y as i64;
    let (x, y): (i64, i64) = match d {
        MoveDirection::North => (ex - 1, ey - 3),
        MoveDirection::East => (ex, ey - 1),
        MoveDirection::South => (ex - 2, ey),
        MoveDirection::West => (ex - 3, ey - 2),
    };
    let lo: i64 = i32::MIN as i64 + 8;
    let hi: i64 = i32::MAX as i64 - 8;
    lo <= x && x <= hi && lo <= y && y <= hi
}

impl Game {
    /// A copy of the game.
    pub fn duplicate(&self) -> (r: Game)
        ensures
            r@ == self@,
    {
        let mut deck: Vec<Tile> = Vec::new();
        let n = self.tile_deck.len();
        for i in 0..n
            invariant
                n == self.tile_deck@.len(),
                deck@.len() == i,
                forall|k: int| 0 <= k < i ==> #[trigger] deck@[k]@ == self.tile_deck@[k]@,
        {
            deck.push(self.tile_deck[i].duplicate());
        }
        assert(tiles_view(deck@) =~= tiles_view(self.tile_deck@));
        Game {
            game_handle: GameHandle(copy_string(&self.game_handle.0)),
            game_state: self.game_state.duplicate(),
            tile_deck: deck,
            game_created: self.game_created,
            revealed_teleporters: crate::tile::copy_vec(&self.revealed_teleporters),
        }
    }

    /// Whether the tiles on the board and in the deck are well formed.
    pub fn is_well_formed(&self) -> (r: bool)
        ensures
            r == game_wf(self@),
    {
        let n = self.game_state.tiles.len();
        for i in 0..n
            invariant
                n == self@.state.tiles.len(),
                forall|k: int| 0 <= k < i ==> #[trigger] tile_wf(self@.state.tiles[k]),
        {
            if !tile_is_wf(&self.game_state.tiles[i]) {
                assert(!tile_wf(self@.state.tiles[i as int]));
                return false;
            }
        }
        if self.tile_deck.len() as u64 > u32::MAX as u64 {
            return false;
        }
        let m = self.tile_deck.len();
        for i in 0..m
            invariant
                m == self@.deck.len(),
                forall|k: int| 0 <= k < i ==> #[trigger] tile_shape_ok(self@.deck[k]),
        {
            if !tile_shape_is_ok(&self.tile_deck[i]) {
                assert(!tile_shape_ok(self@.deck[i as int]));
                return false;
            }
        }
        true
    }

    /// Whether every heister stands on a square of the board.
    fn heisters_on_board(&self) -> (r: bool)
        requires
            tiles_wf(self@.state.tiles),
        ensures
            r == heisters_on_grid(self@.state.tiles, self@.state.heisters),
    {
        let n = self.game_state.heisters.len();
        for i in 0..n
            invariant
                n == self@.state.heisters.len(),
                tiles_wf(self@.state.tiles),
                forall|k: int| 0 <= k < i ==> #[trigger] grid_get(self@.state.tiles, self@.state.heisters[k].map_position) is Some,
        {
            if grid_square(&self.game_state.tiles, &self.game_state.heisters[i].map_position).is_none() {
                return false;
            }
        }
        true
    }

    /// Whether every heister on an escalator square has an escalator to ride.
    fn escalators_ridable(&self) -> (r: bool)
        requires
            tiles_wf(self@.state.tiles),
            heisters_on_grid(self@.state.tiles, self@.state.heisters),
        ensures
            r == escalators_linked(self@.state.tiles, self@.state.heisters),
    {
        let ghost tiles = self@.state.tiles;
        let ghost hs = self@.state.heisters;
        let n = self.game_state.heisters.len();
        for i in 0..n
            invariant
                n == hs.len(),
                tiles == self@.state.tiles,
                hs == self@.state.heisters,
                tiles_wf(tiles),
                heisters_on_grid(tiles, hs),
                forall|k: int|
                    0 <= k < i && #[trigger] on_escalator(tiles, hs[k]) ==> (first_cover(tiles, hs[k].map_position) matches Some(j)
                        && escalator_dest(tiles[j], hs[k].map_position) is Some),
        {
            let pos = self.game_state.heisters[i].map_position;
            assert(grid_get(tiles, hs[i as int].map_position) is Some);
            let square = grid_square(&self.game_state.tiles, &pos).unwrap();
            if square.square_type == SquareType::Escalator {
                assert(on_escalator(tiles, hs[i as int]));
                proof {
                    lemma_grid_has_cover(tiles, pos);
                    assert(tile_wf(tiles[first_cover(tiles, pos)->0]));
                }
                let (_idx, tile) = self.get_tile_with_index(&pos).unwrap();
                if tile.get_escalator_dest(&pos).is_none() {
                    return false;
                }
            }
        }
        true
    }

    /// Whether the derived lists can be recomputed: every heister is on the
    /// board, and every heister on an escalator has one to ride.
    pub fn is_refreshable(&self) -> (r: bool)
        requires
            tiles_wf(self@.state.tiles),
        ensures
            r == refreshable(self@),
    {
        self.heisters_on_board() && self.escalators_ridable()
    }

    /// The door square and door side of the heister whose tile would be
    /// entered at `pt`'s entrance.
    fn placement_door(&self, pt: &PlaceTile) -> (r: Option<(MapPosition, MoveDirection)>)
        requires
            tiles_wf(self@.state.tiles),
            heisters_on_grid(self@.state.tiles, self@.state.heisters),
        ensures
            match placement_target(self@.state, *pt) {
                Some(hp) => r == Some((hp, door_side(self@.state, hp))),
                None => r is None,
            },
            r matches Some((hp, _d)) ==> grid_get(self@.state.tiles, hp) is Some,
    {
        let ghost tiles = self@.state.tiles;
        let entrances = self.heister_to_tile_entrance_positions();
        proof {
            lemma_placements_on_grid(tiles, self@.state.heisters);
            lemma_entrance_map_keys(tiles, placement_positions(tiles, self@.state.heisters));
        }
        let n = entrances.len();
        for i in 0..n
            invariant
                n == entrances@.len(),
                entrances@ == tile_entrances(tiles, self@.state.heisters),
                tiles == self@.state.tiles,
                tiles_wf(tiles),
                heisters_on_grid(tiles, self@.state.heisters),
                forall|k: int| 0 <= k < i ==> !entering_at(pt.tile_entrance)(#[trigger] entrances@[k]),
        {
            if entrances[i].1 == pt.tile_entrance {
                proof {
                    lemma_first_match_at(entrances@, entering_at(pt.tile_entrance), i as int);
                    lemma_placements_on_grid(tiles, self@.state.heisters);
                    lemma_entrance_map_keys(tiles, placement_positions(tiles, self@.state.heisters));
                }
                let hp = entrances[i].0;
                proof {
                    let ps = placement_positions(tiles, self@.state.heisters);
                    let pi = choose|pi: int| 0 <= pi < ps.len() && ps[pi] == hp;
                    assert(grid_get(tiles, ps[pi]) is Some);
                }
                let square = grid_square(&self.game_state.tiles, &hp).unwrap();
                let dir = Self::get_door_direction(&square).unwrap();
                return Some((hp, dir));
            }
        }
        proof {
            lemma_first_match_none(entrances@, entering_at(pt.tile_entrance));
        }
        None
    }

    /// Whether `handle_message` can serve `message` from `player_name` without
    /// failing: the game is well formed, the message has a body, the request
    /// can be served, and once it has taken effect every heister stands on the
    /// board and every heister on an escalator has one to ride.
    pub fn can_handle_message(&self, message: &MainMessage, player_name: &PlayerName) -> (r: bool)
        ensures
            r == (game_wf(self@) && message.body is Some && message_servable(
                self@,
                message.body->0,
                player_name.0@,
            ) && refreshable(effect(self@, message.body->0, player_name.0@))),
    {
        if !self.is_well_formed() {
            return false;
        }
        match &message.body {
            None => false,
            Some(Body::StartGame) => self.game_state.players.len() <= 8 && self.is_refreshable(),
            Some(Body::Move(m)) => {
                proof {
                    lemma_first_match(self@.state.heisters, of_color(m.heister_color));
                }
                let heister = match self.get_heister_from_vec(m.heister_color) {
                    Some(h) => h,
                    None => return false,
                };
                let from = heister.map_position;
                let rides = match grid_square(&self.game_state.tiles, &from) {
                    Some(sq) => sq.square_type == SquareType::Escalator || sq.is_teleport(),
                    None => false,
                };
                if (from.is_adjacent(&m.position) || rides) && self.player_index(&player_name.0).is_none() {
                    return false;
                }
                let mut copy = self.duplicate();
                copy.process_move(*m, player_name);
                copy.is_refreshable()
            },
            Some(Body::PlaceTile(pt)) => {
                if self.player_index(&player_name.0).is_none() || !self.heisters_on_board() {
                    return false;
                }
                if let Some((_hp, dir)) = self.placement_door(pt) {
                    if !corner_fits(&pt.tile_entrance, &dir) {
                        return false;
                    }
                }
                let mut copy = self.duplicate();
                copy.process_tile_placement(*pt, player_name);
                copy.is_refreshable()
            },
            Some(_) => self.is_refreshable(),
        }
    }
}

} // verus!
