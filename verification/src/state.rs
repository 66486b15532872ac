//! The shared game state and the board it describes.
use vstd::prelude::*;
use crate::search::{first_match, last_match, lemma_first_match, lemma_last_match};
use crate::tile::{covers, square_at, tile_wf, Tile, TileView};
use crate::types::{Ability, Heister, HeisterColor, MapPosition, Move, PlaceTile, Square};

verus! {

#[derive(Clone, Default, Debug, PartialEq, Eq, Hash)]
pub struct GameHandle(pub String);

#[derive(Debug)]
pub struct PlayerName(pub String);

pub struct Player {
    pub name: String,
    pub abilities: Vec<Ability>,
}

#[derive(Clone, Copy, Debug, PartialEq, Eq, Structural)]
pub enum GameStatus {
    Staging,
    Ongoing,
    Victory,
    Defeat,
}

/// Everything the players see of a game.
pub struct GameState {
    pub game_name: GameHandle,
    pub game_started: u64,
    pub timer_runs_out: u64,
    pub game_status: GameStatus,
    pub players: Vec<Player>,
    pub heisters: Vec<Heister>,
    pub tiles: Vec<Tile>,
    pub remaining_tiles: u32,
    pub possible_placements: Vec<MapPosition>,
    pub possible_escalators: Vec<(HeisterColor, MapPosition)>,
    pub possible_teleports: Vec<(HeisterColor, Vec<MapPosition>)>,
}

/// What a player may send to the game.
pub enum Body {
    StartGame,
    Move(Move),
    PlaceTile(PlaceTile),
    GameState,
    InvalidRequest(String),
    Chat(String),
}

pub struct MainMessage {
    pub body: Option<Body>,
}

pub struct PlayerView {
    pub name: Seq<char>,
    pub abilities: Seq<Ability>,
}

impl View for Player {
    type V = PlayerView;

    open spec fn view(&self) -> PlayerView {
        PlayerView { name: self.name@, abilities: self.abilities@ }
    }
}

pub struct GameStateView {
    pub game_name: Seq<char>,
    pub game_started: u64,
    pub timer_runs_out: u64,
    pub game_status: GameStatus,
    pub players: Seq<PlayerView>,
    pub heisters: Seq<Heister>,
    pub tiles: Seq<TileView>,
    pub remaining_tiles: u32,
    pub possible_placements: Seq<MapPosition>,
    pub possible_escalators: Seq<(HeisterColor, MapPosition)>,
    pub possible_teleports: Seq<(HeisterColor, Seq<MapPosition>)>,
}

pub open spec fn players_view(p: Seq<Player>) -> Seq<PlayerView> {
    p.map_values(|q: Player| q@)
}

pub open spec fn tiles_view(t: Seq<Tile>) -> Seq<TileView> {
    t.map_values(|q: Tile| q@)
}

pub open spec fn teleports_view(t: Seq<(HeisterColor, Vec<MapPosition>)>) -> Seq<
    (HeisterColor, Seq<MapPosition>),
> {
    t.map_values(|q: (HeisterColor, Vec<MapPosition>)| (q.0, q.1@))
}

impl View for GameState {
    type V = GameStateView;

    open spec fn view(&self) -> GameStateView {
        GameStateView {
            game_name: self.game_name.0@,
            game_started: self.game_started,
            timer_runs_out: self.timer_runs_out,
            game_status: self.game_status,
            players: players_view(self.players@),
            heisters: self.heisters@,
            tiles: tiles_view(self.tiles@),
            remaining_tiles: self.remaining_tiles,
            possible_placements: self.possible_placements@,
            possible_escalators: self.possible_escalators@,
            possible_teleports: teleports_view(self.possible_teleports@),
        }
    }
}

pub open spec fn covering(p: MapPosition) -> spec_fn(TileView) -> bool {
    |t: TileView| covers(t, p)
}

/// The square at `p` on the board. Where tiles overlap, the tile laid last is the
/// one seen.
pub open spec fn grid_get(tiles: Seq<TileView>, p: MapPosition) -> Option<Square> {
    match last_match(tiles, covering(p)) {
        Some(i) => Some(square_at(tiles[i], p)),
        None => None,
    }
}

/// The first tile laid that covers `p`.
pub open spec fn first_cover(tiles: Seq<TileView>, p: MapPosition) -> Option<int> {
    first_match(tiles, covering(p))
}

pub open spec fn tiles_wf(tiles: Seq<TileView>) -> bool {
    forall|i: int| 0 <= i < tiles.len() ==> #[trigger] tile_wf(tiles[i])
}

pub open spec fn named(name: Seq<char>) -> spec_fn(PlayerView) -> bool {
    |p: PlayerView| p.name == name
}

pub open spec fn has_player_named(players: Seq<PlayerView>, name: Seq<char>) -> bool {
    first_match(players, named(name)) is Some
}

/// The abilities of the first player of that name.
pub open spec fn abilities_of(players: Seq<PlayerView>, name: Seq<char>) -> Seq<Ability> {
    players[first_match(players, named(name))->0].abilities
}

pub open spec fn of_color(c: HeisterColor) -> spec_fn(Heister) -> bool {
    |h: Heister| h.heister_color == c
}

pub open spec fn standing_at(p: MapPosition) -> spec_fn(Heister) -> bool {
    |h: Heister| h.map_position == p
}

/// A position the board shows a square at is covered by some tile.
pub proof fn lemma_grid_has_cover(tiles: Seq<TileView>, p: MapPosition)
    requires
        grid_get(tiles, p) is Some,
    ensures
        first_cover(tiles, p) matches Some(i) && 0 <= i < tiles.len() && covers(tiles[i], p),
{
    lemma_last_match(tiles, covering(p));
    lemma_first_match(tiles, covering(p));
    let j = last_match(tiles, covering(p))->0;
    if first_cover(tiles, p) is None {
        assert(!covering(p)(tiles[j]));
    }
}


/// A position covered by some tile is on the board.
pub proof fn lemma_covered_on_grid(tiles: Seq<TileView>, i: int, p: MapPosition)
    requires
        0 <= i < tiles.len(),
        covers(tiles[i], p),
    ensures
        grid_get(tiles, p) is Some,
{
    lemma_last_match(tiles, covering(p));
    if last_match(tiles, covering(p)) is None {
        assert(!covering(p)(tiles[i]));
    }
}

} // verus!
