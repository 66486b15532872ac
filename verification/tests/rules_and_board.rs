use heist_game::abilities::{base_ability_sets, get_player_abilities};
use heist_game::chance::random_permutation;
use heist_game::game::{Game, GameOptions, MoveValidity, TIMER_DURATION_SECS};
use heist_game::state::{Body, GameHandle, GameStatus, MainMessage, PlayerName};
use heist_game::text::{format_int, format_position};
use heist_game::tile::{rotate_squares_clockwise, Tile};
use heist_game::types::{
    Ability, Heister, HeisterColor, MapPosition, Move, MoveDirection, PlaceTile, Square,
    SquareType, WallType,
};

fn player() -> PlayerName {
    PlayerName("p1".to_string())
}

fn open_square() -> Square {
    Square {
        north_wall: WallType::Clear,
        east_wall: WallType::Clear,
        south_wall: WallType::Clear,
        west_wall: WallType::Clear,
        square_type: SquareType::Normal,
    }
}

fn walled_squares() -> Vec<Square> {
    let mut squares = Vec::new();
    for i in 0..16 {
        let mut s = open_square();
        if i / 4 == 0 {
            s.north_wall = WallType::Impassable;
        }
        if i / 4 == 3 {
            s.south_wall = WallType::Impassable;
        }
        if i % 4 == 0 {
            s.west_wall = WallType::Impassable;
        }
        if i % 4 == 3 {
            s.east_wall = WallType::Impassable;
        }
        squares.push(s);
    }
    squares
}

fn tile(name: &str, squares: Vec<Square>, escalators: Vec<(usize, usize)>) -> Tile {
    Tile { name: name.to_string(), position: MapPosition { x: 0, y: 0 }, squares, escalators, num_rotations: 0 }
}

/// Start tile: doors of each color at the entrances, an escalator between
/// squares 0 and 15, orange pads at squares 3 and 12, a purple pad at square 8.
fn start_tile() -> Tile {
    let mut s = walled_squares();
    s[2].north_wall = WallType::OrangeDoor;
    s[11].east_wall = WallType::GreenDoor;
    s[13].south_wall = WallType::YellowDoor;
    s[4].west_wall = WallType::PurpleDoor;
    s[0].square_type = SquareType::Escalator;
    s[15].square_type = SquareType::Escalator;
    s[3].square_type = SquareType::OrangeTeleportPad;
    s[12].square_type = SquareType::OrangeTeleportPad;
    s[8].square_type = SquareType::PurpleTeleportPad;
    tile("1a", s, vec![(0, 15)])
}

/// A deck tile entered through a clear south entrance.
fn deck_tile(name: &str) -> Tile {
    let mut s = walled_squares();
    s[2].north_wall = WallType::PurpleDoor;
    s[11].east_wall = WallType::YellowDoor;
    s[13].south_wall = WallType::Clear;
    s[4].west_wall = WallType::GreenDoor;
    tile(name, s, vec![])
}

fn new_game(deck: Vec<Tile>) -> Game {
    let options = GameOptions { shuffle_tiles: false };
    let mut game = Game::new(GameHandle("g".to_string()), options, start_tile(), deck);
    game.add_player(player().0.clone()).unwrap();
    assert_eq!(game.start_game(), MoveValidity::Valid);
    game
}

fn send(game: &mut Game, body: Body) -> MoveValidity {
    game.handle_message(MainMessage { body: Some(body) }, &player())
}

fn put_heister(game: &mut Game, color: HeisterColor, x: i32, y: i32) {
    for h in game.game_state.heisters.iter_mut() {
        if h.heister_color == color {
            h.map_position = MapPosition { x, y };
        }
    }
}

fn go(game: &mut Game, color: HeisterColor, x: i32, y: i32) -> MoveValidity {
    send(game, Body::Move(Move { heister_color: color, position: MapPosition { x, y } }))
}

fn invalid(s: &str) -> MoveValidity {
    MoveValidity::Invalid(s.to_string())
}

#[test]
fn decimal_and_position_texts() {
    assert_eq!(format_int(0), "0");
    assert_eq!(format_int(-7), "-7");
    assert_eq!(format_int(1234), "1234");
    assert_eq!(format_int(i32::MIN), "-2147483648");
    assert_eq!(format_int(i32::MAX), "2147483647");
    let p = MapPosition { x: -3, y: 40 };
    assert_eq!(format_position(&p), format!("{:?}", p));
}

#[test]
fn permutations_hold_each_index_once_and_vary() {
    let mut saw_reordering = false;
    for _ in 0..6 {
        let p = random_permutation(12);
        let mut seen = vec![false; 12];
        for &i in p.iter() {
            assert!(i < 12);
            assert!(!seen[i]);
            seen[i] = true;
        }
        if p != (0..12).collect::<Vec<usize>>() {
            saw_reordering = true;
        }
    }
    assert!(saw_reordering);
}

#[test]
fn ability_sets_cover_every_ability() {
    let all = [
        Ability::MoveNorth,
        Ability::MoveEast,
        Ability::MoveSouth,
        Ability::MoveWest,
        Ability::Teleport,
        Ability::RevealTiles,
        Ability::UseEscalator,
    ];
    for n in 0..=8usize {
        let sets = get_player_abilities(n);
        assert_eq!(sets.len(), if n <= 1 { 1 } else { n });
        for a in all.iter() {
            assert!(sets.iter().any(|s| s.contains(a)));
        }
    }
    let four = base_ability_sets(4);
    assert_eq!(four[1], vec![Ability::MoveEast, Ability::UseEscalator]);
}

#[test]
fn players_join_only_while_staging() {
    let mut game = Game::new(
        GameHandle("g".to_string()),
        GameOptions { shuffle_tiles: false },
        start_tile(),
        vec![],
    );
    assert!(!game.has_player("ann"));
    game.add_player("ann".to_string()).unwrap();
    assert!(game.has_player("ann"));
    game.add_player("bob".to_string()).unwrap();
    assert_eq!(game.start_game(), MoveValidity::Valid);
    assert_eq!(game.game_state.game_status, GameStatus::Ongoing);
    assert_eq!(game.game_state.timer_runs_out, game.game_state.game_started + TIMER_DURATION_SECS);
    assert!(game.game_state.game_started > 0);
    game.add_player("cy".to_string()).unwrap();
    assert!(!game.has_player("cy"));
    assert_eq!(game.game_state.players.len(), 2);
    let mut held = Vec::new();
    for p in game.game_state.players.iter() {
        held.extend(p.abilities.iter().cloned());
    }
    assert_eq!(held.len(), 7);
}

#[test]
fn new_game_lays_start_tile_and_places_heisters() {
    let deck = vec![deck_tile("2"), deck_tile("3")];
    let game = Game::new(GameHandle("g".to_string()), GameOptions { shuffle_tiles: false }, start_tile(), deck);
    assert_eq!(game.game_state.tiles.len(), 1);
    assert_eq!(game.game_state.remaining_tiles, 2);
    assert_eq!(game.tile_deck[1].name, "3");
    let h = game.get_heister_from_vec(HeisterColor::Yellow).unwrap();
    assert_eq!(h.map_position, MapPosition { x: 1, y: 2 });
    let state = game.get_game_state();
    assert_eq!(state.heisters, game.game_state.heisters);
    assert_eq!(state.game_name.0, "g");
    assert_eq!(game.get_absolute_grid().len(), 16);
}

#[test]
fn walls_and_doors_stop_steps() {
    let mut game = new_game(vec![]);
    put_heister(&mut game, HeisterColor::Purple, 1, 0);
    assert_eq!(go(&mut game, HeisterColor::Purple, 1, -1), invalid("Can't pass through impassable wall"));
    put_heister(&mut game, HeisterColor::Orange, 2, 0);
    assert_eq!(go(&mut game, HeisterColor::Orange, 2, -1), invalid("Wall OrangeDoor cannot be passed through"));
    assert_eq!(game.get_heister_from_vec(HeisterColor::Orange).unwrap().map_position, MapPosition { x: 2, y: 0 });
}

#[test]
fn escalator_rides() {
    let mut game = new_game(vec![]);
    put_heister(&mut game, HeisterColor::Yellow, 0, 0);
    go(&mut game, HeisterColor::Purple, 1, 1);
    assert_eq!(game.game_state.possible_escalators, vec![(HeisterColor::Yellow, MapPosition { x: 3, y: 3 })]);
    assert_eq!(go(&mut game, HeisterColor::Yellow, 2, 3), invalid("Square at MapPosition { x: 2, y: 3 } is not escalator"));
    assert_eq!(go(&mut game, HeisterColor::Yellow, 9, 9), invalid("Position MapPosition { x: 9, y: 9 } not found in grid"));
    assert_eq!(go(&mut game, HeisterColor::Yellow, 3, 3), MoveValidity::Valid);
    assert_eq!(game.get_heister_from_vec(HeisterColor::Yellow).unwrap().map_position, MapPosition { x: 3, y: 3 });
    assert_eq!(game.game_state.possible_escalators, vec![(HeisterColor::Yellow, MapPosition { x: 0, y: 0 })]);
}

#[test]
fn teleports_follow_pad_colors() {
    let mut game = new_game(vec![]);
    put_heister(&mut game, HeisterColor::Orange, 3, 0);
    go(&mut game, HeisterColor::Purple, 1, 1);
    assert_eq!(
        game.game_state.possible_teleports,
        vec![(HeisterColor::Orange, vec![MapPosition { x: 3, y: 0 }, MapPosition { x: 0, y: 3 }])]
    );
    assert_eq!(go(&mut game, HeisterColor::Orange, 0, 2), invalid("Source and Dest teleporter colors do not match"));
    assert_eq!(
        go(&mut game, HeisterColor::Orange, 30, 30),
        invalid("Destination is not on the grid: No square at pos MapPosition { x: 30, y: 30 }")
    );
    assert_eq!(go(&mut game, HeisterColor::Orange, 0, 3), MoveValidity::Valid);
    put_heister(&mut game, HeisterColor::Green, 0, 2);
    assert_eq!(go(&mut game, HeisterColor::Green, 3, 0), invalid("Heister and teleporter color do not match"));
}

#[test]
fn teleports_listed_only_on_own_color_pads() {
    let mut game = new_game(vec![]);
    put_heister(&mut game, HeisterColor::Purple, 3, 0);
    send(&mut game, Body::Chat("look".to_string()));
    assert_eq!(game.game_state.possible_teleports, vec![]);
    put_heister(&mut game, HeisterColor::Purple, 0, 2);
    send(&mut game, Body::Chat("look".to_string()));
    assert_eq!(
        game.game_state.possible_teleports,
        vec![(HeisterColor::Purple, vec![MapPosition { x: 0, y: 2 }])]
    );
}

#[test]
fn moves_from_plain_squares_and_other_requests() {
    let mut game = new_game(vec![]);
    assert_eq!(
        go(&mut game, HeisterColor::Purple, 3, 3),
        invalid("Invalid move for heister Purple at MapPosition { x: 1, y: 1 } to position MapPosition { x: 3, y: 3 }")
    );
    assert_eq!(send(&mut game, Body::GameState), invalid("GameState Message is invalid from players"));
    assert_eq!(
        send(&mut game, Body::InvalidRequest("x".to_string())),
        invalid("InvalidRequest Message is invalid from players")
    );
    assert_eq!(send(&mut game, Body::Chat("hi".to_string())), MoveValidity::Valid);
}

#[test]
fn placements_need_a_door_and_a_tile() {
    let mut game = new_game(vec![]);
    assert_eq!(
        send(&mut game, Body::PlaceTile(PlaceTile { tile_entrance: MapPosition { x: 2, y: -1 } })),
        invalid("When placing a tile, the heister must be at a tile-reveal door")
    );
    put_heister(&mut game, HeisterColor::Orange, 2, 0);
    go(&mut game, HeisterColor::Purple, 1, 1);
    assert_eq!(game.game_state.possible_placements, vec![MapPosition { x: 2, y: -1 }]);
    assert_eq!(
        send(&mut game, Body::PlaceTile(PlaceTile { tile_entrance: MapPosition { x: 2, y: -1 } })),
        invalid("No tiles left in deck to draw")
    );
    assert_eq!(game.game_state.tiles[0].squares[2].north_wall, WallType::Clear);
    assert_eq!(game.game_state.remaining_tiles, 0);
}

#[test]
fn door_off_its_entrance_cannot_be_opened() {
    let mut s = walled_squares();
    s[1].north_wall = WallType::OrangeDoor;
    let start = tile("odd", s, vec![]);
    let mut game = Game::new(GameHandle("g".to_string()), GameOptions { shuffle_tiles: false }, start, vec![deck_tile("2")]);
    game.add_player(player().0.clone()).unwrap();
    game.start_game();
    put_heister(&mut game, HeisterColor::Orange, 1, 0);
    assert_eq!(
        send(&mut game, Body::PlaceTile(PlaceTile { tile_entrance: MapPosition { x: 1, y: -1 } })),
        invalid("Couldn't open door for newly placed tile: No tile found at pos MapPosition { x: 1, y: 0 }")
    );
    assert_eq!(game.game_state.tiles.len(), 1);
    assert_eq!(game.tile_deck.len(), 1);
}

#[test]
fn tile_revealed_east_is_turned_and_entered() {
    let mut game = new_game(vec![deck_tile("2")]);
    put_heister(&mut game, HeisterColor::Green, 3, 2);
    assert_eq!(
        send(&mut game, Body::PlaceTile(PlaceTile { tile_entrance: MapPosition { x: 4, y: 2 } })),
        MoveValidity::Valid
    );
    let t = &game.game_state.tiles[1];
    assert_eq!(t.position, MapPosition { x: 4, y: 1 });
    assert_eq!(t.num_rotations, 1);
    assert_eq!(t.squares[4].west_wall, WallType::Clear);
    assert_eq!(t.squares[2].north_wall, WallType::GreenDoor);
    assert_eq!(game.tile_deck.len(), 0);
    assert_eq!(go(&mut game, HeisterColor::Green, 4, 2), MoveValidity::Valid);
    assert_eq!(go(&mut game, HeisterColor::Green, 3, 2), MoveValidity::Valid);
}

#[test]
fn entrance_with_a_door_facing_no_door_is_walled_off() {
    let mut s = walled_squares();
    s[13].south_wall = WallType::PurpleDoor;
    let mut game = new_game(vec![tile("2", s, vec![])]);
    put_heister(&mut game, HeisterColor::Orange, 2, 0);
    assert_eq!(
        send(&mut game, Body::PlaceTile(PlaceTile { tile_entrance: MapPosition { x: 2, y: -1 } })),
        MoveValidity::Valid
    );
    assert_eq!(game.game_state.tiles[1].squares[13].south_wall, WallType::Impassable);
    assert_eq!(go(&mut game, HeisterColor::Orange, 2, -1), MoveValidity::Valid);
    assert_eq!(go(&mut game, HeisterColor::Orange, 2, 0), invalid("Can't pass through impassable wall"));
}

#[test]
fn four_quarter_turns_restore_a_tile() {
    let before = start_tile().squares;
    let mut s = before.clone();
    for _ in 0..4 {
        s = rotate_squares_clockwise(&s);
    }
    assert_eq!(s, before);
    let once = rotate_squares_clockwise(&before);
    assert_eq!(once[3].east_wall, before[0].north_wall);
    assert_eq!(once[3].square_type, SquareType::Escalator);
}

#[test]
fn tile_queries() {
    let t = start_tile();
    assert_eq!(t.get_escalator_dest(&MapPosition { x: 0, y: 0 }), Some(MapPosition { x: 3, y: 3 }));
    assert_eq!(t.get_escalator_dest(&MapPosition { x: 1, y: 0 }), None);
    let pads = t.get_teleporters();
    assert_eq!(pads[0], (HeisterColor::Orange, MapPosition { x: 3, y: 0 }));
    assert_eq!(pads[1], (HeisterColor::Purple, MapPosition { x: 0, y: 2 }));
    let e = t.adjacent_entrances();
    assert_eq!(e[0], (MoveDirection::North, MapPosition { x: 2, y: -1 }));
    assert_eq!(e[3], (MoveDirection::West, MapPosition { x: -1, y: 1 }));
    assert!(!t.squares[5].has_door());
    assert!(t.squares[2].has_door());
}

#[test]
fn heisters_never_share_a_square_by_stepping() {
    let mut game = new_game(vec![]);
    assert_eq!(
        go(&mut game, HeisterColor::Purple, 2, 1),
        invalid("Heister Orange is on MapPosition { x: 2, y: 1 }")
    );
    let hs: Vec<Heister> = game.game_state.heisters.clone();
    for i in 0..hs.len() {
        for j in 0..hs.len() {
            if i != j {
                assert_ne!(hs[i].map_position, hs[j].map_position);
            }
        }
    }
}

#[test]
fn start_refused_while_the_clock_is_out_of_range() {
    let options = GameOptions { shuffle_tiles: false };
    let mut game = Game::new_at(GameHandle("g".to_string()), options, start_tile(), vec![], 7);
    assert_eq!(game.game_created, 7);
    game.add_player(player().0.clone()).unwrap();
    assert_eq!(game.start_game_at(u64::MAX), invalid("The clock reads too late to start the timer"));
    assert_eq!(game.game_state.game_status, GameStatus::Staging);
    assert_eq!(game.game_state.timer_runs_out, 0);
    assert!(game.game_state.players[0].abilities.is_empty());
    assert_eq!(game.start_game_at(u64::MAX - TIMER_DURATION_SECS), MoveValidity::Valid);
    assert_eq!(game.game_state.game_status, GameStatus::Ongoing);
    assert_eq!(game.game_state.timer_runs_out, u64::MAX);
}

#[test]
fn start_request_served_at_a_given_time() {
    let options = GameOptions { shuffle_tiles: false };
    let mut game = Game::new_at(GameHandle("g".to_string()), options, start_tile(), vec![], 0);
    game.add_player(player().0.clone()).unwrap();
    let start = || MainMessage { body: Some(Body::StartGame) };
    assert_eq!(
        game.handle_message_at(start(), &player(), u64::MAX),
        invalid("The clock reads too late to start the timer")
    );
    assert_eq!(game.game_state.game_status, GameStatus::Staging);
    assert_eq!(game.handle_message_at(start(), &player(), 1000), MoveValidity::Valid);
    assert_eq!(game.game_state.game_started, 1000);
    assert_eq!(game.game_state.timer_runs_out, 1300);
    assert_eq!(game.game_state.players[0].abilities.len(), 7);
}

#[test]
fn revealed_pads_follow_the_tiles_laid() {
    let mut s = walled_squares();
    s[13].south_wall = WallType::Clear;
    s[5].square_type = SquareType::GreenTeleportPad;
    let mut game = new_game(vec![tile("2", s, vec![])]);
    let mut expected = vec![
        (HeisterColor::Orange, MapPosition { x: 3, y: 0 }),
        (HeisterColor::Purple, MapPosition { x: 0, y: 2 }),
        (HeisterColor::Orange, MapPosition { x: 0, y: 3 }),
    ];
    assert_eq!(game.revealed_teleporters, expected);
    put_heister(&mut game, HeisterColor::Orange, 2, 0);
    assert_eq!(
        send(&mut game, Body::PlaceTile(PlaceTile { tile_entrance: MapPosition { x: 2, y: -1 } })),
        MoveValidity::Valid
    );
    assert_eq!(game.game_state.tiles[1].position, MapPosition { x: 1, y: -4 });
    expected.push((HeisterColor::Green, MapPosition { x: 2, y: -3 }));
    assert_eq!(game.revealed_teleporters, expected);
}

#[test]
fn requests_checked_before_serving() {
    let game = new_game(vec![]);
    let msg = |b: Body| MainMessage { body: Some(b) };
    let step = |x: i32, y: i32| Body::Move(Move { heister_color: HeisterColor::Purple, position: MapPosition { x, y } });
    let stranger = PlayerName("nobody".to_string());
    assert!(game.is_well_formed());
    assert!(game.can_handle_message(&msg(Body::Chat("hi".to_string())), &player()));
    assert!(!game.can_handle_message(&MainMessage { body: None }, &player()));
    assert!(game.can_handle_message(&msg(step(1, 0)), &player()));
    assert!(!game.can_handle_message(&msg(step(1, 0)), &stranger));
    assert!(game.can_handle_message(&msg(step(3, 3)), &stranger));
    let reveal = || Body::PlaceTile(PlaceTile { tile_entrance: MapPosition { x: 2, y: -1 } });
    assert!(game.can_handle_message(&msg(reveal()), &player()));
    assert!(!game.can_handle_message(&msg(reveal()), &stranger));

    let mut off = new_game(vec![]);
    put_heister(&mut off, HeisterColor::Yellow, 40, 40);
    assert!(off.is_well_formed());
    assert!(!off.can_handle_message(&msg(Body::Chat("hi".to_string())), &player()));

    let mut bad = new_game(vec![]);
    bad.game_state.tiles[0].escalators.push((0, 16));
    assert!(!bad.is_well_formed());
    assert!(!bad.can_handle_message(&msg(Body::Chat("hi".to_string())), &player()));

    let copy = game.duplicate();
    assert_eq!(copy.game_state.heisters, game.game_state.heisters);
    assert_eq!(copy.revealed_teleporters, game.revealed_teleporters);
}
