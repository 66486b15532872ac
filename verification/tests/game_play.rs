use heist_game::game::{Game, GameOptions, MoveValidity};
use heist_game::state::{Body, GameHandle, MainMessage, PlayerName};
use heist_game::tile::Tile;
use heist_game::types::{
    Heister, HeisterColor, MapPosition, Move, MoveDirection, PlaceTile, Square, SquareType,
    WallType,
};

fn fake_player_name() -> PlayerName {
    PlayerName("fake name".to_string())
}

fn open_square() -> Square {
    Square {
        north_wall: WallType::Clear,
        east_wall: WallType::Clear,
        south_wall: WallType::Clear,
        west_wall: WallType::Clear,
        square_type: SquareType::Normal,
    }
}

/// A tile with clear inner walls, impassable outer walls, and the given walls
/// on its four entrance squares (north, east, south, west).
fn tile_with_entrances(name: &str, position: MapPosition, doors: [WallType; 4]) -> Tile {
    let mut squares = Vec::new();
    for i in 0..16 {
        let col = i % 4;
        let row = i / 4;
        let mut s = open_square();
        if row == 0 {
            s.north_wall = WallType::Impassable;
        }
        if row == 3 {
            s.south_wall = WallType::Impassable;
        }
        if col == 0 {
            s.west_wall = WallType::Impassable;
        }
        if col == 3 {
            s.east_wall = WallType::Impassable;
        }
        squares.push(s);
    }
    squares[2].north_wall = doors[0];
    squares[11].east_wall = doors[1];
    squares[13].south_wall = doors[2];
    squares[4].west_wall = doors[3];
    Tile {
        name: name.to_string(),
        position,
        squares,
        escalators: vec![],
        num_rotations: 0,
    }
}

/// The start tile: a door of each heister's color on each side, and inner
/// walls in two corners, each seen from both of its squares.
fn start_tile() -> Tile {
    let mut t = tile_with_entrances(
        "1a",
        MapPosition { x: 0, y: 0 },
        [WallType::OrangeDoor, WallType::GreenDoor, WallType::YellowDoor, WallType::PurpleDoor],
    );
    t.squares[0].east_wall = WallType::Impassable;
    t.squares[1].west_wall = WallType::Impassable;
    t.squares[0].south_wall = WallType::Impassable;
    t.squares[4].north_wall = WallType::Impassable;
    t.squares[14].east_wall = WallType::Impassable;
    t.squares[15].west_wall = WallType::Impassable;
    t
}

/// A deck tile: entered through a clear passage, with doors on its other sides.
fn deck_tile(name: &str) -> Tile {
    tile_with_entrances(
        name,
        MapPosition { x: 0, y: 0 },
        [WallType::PurpleDoor, WallType::YellowDoor, WallType::Clear, WallType::GreenDoor],
    )
}

fn setup_game(handle: String) -> Game {
    let game_handle = GameHandle(handle);
    let game_options = GameOptions::default();
    let deck = vec![deck_tile("2"), deck_tile("3"), deck_tile("4")];
    let mut game = Game::new(game_handle, game_options, start_tile(), deck);
    game.add_player(fake_player_name().0.clone()).unwrap();
    game.start_game();
    game
}

fn move_heister_in_dir(
    game: &mut Game,
    heister_color: HeisterColor,
    dir: MoveDirection,
    expected_validity: MoveValidity,
) -> MoveValidity {
    let heister_pos = game.get_heister_from_vec(heister_color).unwrap().map_position;
    let position = match dir {
        MoveDirection::North => MapPosition { x: heister_pos.x, y: heister_pos.y - 1 },
        MoveDirection::East => MapPosition { x: heister_pos.x + 1, y: heister_pos.y },
        MoveDirection::South => MapPosition { x: heister_pos.x, y: heister_pos.y + 1 },
        MoveDirection::West => MapPosition { x: heister_pos.x - 1, y: heister_pos.y },
    };
    let test_move = Move { heister_color, position };
    let message = MainMessage { body: Some(Body::Move(test_move)) };
    let validity = game.handle_message(message, &fake_player_name());
    assert_eq!(validity, expected_validity);
    match validity.clone() {
        MoveValidity::Valid => {
            let curr_heister_pos = game.get_heister_from_vec(heister_color).unwrap().map_position;
            assert_eq!(curr_heister_pos, position);
        }
        _ => {}
    }
    validity
}

fn place_first_tile_for_color(
    game: &mut Game,
    _heister_color: HeisterColor,
    tile_entrance: MapPosition,
    expected_validity: MoveValidity,
) -> MoveValidity {
    let tile_placement = PlaceTile { tile_entrance };
    let message = MainMessage { body: Some(Body::PlaceTile(tile_placement)) };
    let validity = game.handle_message(message, &fake_player_name());
    assert_eq!(validity, expected_validity);
    for tile in &game.game_state.tiles {
        if tile.name == "1a".to_string() {
            assert_eq!(tile.position, MapPosition { x: 0, y: 0 });
        } else {
            assert_eq!(tile.position, MapPosition { x: 1, y: -4 });
        }
    }
    validity
}

#[test]
fn test_can_move_to_free_square() {
    let mut game = setup_game("test can move to free square".to_string());
    let heister_color = HeisterColor::Purple;
    let heister_pos = game.get_heister_from_vec(heister_color).unwrap().map_position;
    assert_eq!(heister_pos.x, 1);
    assert_eq!(heister_pos.y, 1);
    let validity =
        move_heister_in_dir(&mut game, heister_color, MoveDirection::North, MoveValidity::Valid);
    assert_eq!(validity, MoveValidity::Valid);
    let validity =
        move_heister_in_dir(&mut game, heister_color, MoveDirection::South, MoveValidity::Valid);
    assert_eq!(validity, MoveValidity::Valid);
}

#[test]
fn heister_collision_is_invalid() {
    let mut game = setup_game("heister collision is invalid".to_string());
    let src_position = MapPosition { x: 2, y: 2 };
    let heister_pos = game.get_heister_from_vec(HeisterColor::Green).unwrap().map_position;
    assert_eq!(heister_pos.x, src_position.x);
    assert_eq!(heister_pos.y, src_position.y);
    let dest_position = MapPosition { x: 2, y: 1 };
    let expected_msg = format!("Heister {:?} is on {:?}", HeisterColor::Orange, dest_position);
    move_heister_in_dir(
        &mut game,
        HeisterColor::Green,
        MoveDirection::North,
        MoveValidity::Invalid(expected_msg),
    );
    let curr_green = game.get_heister_from_vec(HeisterColor::Green).unwrap();
    assert_eq!(curr_green.map_position, src_position);
}

#[test]
fn grid_walls_align() {
    let game = setup_game("grid walls align".to_string());
    let grid = game.get_absolute_grid();
    let find = |p: MapPosition| -> Square {
        let mut found = None;
        for (q, s) in grid.iter() {
            if *q == p {
                found = Some(*s);
            }
        }
        found.expect(&format!("Map tile {},{} not found", p.x, p.y))
    };
    for (mp, square) in grid.iter() {
        if mp.x > 0 {
            let left = find(MapPosition { x: mp.x - 1, y: mp.y });
            assert_eq!(square.west_wall, left.east_wall);
        }
        if mp.x < 3 {
            let right = find(MapPosition { x: mp.x + 1, y: mp.y });
            assert_eq!(square.east_wall, right.west_wall);
        }
        if mp.y > 0 {
            let above = find(MapPosition { x: mp.x, y: mp.y - 1 });
            assert_eq!(square.north_wall, above.south_wall);
        }
        if mp.y < 3 {
            let below = find(MapPosition { x: mp.x, y: mp.y + 1 });
            assert_eq!(square.south_wall, below.north_wall);
        }
    }
}

#[test]
fn test_tile_draw() {
    let mut game = setup_game("grid walls align".to_string());
    let first_tile_entrance = MapPosition { x: 2, y: -1 };
    move_heister_in_dir(&mut game, HeisterColor::Orange, MoveDirection::North, MoveValidity::Valid);
    place_first_tile_for_color(
        &mut game,
        HeisterColor::Orange,
        first_tile_entrance,
        MoveValidity::Valid,
    );
}

#[test]
fn possible_placements_no_mismatched_results() {
    let mut game = setup_game("possible placements no mismatched results".to_string());
    let door_positions = [
        (HeisterColor::Orange, MapPosition { x: 2, y: 0 }),
        (HeisterColor::Purple, MapPosition { x: 0, y: 1 }),
        (HeisterColor::Yellow, MapPosition { x: 1, y: 3 }),
        (HeisterColor::Green, MapPosition { x: 3, y: 2 }),
    ];
    let mut heisters: Vec<Heister> = Vec::new();
    for (color, pos) in door_positions.iter() {
        heisters.push(Heister { heister_color: *color, map_position: *pos });
    }
    game.game_state.heisters = heisters;
    let test_move = Move {
        heister_color: HeisterColor::Orange,
        position: MapPosition { x: 2, y: 0 },
    };
    let message = MainMessage { body: Some(Body::Move(test_move)) };
    game.handle_message(message, &fake_player_name());
    let pp = game.game_state.possible_placements;
    assert_eq!(pp.len(), 4);
}

#[test]
fn test_new_tile_crossing() {
    let mut game = setup_game("new tile crossing".to_string());
    let first_tile_entrance = MapPosition { x: 2, y: -1 };
    move_heister_in_dir(&mut game, HeisterColor::Orange, MoveDirection::North, MoveValidity::Valid);
    place_first_tile_for_color(
        &mut game,
        HeisterColor::Orange,
        first_tile_entrance,
        MoveValidity::Valid,
    );
    move_heister_in_dir(&mut game, HeisterColor::Orange, MoveDirection::North, MoveValidity::Valid);
    move_heister_in_dir(&mut game, HeisterColor::Orange, MoveDirection::South, MoveValidity::Valid);
}

#[test]
fn test_ability_check() {
    let mut game = setup_game("new tile crossing".to_string());
    game.game_state.players[0].abilities = vec![];
    let first_tile_entrance = MapPosition { x: 2, y: -1 };
    move_heister_in_dir(
        &mut game,
        HeisterColor::Orange,
        MoveDirection::North,
        MoveValidity::Invalid("You cannot move heisters North".to_string()),
    );
    place_first_tile_for_color(
        &mut game,
        HeisterColor::Orange,
        first_tile_entrance,
        MoveValidity::Invalid("You cannot reveal tiles".to_string()),
    );
    move_heister_in_dir(
        &mut game,
        HeisterColor::Orange,
        MoveDirection::North,
        MoveValidity::Invalid("You cannot move heisters North".to_string()),
    );
    move_heister_in_dir(
        &mut game,
        HeisterColor::Orange,
        MoveDirection::South,
        MoveValidity::Invalid("You cannot move heisters South".to_string()),
    );
}
