//! The reasons given when a request is refused.
use vstd::prelude::*;
use crate::text::{
    around_position, color_str, color_text, format_position, position_text, wall_str, wall_text,
};
use crate::types::{HeisterColor, MapPosition, MoveDirection, WallType};

verus! {

pub open spec fn missing_heister_square_msg(p: MapPosition) -> Seq<char> {
    "Heister square "@ + position_text(p) + " doesn't exist"@
}

pub open spec fn impassable_msg() -> Seq<char> {
    "Can't pass through impassable wall"@
}

pub open spec fn door_wall_msg(w: WallType) -> Seq<char> {
    "Wall "@ + wall_text(w) + " cannot be passed through"@
}

pub open spec fn occupied_msg(c: HeisterColor, p: MapPosition) -> Seq<char> {
    "Heister "@ + color_text(c) + " is on "@ + position_text(p)
}

pub open spec fn not_escalator_msg(p: MapPosition) -> Seq<char> {
    "Square at "@ + position_text(p) + " is not escalator"@
}

pub open spec fn not_in_grid_msg(p: MapPosition) -> Seq<char> {
    "Position "@ + position_text(p) + " not found in grid"@
}

pub open spec fn different_tiles_msg() -> Seq<char> {
    "Heister and dest escalator are on different tiles"@
}

pub open spec fn not_on_escalator_msg() -> Seq<char> {
    "Heister is not on an escalator"@
}

pub open spec fn teleporter_color_msg() -> Seq<char> {
    "Heister and teleporter color do not match"@
}

pub open spec fn teleporters_differ_msg() -> Seq<char> {
    "Source and Dest teleporter colors do not match"@
}

pub open spec fn off_grid_dest_msg(p: MapPosition) -> Seq<char> {
    "Destination is not on the grid: No square at pos "@ + position_text(p)
}

pub open spec fn direction_text(d: MoveDirection) -> Seq<char> {
    match d {
        MoveDirection::North => "North"@,
        MoveDirection::East => "East"@,
        MoveDirection::South => "South"@,
        MoveDirection::West => "West"@,
    }
}

pub open spec fn no_direction_msg(d: MoveDirection) -> Seq<char> {
    "You cannot move heisters "@ + direction_text(d)
}

pub open spec fn no_escalators_msg() -> Seq<char> {
    "You cannot use escalators"@
}

pub open spec fn no_teleporters_msg() -> Seq<char> {
    "You cannot use teleporters"@
}

pub open spec fn invalid_move_msg(c: HeisterColor, from: MapPosition, to: MapPosition) -> Seq<char> {
    "Invalid move for heister "@ + color_text(c) + " at "@ + position_text(from)
        + " to position "@ + position_text(to)
}

pub open spec fn no_reveal_msg() -> Seq<char> {
    "You cannot reveal tiles"@
}

pub open spec fn not_at_door_msg() -> Seq<char> {
    "When placing a tile, the heister must be at a tile-reveal door"@
}

pub open spec fn no_tile_at_msg(p: MapPosition) -> Seq<char> {
    "No tile found at pos "@ + position_text(p)
}

pub open spec fn no_door_square_msg() -> Seq<char> {
    "When opening a door, we expect the square to have a door to open"@
}

pub open spec fn door_failed_msg(reason: Seq<char>) -> Seq<char> {
    "Couldn't open door for newly placed tile: "@ + reason
}

pub open spec fn empty_deck_msg() -> Seq<char> {
    "No tiles left in deck to draw"@
}

pub open spec fn state_from_player_msg() -> Seq<char> {
    "GameState Message is invalid from players"@
}

pub open spec fn invalid_request_from_player_msg() -> Seq<char> {
    "InvalidRequest Message is invalid from players"@
}

pub fn missing_heister_square_message(p: &MapPosition) -> (r: String)
    ensures
        r@ == missing_heister_square_msg(*p),
{
    around_position("Heister square ", p, " doesn't exist")
}

pub fn door_wall_message(w: WallType) -> (r: String)
    ensures
        r@ == door_wall_msg(w),
{
    let mut s = String::from_str("Wall ");
    s.append(wall_str(w));
    s.append(" cannot be passed through");
    s
}

pub fn occupied_message(c: HeisterColor, p: &MapPosition) -> (r: String)
    ensures
        r@ == occupied_msg(c, *p),
{
    let mut s = String::from_str("Heister ");
    s.append(color_str(c));
    s.append(" is on ");
    let t = format_position(p);
    s.append(t.as_str());
    s
}

pub fn not_escalator_message(p: &MapPosition) -> (r: String)
    ensures
        r@ == not_escalator_msg(*p),
{
    around_position("Square at ", p, " is not escalator")
}

pub fn not_in_grid_message(p: &MapPosition) -> (r: String)
    ensures
        r@ == not_in_grid_msg(*p),
{
    around_position("Position ", p, " not found in grid")
}

pub fn off_grid_dest_message(p: &MapPosition) -> (r: String)
    ensures
        r@ == off_grid_dest_msg(*p),
{
    let mut s = String::from_str("Destination is not on the grid: No square at pos ");
    let t = format_position(p);
    s.append(t.as_str());
    s
}

fn direction_str(d: MoveDirection) -> (r: &'static str)
    ensures
        r@ == direction_text(d),
{
    match d {
        MoveDirection::North => "North",
        MoveDirection::East => "East",
        MoveDirection::South => "South",
        MoveDirection::West => "West",
    }
}

pub fn no_direction_message(d: MoveDirection) -> (r: String)
    ensures
        r@ == no_direction_msg(d),
{
    let mut s = String::from_str("You cannot move heisters ");
    s.append(direction_str(d));
    s
}

pub fn invalid_move_message(c: HeisterColor, from: &MapPosition, to: &MapPosition) -> (r: String)
    ensures
        r@ == invalid_move_msg(c, *from, *to),
{
    let mut s = String::from_str("Invalid move for heister ");
    s.append(color_str(c));
    s.append(" at ");
    let a = format_position(from);
    s.append(a.as_str());
    s.append(" to position ");
    let b = format_position(to);
    s.append(b.as_str());
    s
}

pub fn no_tile_at_message(p: &MapPosition) -> (r: String)
    ensures
        r@ == no_tile_at_msg(*p),
{
    let mut s = String::from_str("No tile found at pos ");
    let t = format_position(p);
    s.append(t.as_str());
    s
}

pub fn door_failed_message(reason: &String) -> (r: String)
    ensures
        r@ == door_failed_msg(reason@),
{
    let mut s = String::from_str("Couldn't open door for newly placed tile: ");
    s.append(reason.as_str());
    s
}

} // verus!
