//! The texts of the game's answers, built the way `{:?}` prints the board values.
use vstd::prelude::*;
use crate::types::{HeisterColor, MapPosition, WallType};

verus! {

pub open spec fn digit_text(d: nat) -> Seq<char> {
    if d == 0 {
        "0"@
    } else if d == 1 {
        "1"@
    } else if d == 2 {
        "2"@
    } else if d == 3 {
        "3"@
    } else if d == 4 {
        "4"@
    } else if d == 5 {
        "5"@
    } else if d == 6 {
        "6"@
    } else if d == 7 {
        "7"@
    } else if d == 8 {
        "8"@
    } else {
        "9"@
    }
}

/// Decimal digits of `n`, most significant first, with no leading zero.
pub open spec fn nat_text(n: nat) -> Seq<char>
    decreases n,
{
    if n < 10 {
        digit_text(n)
    } else {
        nat_text(n / 10) + digit_text(n % 10)
    }
}

/// Decimal text of `v`, with a leading `-` for negative numbers.
pub open spec fn int_text(v: int) -> Seq<char> {
    if v < 0 {
        "-"@ + nat_text((-v) as nat)
    } else {
        nat_text(v as nat)
    }
}

pub open spec fn position_text(p: MapPosition) -> Seq<char> {
    "MapPosition { x: "@ + int_text(p.x as int) + ", y: "@ + int_text(p.y as int) + " }"@
}

pub open spec fn color_text(c: HeisterColor) -> Seq<char> {
    match c {
        HeisterColor::Yellow => "Yellow"@,
        HeisterColor::Purple => "Purple"@,
        HeisterColor::Green => "Green"@,
        HeisterColor::Orange => "Orange"@,
    }
}

pub open spec fn wall_text(w: WallType) -> Seq<char> {
    match w {
        WallType::Clear => "Clear"@,
        WallType::Impassable => "Impassable"@,
        WallType::PurpleDoor => "PurpleDoor"@,
        WallType::OrangeDoor => "OrangeDoor"@,
        WallType::GreenDoor => "GreenDoor"@,
        WallType::YellowDoor => "YellowDoor"@,
    }
}

fn digit_str(d: u64) -> (r: &'static str)
    requires
        d < 10,
    ensures
        r@ == digit_text(d as nat),
{
    if d == 0 {
        "0"
    } else if d == 1 {
        "1"
    } else if d == 2 {
        "2"
    } else if d == 3 {
        "3"
    } else if d == 4 {
        "4"
    } else if d == 5 {
        "5"
    } else if d == 6 {
        "6"
    } else if d == 7 {
        "7"
    } else if d == 8 {
        "8"
    } else {
        "9"
    }
}

/// Decimal text of a natural number.
pub fn format_nat(n: u64) -> (r: String)
    ensures
        r@ == nat_text(n as nat),
    decreases n,
{
    if n < 10 {
        String::from_str(digit_str(n))
    } else {
        let mut s = format_nat(n / 10);
        s.append(digit_str(n % 10));
        s
    }
}

/// Decimal text of an integer.
pub fn format_int(v: i32) -> (r: String)
    ensures
        r@ == int_text(v as int),
{
    if v < 0 {
        let m: i64 = -(v as i64);
        let digits = format_nat(m as u64);
        let mut s = String::from_str("-");
        s.append(digits.as_str());
        s
    } else {
        format_nat(v as u64)
    }
}

pub fn format_position(p: &MapPosition) -> (r: String)
    ensures
        r@ == position_text(*p),
{
    let mut s = String::from_str("MapPosition { x: ");
    let x = format_int(p.x);
    s.append(x.as_str());
    s.append(", y: ");
    let y = format_int(p.y);
    s.append(y.as_str());
    s.append(" }");
    s
}

pub fn color_str(c: HeisterColor) -> (r: &'static str)
    ensures
        r@ == color_text(c),
{
    match c {
        HeisterColor::Yellow => "Yellow",
        HeisterColor::Purple => "Purple",
        HeisterColor::Green => "Green",
        HeisterColor::Orange => "Orange",
    }
}

pub fn wall_str(w: WallType) -> (r: &'static str)
    ensures
        r@ == wall_text(w),
{
    match w {
        WallType::Clear => "Clear",
        WallType::Impassable => "Impassable",
        WallType::PurpleDoor => "PurpleDoor",
        WallType::OrangeDoor => "OrangeDoor",
        WallType::GreenDoor => "GreenDoor",
        WallType::YellowDoor => "YellowDoor",
    }
}

/// `prefix`, then the position's text, then `suffix`.
pub fn around_position(prefix: &str, p: &MapPosition, suffix: &str) -> (r: String)
    ensures
        r@ == prefix@ + position_text(*p) + suffix@,
{
    let mut s = String::from_str(prefix);
    let t = format_position(p);
    s.append(t.as_str());
    s.append(suffix);
    s
}

} // verus!
