//! Hex-grid directions and relative turns, as drawn by the player.

use vstd::prelude::*;

verus! {

#[verifier::external_type_specification]
pub struct ExDirection(hex2d::Direction);

#[verifier::external_type_specification]
pub struct ExAngle(hex2d::Angle);

/// Index of a direction in `[0, 6)`, clockwise from `YZ`.
pub open spec fn dir_index(d: hex2d::Direction) -> int {
    match d {
        hex2d::Direction::YZ => 0,
        hex2d::Direction::XZ => 1,
        hex2d::Direction::XY => 2,
        hex2d::Direction::ZY => 3,
        hex2d::Direction::ZX => 4,
        hex2d::Direction::YX => 5,
    }
}

/// Index of a turn in `[0, 6)`, in sixths of a clockwise revolution.
pub open spec fn angle_index(a: hex2d::Angle) -> int {
    match a {
        hex2d::Angle::Forward => 0,
        hex2d::Angle::Right => 1,
        hex2d::Angle::RightBack => 2,
        hex2d::Angle::Back => 3,
        hex2d::Angle::LeftBack => 4,
        hex2d::Angle::Left => 5,
    }
}

/// The direction whose index is `i` modulo 6.
pub open spec fn dir_of(i: int) -> hex2d::Direction {
    let k = i % 6;
    if k == 0 {
        hex2d::Direction::YZ
    } else if k == 1 {
        hex2d::Direction::XZ
    } else if k == 2 {
        hex2d::Direction::XY
    } else if k == 3 {
        hex2d::Direction::ZY
    } else if k == 4 {
        hex2d::Direction::ZX
    } else {
        hex2d::Direction::YX
    }
}

/// The turn whose index is `i` modulo 6.
pub open spec fn angle_of(i: int) -> hex2d::Angle {
    let k = i % 6;
    if k == 0 {
        hex2d::Angle::Forward
    } else if k == 1 {
        hex2d::Angle::Right
    } else if k == 2 {
        hex2d::Angle::RightBack
    } else if k == 3 {
        hex2d::Angle::Back
    } else if k == 4 {
        hex2d::Angle::LeftBack
    } else {
        hex2d::Angle::Left
    }
}

/// The direction with index `i` modulo 6 (negative indices wrap around).
pub fn direction_from_int(i: i64) -> (r: hex2d::Direction)
    ensures
        r == dir_of(i as int),
{
    let k: i64 = i % 6;
    let k: i64 = if k < 0 { k + 6 } else { k };
    assert(k == (i as int) % 6);
    if k == 0 {
        hex2d::Direction::YZ
    } else if k == 1 {
        hex2d::Direction::XZ
    } else if k == 2 {
        hex2d::Direction::XY
    } else if k == 3 {
        hex2d::Direction::ZY
    } else if k == 4 {
        hex2d::Direction::ZX
    } else {
        hex2d::Direction::YX
    }
}

/// Index of a direction, as `Direction::to_int` gives it.
pub fn direction_index(d: hex2d::Direction) -> (r: i64)
    ensures
        r == dir_index(d),
{
    match d {
        hex2d::Direction::YZ => 0,
        hex2d::Direction::XZ => 1,
        hex2d::Direction::XY => 2,
        hex2d::Direction::ZY => 3,
        hex2d::Direction::ZX => 4,
        hex2d::Direction::YX => 5,
    }
}

/// Index of a turn, as `Angle::to_int` gives it.
pub fn angle_index_of(a: hex2d::Angle) -> (r: i64)
    ensures
        r == angle_index(a),
{
    match a {
        hex2d::Angle::Forward => 0,
        hex2d::Angle::Right => 1,
        hex2d::Angle::RightBack => 2,
        hex2d::Angle::Back => 3,
        hex2d::Angle::LeftBack => 4,
        hex2d::Angle::Left => 5,
    }
}

/// The turn that leads from `from` to `to`: the same as `to - from` on hex2d's types.
pub fn turn_between(to: hex2d::Direction, from: hex2d::Direction) -> (r: hex2d::Angle)
    ensures
        r == angle_of(dir_index(to) - dir_index(from)),
        turn_spec(from, r) == to,
{
    let k: i64 = direction_index(to) - direction_index(from);
    let k: i64 = if k < 0 { k + 6 } else { k };
    assert(k % 6 == (dir_index(to) - dir_index(from)) % 6);
    if k == 0 {
        hex2d::Angle::Forward
    } else if k == 1 {
        hex2d::Angle::Right
    } else if k == 2 {
        hex2d::Angle::RightBack
    } else if k == 3 {
        hex2d::Angle::Back
    } else if k == 4 {
        hex2d::Angle::LeftBack
    } else {
        hex2d::Angle::Left
    }
}

/// `d` turned by `a`.
pub open spec fn turn_spec(d: hex2d::Direction, a: hex2d::Angle) -> hex2d::Direction {
    dir_of(dir_index(d) + angle_index(a))
}

} // verus!
