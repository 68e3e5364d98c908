//! Movement of the player on land: what the pressed keys ask for, and the
//! notification that the player has moved far enough to matter.

use vstd::prelude::*;
use crate::world::{floor_div, TILE_SIZE};

verus! {

/// Sprite of the player facing down.
pub const PLAYER_DOWN: u32 = 0;

/// Sprite of the player facing up.
pub const PLAYER_UP: u32 = 1;

/// Sprite of the player facing right.
pub const PLAYER_RIGHT: u32 = 2;

/// Sprite of the player facing left.
pub const PLAYER_LEFT: u32 = 3;

/// Walking speed of the player.
pub const BASE_SPEED: u32 = 500;

/// Number of notifications per tile length walked.
pub const UPDATES_PER_TILE: i64 = 10;

/// What the pressed keys ask for: a heading in eighths of a turn, counted
/// counter-clockwise from east, a speed, and the sprite to show, if it changes.
#[derive(Clone, Copy, Debug, PartialEq, Eq, Structural)]
pub struct MovementIntent {
    pub heading: i32,
    pub speed: u32,
    pub sprite: Option<u32>,
}

/// The intent for a combination of pressed keys. One key, or two keys of
/// neighbouring directions, move the player; every other combination stops
/// it and leaves the sprite alone.
pub open spec fn intent_of(left: bool, down: bool, right: bool, up: bool) -> MovementIntent {
    let keys = (if left { 1int } else { 0int }) + (if down { 1int } else { 0int }) + (if right {
        1int
    } else {
        0int
    }) + (if up { 1int } else { 0int });
    if keys == 0 || keys > 2 || (left && right) || (up && down) {
        MovementIntent { heading: 0, speed: 0, sprite: None }
    } else {
        MovementIntent {
            heading: if left && down {
                -3i32
            } else if down && right {
                -1i32
            } else if right && up {
                1i32
            } else if left && up {
                3i32
            } else if left {
                4i32
            } else if down {
                -2i32
            } else if right {
                0i32
            } else {
                2i32
            },
            speed: BASE_SPEED,
            sprite: Some(
                if down {
                    PLAYER_DOWN
                } else if up {
                    PLAYER_UP
                } else if left {
                    PLAYER_LEFT
                } else {
                    PLAYER_RIGHT
                },
            ),
        }
    }
}

/// The intent for the keys that are pressed.
pub fn movement_intent(left: bool, down: bool, right: bool, up: bool) -> (intent: MovementIntent)
    ensures
        intent == intent_of(left, down, right, up),
{
    match (left, down, right, up) {
        (true, true, false, false) => MovementIntent {
            heading: -3,
            speed: BASE_SPEED,
            sprite: Some(PLAYER_DOWN),
        },
        (false, true, true, false) => MovementIntent {
            heading: -1,
            speed: BASE_SPEED,
            sprite: Some(PLAYER_DOWN),
        },
        (false, false, true, true) => MovementIntent {
            heading: 1,
            speed: BASE_SPEED,
            sprite: Some(PLAYER_UP),
        },
        (true, false, false, true) => MovementIntent {
            heading: 3,
            speed: BASE_SPEED,
            sprite: Some(PLAYER_UP),
        },
        (true, false, false, false) => MovementIntent {
            heading: 4,
            speed: BASE_SPEED,
            sprite: Some(PLAYER_LEFT),
        },
        (false, true, false, false) => MovementIntent {
            heading: -2,
            speed: BASE_SPEED,
            sprite: Some(PLAYER_DOWN),
        },
        (false, false, true, false) => MovementIntent {
            heading: 0,
            speed: BASE_SPEED,
            sprite: Some(PLAYER_RIGHT),
        },
        (false, false, false, true) => MovementIntent {
            heading: 2,
            speed: BASE_SPEED,
            sprite: Some(PLAYER_UP),
        },
        _ => MovementIntent { heading: 0, speed: 0, sprite: None },
    }
}

/// Acceleration of the ship while the key for going ahead is held.
pub const AHEAD: i32 = 900;

/// Acceleration of the ship while the key for going astern is held.
pub const ASTERN: i32 = -120;

/// Rotation acceleration of the ship while the key for turning right is held.
pub const TURN_RIGHT: i32 = -20;

/// Rotation acceleration of the ship while the key for turning left is held.
pub const TURN_LEFT: i32 = 20;

/// The value that one pair of opposite keys gives to what it drives. The key
/// that was pressed in this tick decides, the first before the second; else a
/// released key of the pair sets it to 0; else it stays.
pub open spec fn control_of(
    current: i32,
    released: bool,
    first_pressed: bool,
    second_pressed: bool,
    first: i32,
    second: i32,
) -> i32 {
    if first_pressed {
        first
    } else if second_pressed {
        second
    } else if released {
        0
    } else {
        current
    }
}

fn control(
    current: i32,
    released: bool,
    first_pressed: bool,
    second_pressed: bool,
    first: i32,
    second: i32,
) -> (value: i32)
    ensures
        value == control_of(current, released, first_pressed, second_pressed, first, second),
{
    let mut value: i32 = current;
    if released {
        value = 0;
    }
    if first_pressed {
        value = first;
    } else if second_pressed {
        value = second;
    }
    value
}

/// Acceleration of the ship after the keys of this tick: `released` says
/// that the key for ahead or the key for astern was let go.
pub fn ship_acceleration(current: i32, released: bool, up_pressed: bool, down_pressed: bool) -> (value:
    i32)
    ensures
        value == control_of(current, released, up_pressed, down_pressed, AHEAD, ASTERN),
{
    control(current, released, up_pressed, down_pressed, AHEAD, ASTERN)
}

/// Rotation acceleration of the ship after the keys of this tick: `released`
/// says that a key for turning was let go.
pub fn ship_turning(current: i32, released: bool, right_pressed: bool, left_pressed: bool) -> (value:
    i32)
    ensures
        value == control_of(current, released, right_pressed, left_pressed, TURN_RIGHT, TURN_LEFT),
{
    control(current, released, right_pressed, left_pressed, TURN_RIGHT, TURN_LEFT)
}

/// Index of the notification cell that holds the coordinate `pos`: a tenth
/// of a tile wide, rounded down.
pub open spec fn movement_cell(pos: int) -> int {
    pos * UPDATES_PER_TILE as int / TILE_SIZE as int
}

/// Remembers the notification cell of the player and tells when it changes.
#[derive(Clone, Copy, Debug, PartialEq, Eq, Structural)]
pub struct MovementWatch {
    pub last_x: i64,
    pub last_y: i64,
}

impl Default for MovementWatch {
    fn default() -> (watch: MovementWatch)
        ensures
            watch.last_x == 0,
            watch.last_y == 0,
    {
        MovementWatch { last_x: 0, last_y: 0 }
    }
}

impl MovementWatch {
    /// Takes the position of the player for this tick and says whether the
    /// player has entered another notification cell since the last tick.
    pub fn observe(&mut self, x: i32, y: i32) -> (moved: bool)
        ensures
            final(self).last_x == movement_cell(x as int),
            final(self).last_y == movement_cell(y as int),
            moved == (movement_cell(x as int) != old(self).last_x || movement_cell(y as int) != old(
                self,
            ).last_y),
    {
        let per_tile: i64 = UPDATES_PER_TILE;
        let size: i64 = TILE_SIZE as i64;
        assert(per_tile == 10 && size == 64);
        let cell_x: i64 = floor_div((x as i64) * per_tile, size);
        let cell_y: i64 = floor_div((y as i64) * per_tile, size);
        let moved: bool = cell_x != self.last_x || cell_y != self.last_y;
        self.last_x = cell_x;
        self.last_y = cell_y;
        moved
    }
}

} // verus!
