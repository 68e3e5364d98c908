//! The snapshot of the player that is kept while the land region is not
//! loaded, and the place where the player enters an island.
//!
//! Every real number of the snapshot is held as the bit pattern of its
//! single-precision value, so that what is restored is what was saved, bit
//! for bit.

use vstd::prelude::*;
use crate::world::TILE_SIZE;

verus! {

/// Bit pattern of the height of the layer on which the player is drawn: 100.
pub const BOAT_LAYER: u32 = 0x42C8_0000;

/// Bit pattern of 1.
pub const ONE: u32 = 0x3F80_0000;

/// Bit pattern of 2.
pub const TWO: u32 = 0x4000_0000;

/// Movement state of the player on land, as bit patterns.
#[derive(Clone, Copy, Debug, PartialEq, Eq, Structural)]
pub struct Player {
    pub rotation: u32,
    pub speed: u32,
}

impl Default for Player {
    /// A player at rest: rotation 0 and speed 0.
    fn default() -> (player: Player)
        ensures
            player == (Player { rotation: 0, speed: 0 }),
    {
        Player { rotation: 0, speed: 0 }
    }
}

/// Three components, as bit patterns.
#[derive(Clone, Copy, Debug, PartialEq, Eq, Structural)]
pub struct Vector3 {
    pub x: u32,
    pub y: u32,
    pub z: u32,
}

/// A rotation as a quaternion, as bit patterns.
#[derive(Clone, Copy, Debug, PartialEq, Eq, Structural)]
pub struct Rotation {
    pub x: u32,
    pub y: u32,
    pub z: u32,
    pub w: u32,
}

/// Place, rotation and scale of an entity.
#[derive(Clone, Copy, Debug, PartialEq, Eq, Structural)]
pub struct Transform {
    pub translation: Vector3,
    pub rotation: Rotation,
    pub scale: Vector3,
}

/// What is kept of the player while the land region is unloaded.
#[derive(Clone, Copy, Debug, PartialEq, Eq, Structural)]
pub struct LandSaveState {
    pub player: Player,
    pub player_transform: Transform,
}

/// The snapshot before anything was saved: a player at rest at the origin of
/// the player layer, not rotated, at twice its size.
pub open spec fn initial_save_state() -> LandSaveState {
    LandSaveState {
        player: Player { rotation: 0, speed: 0 },
        player_transform: Transform {
            translation: Vector3 { x: 0, y: 0, z: BOAT_LAYER },
            rotation: Rotation { x: 0, y: 0, z: 0, w: ONE },
            scale: Vector3 { x: TWO, y: TWO, z: TWO },
        },
    }
}

impl Default for LandSaveState {
    fn default() -> (state: LandSaveState)
        ensures
            state == initial_save_state(),
    {
        LandSaveState {
            player: Player { rotation: 0, speed: 0 },
            player_transform: Transform {
                translation: Vector3 { x: 0, y: 0, z: BOAT_LAYER },
                rotation: Rotation { x: 0, y: 0, z: 0, w: ONE },
                scale: Vector3 { x: TWO, y: TWO, z: TWO },
            },
        }
    }
}

impl LandSaveState {
    /// The snapshot after `player` and `transform` were saved in it.
    pub open spec fn saved(self, player: Player, transform: Transform) -> LandSaveState {
        LandSaveState { player, player_transform: transform }
    }

    /// What restoring from the snapshot gives.
    pub open spec fn restored(self) -> (Player, Transform) {
        (self.player, self.player_transform)
    }

    /// Replaces the snapshot by the given state, whole.
    pub fn save(&mut self, player: Player, transform: Transform)
        ensures
            *final(self) == old(self).saved(player, transform),
    {
        self.player = player;
        self.player_transform = transform;
    }

    /// The state that was saved last, or the initial one; the snapshot stays.
    pub fn restore(&self) -> (state: (Player, Transform))
        ensures
            state == self.restored(),
    {
        (self.player, self.player_transform)
    }
}

/// Restoring gives exactly the player state and the transform that were
/// saved last, whatever the snapshot held before.
pub proof fn lemma_restore_gives_what_was_saved(
    snapshot: LandSaveState,
    player: Player,
    transform: Transform,
)
    ensures
        snapshot.saved(player, transform).restored() == (player, transform),
{
}

/// World position at which the player enters an island: the entrance tile,
/// counted from the lower left corner of the island.
pub open spec fn entrance_position(entrance: (i32, i32), left: i32, bottom: i32) -> (int, int) {
    ((entrance.0 - left) * TILE_SIZE, (entrance.1 - bottom) * TILE_SIZE)
}

/// World position at which the player enters an island whose lower left
/// corner is the tile `(left, bottom)`, through the tile `entrance`.
pub fn spawn_position(entrance: (i32, i32), left: i32, bottom: i32) -> (position: (i64, i64))
    ensures
        (position.0 as int, position.1 as int) == entrance_position(entrance, left, bottom),
{
    let size: i64 = TILE_SIZE as i64;
    assert(size == 64);
    ((entrance.0 as i64 - left as i64) * size, (entrance.1 as i64 - bottom as i64) * size)
}

} // verus!
