//! Position tracking: turns the world position of the tracked entity into
//! tile and chunk coordinates and signals when either changes.

use vstd::prelude::*;
use crate::world::{floor_div, CHUNK_SIZE, TILE_SIZE};

verus! {

/// Upper edge of the window inside which a position leaves `tile` unchanged:
/// one tile above the centre of the tile.
pub open spec fn upper_edge(tile: int) -> int {
    TILE_SIZE as int * tile + TILE_SIZE as int / 2 + TILE_SIZE as int
}

/// Lower edge of the window inside which a position leaves `tile` unchanged:
/// one tile below the centre of the tile.
pub open spec fn lower_edge(tile: int) -> int {
    TILE_SIZE as int * tile + TILE_SIZE as int / 2 - TILE_SIZE as int
}

/// The tile index after one update at position `pos`: it moves by one towards
/// `pos` once `pos` is outside the window, and never leaves the `i32` range.
pub open spec fn advance_tile(tile: int, pos: int) -> int {
    if pos > upper_edge(tile) && tile < i32::MAX {
        tile + 1
    } else if pos < lower_edge(tile) && tile > i32::MIN {
        tile - 1
    } else {
        tile
    }
}

/// Index of the chunk that holds tile `tile`.
pub open spec fn chunk_of_tile(tile: int) -> int {
    tile / CHUNK_SIZE as int
}

/// Tile coordinates of the tracked entity and the one-tick signals raised when
/// they change.
#[derive(Clone, Copy, Debug)]
pub struct PlayerPositionUpdate {
    pub tile_x: i32,
    pub tile_y: i32,
    /// True during the tick in which the tile changed, or an update was forced.
    pub changed_tile: bool,
    /// True during the tick in which the chunk changed, or an update was forced.
    pub changed_chunk: bool,
    /// Set by `force_update` and consumed by the next `update`.
    pub force_update: bool,
}

fn step_tile(tile: i32, pos: i64) -> (next: i32)
    ensures
        next == advance_tile(tile as int, pos as int),
{
    let size: i64 = TILE_SIZE as i64;
    assert(size == 64);
    let base: i64 = size * (tile as i64) + size / 2;
    if pos > base + size && tile < i32::MAX {
        tile + 1
    } else if pos < base - size && tile > i32::MIN {
        tile - 1
    } else {
        tile
    }
}

impl PlayerPositionUpdate {
    /// Schedules the signals for the next update regardless of displacement.
    pub fn force_update(&mut self)
        ensures
            final(self).force_update,
            final(self).tile_x == old(self).tile_x,
            final(self).tile_y == old(self).tile_y,
            final(self).changed_tile == old(self).changed_tile,
            final(self).changed_chunk == old(self).changed_chunk,
    {
        self.force_update = true;
    }

    /// World-space x of the origin of the current tile.
    pub fn get_x(&self) -> (x: i64)
        ensures
            x == TILE_SIZE as int * self.tile_x as int,
    {
        (TILE_SIZE as i64) * (self.tile_x as i64)
    }

    /// World-space y of the origin of the current tile.
    pub fn get_y(&self) -> (y: i64)
        ensures
            y == TILE_SIZE as int * self.tile_y as int,
    {
        (TILE_SIZE as i64) * (self.tile_y as i64)
    }

    /// Column of the chunk that holds the current tile.
    pub fn chunk_x(&self) -> (c: i32)
        ensures
            c == chunk_of_tile(self.tile_x as int),
    {
        let q: i64 = floor_div(self.tile_x as i64, CHUNK_SIZE as i64);
        q as i32
    }

    /// Row of the chunk that holds the current tile.
    pub fn chunk_y(&self) -> (c: i32)
        ensures
            c == chunk_of_tile(self.tile_y as int),
    {
        let q: i64 = floor_div(self.tile_y as i64, CHUNK_SIZE as i64);
        q as i32
    }

    /// Moves the recorded tile by at most one step per axis towards the
    /// position `(x, y)` and raises the signals for this tick.
    pub fn update(&mut self, x: i64, y: i64)
        ensures
            final(self).tile_x == advance_tile(old(self).tile_x as int, x as int),
            final(self).tile_y == advance_tile(old(self).tile_y as int, y as int),
            final(self).changed_tile == (final(self).tile_x != old(self).tile_x
                || final(self).tile_y != old(self).tile_y || old(self).force_update),
            final(self).changed_chunk == (chunk_of_tile(final(self).tile_x as int)
                != chunk_of_tile(old(self).tile_x as int) || chunk_of_tile(
                final(self).tile_y as int,
            ) != chunk_of_tile(old(self).tile_y as int) || old(self).force_update),
            !final(self).force_update,
    {
        let old_chunk_x: i32 = self.chunk_x();
        let old_chunk_y: i32 = self.chunk_y();
        let next_x: i32 = step_tile(self.tile_x, x);
        let next_y: i32 = step_tile(self.tile_y, y);
        let moved: bool = next_x != self.tile_x || next_y != self.tile_y;
        self.tile_x = next_x;
        self.tile_y = next_y;
        let crossed: bool = self.chunk_x() != old_chunk_x || self.chunk_y() != old_chunk_y;
        self.changed_tile = moved || self.force_update;
        self.changed_chunk = crossed || self.force_update;
        self.force_update = false;
    }
}

impl Default for PlayerPositionUpdate {
    /// Starts at tile (0, 0) with the signals raised, so that the first tick
    /// loads the surroundings.
    fn default() -> (state: PlayerPositionUpdate)
        ensures
            state.tile_x == 0,
            state.tile_y == 0,
            state.changed_tile,
            state.changed_chunk,
            !state.force_update,
    {
        PlayerPositionUpdate {
            tile_x: 0,
            tile_y: 0,
            changed_tile: true,
            changed_chunk: true,
            force_update: false,
        }
    }
}

/// A position on the boundary between two tiles never moves the recorded tile:
/// the window reaches half a tile past either boundary.
pub proof fn lemma_boundary_is_stable(tile: int)
    ensures
        advance_tile(tile, TILE_SIZE as int * tile) == tile,
        advance_tile(tile, TILE_SIZE as int * (tile + 1)) == tile,
{
}

/// After the tile moved up because of `pos`, the same position does not move
/// it back down, and the other way round.
pub proof fn lemma_no_oscillation(tile: int, pos: int)
    ensures
        advance_tile(tile, pos) == tile + 1 ==> advance_tile(tile + 1, pos) >= tile + 1,
        advance_tile(tile, pos) == tile - 1 ==> advance_tile(tile - 1, pos) <= tile - 1,
{
}

} // verus!
