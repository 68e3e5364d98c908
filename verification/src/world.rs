//! Constants of the world grid, the tile type and integer helpers shared by
//! the other modules.

use vstd::prelude::*;
use vstd::arithmetic::div_mod::lemma_fundamental_div_mod_converse;

verus! {

/// Width of one tile in world units.
pub const TILE_SIZE: i32 = 64;

/// Width of one chunk in tiles.
pub const CHUNK_SIZE: i32 = 16;

/// Width of one chunk in world units.
pub const CHUNK_SPAN: i64 = 1024;

/// A chunk is as wide as its tiles together.
pub proof fn lemma_chunk_span()
    ensures
        CHUNK_SPAN == CHUNK_SIZE * TILE_SIZE,
{
}

/// Terrain of a tile. `Sand` and `Sea` carry a flag for the renderer.
#[derive(Clone, Copy, Debug, PartialEq, Eq, Structural)]
pub enum TileKind {
    Sand(bool),
    Forest,
    Sea(bool),
}

impl Default for TileKind {
    fn default() -> (kind: TileKind)
        ensures
            kind == TileKind::Sea(false),
    {
        TileKind::Sea(false)
    }
}

/// Smallest cell of the world.
#[derive(Clone, Copy, Debug, PartialEq, Eq, Structural)]
pub struct Tile {
    pub kind: TileKind,
    pub variant: u32,
    pub sprite_id: u32,
}

impl Default for Tile {
    fn default() -> (tile: Tile)
        ensures
            tile == (Tile { kind: TileKind::Sea(false), variant: 0, sprite_id: 0 }),
    {
        Tile { kind: TileKind::Sea(false), variant: 0, sprite_id: 0 }
    }
}

/// A point of the plane in world units.
#[derive(Clone, Copy, Debug, PartialEq, Eq, Structural)]
pub struct Point {
    pub x: i32,
    pub y: i32,
}

/// Quotient of `a` by a positive `b`, rounded towards negative infinity.
pub fn floor_div(a: i64, b: i64) -> (q: i64)
    requires
        b > 0,
    ensures
        q == a as int / b as int,
{
    if a >= 0 {
        a / b
    } else {
        let m: i64 = -(a + 1);
        let q0: i64 = m / b;
        proof {
            let r0 = m as int % b as int;
            assert(m as int == b as int * (m as int / b as int) + r0) by {
                vstd::arithmetic::div_mod::lemma_fundamental_div_mod(m as int, b as int);
            }
            assert(0 <= r0 < b) by {
                vstd::arithmetic::div_mod::lemma_mod_bound(m as int, b as int);
            }
            assert(0 <= q0 as int <= m) by (nonlinear_arith)
                requires
                    m >= 0,
                    b > 0,
                    q0 as int == m as int / b as int,
            ;
            assert(a as int == (-(q0 as int) - 1) * b as int + (b as int - 1 - r0)) by (nonlinear_arith)
                requires
                    a as int == -(m as int) - 1,
                    m as int == b as int * (q0 as int) + r0,
            ;
            lemma_fundamental_div_mod_converse(
                a as int,
                b as int,
                -(q0 as int) - 1,
                b as int - 1 - r0,
            );
        }
        -q0 - 1
    }
}

} // verus!
