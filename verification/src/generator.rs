//! The chunk generator: a pure function from chunk coordinates and a world
//! seed to a grid of tiles and the draw descriptors that show it.

use vstd::prelude::*;
use crate::world::{Tile, TileKind, CHUNK_SIZE};

verus! {

/// What the renderer needs to show one tile of a chunk: the cell inside the
/// chunk and the sprite to put there.
#[derive(Clone, Copy, Debug, PartialEq, Eq, Structural)]
pub struct DrawDescriptor {
    pub column: u32,
    pub row: u32,
    pub sprite_id: u32,
}

/// A square block of tiles, generated and cached as a unit.
#[derive(Debug)]
pub struct Chunk {
    pub coordinates: (i32, i32),
    /// `tiles[column][row]`
    pub tiles: Vec<Vec<Tile>>,
    pub drawn: bool,
    /// One descriptor per tile, column by column.
    pub bundles: Vec<DrawDescriptor>,
}

/// Mathematical content of a chunk.
pub struct ChunkView {
    pub coordinates: (i32, i32),
    pub tiles: Seq<Seq<Tile>>,
    pub drawn: bool,
    pub bundles: Seq<DrawDescriptor>,
}

impl View for Chunk {
    type V = ChunkView;

    open spec fn view(&self) -> ChunkView {
        ChunkView {
            coordinates: self.coordinates,
            tiles: self.tiles@.map_values(|column: Vec<Tile>| column@),
            drawn: self.drawn,
            bundles: self.bundles@,
        }
    }
}

/// Position of a tile along one axis, counted from the lowest tile of the
/// lowest chunk, so that it is never negative.
pub open spec fn tile_ordinate(chunk: i32, offset: int) -> int {
    (chunk as int + 0x8000_0000) * CHUNK_SIZE as int + offset
}

/// The noise value of the tile at ordinates `(ux, uy)` under `seed`.
#[verifier::opaque]
pub open spec fn tile_noise(seed: u64, ux: u64, uy: u64) -> u64 {
    let h0 = seed.wrapping_mul(0x9E37_79B9_7F4A_7C15u64).wrapping_add(
        ux.wrapping_mul(0xC2B2_AE3D_27D4_EB4Fu64),
    ).wrapping_add(uy.wrapping_mul(0x1656_67B1_9E37_79F9u64));
    let h1 = (h0 ^ (h0 >> 29)).wrapping_mul(0xBF58_476D_1CE4_E5B9u64);
    h1 ^ (h1 >> 32)
}

/// The tile that a noise value stands for: six in ten are open sea, a quarter
/// sand, the rest forest; the sprite follows the terrain and the variant.
#[verifier::opaque]
pub open spec fn tile_of_noise(noise: u64) -> Tile {
    let level = noise % 100;
    let variant = ((noise / 100) % 4) as u32;
    if level < 60 {
        Tile { kind: TileKind::Sea(false), variant, sprite_id: variant }
    } else if level < 85 {
        Tile { kind: TileKind::Sand(false), variant, sprite_id: (4 + variant) as u32 }
    } else {
        Tile { kind: TileKind::Forest, variant, sprite_id: (8 + variant) as u32 }
    }
}

/// The tile in column `i`, row `j` of chunk `(x, y)` of the world of `seed`.
pub open spec fn tile_at(x: i32, y: i32, seed: u64, i: int, j: int) -> Tile {
    tile_of_noise(
        tile_noise(seed, tile_ordinate(x, i) as u64, tile_ordinate(y, j) as u64),
    )
}

/// The descriptor with index `k` of chunk `(x, y)`.
pub open spec fn descriptor_at(x: i32, y: i32, seed: u64, k: int) -> DrawDescriptor {
    DrawDescriptor {
        column: (k / CHUNK_SIZE as int) as u32,
        row: (k % CHUNK_SIZE as int) as u32,
        sprite_id: tile_at(x, y, seed, k / CHUNK_SIZE as int, k % CHUNK_SIZE as int).sprite_id,
    }
}

/// The chunk at `(x, y)` of the world of `seed`, not yet drawn.
pub open spec fn generate_spec(x: i32, y: i32, seed: u64) -> ChunkView {
    ChunkView {
        coordinates: (x, y),
        tiles: Seq::new(
            CHUNK_SIZE as nat,
            |i: int| Seq::new(CHUNK_SIZE as nat, |j: int| tile_at(x, y, seed, i, j)),
        ),
        drawn: false,
        bundles: Seq::new(
            (CHUNK_SIZE * CHUNK_SIZE) as nat,
            |k: int| descriptor_at(x, y, seed, k),
        ),
    }
}

fn noise(seed: u64, ux: u64, uy: u64) -> (h: u64)
    ensures
        h == tile_noise(seed, ux, uy),
{
    reveal(tile_noise);
    let h0: u64 = seed.wrapping_mul(0x9E37_79B9_7F4A_7C15u64).wrapping_add(
        ux.wrapping_mul(0xC2B2_AE3D_27D4_EB4Fu64),
    ).wrapping_add(uy.wrapping_mul(0x1656_67B1_9E37_79F9u64));
    let h1: u64 = (h0 ^ (h0 >> 29)).wrapping_mul(0xBF58_476D_1CE4_E5B9u64);
    h1 ^ (h1 >> 32)
}

fn tile_from_noise(noise: u64) -> (tile: Tile)
    ensures
        tile == tile_of_noise(noise),
{
    reveal(tile_of_noise);
    let level: u64 = noise % 100;
    let variant: u32 = ((noise / 100) % 4) as u32;
    if level < 60 {
        Tile { kind: TileKind::Sea(false), variant, sprite_id: variant }
    } else if level < 85 {
        Tile { kind: TileKind::Sand(false), variant, sprite_id: 4 + variant }
    } else {
        Tile { kind: TileKind::Forest, variant, sprite_id: 8 + variant }
    }
}

fn ordinate(chunk: i32, offset: u32) -> (u: u64)
    requires
        offset < CHUNK_SIZE,
    ensures
        u == tile_ordinate(chunk, offset as int),
{
    let base: i64 = chunk as i64 + 0x8000_0000i64;
    let size: u64 = CHUNK_SIZE as u64;
    assert(size == 16);
    (base as u64) * size + (offset as u64)
}

fn generate_tiles(x: i32, y: i32, seed: u64) -> (tiles: Vec<Vec<Tile>>)
    ensures
        tiles@.len() == CHUNK_SIZE,
        forall|a: int| 0 <= a < CHUNK_SIZE ==> (#[trigger] tiles@[a])@.len() == CHUNK_SIZE,
        forall|a: int, b: int|
            0 <= a < CHUNK_SIZE && 0 <= b < CHUNK_SIZE ==> #[trigger] tiles@[a]@[b] == tile_at(
                x,
                y,
                seed,
                a,
                b,
            ),
{
    let mut tiles: Vec<Vec<Tile>> = Vec::new();
    let mut i: u32 = 0;
    while i < 16
        invariant
            CHUNK_SIZE == 16,
            i <= 16,
            tiles@.len() == i,
            forall|a: int| 0 <= a < i ==> (#[trigger] tiles@[a])@.len() == 16,
            forall|a: int, b: int|
                0 <= a < i && 0 <= b < 16 ==> #[trigger] tiles@[a]@[b] == tile_at(x, y, seed, a, b),
        decreases 16 - i,
    {
        let ux: u64 = ordinate(x, i);
        let mut column: Vec<Tile> = Vec::new();
        let mut j: u32 = 0;
        while j < 16
            invariant
                CHUNK_SIZE == 16,
                i < 16,
                j <= 16,
                ux == tile_ordinate(x, i as int),
                column@.len() == j,
                forall|b: int| 0 <= b < j ==> #[trigger] column@[b] == tile_at(x, y, seed, i as int, b),
            decreases 16 - j,
        {
            let uy: u64 = ordinate(y, j);
            let tile: Tile = tile_from_noise(noise(seed, ux, uy));
            column.push(tile);
            j += 1;
        }
        tiles.push(column);
        i += 1;
    }
    tiles
}

fn describe_tiles(tiles: &Vec<Vec<Tile>>, Ghost(x): Ghost<i32>, Ghost(y): Ghost<i32>, Ghost(seed): Ghost<u64>) -> (bundles: Vec<DrawDescriptor>)
    requires
        tiles@.len() == CHUNK_SIZE,
        forall|a: int| 0 <= a < CHUNK_SIZE ==> (#[trigger] tiles@[a])@.len() == CHUNK_SIZE,
        forall|a: int, b: int|
            0 <= a < CHUNK_SIZE && 0 <= b < CHUNK_SIZE ==> #[trigger] tiles@[a]@[b] == tile_at(
                x,
                y,
                seed,
                a,
                b,
            ),
    ensures
        bundles@.len() == CHUNK_SIZE * CHUNK_SIZE,
        forall|k: int|
            0 <= k < CHUNK_SIZE * CHUNK_SIZE ==> #[trigger] bundles@[k] == descriptor_at(x, y, seed, k),
{
    let mut bundles: Vec<DrawDescriptor> = Vec::new();
    let mut k: u32 = 0;
    while k < 256
        invariant
            CHUNK_SIZE == 16,
            k <= 256,
            bundles@.len() == k,
            tiles@.len() == 16,
            forall|a: int| 0 <= a < 16 ==> (#[trigger] tiles@[a])@.len() == 16,
            forall|a: int, b: int|
                0 <= a < 16 && 0 <= b < 16 ==> #[trigger] tiles@[a]@[b] == tile_at(x, y, seed, a, b),
            forall|m: int| 0 <= m < k ==> #[trigger] bundles@[m] == descriptor_at(x, y, seed, m),
        decreases 256 - k,
    {
        let column: u32 = k / 16;
        let row: u32 = k % 16;
        assert(tiles@[column as int]@[row as int] == tile_at(x, y, seed, column as int, row as int));
        let tile: Tile = tiles[column as usize][row as usize];
        bundles.push(DrawDescriptor { column, row, sprite_id: tile.sprite_id });
        k += 1;
    }
    bundles
}

/// Generates the chunk at `(x, y)` of the world of `seed`. The result depends
/// on nothing but the three arguments.
pub fn generate_chunk(x: i32, y: i32, seed: u64) -> (chunk: Chunk)
    ensures
        chunk@ == generate_spec(x, y, seed),
{
    let tiles: Vec<Vec<Tile>> = generate_tiles(x, y, seed);
    let bundles: Vec<DrawDescriptor> = describe_tiles(&tiles, Ghost(x), Ghost(y), Ghost(seed));
    let chunk = Chunk { coordinates: (x, y), tiles, drawn: false, bundles };
    proof {
        let want = generate_spec(x, y, seed);
        assert(CHUNK_SIZE == 16);
        assert(chunk@.bundles =~= want.bundles);
        assert forall|a: int| 0 <= a < 16 implies #[trigger] chunk@.tiles[a] =~= want.tiles[a] by {
            assert(chunk@.tiles[a] == chunk.tiles@[a]@);
            assert(chunk.tiles@[a]@.len() == 16);
            assert forall|b: int| 0 <= b < 16 implies chunk.tiles@[a]@[b] == want.tiles[a][b] by {
                assert(chunk.tiles@[a]@[b] == tile_at(x, y, seed, a, b));
            }
        }
        assert(chunk@.tiles =~= want.tiles);
    }
    chunk
}

/// Two chunks generated from the same coordinates and seed hold the same
/// tiles and the same draw descriptors.
pub proof fn lemma_generation_is_deterministic(a: Chunk, b: Chunk, x: i32, y: i32, seed: u64)
    requires
        a@ == generate_spec(x, y, seed),
        b@ == generate_spec(x, y, seed),
    ensures
        a@.tiles == b@.tiles,
        a@.bundles == b@.bundles,
        a@.coordinates == b@.coordinates,
{
}

} // verus!
