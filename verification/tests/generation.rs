use tile_world::generator::{generate_chunk, DrawDescriptor};
use tile_world::world::{Tile, TileKind, CHUNK_SIZE, CHUNK_SPAN, TILE_SIZE};

#[test]
fn generation_is_deterministic() {
    let a = generate_chunk(3, -4, 12345);
    let b = generate_chunk(3, -4, 12345);
    assert_eq!(a.tiles, b.tiles);
    assert_eq!(a.bundles, b.bundles);
    assert_eq!(a.coordinates, (3, -4));
    assert_eq!(b.coordinates, (3, -4));
}

#[test]
fn chunk_has_the_chunk_size() {
    let chunk = generate_chunk(0, 0, 12345);
    assert_eq!(chunk.tiles.len(), CHUNK_SIZE as usize);
    for column in chunk.tiles.iter() {
        assert_eq!(column.len(), CHUNK_SIZE as usize);
    }
    assert_eq!(chunk.bundles.len(), (CHUNK_SIZE * CHUNK_SIZE) as usize);
    assert!(!chunk.drawn);
}

#[test]
fn chunk_span_is_chunk_size_times_tile_size() {
    assert_eq!(CHUNK_SPAN, (CHUNK_SIZE as i64) * (TILE_SIZE as i64));
}

#[test]
fn known_tiles_of_the_origin_chunk() {
    let chunk = generate_chunk(0, 0, 12345);
    assert_eq!(chunk.tiles[0][0], Tile { kind: TileKind::Sea(false), variant: 0, sprite_id: 0 });
    assert_eq!(chunk.tiles[1][0], Tile { kind: TileKind::Sea(false), variant: 2, sprite_id: 2 });
    assert_eq!(chunk.tiles[0][1], Tile { kind: TileKind::Sea(false), variant: 3, sprite_id: 3 });
    assert_eq!(chunk.tiles[0][4], Tile { kind: TileKind::Sand(false), variant: 2, sprite_id: 6 });
    assert_eq!(chunk.tiles[0][6], Tile { kind: TileKind::Forest, variant: 1, sprite_id: 9 });
}

#[test]
fn known_tiles_of_other_chunks() {
    let a = generate_chunk(-1, 2, 12345);
    assert_eq!(a.tiles[15][15], Tile { kind: TileKind::Sea(false), variant: 0, sprite_id: 0 });
    let b = generate_chunk(3, -4, 12345);
    assert_eq!(b.tiles[7][9], Tile { kind: TileKind::Sea(false), variant: 1, sprite_id: 1 });
}

#[test]
fn seed_changes_the_world() {
    let a = generate_chunk(0, 0, 12345);
    let b = generate_chunk(0, 0, 1);
    assert_eq!(b.tiles[0][0], Tile { kind: TileKind::Forest, variant: 3, sprite_id: 11 });
    assert_ne!(a.tiles, b.tiles);
}

#[test]
fn descriptors_follow_the_tiles_column_by_column() {
    let chunk = generate_chunk(0, 0, 12345);
    assert_eq!(chunk.bundles[0], DrawDescriptor { column: 0, row: 0, sprite_id: 0 });
    assert_eq!(chunk.bundles[4], DrawDescriptor { column: 0, row: 4, sprite_id: 6 });
    assert_eq!(chunk.bundles[16], DrawDescriptor { column: 1, row: 0, sprite_id: 2 });
    for k in 0..256usize {
        let d = chunk.bundles[k];
        assert_eq!(d.column as usize, k / 16);
        assert_eq!(d.row as usize, k % 16);
        assert_eq!(d.sprite_id, chunk.tiles[k / 16][k % 16].sprite_id);
    }
}

#[test]
fn chunks_at_the_edge_of_the_coordinate_range() {
    let low = generate_chunk(i32::MIN, i32::MIN, 0);
    let high = generate_chunk(i32::MAX, i32::MAX, u64::MAX);
    assert_eq!(low.tiles.len(), 16);
    assert_eq!(high.tiles.len(), 16);
    assert_eq!(low.coordinates, (i32::MIN, i32::MIN));
    assert_eq!(high.coordinates, (i32::MAX, i32::MAX));
}

#[test]
fn default_tile_is_open_sea() {
    assert_eq!(TileKind::default(), TileKind::Sea(false));
    assert_eq!(Tile::default(), Tile { kind: TileKind::Sea(false), variant: 0, sprite_id: 0 });
}
