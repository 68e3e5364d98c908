use tile_world::generator::generate_chunk;
use tile_world::streamer::{CacheMismatch, ChunkEntity, ChunkLoad, Eviction, WorldStreamer};
use tile_world::tracker::PlayerPositionUpdate;

const NEIGHBORS: [(i32, i32); 8] =
    [(1, 0), (1, 1), (1, -1), (0, 1), (0, -1), (-1, 1), (-1, 0), (-1, -1)];

#[test]
fn new_cache_is_empty() {
    let s = WorldStreamer::new(12345);
    assert_eq!(s.cached_chunks(), 0);
    assert!(!s.is_cached(0, 0));
    assert!(!s.is_drawn(0, 0));
    assert!(s.get_chunk(0, 0).is_none());
}

#[test]
fn first_load_generates() {
    let mut s = WorldStreamer::new(12345);
    let fresh = generate_chunk(0, 0, 12345);
    match s.load_chunk(0, 0) {
        ChunkLoad::Generated(bundles) => assert_eq!(bundles, fresh.bundles),
        other => panic!("expected a generated chunk, got {:?}", other),
    }
    assert_eq!(s.cached_chunks(), 1);
    assert!(s.is_cached(0, 0));
    assert!(s.is_drawn(0, 0));
    let cached = s.get_chunk(0, 0).unwrap();
    assert_eq!(cached.tiles, fresh.tiles);
    assert_eq!(cached.coordinates, (0, 0));
}

#[test]
fn second_load_is_a_no_op() {
    let mut s = WorldStreamer::new(12345);
    s.load_chunk(2, 3);
    assert!(matches!(s.load_chunk(2, 3), ChunkLoad::AlreadyDrawn));
    assert_eq!(s.cached_chunks(), 1);
}

#[test]
fn draw_chunks_loads_the_eight_neighbours_in_order() {
    let mut s = WorldStreamer::new(12345);
    s.load_chunk(0, 0);
    let actions = s.draw_chunks(0, 0);
    assert_eq!(actions.len(), 8);
    for (m, action) in actions.iter().enumerate() {
        let (x, y) = NEIGHBORS[m];
        match action {
            ChunkLoad::Generated(bundles) => {
                assert_eq!(*bundles, generate_chunk(x, y, 12345).bundles)
            }
            other => panic!("expected a generated chunk, got {:?}", other),
        }
        assert!(s.is_drawn(x, y));
    }
    assert_eq!(s.cached_chunks(), 9);
}

#[test]
fn draw_chunks_twice_generates_nothing_new() {
    let mut s = WorldStreamer::new(12345);
    s.draw_chunks(0, 0);
    assert_eq!(s.cached_chunks(), 8);
    let again = s.draw_chunks(0, 0);
    assert_eq!(again.len(), 8);
    for action in again.iter() {
        assert!(matches!(action, ChunkLoad::AlreadyDrawn));
    }
    assert_eq!(s.cached_chunks(), 8);
}

#[test]
fn moving_one_chunk_generates_only_the_new_ones() {
    let mut s = WorldStreamer::new(7);
    s.load_chunk(0, 0);
    s.draw_chunks(0, 0);
    let actions = s.draw_chunks(1, 0);
    // east column is new, the rest is cached and drawn
    assert!(matches!(actions[0], ChunkLoad::Generated(_)));
    assert!(matches!(actions[1], ChunkLoad::Generated(_)));
    assert!(matches!(actions[2], ChunkLoad::Generated(_)));
    for m in 3..8 {
        assert!(matches!(actions[m], ChunkLoad::AlreadyDrawn));
    }
    assert_eq!(s.cached_chunks(), 12);
}

#[test]
fn eviction_keeps_near_entities() {
    let mut s = WorldStreamer::new(12345);
    s.draw_chunks(0, 0);
    let entities = vec![
        ChunkEntity { id: 1, x: 1024, y: 0 },
        ChunkEntity { id: 2, x: 2560, y: 0 },
        ChunkEntity { id: 3, x: 1536, y: 2048 },
    ];
    let outcomes = s.despawn_chunks(0, 0, &entities);
    // 2560 is not more than the limit, and 1536 and 2048 give exactly 2560
    assert_eq!(outcomes, vec![Ok(Eviction::Kept), Ok(Eviction::Kept), Ok(Eviction::Kept)]);
    assert!(s.is_drawn(1, 0));
}

#[test]
fn eviction_despawns_far_entities_and_keeps_the_chunk_cached() {
    let mut s = WorldStreamer::new(12345);
    s.draw_chunks(0, 0);
    let entities = vec![
        ChunkEntity { id: 10, x: -1024, y: 0 },
        ChunkEntity { id: 11, x: 1024, y: 1024 },
    ];
    let outcomes = s.despawn_chunks(1537, 0, &entities);
    assert_eq!(outcomes, vec![Ok(Eviction::Despawned), Ok(Eviction::Kept)]);
    assert!(s.is_cached(-1, 0));
    assert!(!s.is_drawn(-1, 0));
    assert!(s.is_drawn(1, 1));
    assert_eq!(s.cached_chunks(), 8);
}

#[test]
fn eviction_uses_the_straight_line_distance() {
    let mut s = WorldStreamer::new(12345);
    s.draw_chunks(0, 0);
    // 2000 on each axis: no axis is over the limit, the straight line is
    let entities = vec![ChunkEntity { id: 1, x: 1024, y: 1024 }];
    let outcomes = s.despawn_chunks(-976, -976, &entities);
    assert_eq!(outcomes, vec![Ok(Eviction::Despawned)]);
    assert!(!s.is_drawn(1, 1));
}

#[test]
fn eviction_limit_is_exact() {
    let mut s = WorldStreamer::new(12345);
    s.draw_chunks(0, 0);
    let entities = vec![ChunkEntity { id: 1, x: 1024, y: 0 }];
    assert_eq!(s.despawn_chunks(1024 - 2560, 0, &entities), vec![Ok(Eviction::Kept)]);
    assert_eq!(s.despawn_chunks(1024 - 2561, 0, &entities), vec![Ok(Eviction::Despawned)]);
}

#[test]
fn eviction_reports_an_entity_without_a_chunk() {
    let mut s = WorldStreamer::new(12345);
    s.draw_chunks(0, 0);
    let entities = vec![
        ChunkEntity { id: 5, x: 10 * 1024, y: -3 * 1024 - 1 },
        ChunkEntity { id: 6, x: -1024, y: -1024 },
        ChunkEntity { id: 7, x: i64::MAX, y: i64::MIN },
    ];
    let outcomes = s.despawn_chunks(100_000, 100_000, &entities);
    assert_eq!(
        outcomes,
        vec![
            Err(CacheMismatch { entity: 5, chunk_x: 10, chunk_y: -4 }),
            Ok(Eviction::Despawned),
            Err(CacheMismatch {
                entity: 7,
                chunk_x: i64::MAX / 1024,
                chunk_y: i64::MIN / 1024
            }),
        ]
    );
    assert_eq!(s.cached_chunks(), 8);
    assert!(!s.is_cached(10, -4));
}

#[test]
fn evicted_chunk_is_redrawn_from_its_descriptors() {
    let mut s = WorldStreamer::new(99);
    s.load_chunk(0, 0);
    let first = s.draw_chunks(0, 0);
    let stored = match &first[6] {
        ChunkLoad::Generated(bundles) => bundles.clone(),
        other => panic!("expected a generated chunk, got {:?}", other),
    };
    let before = s.cached_chunks();
    let entities = vec![ChunkEntity { id: 1, x: -1024, y: 0 }];
    assert_eq!(s.despawn_chunks(4096, 0, &entities), vec![Ok(Eviction::Despawned)]);
    assert!(!s.is_drawn(-1, 0));
    let again = s.draw_chunks(0, 0);
    for (m, action) in again.iter().enumerate() {
        if m == 6 {
            match action {
                ChunkLoad::Redrawn(bundles) => assert_eq!(*bundles, stored),
                other => panic!("expected a redraw, got {:?}", other),
            }
        } else {
            assert!(matches!(action, ChunkLoad::AlreadyDrawn));
        }
    }
    assert!(s.is_drawn(-1, 0));
    assert_eq!(s.cached_chunks(), before);
}

#[test]
fn undraw_says_whether_the_chunk_is_cached() {
    let mut s = WorldStreamer::new(1);
    s.load_chunk(4, 4);
    assert!(s.undraw_chunk(4, 4));
    assert!(!s.is_drawn(4, 4));
    assert!(s.is_cached(4, 4));
    assert!(!s.undraw_chunk(5, 5));
    assert!(!s.is_cached(5, 5));
}

#[test]
fn coordinates_do_not_collide_in_the_cache() {
    let mut s = WorldStreamer::new(1);
    s.load_chunk(0, 1);
    s.load_chunk(1, 0);
    s.load_chunk(-1, 0);
    s.load_chunk(0, -1);
    s.load_chunk(i32::MIN, i32::MAX);
    s.load_chunk(i32::MAX, i32::MIN);
    assert_eq!(s.cached_chunks(), 6);
    assert_eq!(s.get_chunk(0, 1).unwrap().coordinates, (0, 1));
    assert_eq!(s.get_chunk(1, 0).unwrap().coordinates, (1, 0));
    assert_eq!(s.get_chunk(i32::MIN, i32::MAX).unwrap().coordinates, (i32::MIN, i32::MAX));
    assert!(!s.is_cached(1, 1));
}

#[test]
fn update_does_nothing_without_a_chunk_change() {
    let mut s = WorldStreamer::new(12345);
    let mut t = PlayerPositionUpdate::default();
    t.update(0, 0);
    assert!(!t.changed_chunk);
    let out = s.update(&t, &vec![ChunkEntity { id: 1, x: 1_000_000, y: 0 }]);
    assert!(out.loads.is_empty());
    assert!(out.evictions.is_empty());
    assert_eq!(s.cached_chunks(), 0);
}

#[test]
fn update_loads_and_evicts_on_a_chunk_change() {
    let mut s = WorldStreamer::new(12345);
    let t = PlayerPositionUpdate::default();
    assert!(t.changed_chunk);
    let entities = vec![
        ChunkEntity { id: 1, x: 1024, y: 0 },
        ChunkEntity { id: 2, x: 4096, y: 0 },
        ChunkEntity { id: 3, x: -1024, y: -3000 },
    ];
    let out = s.update(&t, &entities);
    assert_eq!(out.loads.len(), 8);
    for action in out.loads.iter() {
        assert!(matches!(action, ChunkLoad::Generated(_)));
    }
    assert_eq!(
        out.evictions,
        vec![
            Ok(Eviction::Kept),
            Err(CacheMismatch { entity: 2, chunk_x: 4, chunk_y: 0 }),
            Err(CacheMismatch { entity: 3, chunk_x: -1, chunk_y: -3 }),
        ]
    );
    assert_eq!(s.cached_chunks(), 8);
}

#[test]
fn walking_back_and_forth_never_generates_twice() {
    let mut s = WorldStreamer::new(5);
    s.load_chunk(0, 0);
    for _ in 0..3 {
        for cx in [0, 1, 2, 1, 0, -1] {
            s.draw_chunks(cx, 0);
        }
    }
    // columns -2 to 3, rows -1 to 1
    assert_eq!(s.cached_chunks(), 18);
}

#[test]
fn chunk_origin_is_the_chunk_span_times_the_coordinates() {
    assert_eq!(tile_world::streamer::chunk_origin(0, 0), (0, 0));
    assert_eq!(tile_world::streamer::chunk_origin(1, -1), (1024, -1024));
    assert_eq!(tile_world::streamer::chunk_origin(-3, 7), (-3072, 7168));
    assert_eq!(
        tile_world::streamer::chunk_origin(i32::MAX, i32::MIN),
        (1024 * (i32::MAX as i64), 1024 * (i32::MIN as i64))
    );
}

#[test]
fn entity_at_the_origin_of_a_chunk_evicts_that_chunk() {
    let mut s = WorldStreamer::new(3);
    s.load_chunk(-2, 5);
    let (x, y) = tile_world::streamer::chunk_origin(-2, 5);
    let outcomes = s.despawn_chunks(100_000, 0, &vec![ChunkEntity { id: 9, x, y }]);
    assert_eq!(outcomes, vec![Ok(Eviction::Despawned)]);
    assert!(!s.is_drawn(-2, 5));
}

#[test]
fn neighbours_in_order() {
    for (m, (dx, dy)) in NEIGHBORS.iter().enumerate() {
        assert_eq!(tile_world::streamer::neighbor_at(10, -20, m), (10 + dx, -20 + dy));
    }
    assert_eq!(
        tile_world::streamer::neighbor_at(i32::MAX - 1, i32::MIN + 1, 2),
        (i32::MAX, i32::MIN)
    );
}
