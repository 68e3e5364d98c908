use tile_world::tracker::PlayerPositionUpdate;
use tile_world::world::floor_div;

#[test]
fn tracker_starts_at_the_origin_with_the_signal_raised() {
    let t = PlayerPositionUpdate::default();
    assert_eq!(t.tile_x, 0);
    assert_eq!(t.tile_y, 0);
    assert!(t.changed_tile);
    assert!(t.changed_chunk);
    assert_eq!(t.get_x(), 0);
    assert_eq!(t.get_y(), 0);
}

#[test]
fn signal_lasts_one_tick() {
    let mut t = PlayerPositionUpdate::default();
    t.update(10, 10);
    assert!(!t.changed_tile);
    assert!(!t.changed_chunk);
    assert_eq!((t.tile_x, t.tile_y), (0, 0));
}

#[test]
fn tile_advances_only_past_the_window() {
    let mut t = PlayerPositionUpdate::default();
    // the window of tile 0 reaches from -32 to 96
    t.update(96, 0);
    assert_eq!(t.tile_x, 0);
    assert!(!t.changed_tile);
    t.update(97, 0);
    assert_eq!(t.tile_x, 1);
    assert!(t.changed_tile);
    assert!(!t.changed_chunk);
    assert_eq!(t.get_x(), 64);
    // the same position is inside the window of tile 1: from 32 to 160
    t.update(97, 0);
    assert_eq!(t.tile_x, 1);
    assert!(!t.changed_tile);
}

#[test]
fn tile_moves_down_below_the_window() {
    let mut t = PlayerPositionUpdate::default();
    t.update(0, -32);
    assert_eq!(t.tile_y, 0);
    t.update(0, -33);
    assert_eq!(t.tile_y, -1);
    assert!(t.changed_tile);
    assert!(t.changed_chunk);
    assert_eq!(t.chunk_y(), -1);
    assert_eq!(t.get_y(), -64);
}

#[test]
fn boundary_positions_do_not_oscillate() {
    let mut t = PlayerPositionUpdate::default();
    for _ in 0..4 {
        t.update(64, 0);
        assert_eq!(t.tile_x, 0);
        t.update(63, 0);
        assert_eq!(t.tile_x, 0);
    }
}

#[test]
fn one_step_per_update_and_axis() {
    let mut t = PlayerPositionUpdate::default();
    t.update(10_000, -10_000);
    assert_eq!((t.tile_x, t.tile_y), (1, -1));
    t.update(10_000, -10_000);
    assert_eq!((t.tile_x, t.tile_y), (2, -2));
}

#[test]
fn forced_update_raises_the_signal_once() {
    let mut t = PlayerPositionUpdate::default();
    t.update(0, 0);
    assert!(!t.changed_tile);
    t.force_update();
    assert!(!t.changed_tile);
    t.update(0, 0);
    assert!(t.changed_tile);
    assert!(t.changed_chunk);
    assert_eq!((t.tile_x, t.tile_y), (0, 0));
    t.update(0, 0);
    assert!(!t.changed_tile);
    assert!(!t.changed_chunk);
}

#[test]
fn chunk_changes_every_sixteen_tiles() {
    let mut t = PlayerPositionUpdate::default();
    t.update(0, 0);
    let mut crossings = 0;
    for _ in 0..32 {
        t.update(1_000_000, 0);
        if t.changed_chunk {
            crossings += 1;
        }
    }
    assert_eq!(t.tile_x, 32);
    assert_eq!(t.chunk_x(), 2);
    assert_eq!(crossings, 2);
}

#[test]
fn tile_stays_inside_the_integer_range() {
    let mut t = PlayerPositionUpdate::default();
    t.tile_x = i32::MAX;
    t.tile_y = i32::MIN;
    t.update(i64::MAX, i64::MIN);
    assert_eq!(t.tile_x, i32::MAX);
    assert_eq!(t.tile_y, i32::MIN);
    assert_eq!(t.get_x(), 64 * (i32::MAX as i64));
}

#[test]
fn floor_division_rounds_down() {
    assert_eq!(floor_div(7, 2), 3);
    assert_eq!(floor_div(-7, 2), -4);
    assert_eq!(floor_div(-8, 2), -4);
    assert_eq!(floor_div(-1, 1024), -1);
    assert_eq!(floor_div(0, 1024), 0);
    assert_eq!(floor_div(i64::MIN, 1), i64::MIN);
    assert_eq!(floor_div(i64::MIN, 1024), i64::MIN / 1024);
    assert_eq!(floor_div(i64::MAX, 1024), i64::MAX / 1024);
}
