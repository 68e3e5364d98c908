use tile_world::persistence::{
    spawn_position, LandSaveState, Player, Rotation, Transform, Vector3, BOAT_LAYER, ONE, TWO,
};

#[test]
fn bit_patterns_of_the_constants() {
    assert_eq!(BOAT_LAYER, 100.0f32.to_bits());
    assert_eq!(ONE, 1.0f32.to_bits());
    assert_eq!(TWO, 2.0f32.to_bits());
}

#[test]
fn initial_snapshot() {
    let s = LandSaveState::default();
    assert_eq!(s.player, Player { rotation: 0, speed: 0 });
    assert_eq!(s.player, Player::default());
    assert_eq!(s.player_transform.translation, Vector3 { x: 0, y: 0, z: BOAT_LAYER });
    assert_eq!(s.player_transform.rotation, Rotation { x: 0, y: 0, z: 0, w: ONE });
    assert_eq!(s.player_transform.scale, Vector3 { x: TWO, y: TWO, z: TWO });
    assert_eq!(s.restore(), (s.player, s.player_transform));
}

#[test]
fn restore_gives_what_was_saved() {
    let mut s = LandSaveState::default();
    let player = Player { rotation: 1.5f32.to_bits(), speed: 500.0f32.to_bits() };
    let transform = Transform {
        translation: Vector3 {
            x: 1234.5f32.to_bits(),
            y: (-77.25f32).to_bits(),
            z: BOAT_LAYER,
        },
        rotation: Rotation { x: 0, y: 0, z: 0.5f32.to_bits(), w: 0.75f32.to_bits() },
        scale: Vector3 { x: TWO, y: TWO, z: TWO },
    };
    s.save(player, transform);
    let (p, t) = s.restore();
    assert_eq!(p, player);
    assert_eq!(t, transform);
    assert_eq!(f32::from_bits(t.translation.x), 1234.5);
    assert_eq!(f32::from_bits(t.translation.y), -77.25);
    assert_eq!(f32::from_bits(p.speed), 500.0);
    // restoring does not consume the snapshot
    assert_eq!(s.restore(), (player, transform));
}

#[test]
fn later_save_replaces_the_earlier_one() {
    let mut s = LandSaveState::default();
    let t = LandSaveState::default().player_transform;
    s.save(Player { rotation: 1, speed: 2 }, t);
    s.save(Player { rotation: 3, speed: 4 }, t);
    assert_eq!(s.restore().0, Player { rotation: 3, speed: 4 });
}

#[test]
fn spawn_position_counts_from_the_island_corner() {
    assert_eq!(spawn_position((12, 7), 10, 3), (128, 256));
    assert_eq!(spawn_position((0, 0), 0, 0), (0, 0));
    assert_eq!(spawn_position((-5, 2), -3, 4), (-128, -128));
    assert_eq!(
        spawn_position((i32::MAX, i32::MIN), i32::MIN, i32::MAX),
        (64 * 4294967295i64, -64 * 4294967295i64)
    );
}
