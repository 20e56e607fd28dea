use shroomy::message::{Avatar, NetworkedEntities, Player, Translation};
use shroomy::tilemap::TileMapPlugin;

fn at(x: f32, y: f32) -> Translation {
    Translation { x: x.to_bits(), y: y.to_bits(), z: 900.0f32.to_bits() }
}

#[test]
fn new_snapshot_has_no_rows() {
    let snapshot = NetworkedEntities::new();
    assert!(snapshot.entities.is_empty());
    assert!(snapshot.translations.is_empty());
    assert!(snapshot.is_aligned());
    assert_eq!(NetworkedEntities::default(), snapshot);
}

#[test]
fn capture_takes_one_row_per_avatar_in_order() {
    let avatars = vec![
        Avatar { entity: 30, player: Player { id: 3 }, translation: at(1.0, 2.0) },
        Avatar { entity: 10, player: Player { id: 1 }, translation: at(-3.0, 4.0) },
    ];
    let snapshot = NetworkedEntities::capture(&avatars);
    assert_eq!(snapshot.entities, vec![30, 10]);
    assert_eq!(snapshot.translations, vec![at(1.0, 2.0), at(-3.0, 4.0)]);
    assert!(snapshot.is_aligned());
}

#[test]
fn capture_of_an_empty_world_is_empty() {
    assert_eq!(NetworkedEntities::capture(&Vec::new()), NetworkedEntities::new());
}

#[test]
fn ragged_snapshot_is_not_aligned() {
    let ragged = NetworkedEntities { entities: vec![1, 2], translations: vec![at(0.0, 0.0)] };
    assert!(!ragged.is_aligned());
}

#[test]
fn tile_map_stage_has_one_value() {
    assert_eq!(TileMapPlugin::default(), TileMapPlugin);
}
