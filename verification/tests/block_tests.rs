use simplay::block::{BlockCollisionType, BlockType};
use simplay::chunk::Chunk;
use simplay::world::Direction;

#[test]
fn air_properties() {
    let p = BlockType::Air.properties();
    assert_eq!(p.name, "Air");
    assert!(p.transparent);
    assert!(matches!(p.collision, BlockCollisionType::Gas));
    for d in Direction::all() {
        assert_eq!(p.textures.get(d), None);
    }
}

#[test]
fn dirt_properties() {
    let p = BlockType::Dirt.properties();
    assert_eq!(p.name, "Dirt Block");
    assert!(!p.transparent);
    assert!(matches!(p.collision, BlockCollisionType::Solid));
    for d in Direction::all() {
        assert_eq!(p.textures.get(d), Some("dirt".to_string()));
    }
}

#[test]
fn grass_properties() {
    let p = BlockType::Grass.properties();
    assert_eq!(p.name, "Grass Block");
    assert_eq!(p.textures.get(Direction::Up), Some("grass_top".to_string()));
    assert_eq!(p.textures.get(Direction::Down), Some("dirt".to_string()));
    assert_eq!(p.textures.get(Direction::North), Some("grass_side".to_string()));
    assert_eq!(p.textures.get(Direction::East), Some("grass_side".to_string()));
}

#[test]
fn stone_and_debug_properties() {
    let stone = BlockType::Stone.properties();
    assert_eq!(stone.name, "Stone Block");
    assert_eq!(stone.textures.get(Direction::South), Some("stone".to_string()));
    let debug = BlockType::Debug.properties();
    assert_eq!(debug.name, "Debug Block");
    assert!(!debug.transparent);
    assert_eq!(debug.textures.get(Direction::West), Some("debug".to_string()));
}

#[test]
fn face_visibility_rules() {
    // a solid block against air shows its face
    assert!(Chunk::is_face(BlockType::Dirt, BlockType::Air));
    // a solid block against a solid block does not
    assert!(!Chunk::is_face(BlockType::Dirt, BlockType::Stone));
    // two adjacent transparent blocks of identical type show nothing
    assert!(!Chunk::is_face(BlockType::Air, BlockType::Air));
    // air against a solid block shows nothing
    assert!(!Chunk::is_face(BlockType::Air, BlockType::Dirt));
}

#[test]
fn directions_and_offsets() {
    assert_eq!(Direction::North.offset(), (0, 0, -1));
    assert_eq!(Direction::South.offset(), (0, 0, 1));
    assert_eq!(Direction::East.offset(), (1, 0, 0));
    assert_eq!(Direction::West.offset(), (-1, 0, 0));
    assert_eq!(Direction::Up.offset(), (0, 1, 0));
    assert_eq!(Direction::Down.offset(), (0, -1, 0));
    assert_eq!(Direction::East.opposite(), Direction::West);
    assert_eq!(Direction::Up.opposite(), Direction::Down);
    assert_eq!(Direction::all().len(), 6);
    assert_eq!(Direction::North.offset_with_position((10, 20, 30)), (10, 20, 29));
}
