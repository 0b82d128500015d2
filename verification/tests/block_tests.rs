use minecraft_world::block::{Block, BlockFace, BlockType};

#[test]
fn pack_unpack_round_trip_zero() {
    let b = Block::with_metadata(0, 0);
    assert_eq!(Block::unpack(b.pack()), b);
}

#[test]
fn pack_unpack_round_trip_max() {
    let b = Block::with_metadata(65535, 65535);
    assert_eq!(Block::unpack(b.pack()), b);
    assert_eq!(b.pack(), 0xFFFF_FFFF);
}

#[test]
fn pack_unpack_round_trip_mixed() {
    let b = Block::with_metadata(1234, 777);
    let unpacked = Block::unpack(b.pack());
    assert_eq!(unpacked.block_type, 1234);
    assert_eq!(unpacked.metadata, 777);
}

#[test]
fn pack_layout_is_type_then_metadata() {
    let b = Block::with_metadata(1, 2);
    assert_eq!(b.pack(), (1u32 << 16) | 2);
}

#[test]
fn unpack_pack_is_identity_on_words() {
    for &w in &[0u32, 1, 65535, 65536, 0xDEAD_BEEF, u32::MAX] {
        assert_eq!(Block::unpack(w).pack(), w);
    }
}

#[test]
fn new_defaults_metadata_to_zero() {
    let b = Block::new(42);
    assert_eq!(b.block_type, 42);
    assert_eq!(b.metadata, 0);
}

#[test]
fn air_is_type_zero() {
    assert!(Block::new(0).is_air());
    assert!(!Block::new(1).is_air());
    assert!(Block::with_metadata(0, 55).is_air());
}

#[test]
fn block_type_ids_are_fixed() {
    assert_eq!(BlockType::Air.id(), 0);
    assert_eq!(BlockType::Stone.id(), 1);
    assert_eq!(BlockType::Grass.id(), 2);
    assert_eq!(BlockType::Dirt.id(), 3);
    assert_eq!(BlockType::Bedrock.id(), 7);
    assert_eq!(BlockType::Water.id(), 9);
    assert_eq!(BlockType::Sand.id(), 12);
    assert_eq!(BlockType::OakLog.id(), 17);
    assert_eq!(BlockType::OakLeaves.id(), 18);
}

#[test]
fn solidity_table() {
    assert!(!Block::new(0).is_solid());
    assert!(!Block::new(BlockType::Water.id()).is_solid());
    assert!(Block::new(BlockType::Stone.id()).is_solid());
    assert!(Block::new(BlockType::Bedrock.id()).is_solid());
}

#[test]
fn transparency_table() {
    assert!(Block::new(0).is_transparent());
    assert!(Block::new(BlockType::Water.id()).is_transparent());
    assert!(Block::new(BlockType::OakLeaves.id()).is_transparent());
    assert!(!Block::new(BlockType::Stone.id()).is_transparent());
}

#[test]
fn fluid_table() {
    assert!(Block::new(BlockType::Water.id()).is_fluid());
    assert!(!Block::new(0).is_fluid());
    assert!(!Block::new(BlockType::Sand.id()).is_fluid());
}

#[test]
fn light_emission_is_zero() {
    assert_eq!(Block::new(BlockType::Stone.id()).light_emission(), 0);
    assert_eq!(Block::new(0).light_emission(), 0);
}

#[test]
fn block_face_opposites() {
    assert_eq!(BlockFace::Top.opposite(), BlockFace::Bottom);
    assert_eq!(BlockFace::North.opposite(), BlockFace::South);
    assert_eq!(BlockFace::East.opposite(), BlockFace::West);
}

#[test]
fn block_face_ids_round_trip() {
    for id in 0u8..6 {
        assert_eq!(BlockFace::from_id(id).to_id(), id);
    }
    assert_eq!(BlockFace::from_id(6), BlockFace::Top);
}

#[test]
fn block_face_all_lists_six() {
    let faces = BlockFace::all();
    assert_eq!(faces.len(), 6);
    assert_eq!(faces[0], BlockFace::Top);
    assert_eq!(faces[5], BlockFace::West);
}
