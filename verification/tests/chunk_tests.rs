use minecraft_world::block::Block;
use minecraft_world::chunk::Chunk;
use minecraft_world::pos::{BlockVector, ChunkVector};
use minecraft_world::section::ChunkSection;

fn pos(x: i32, y: i32, z: i32) -> ChunkVector {
    ChunkVector::new(x, y, z)
}

#[test]
fn new_chunk_is_empty_and_dirty() {
    let c = Chunk::new(pos(1, 2, 3), 77);
    assert_eq!(c.position(), pos(1, 2, 3));
    assert!(c.is_dirty());
    assert_eq!(c.created_at, 77);
    assert_eq!(c.last_modified, 77);
    assert_eq!(c.count_non_air_blocks(), 0);
    assert!(c.get_block(0, 0, 0).is_none());
}

#[test]
fn set_block_creates_section_lazily() {
    let mut c = Chunk::new(pos(0, 0, 0), 0);
    assert!(!c.has_section(2));
    assert!(c.set_block(4, 37, 8, Block::new(5), 10));
    assert!(c.has_section(2));
    assert_eq!(c.get_block(4, 37, 8).unwrap().block_type, 5);
    assert_eq!(c.last_modified, 10);
    assert!(c.is_dirty());
}

#[test]
fn get_block_is_none_for_missing_section() {
    let mut c = Chunk::new(pos(0, 0, 0), 0);
    c.set_block(0, 0, 0, Block::new(1), 0);
    assert!(c.get_block(0, 0, 0).is_some());
    assert!(c.get_block(0, 16, 0).is_none());
    assert!(c.get_block(0, 300, 0).is_none());
}

#[test]
fn set_block_rejects_out_of_column() {
    let mut c = Chunk::new(pos(0, 0, 0), 0);
    assert!(!c.set_block(0, 256, 0, Block::new(1), 0));
    assert!(!c.set_block(16, 0, 0, Block::new(1), 0));
    assert_eq!(c.count_non_air_blocks(), 0);
}

#[test]
fn world_coordinates_wrap_into_the_column() {
    let mut c = Chunk::new(pos(-1, 0, -1), 0);
    let p = BlockVector::new(-3, 70, -14);
    assert!(c.set_block_at(&p, Block::new(9), 5));
    let read = c.get_block_at(&p).unwrap();
    assert_eq!(read.block_type, 9);
    assert_eq!(c.get_block(13, 70, 2).unwrap().block_type, 9);
}

#[test]
fn block_at_rejects_heights_outside_world() {
    let mut c = Chunk::new(pos(0, 0, 0), 0);
    assert!(!c.set_block_at(&BlockVector::new(0, -1, 0), Block::new(1), 0));
    assert!(!c.set_block_at(&BlockVector::new(0, 256, 0), Block::new(1), 0));
    assert!(c.get_block_at(&BlockVector::new(0, -1, 0)).is_none());
}

#[test]
fn count_sums_sections() {
    let mut c = Chunk::new(pos(0, 0, 0), 0);
    c.set_block(0, 0, 0, Block::new(1), 0);
    c.set_block(0, 100, 0, Block::new(1), 0);
    c.set_block(1, 100, 0, Block::new(1), 0);
    c.set_block(0, 255, 0, Block::new(1), 0);
    assert_eq!(c.count_non_air_blocks(), 4);
}

#[test]
fn mark_clean_and_dirty() {
    let mut c = Chunk::new(pos(0, 0, 0), 0);
    assert!(c.is_dirty());
    c.mark_clean();
    assert!(!c.is_dirty());
    c.mark_dirty();
    assert!(c.is_dirty());
}

#[test]
fn set_section_replaces_whole_band() {
    let mut c = Chunk::new(pos(0, 0, 0), 0);
    let mut s = ChunkSection::new();
    s.fill(Block::new(1));
    c.set_section(3, s, 9);
    assert!(c.has_section(3));
    assert_eq!(c.count_non_air_blocks(), 4096);
    assert_eq!(c.get_block(0, 3 * 16 + 1, 0).unwrap().block_type, 1);
    let got = c.get_section(3).unwrap();
    assert_eq!(got.count_non_air_blocks(), 4096);
    assert!(c.get_section(4).is_none());
}

#[test]
fn clone_chunk_copies_everything() {
    let mut c = Chunk::new(pos(2, 0, 2), 4);
    c.set_block(1, 17, 1, Block::with_metadata(6, 2), 8);
    let d = c.clone_chunk();
    assert_eq!(d.position(), pos(2, 0, 2));
    assert_eq!(d.get_block(1, 17, 1).unwrap().metadata, 2);
    assert_eq!(d.count_non_air_blocks(), 1);
    assert_eq!(d.created_at, 4);
    assert_eq!(d.last_modified, 8);
}
