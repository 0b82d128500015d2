use minecraft_world::block::Block;
use minecraft_world::chunk::Chunk;
use minecraft_world::collection::ChunkCollection;
use minecraft_world::pos::{BlockVector, ChunkVector};

fn pos(x: i32, y: i32, z: i32) -> ChunkVector {
    ChunkVector::new(x, y, z)
}

#[test]
fn lookup_follows_insert_and_remove() {
    let mut col = ChunkCollection::new();
    let p = pos(4, 0, -2);
    assert!(col.get_chunk(p).is_none());
    col.insert_chunk(Chunk::new(p, 0));
    assert_eq!(col.get_chunk(p).unwrap().position(), p);
    let removed = col.remove_chunk(p).unwrap();
    assert_eq!(removed.position(), p);
    assert!(col.get_chunk(p).is_none());
}

#[test]
fn insert_overwrites_last_writer_wins() {
    let mut col = ChunkCollection::new();
    let p = pos(1, 1, 1);
    let mut first = Chunk::new(p, 0);
    first.set_block(0, 0, 0, Block::new(1), 0);
    col.insert_chunk(first);
    let second = Chunk::new(p, 99);
    col.insert_chunk(second);
    assert_eq!(col.chunk_count(), 1);
    let held = col.get_chunk(p).unwrap();
    assert_eq!(held.created_at, 99);
    assert_eq!(held.count_non_air_blocks(), 0);
}

#[test]
fn contains_and_count() {
    let mut col = ChunkCollection::new();
    assert_eq!(col.chunk_count(), 0);
    col.insert_chunk(Chunk::new(pos(0, 0, 0), 0));
    col.insert_chunk(Chunk::new(pos(1, 0, 0), 0));
    assert_eq!(col.chunk_count(), 2);
    assert!(col.contains_chunk(pos(0, 0, 0)));
    assert!(!col.contains_chunk(pos(2, 0, 0)));
}

#[test]
fn radius_query_is_a_cube_with_inclusive_bounds() {
    let mut col = ChunkCollection::new();
    col.insert_chunk(Chunk::new(pos(0, 0, 0), 0));
    col.insert_chunk(Chunk::new(pos(3, 0, 0), 0));
    let near = col.get_chunks_in_radius(pos(0, 0, 0), 2);
    assert_eq!(near.len(), 1);
    assert_eq!(near[0].position(), pos(0, 0, 0));
    let wide = col.get_chunks_in_radius(pos(0, 0, 0), 3);
    assert_eq!(wide.len(), 2);
    let edge = col.get_chunks_in_radius(pos(2, 0, 0), 1);
    assert_eq!(edge.len(), 1);
    assert_eq!(edge[0].position(), pos(3, 0, 0));
}

#[test]
fn clear_empties_the_registry() {
    let mut col = ChunkCollection::new();
    col.insert_chunk(Chunk::new(pos(0, 0, 0), 0));
    col.insert_chunk(Chunk::new(pos(1, 0, 0), 0));
    col.clear();
    assert_eq!(col.chunk_count(), 0);
    assert!(col.get_chunk(pos(0, 0, 0)).is_none());
}

#[test]
fn all_chunks_and_positions() {
    let mut col = ChunkCollection::new();
    col.insert_chunk(Chunk::new(pos(0, 0, 0), 0));
    col.insert_chunk(Chunk::new(pos(5, 1, -3), 0));
    let all = col.get_all_chunks();
    assert_eq!(all.len(), 2);
    let positions = col.get_chunk_positions();
    assert_eq!(positions.len(), 2);
    assert!(positions.contains(&pos(5, 1, -3)));
}

#[test]
fn dirty_chunks_are_those_with_unsaved_changes() {
    let mut col = ChunkCollection::new();
    let mut clean = Chunk::new(pos(0, 0, 0), 0);
    clean.mark_clean();
    col.insert_chunk(clean);
    col.insert_chunk(Chunk::new(pos(1, 0, 0), 0));
    let dirty = col.get_dirty_chunks();
    assert_eq!(dirty.len(), 1);
    assert_eq!(dirty[0], pos(1, 0, 0));
}

#[test]
fn block_lookup_resolves_the_owning_chunk() {
    let mut col = ChunkCollection::new();
    let mut chunk = Chunk::new(pos(0, 4, 0), 0);
    chunk.set_block(5, 69, 5, Block::new(3), 0);
    col.insert_chunk(chunk);
    let read = col.get_block(&BlockVector::new(5, 69, 5)).unwrap();
    assert_eq!(read.block_type, 3);
    assert!(col.get_block(&BlockVector::new(100, 69, 5)).is_none());
}

#[test]
fn block_lookup_succeeds_exactly_on_written_sections() {
    let mut col = ChunkCollection::new();
    let mut written = Chunk::new(pos(0, 4, 0), 0);
    written.set_block(5, 69, 5, Block::new(3), 0);
    col.insert_chunk(written);
    col.insert_chunk(Chunk::new(pos(0, 6, 0), 0));
    // An untouched cell of the written section reads as air, present.
    assert!(col.get_block(&BlockVector::new(0, 64, 0)).unwrap().is_air());
    // The loaded but never-written chunk has no section to read from.
    assert!(col.get_block(&BlockVector::new(0, 100, 0)).is_none());
    // An unloaded chunk reads as absent too.
    assert!(col.get_block(&BlockVector::new(0, 85, 0)).is_none());
}
