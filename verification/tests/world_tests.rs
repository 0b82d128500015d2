use minecraft_world::block::Block;
use minecraft_world::flat::FlatWorldGenerator;
use minecraft_world::generator::Generator;
use minecraft_world::pos::{BlockVector, ChunkVector};
use minecraft_world::provider::{ChunkProvider, MemoryChunkProvider};
use minecraft_world::world::World;

fn flat_world(seed: i64) -> World {
    let generator = Generator::Flat(FlatWorldGenerator::new("Flat", seed));
    let provider = MemoryChunkProvider::new(generator);
    World::new("test world", seed, provider, 1000)
}

#[test]
fn time_wraps_at_the_end_of_the_day() {
    let mut w = flat_world(0);
    w.set_time(23999);
    w.increment_time(2);
    assert_eq!(w.get_time(), 1);
}

#[test]
fn set_time_wraps_too() {
    let mut w = flat_world(0);
    w.set_time(24000);
    assert_eq!(w.get_time(), 0);
    w.set_time(50001);
    assert_eq!(w.get_time(), 2001);
}

#[test]
fn increment_time_handles_large_deltas() {
    let mut w = flat_world(0);
    w.set_time(100);
    w.increment_time(24000 * 3 + 5);
    assert_eq!(w.get_time(), 105);
}

#[test]
fn get_block_reads_generated_terrain() {
    let mut w = flat_world(0);
    let bedrock = w.get_block(BlockVector::new(3, 0, 3));
    assert_eq!(bedrock.block_type, 7);
    let grass = w.get_block(BlockVector::new(3, 5, 3));
    assert_eq!(grass.block_type, 2);
    let air = w.get_block(BlockVector::new(3, 9, 3));
    assert!(air.is_air());
}

#[test]
fn set_block_then_read_back() {
    let mut w = flat_world(0);
    assert!(w.set_block(BlockVector::new(1, 50, 1), Block::new(5), 2000));
    assert_eq!(w.get_block(BlockVector::new(1, 50, 1)).block_type, 5);
    assert!(!w.set_block(BlockVector::new(1, 300, 1), Block::new(5), 2000));
}

#[test]
fn chunk_cache_fills_on_demand() {
    let mut w = flat_world(0);
    let p = ChunkVector::new(2, 0, 2);
    assert!(!w.chunk_exists(p));
    assert!(w.get_chunk_if_loaded(p).is_none());
    let c = w.get_chunk(p);
    assert_eq!(c.position(), p);
    assert!(w.chunk_exists(p));
    assert!(w.get_chunk_if_loaded(p).is_some());
}

#[test]
fn unload_distant_chunks_keeps_only_near_ones() {
    let mut w = flat_world(0);
    let near = ChunkVector::new(0, 0, 0);
    let far = ChunkVector::new(10, 0, 10);
    let _ = w.get_chunk(near);
    let _ = w.get_chunk(far);
    let active = vec![ChunkVector::new(0, 0, 0)];
    let evicted = w.unload_distant_chunks(&active, 3);
    assert_eq!(evicted, 1);
    assert!(w.chunk_exists(near));
    assert!(!w.chunk_exists(far));
}

#[test]
fn save_dirty_chunks_counts_unsaved_chunks() {
    let mut w = flat_world(0);
    let _ = w.get_chunk(ChunkVector::new(0, 0, 0));
    let _ = w.get_chunk(ChunkVector::new(1, 0, 0));
    assert_eq!(w.save_dirty_chunks(), 2);
}

#[test]
fn world_records_identity_and_state() {
    let mut w = flat_world(7);
    assert_eq!(w.seed, 7);
    assert_eq!(w.name, "test world");
    assert_eq!(w.created_at, 1000);
    assert!(!w.is_raining);
    w.update_last_played(5000);
    assert_eq!(w.last_played, 5000);
    w.set_spawn_position(BlockVector::new(8, 70, 8));
    assert_eq!(w.spawn_position, BlockVector::new(8, 70, 8));
}

#[test]
fn two_worlds_get_different_ids() {
    let a = flat_world(0);
    let b = flat_world(0);
    assert_ne!(a.id, b.id);
}

#[test]
fn provider_caches_and_regenerates() {
    let generator = Generator::Flat(FlatWorldGenerator::new("Flat", 0));
    let mut provider = MemoryChunkProvider::new(generator);
    let p = ChunkVector::new(0, 0, 0);
    assert!(!provider.chunk_exists(p));
    let first = provider.get_chunk(p);
    assert!(provider.chunk_exists(p));
    let second = provider.get_chunk(p);
    assert_eq!(first.serialize(), second.serialize());
    assert!(provider.unload_chunk(p));
    assert!(!provider.unload_chunk(p));
    let other = Generator::Flat(FlatWorldGenerator::new("Flat", 0).with_layers(vec![]));
    let regenerated = provider.force_generate_chunk(p, &other);
    assert_eq!(regenerated.count_non_air_blocks(), 0);
    assert_eq!(
        provider.get_chunk_if_loaded(p).unwrap().count_non_air_blocks(),
        0
    );
    assert!(provider.save_chunk(&regenerated).is_ok());
}
