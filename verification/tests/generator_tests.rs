use minecraft_world::block::BlockType;
use minecraft_world::chunk::Chunk;
use minecraft_world::flat::FlatWorldGenerator;
use minecraft_world::generator::{create_spawn_area, pre_generate_chunks, Generator, TerrainGenerator};
use minecraft_world::overworld::OverworldGenerator;
use minecraft_world::pos::ChunkVector;

fn pos(x: i32, y: i32, z: i32) -> ChunkVector {
    ChunkVector::new(x, y, z)
}

#[test]
fn flat_default_layers_at_origin() {
    let g = FlatWorldGenerator::new("Flat", 0);
    let chunk = g.generate_chunk(pos(0, 0, 0));
    for x in 0..16usize {
        for z in 0..16usize {
            assert_eq!(
                chunk.get_block(x, 0, z).unwrap().block_type,
                BlockType::Bedrock.id()
            );
            for y in 1..4usize {
                assert_eq!(
                    chunk.get_block(x, y, z).unwrap().block_type,
                    BlockType::Stone.id()
                );
            }
            assert_eq!(
                chunk.get_block(x, 4, z).unwrap().block_type,
                BlockType::Dirt.id()
            );
            assert_eq!(
                chunk.get_block(x, 5, z).unwrap().block_type,
                BlockType::Grass.id()
            );
            for y in 6..16usize {
                assert!(chunk.get_block(x, y, z).unwrap().is_air());
            }
        }
    }
    assert_eq!(chunk.count_non_air_blocks(), 6 * 256);
}

#[test]
fn flat_chunk_above_ground_is_all_air() {
    let g = FlatWorldGenerator::new("Flat", 0);
    let chunk = g.generate_chunk(pos(0, 1, 0));
    assert_eq!(chunk.count_non_air_blocks(), 0);
    assert!(!chunk.has_section(0));
}

#[test]
fn flat_layers_are_truncated_at_the_section_top() {
    let g = FlatWorldGenerator::new("Flat", 0)
        .with_layers(vec![(BlockType::Stone, 20), (BlockType::Grass, 5)]);
    let chunk = g.generate_chunk(pos(0, 0, 0));
    for y in 0..16usize {
        assert_eq!(
            chunk.get_block(3, y, 3).unwrap().block_type,
            BlockType::Stone.id()
        );
    }
    assert_eq!(chunk.count_non_air_blocks(), 16 * 256);
}

#[test]
fn flat_generator_reports_name_and_seed() {
    let g = FlatWorldGenerator::new("Flat", 321);
    assert_eq!(g.name(), "Flat");
    assert_eq!(g.seed(), 321);
}

#[test]
fn overworld_same_seed_gives_byte_identical_chunks() {
    let a = OverworldGenerator::new("Overworld", 12345);
    let b = OverworldGenerator::new("Overworld", 12345);
    for y in 3..9 {
        let p = pos(0, y, 0);
        let ca = a.generate_chunk(p);
        let cb = b.generate_chunk(p);
        assert_eq!(ca.serialize(), cb.serialize());
    }
}

#[test]
fn overworld_terrain_sits_in_the_surface_band() {
    let g = OverworldGenerator::new("Overworld", 42);
    // Heights lie in [64, 124], so chunks far above are empty and some
    // chunk between section 4 and 8 holds the terrain.
    let high = g.generate_chunk(pos(0, 12, 0));
    assert_eq!(high.count_non_air_blocks(), 0);
    let low = g.generate_chunk(pos(0, 0, 0));
    assert_eq!(low.count_non_air_blocks(), 0);
    let mut populated = 0;
    for y in 4..9 {
        if g.generate_chunk(pos(0, y, 0)).count_non_air_blocks() > 0 {
            populated += 1;
        }
    }
    assert!(populated > 0);
}

#[test]
fn overworld_tree_growth_places_logs_and_leaves() {
    let g = OverworldGenerator::new("Overworld", 7);
    let mut chunk = Chunk::new(pos(0, 0, 0), 0);
    g.generate_tree(&mut chunk, 8, 100, 8);
    let mut logs = 0;
    let mut leaves = 0;
    for x in 0..16usize {
        for y in 95..115usize {
            for z in 0..16usize {
                match chunk.get_block(x, y, z) {
                    Some(b) if b.block_type == BlockType::OakLog.id() => logs += 1,
                    Some(b) if b.block_type == BlockType::OakLeaves.id() => leaves += 1,
                    _ => {}
                }
            }
        }
    }
    assert!(logs >= 1 && logs <= 6);
    assert!(leaves > 10);
}

#[test]
fn tree_gate_respects_the_surface_band() {
    let g = OverworldGenerator::new("Overworld", 3);
    // Heights outside (sea_level + 2, 100) never grow a tree.
    assert!(!g.grows_tree(pos(0, 0, 0), 4, 4, 66));
    assert!(!g.grows_tree(pos(0, 0, 0), 4, 4, 100));
    // Inside the band roughly one column in fifty wins the draw.
    let mut grown = 0;
    for x in 0..16usize {
        for z in 0..16usize {
            if g.grows_tree(pos(0, 0, 0), x, z, 80) {
                grown += 1;
            }
        }
    }
    assert!(grown < 64);
    // The draw is deterministic.
    let h = OverworldGenerator::new("Overworld", 3);
    for x in 0..16usize {
        assert_eq!(g.grows_tree(pos(1, 0, 1), x, 5, 90), h.grows_tree(pos(1, 0, 1), x, 5, 90));
    }
}

#[test]
fn tree_growth_is_deterministic() {
    let g = OverworldGenerator::new("Overworld", 7);
    let mut a = Chunk::new(pos(0, 0, 0), 0);
    let mut b = Chunk::new(pos(0, 0, 0), 0);
    g.generate_tree(&mut a, 5, 80, 5);
    g.generate_tree(&mut b, 5, 80, 5);
    assert_eq!(a.serialize(), b.serialize());
}

#[test]
fn pre_generation_covers_the_circle() {
    let g = Generator::Flat(FlatWorldGenerator::new("Flat", 0));
    let chunks = pre_generate_chunks(&g, pos(0, 0, 0), 1);
    // The circle of radius one keeps five columns, three levels each.
    assert_eq!(chunks.len(), 15);
    let spawn = create_spawn_area(&g, 1);
    assert_eq!(spawn.len(), 15);
}

#[test]
fn generator_enum_delegates() {
    let g = Generator::Overworld(OverworldGenerator::new("Overworld", 9).with_sea_level(70));
    assert_eq!(g.name(), "Overworld");
    assert_eq!(g.seed(), 9);
    let c = g.generate_chunk(pos(2, 5, 2));
    assert_eq!(c.position(), pos(2, 5, 2));
}
