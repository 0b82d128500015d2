//! Wiring worlds from their persisted configuration: picking the named
//! generator and building the live world object.  Reading and writing the
//! configuration files themselves is left to the caller.

use crate::config::WorldConfig;
use crate::flat::FlatWorldGenerator;
use crate::generator::{Generator, TerrainGenerator};
use crate::overworld::OverworldGenerator;
use crate::pos::BlockVector;
use crate::provider::{ChunkProvider, MemoryChunkProvider};
use crate::world::World;
use vstd::prelude::*;

verus! {

/// Manages the association between world configurations and live worlds.
/// The directory name records where a caller keeps the configuration
/// files.
#[derive(Debug)]
pub struct WorldLoader {
    /// The base directory for world data.
    pub worlds_dir: String,
}

impl WorldLoader {
    /// Creates a new world loader over the given worlds directory.
    pub fn new(worlds_dir: &str) -> (r: WorldLoader)
        ensures
            r.worlds_dir@ == worlds_dir@,
    {
        WorldLoader { worlds_dir: worlds_dir.to_owned() }
    }
}

/// Instantiates the generator a configuration names: "flat" builds the
/// flat generator; any other name builds the overworld generator.
pub fn generator_by_name(name: &str, seed: i64) -> (r: Generator)
    ensures
        name@ == "flat"@ ==> (r matches Generator::Flat(g) && g.seed == seed && g.name@
            == "Flat"@),
        name@ != "flat"@ ==> (r matches Generator::Overworld(g) && g.seed == seed && g.name@
            == "Overworld"@ && g.sea_level == 64 && g.scale_milli == 1000),
        r.spec_seed() == seed,
{
    let name_string = name.to_owned();
    let flat = "flat".to_owned();
    if name_string == flat {
        Generator::Flat(FlatWorldGenerator::new("Flat", seed))
    } else {
        Generator::Overworld(OverworldGenerator::new("Overworld", seed).with_sea_level(
            64,
        ).with_scale(1000))
    }
}

/// Builds a live world from its persisted configuration: the named
/// generator, wrapped in a fresh in-memory provider, under the
/// configuration's identity, time and weather.
pub fn build_world(config: &WorldConfig, now: u64) -> (r: World)
    ensures
        r.wf(),
        r.id == config.id,
        r.name@ == config.name@,
        r.seed == config.seed,
        r.time == config.time % 24000,
        r.is_raining == config.is_raining,
        r.is_thundering == config.is_thundering,
        r.spawn_position == (BlockVector {
            x: config.spawn_position.0,
            y: config.spawn_position.1,
            z: config.spawn_position.2,
        }),
        r.created_at == now,
        r.chunk_provider.generator.spec_seed() == config.seed,
        forall|p: crate::pos::ChunkVector| r.chunk_provider.spec_cached(p) is None,
{
    let generator = generator_by_name(config.generator_type.as_str(), config.seed);
    let provider = MemoryChunkProvider::new(generator);
    let mut world = World::new(config.name.as_str(), config.seed, provider, now);
    world.id = config.id;
    world.set_time(config.time);
    world.is_raining = config.is_raining;
    world.is_thundering = config.is_thundering;
    world.spawn_position = BlockVector {
        x: config.spawn_position.0,
        y: config.spawn_position.1,
        z: config.spawn_position.2,
    };
    world
}

/// Takes the durable snapshot of a world's configuration.
pub fn config_from_world(world: &World) -> (r: WorldConfig)
    ensures
        r.id == world.id,
        r.name@ == world.name@,
        r.seed == world.seed,
        r.generator_type@ == world.chunk_provider.generator.spec_name(),
        r.spawn_position == (
            world.spawn_position.x,
            world.spawn_position.y,
            world.spawn_position.z,
        ),
        r.game_mode == 0,
        r.generate_structures,
        !r.hardcore,
        r.time == world.time,
        r.is_raining == world.is_raining,
        r.is_thundering == world.is_thundering,
{
    WorldConfig {
        id: world.id,
        name: world.name.clone(),
        seed: world.seed,
        generator_type: world.chunk_provider.generator.name().to_owned(),
        spawn_position: (world.spawn_position.x, world.spawn_position.y, world.spawn_position.z),
        game_mode: 0,
        generate_structures: true,
        hardcore: false,
        time: world.time,
        is_raining: world.is_raining,
        is_thundering: world.is_thundering,
    }
}

} // verus!
