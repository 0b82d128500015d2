//! Configuration records: the durable snapshot of a world's settings and
//! the server's own settings.

use vstd::prelude::*;

verus! {

/// Relies on uuid::Uuid::new_v4, via Uuid::as_u128: a freshly drawn
/// random 128-bit identifier.  Nothing is promised of the value.
#[verifier::external_body]
pub(crate) fn fresh_world_id() -> u128 {
    uuid::Uuid::new_v4().as_u128()
}

/// Relies on rand::random: a seed drawn from the thread-local generator.
/// Nothing is promised of the value.
#[verifier::external_body]
pub(crate) fn fresh_seed() -> i64 {
    rand::random::<i64>()
}

/// The persisted configuration of a world.
#[derive(Debug)]
pub struct WorldConfig {
    /// The unique identifier of the world, the 128 bits of its UUID.
    pub id: u128,
    /// The name of the world.
    pub name: String,
    /// The seed for terrain generation.
    pub seed: i64,
    /// The kind of generator to use: "flat" or "overworld"; any other
    /// name falls back to "overworld".
    pub generator_type: String,
    /// The spawn position for new players.
    pub spawn_position: (i32, i32, i32),
    /// The game mode: 0 is survival, 1 is creative.
    pub game_mode: u8,
    /// Whether structures should be generated.
    pub generate_structures: bool,
    /// Whether the world is in hardcore mode.
    pub hardcore: bool,
    /// The time of day in ticks, 0 to 23999.
    pub time: u64,
    /// Whether it is raining.
    pub is_raining: bool,
    /// Whether it is thundering.
    pub is_thundering: bool,
}

impl Default for WorldConfig {
    /// A fresh configuration: a random identity and seed over the
    /// default overworld settings.
    fn default() -> (r: WorldConfig)
        ensures
            r.name@ == "New World"@,
            r.generator_type@ == "overworld"@,
            r.spawn_position == (0i32, 64i32, 0i32),
            r.game_mode == 0,
            r.generate_structures,
            !r.hardcore,
            r.time == 0,
            !r.is_raining,
            !r.is_thundering,
    {
        WorldConfig {
            id: fresh_world_id(),
            name: "New World".to_owned(),
            seed: fresh_seed(),
            generator_type: "overworld".to_owned(),
            spawn_position: (0, 64, 0),
            game_mode: 0,
            generate_structures: true,
            hardcore: false,
            time: 0,
            is_raining: false,
            is_thundering: false,
        }
    }
}

/// The server's own configuration.
#[derive(Debug)]
pub struct ServerConfig {
    /// The port to listen on.
    pub port: u16,
    /// The maximum number of players.
    pub max_players: usize,
    /// The world seed, when fixed by the operator.
    pub seed: Option<String>,
    /// The world size, in blocks per axis.
    pub world_size: (i32, i32, i32),
    /// The simulation distance, in chunks.
    pub simulation_distance: u32,
    /// The view distance, in chunks.
    pub view_distance: u32,
    /// Whether player-versus-player combat is enabled.
    pub pvp_enabled: bool,
    /// Whether authentication is enabled.
    pub auth_enabled: bool,
    /// The name of the server.
    pub server_name: String,
    /// The description of the server.
    pub server_description: String,
}

impl Default for ServerConfig {
    fn default() -> (r: ServerConfig)
        ensures
            r.port == 8080,
            r.max_players == 50,
            r.seed is None,
            r.world_size == (2000i32, 256i32, 2000i32),
            r.simulation_distance == 10,
            r.view_distance == 8,
            r.pvp_enabled,
            r.auth_enabled,
            r.server_name@ == "Minecraft Clone Server"@,
            r.server_description@ == "A Minecraft clone server"@,
    {
        ServerConfig {
            port: 8080,
            max_players: 50,
            seed: None,
            world_size: (2000, 256, 2000),
            simulation_distance: 10,
            view_distance: 8,
            pvp_enabled: true,
            auth_enabled: true,
            server_name: "Minecraft Clone Server".to_owned(),
            server_description: "A Minecraft clone server".to_owned(),
        }
    }
}

} // verus!
