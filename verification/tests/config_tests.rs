use minecraft_world::config::{ServerConfig, WorldConfig};
use minecraft_world::generator::TerrainGenerator;
use minecraft_world::loader::{build_world, config_from_world, generator_by_name, WorldLoader};
use minecraft_world::pos::BlockVector;

#[test]
fn server_config_defaults() {
    let c = ServerConfig::default();
    assert_eq!(c.port, 8080);
    assert_eq!(c.max_players, 50);
    assert!(c.seed.is_none());
    assert_eq!(c.world_size, (2000, 256, 2000));
    assert_eq!(c.simulation_distance, 10);
    assert_eq!(c.view_distance, 8);
    assert!(c.pvp_enabled);
    assert!(c.auth_enabled);
    assert_eq!(c.server_name, "Minecraft Clone Server");
}

#[test]
fn world_config_defaults() {
    let c = WorldConfig::default();
    assert_eq!(c.name, "New World");
    assert_eq!(c.generator_type, "overworld");
    assert_eq!(c.spawn_position, (0, 64, 0));
    assert_eq!(c.game_mode, 0);
    assert!(c.generate_structures);
    assert!(!c.hardcore);
    assert_eq!(c.time, 0);
    assert!(!c.is_raining);
    assert!(!c.is_thundering);
}

#[test]
fn fresh_configs_draw_distinct_identities() {
    let a = WorldConfig::default();
    let b = WorldConfig::default();
    assert_ne!(a.id, b.id);
}

#[test]
fn generator_is_chosen_by_name() {
    assert_eq!(generator_by_name("flat", 1).name(), "Flat");
    assert_eq!(generator_by_name("overworld", 1).name(), "Overworld");
    assert_eq!(generator_by_name("anything else", 1).name(), "Overworld");
    assert_eq!(generator_by_name("flat", 5).seed(), 5);
}

#[test]
fn build_world_wires_the_configuration() {
    let mut config = WorldConfig::default();
    config.name = "alpha".to_string();
    config.seed = 99;
    config.generator_type = "flat".to_string();
    config.spawn_position = (4, 70, -4);
    config.time = 25000;
    config.is_raining = true;
    let world = build_world(&config, 3333);
    assert_eq!(world.id, config.id);
    assert_eq!(world.name, "alpha");
    assert_eq!(world.seed, 99);
    assert_eq!(world.get_time(), 1000);
    assert!(world.is_raining);
    assert!(!world.is_thundering);
    assert_eq!(world.spawn_position, BlockVector::new(4, 70, -4));
    assert_eq!(world.created_at, 3333);
}

#[test]
fn config_snapshot_round_trips_the_world_state() {
    let mut config = WorldConfig::default();
    config.name = "beta".to_string();
    config.seed = -5;
    config.generator_type = "flat".to_string();
    let world = build_world(&config, 0);
    let snap = config_from_world(&world);
    assert_eq!(snap.id, config.id);
    assert_eq!(snap.name, "beta");
    assert_eq!(snap.seed, -5);
    assert_eq!(snap.generator_type, "Flat");
    assert_eq!(snap.time, world.get_time());
}

#[test]
fn world_loader_keeps_its_directory() {
    let loader = WorldLoader::new("worlds");
    assert_eq!(loader.worlds_dir, "worlds");
}
