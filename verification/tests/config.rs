use piquant_world::{Config, SeedType};

#[test]
fn default_settings() {
    let config = Config::default();
    assert_eq!(config.network.port, 25565);
    assert_eq!(config.network.max_players, 16);
    assert_eq!(config.network.description, "\u{a7}bHello Piquant!");
    assert!(matches!(&config.world.seed, SeedType::FromString(text) if text.is_empty()));
    assert_eq!(config.world.view_distance, 8);
    assert_eq!(config.world.chunk_unload_delay, 30);
    assert_eq!(config.world.spawn.x, 0);
    assert_eq!(config.world.spawn.z, 0);
    assert_eq!(config.gameplay.gamemode, "survival");
}
