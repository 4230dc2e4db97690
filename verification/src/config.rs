//! The server's settings.

use crate::seed::{SeedType, SeedTypeView};
use vstd::prelude::*;

verus! {

/// All the settings.
#[derive(Debug, Clone)]
pub struct Config {
    pub network: Network,
    pub world: World,
    pub gameplay: Gameplay,
}

/// How the server is reached and what it says of itself.
#[derive(Debug, Clone)]
pub struct Network {
    pub port: u16,
    pub max_players: usize,
    pub description: String,
}

/// The column of blocks where players enter the world.
#[derive(Debug, Clone)]
pub struct WorldSpawn {
    pub x: i32,
    pub z: i32,
}

/// The settings of the world.
#[derive(Debug, Clone)]
pub struct World {
    /// How the world's seed is chosen.
    pub seed: SeedType,
    /// How far, in chunks, the server keeps chunks loaded round a player.
    pub view_distance: u8,
    /// How many ticks a chunk may go untouched before it is let go.
    pub chunk_unload_delay: u64,
    pub spawn: WorldSpawn,
}

/// The settings of the game.
#[derive(Debug, Clone)]
pub struct Gameplay {
    pub gamemode: String,
}

impl Default for Config {
    /// The settings that a new settings file is written with.
    fn default() -> (config: Config)
        ensures
            config.network.port == 25565,
            config.network.max_players == 16,
            config.network.description@ == "\u{a7}bHello Piquant!"@,
            config.world.seed@ == SeedTypeView::FromString(""@),
            config.world.view_distance == 8,
            config.world.chunk_unload_delay == 30,
            config.world.spawn.x == 0,
            config.world.spawn.z == 0,
            config.gameplay.gamemode@ == "survival"@,
    {
        Config {
            network: Network {
                port: 25565,
                max_players: 16,
                description: "\u{a7}bHello Piquant!".to_owned(),
            },
            world: World {
                seed: SeedType::FromString("".to_owned()),
                view_distance: 8,
                chunk_unload_delay: 30,
                spawn: WorldSpawn { x: 0, z: 0 },
            },
            gameplay: Gameplay { gamemode: "survival".to_owned() },
        }
    }
}

} // verus!
