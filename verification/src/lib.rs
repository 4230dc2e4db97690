//! The chunk store and terrain generator of a voxel-world server: reading
//! stored chunks out of region files, deciding which chunks stay loaded,
//! and generating the terrain of new ones. With them come the smaller
//! things that a server needs round its world: seeds, settings, chat lines
//! and commands.

pub mod bytes;
pub mod chat;
pub mod chunk;
pub mod chunk_state;
pub mod chunks;
pub mod codec;
pub mod command_stack;
pub mod config;
pub mod decimal;
pub mod error;
pub mod file_name;
pub mod nbt;
pub mod parser;
pub mod region;
pub mod seed;
pub mod terrain;
pub mod text;
pub mod tokenizer;
pub mod world_gen;
pub mod world_state;

pub use chat::MessageQueue;
pub use chunk::{Chunk, ChunkPos};
pub use chunk_state::{ChunkState, DefaultChunkState};
pub use chunks::{Chunks, LoadedChunk};
pub use config::{Config, Gameplay, Network, World, WorldSpawn};
pub use error::{DecodeError, Defect, Failure, LevelField, ReadChunkError};
pub use file_name::get_region_coords_from_file_name;
pub use parser::{parse, Argument, ArgumentDef, CommandDef, Ident};
pub use region::{AnvilChunk, Region};
pub use seed::{Seed, SeedType};
pub use terrain::{terrain_column, Block, GrassCover, LevelSample};
pub use tokenizer::{tokenize, Token};
pub use world_gen::WorldGen;
pub use world_state::{PiquantWorld, RegionFile, SpawnPoint, WorldState};
