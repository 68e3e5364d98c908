//! A streamed tile world: a deterministic chunk generator, a tracker that
//! turns positions into tile and chunk coordinates, a chunk cache that loads
//! and evicts around the tracked position, and per-agent pursuit strategies.
//!
//! All coordinates are integers in world units; one tile is `TILE_SIZE` units
//! wide and one chunk is `CHUNK_SIZE` tiles wide.

pub mod generator;
pub mod movement;
pub mod pathfinding;
pub mod persistence;
pub mod streamer;
pub mod tracker;
pub mod world;
