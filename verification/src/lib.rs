//! A procedural chunk-streaming core for a tile-based world.
//!
//! Terrain is organised in fixed-size chunks of tiles. Each tick the
//! streaming controller maps every viewpoint to a chunk coordinate, loads
//! the chunks in a square window around it, and evicts resident chunks that
//! have drifted beyond an eviction distance. A chunk's tile grid is produced
//! deterministically from per-tile noise samples (supplied by the caller as
//! fixed-point values), with a cosmetic random draw picking the concrete
//! tile art for ordinary terrain.

pub mod config;
pub mod coords;
pub mod registry;
pub mod rng;
pub mod tiles;
pub mod controller;
