//! A deterministic time-loop side scroller core: a live vehicle records its
//! inputs every run, each finished run becomes a clone that replays them, and
//! the content generated on one run is recorded and replayed on the next.
//!
//! All quantities are fixed-point integers: one world unit is `SCALE` steps.
//!
//! - `num`: fixed-point arithmetic held within a limit.
//! - `geometry`: boxes, overlap, least-penetration push-out, the ground.
//! - `registry`: collections with distinct ids and smallest-free allocation.
//! - `entity`: keys, bullets, enemies, platforms.
//! - `vehicle`: vehicle kinds, one tick of driving, recorded inputs.
//! - `timeloop`: the time-loop record and which template comes next.
//! - `rng`: the random figures a tick draws.
//! - `world`, `combat`, `enemies`, `platforms`, `game`: the world and its tick.
//! - `menu`: the menu between runs.
//! - `laws`: properties of whole runs.
pub mod num;
pub mod geometry;
pub mod registry;
pub mod entity;
pub mod vehicle;
pub mod timeloop;
pub mod rng;
pub mod world;
pub mod combat;
pub mod enemies;
pub mod platforms;
pub mod game;
pub mod menu;
pub mod laws;
