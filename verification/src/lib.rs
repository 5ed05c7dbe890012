//! Simulation core of a small tile-based tower-defense game.
//!
//! A fixed path of tiles leads monsters from a spawn point toward a defended
//! base; the player places towers next to the path that periodically damage
//! monsters in range; defeated monsters drop gold the player collects to place
//! more towers.
//!
//! All geometry is carried in fixed-point coordinate units of 1/1000 pixel
//! ([`geometry::PIXEL`]) and all times in whole milliseconds, so that every
//! rule of the simulation is exact integer arithmetic. Rendering, audio and
//! input handling are left to an outside collaborator: the simulation reports
//! what happened through event records and read access to its state.

pub mod base;
pub mod block;
pub mod board;
pub mod events;
pub mod game;
pub mod geometry;
pub mod gold;
pub mod monster;
pub mod monster_spawner;
pub mod player;
pub mod rng;
pub mod tower;
pub mod tower_icon;
