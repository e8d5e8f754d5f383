//! Simulation core of a turn-based dungeon crawler: dungeon generation,
//! the entity model, combat, monster behaviour, item effects, progression
//! and the turn sequencing that ties them together.
//!
//! Drawing, input polling and field-of-view computation are left to the
//! caller; the core only consumes their results as plain values.

pub mod ai;
pub mod color;
pub mod combat;
pub mod command;
pub mod config;
pub mod connect;
pub mod dungeon;
pub mod entry;
pub mod equipment;
pub mod fov;
pub mod game;
pub mod generate;
pub mod inventory;
pub mod limits;
pub mod log;
pub mod object;
pub mod play;
pub mod presentation;
pub mod progress;
pub mod random;
pub mod session;
pub mod spawn;
pub mod spells;
pub mod targeting;
pub mod text;
pub mod turn;
pub mod world;
