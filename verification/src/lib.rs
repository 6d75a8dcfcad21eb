//! Core of a terminal endless-runner: terrain generation, the player's
//! vertical motion and the difficulty progression, with machine-checked
//! contracts.

pub mod bot;
pub mod buffer;
pub mod colors;
pub mod config;
pub mod game;
pub mod generator;
pub mod player;
pub mod rng;
pub mod session;
pub mod terrain;
pub mod terrain_shape;
