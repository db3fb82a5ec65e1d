//! Simulation core of a small arcade survival game: a player dodges a sweeping
//! laser, lays bombs to clear obstacles and collects power-ups, round after
//! round.
//!
//! A run is a [`game::Game`]. It is advanced by [`pipeline::tick`], which
//! calls the systems of a tick in a fixed order; each system can also be
//! called on its own. Time comes in as whole milliseconds, input as key
//! events and held keys, and chance from a generator that the caller seeds.
//! What happens goes out as events.
//!
//! Every system has a mathematical model, a function from the run before to
//! the run after, and is proved to follow it. The laws of the game are proved
//! over those models: a cell never takes a second occupant, an obstacle stops
//! a blast, bombs set each other off, columns wrap around, a sweep of the
//! laser starts exactly one round, and a power-up is granted once.

pub mod timer;
pub mod config;
pub mod board;
pub mod game;
pub mod screen;
pub mod random;
pub mod keyboard_systems;
pub mod board_setup;
pub mod bomb;
pub mod laser;
pub mod ui;
pub mod emote;
pub mod lost;
pub mod pipeline;
