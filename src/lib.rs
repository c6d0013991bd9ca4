//! A possession-by-possession basketball game simulation.
pub mod court;
pub mod dice;
pub mod event;
pub mod game;
pub mod geometry;
pub mod player;
pub mod player_state;
pub mod team;
