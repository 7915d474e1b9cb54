//! A grid-based snake game: the deterministic tick simulation.

pub mod collision;
pub mod components;
pub mod filtering;
pub mod food;
pub mod game;
pub mod pos_set;
pub mod scene;
pub mod snake;
