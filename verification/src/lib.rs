//! Engine for the light-up puzzle: a rectangular board of walls, numbered
//! walls and open cells on which the player places bulbs until every open
//! cell is lit and every numbered wall has its count of adjacent bulbs.
//!
//! `model` holds the game as a mathematical state and `laws` what is
//! proved of it; `game` is the engine whose operations are verified
//! against the model. `app` decides what a key does on the screens around
//! a game, `archive` and `layout` say where a puzzle is kept and where a
//! cell is drawn.

pub mod types;
pub mod grid;
pub mod puzzle;
pub mod light;
pub mod model;
pub mod game;
pub mod laws;
pub mod archive;
pub mod layout;
pub mod app;
