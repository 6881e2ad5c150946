//! A turn-based cellular-automaton engine for a small farming board: a grid of
//! cells, each owned by an entity that grows, spreads, damages or freezes its
//! neighbours, resolved deterministically once per tick.

pub mod tiles;
pub mod tilemap;
pub mod types;
pub mod entity;
pub mod ui;
pub mod shop;
pub mod board;

pub use tiles::Tiles;
pub use tilemap::{Choice, Tilemap, LoadError};
pub use entity::Entity;
pub use ui::Ui;
pub use board::{Board, TurnInput};
