//! The entities that can own a cell, one module per kind.

pub mod empty;
pub mod grass;
pub mod root;
pub mod carrot;
pub mod goat;
pub mod bush;
pub mod water;
pub mod ice;
pub mod door;

pub use empty::Empty;
pub use grass::Grass;
pub use root::Root;
pub use carrot::Carrot;
pub use goat::Goat;
pub use bush::Bush;
pub use water::Water;
pub use ice::Ice;
pub use door::Door;
