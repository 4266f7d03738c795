//! Verified core of a small tile-world game and its platform layer: the tile
//! map and world lookup, input state, frame and audio buffers, the game's
//! memory blocks, pixel drawing, and the decisions the platform loop takes.

pub mod world;
pub mod byte_order;
pub mod input;
pub mod buffers;
pub mod memory;
pub mod platform;
pub mod draw;
