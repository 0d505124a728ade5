//! An entity/component store for a grid of coloured cells, the hit test that
//! maps a pointer position to a cell, and the messages that keep the colours
//! of several viewers in step.

pub mod component;
pub mod game;
pub mod grid;
pub mod hit;
pub mod link;
pub mod message;
pub mod numeral;
pub mod render;
pub mod storage;
pub mod world;

pub use crate::component::{Color, EntityId, Position, Size};
pub use crate::game::Game;
pub use crate::message::MessageType;
pub use crate::world::World;
