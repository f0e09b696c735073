pub mod catalog;
pub mod command;
pub mod entity;
pub mod event;
pub mod exterior;
pub mod laws;
pub mod match_state;
pub mod text;
pub mod waves;
pub mod world;

pub use command::Command;
pub use entity::{Enemy, EntityId, Tower};
pub use event::GameEvent;
pub use world::World;

