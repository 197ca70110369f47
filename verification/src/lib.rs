//! Simulation core of a grid-based multi-snake game.
//!
//! The library owns entity positions, advances every snake once per movement
//! tick, detects the game-ending collisions, and manages growth triggered by
//! food consumption.  Rendering, windowing, key bindings and tick scheduling
//! are left to the surrounding application, which must run the stages of one
//! tick in their fixed order: direction update, movement, eating check,
//! growth.

pub mod components;
pub mod food;
pub mod game;
pub mod grid;
pub mod session;
pub mod snake;
pub mod store;

pub use components::Direction;
pub use components::GameEndEvent;
pub use components::Position;
pub use grid::Grid;
pub use session::Session;
pub use store::Entity;
