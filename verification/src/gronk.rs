//! The terminal player's state: cursors, modes and the play queue.
pub mod index;
pub mod modes;
pub mod queue;
pub mod app;
