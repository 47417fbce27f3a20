//! A terminal front end whose browser columns carry their own lengths.
pub mod app;
pub mod music;
pub mod types;
