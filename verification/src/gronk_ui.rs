//! A terminal front end with filtered browser lists, columns with track
//! numbers, and a play queue with a cursor.
pub mod browser;
pub mod music;
pub mod queue;
