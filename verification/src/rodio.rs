//! Playback-side bookkeeping: the song list the player walks through and
//! its volume, plus the decoder's error kinds.
pub mod player;
pub mod decoder;
