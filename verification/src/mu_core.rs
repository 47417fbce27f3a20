//! The music library: songs, their on-disk line format, playlists and the
//! in-memory database grouped by artist and album.
pub mod db;
pub mod index;
pub mod playlist;
pub mod vdb;
pub mod search;
