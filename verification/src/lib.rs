//! Verified core of a family of music players (terminal and desktop front
//! ends over one song library): the song database's line format and its
//! in-memory form sorted and grouped by artist and album, playlists, list
//! cursors and browser columns, play queues, multi-selection, the command
//! palette and context menu, key bindings, cover art decoding and scaling,
//! and the small pieces of text and layout arithmetic the front ends rely
//! on.
pub mod text;
pub mod mu_core;
pub mod mu_gui;
pub mod mu_gui2;
pub mod gronk;
pub mod gronk_test;
pub mod gronk_ui;
pub mod gronk_types;
pub mod rodio;
pub mod player;
pub mod mu_egui;
