//! Logic behind the desktop front end: selection, the artist list, playback
//! sessions and the queue, the context menu, the command palette and song
//! lookups.
pub mod selection;
pub mod sidebar;
pub mod session;
pub mod context_menu;
pub mod command_palette;
pub mod search;
pub mod toast;
pub mod artist;
pub mod playlist;
pub mod queue;
pub mod theme;
