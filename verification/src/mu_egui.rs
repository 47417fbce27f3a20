//! The later desktop front end: cover artwork made ready for display and
//! scaled down to thumbnail size, and the side panel and player controls.
pub mod artwork;
pub mod panel;
