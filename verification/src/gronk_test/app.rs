//! Modes of a terminal front end: the browser column and the screen shown.
use vstd::prelude::*;
use crate::gronk_test::music::{Music, moved_up, moved_down};
use crate::gronk::app::browser::Lookup;

verus! {

/// Which browser column is active.
#[derive(Debug, Clone, Copy, PartialEq, Eq, Structural)]
pub enum BrowserMode {
    Artist,
    Album,
    Song,
}

impl BrowserMode {
    /// The column to the right, staying on the last one.
    pub fn next(&mut self)
        ensures
            *final(self) == match *old(self) {
                BrowserMode::Artist => BrowserMode::Album,
                _ => BrowserMode::Song,
            },
    {
        match self {
            BrowserMode::Artist => *self = BrowserMode::Album,
            BrowserMode::Album => *self = BrowserMode::Song,
            BrowserMode::Song => (),
        }
    }

    /// The column to the left, staying on the first one.
    pub fn prev(&mut self)
        ensures
            *final(self) == match *old(self) {
                BrowserMode::Song => BrowserMode::Album,
                _ => BrowserMode::Artist,
            },
    {
        match self {
            BrowserMode::Artist => (),
            BrowserMode::Album => *self = BrowserMode::Artist,
            BrowserMode::Song => *self = BrowserMode::Album,
        }
    }
}

/// Whether the browser or the queue is shown.
#[derive(Debug, Clone, Copy, PartialEq, Eq, Structural)]
pub enum Mode {
    Browser,
    Queue,
}

impl Mode {
    /// Switch between browser and queue.
    pub fn toggle(&mut self)
        ensures
            *final(self) == (if *old(self) == Mode::Browser { Mode::Queue } else { Mode::Browser }),
    {
        match self {
            Mode::Browser => *self = Mode::Queue,
            Mode::Queue => *self = Mode::Browser,
        }
    }
}

/// Toggling twice shows what was shown.
pub proof fn lemma_toggle_twice(m: Mode)
    ensures
        (if (if m == Mode::Browser { Mode::Queue } else { Mode::Browser }) == Mode::Browser {
            Mode::Queue
        } else {
            Mode::Browser
        }) == m,
{
}

/// The front end's state: the music columns, the active column and the
/// screen shown.
#[derive(Debug)]
pub struct App {
    pub music: Music,
    pub browser_mode: BrowserMode,
    pub ui_mode: Mode,
}

impl App {
    /// Start on the artist column of the browser.
    pub fn new(music: Music) -> (r: Self)
        ensures
            r.music == music,
            r.browser_mode == BrowserMode::Artist,
            r.ui_mode == Mode::Browser,
    {
        App { music, browser_mode: BrowserMode::Artist, ui_mode: Mode::Browser }
    }

    /// Switch between browser and queue.
    pub fn ui_toggle(&mut self)
        ensures
            final(self).ui_mode == (if old(self).ui_mode == Mode::Browser { Mode::Queue } else { Mode::Browser }),
            final(self).music == old(self).music,
            final(self).browser_mode == old(self).browser_mode,
    {
        self.ui_mode.toggle();
    }

    /// The column to the right.
    pub fn browser_next(&mut self)
        ensures
            final(self).browser_mode == match old(self).browser_mode {
                BrowserMode::Artist => BrowserMode::Album,
                _ => BrowserMode::Song,
            },
            final(self).music == old(self).music,
            final(self).ui_mode == old(self).ui_mode,
    {
        self.browser_mode.next();
    }

    /// The column to the left.
    pub fn browser_prev(&mut self)
        ensures
            final(self).browser_mode == match old(self).browser_mode {
                BrowserMode::Song => BrowserMode::Album,
                _ => BrowserMode::Artist,
            },
            final(self).music == old(self).music,
            final(self).ui_mode == old(self).ui_mode,
    {
        self.browser_mode.prev();
    }

    /// Up in the active column; tells what the columns to its right need.
    pub fn browser_up(&mut self) -> (r: Lookup)
        requires
            old(self).music.well_formed(),
        ensures
            moved_up(old(self).music, final(self).music, old(self).browser_mode, r),
            final(self).browser_mode == old(self).browser_mode,
            final(self).ui_mode == old(self).ui_mode,
    {
        let mode = self.browser_mode;
        self.music.up(&mode)
    }

    /// Down in the active column; tells what the columns to its right need.
    pub fn browser_down(&mut self) -> (r: Lookup)
        requires
            old(self).music.well_formed(),
        ensures
            moved_down(old(self).music, final(self).music, old(self).browser_mode, r),
            final(self).browser_mode == old(self).browser_mode,
            final(self).ui_mode == old(self).ui_mode,
    {
        let mode = self.browser_mode;
        self.music.down(&mode)
    }
}

} // verus!
