//! The terminal player's screens: queue, search, browser data and settings.
pub mod queue;
pub mod search;
pub mod config;
pub mod browser;
pub mod keys;

use vstd::prelude::*;
use crate::gronk::modes::{UiMode, BrowserMode};
use crate::gronk::index::{can_step_up, can_step_down, step_up, step_down};
use crate::gronk::queue::PlayerAction;
use crate::gronk::app::browser::{Browser, Lookup, browser_moved};
use crate::gronk::app::queue::{Queue, play_selected_action, deleted_selected};
use crate::gronk::app::search::{Search, SearchMode};

verus! {

/// What pressing Enter asks of the player: queue an artist's songs, an
/// album's (with its artist), one song (artist, album, track number,
/// title), or the search result at a position; tell the player something;
/// or nothing.
#[derive(Debug)]
pub enum EnterRequest {
    QueueArtist(String),
    QueueAlbum(String, String),
    QueueSong(String, String, u16, String),
    QueueResult(usize),
    Player(PlayerAction),
    Nothing,
}

/// A mouse event as the terminal reports it.
#[derive(Debug, Clone, Copy, PartialEq, Eq, Structural)]
pub enum MouseKind {
    ScrollDown,
    ScrollUp,
    Down,
    Other,
}

/// The terminal player's screens and which one has the keyboard.
pub struct App<T, R> {
    pub browser: Browser,
    pub queue: Queue<T>,
    pub search: Search<R>,
    pub ui_mode: UiMode,
}

/// What Up (or Down) does on the active screen: the browser's column, the
/// queue table's cursor or the search results' cursor moves one step,
/// wrapping; the other screens stay as they were.
pub open spec fn app_moved<T, R>(old: App<T, R>, new: App<T, R>, up: bool, r: Lookup) -> bool {
    &&& new.ui_mode == old.ui_mode
    &&& old.ui_mode != UiMode::Browser ==> new.browser == old.browser && r is Nothing
    &&& old.ui_mode != UiMode::Queue ==> new.queue == old.queue
    &&& old.ui_mode != UiMode::Search ==> new.search == old.search
    &&& old.ui_mode == UiMode::Browser ==> browser_moved(old.browser, new.browser, up, r)
    &&& old.ui_mode == UiMode::Queue ==> new.queue.list == old.queue.list && new.queue.ui.index == if up {
        step_up(old.queue.ui.index, old.queue.list.data@.len() as usize)
    } else {
        step_down(old.queue.ui.index, old.queue.list.data@.len() as usize)
    }
    &&& old.ui_mode == UiMode::Search ==> new.search.results.data@ == old.search.results.data@
        && new.search.results.index == if up {
        step_up(old.search.results.index, old.search.results.data@.len() as usize)
    } else {
        step_down(old.search.results.index, old.search.results.data@.len() as usize)
    }
}

impl<T, R> App<T, R> {
    /// What moving a cursor on the active screen needs: a well-formed
    /// browser, and cursors that can move on the queue and the search.
    pub open spec fn can_move(&self) -> bool {
        &&& self.browser.well_formed()
        &&& can_step_up(self.queue.ui.index, self.queue.list.data@.len() as usize)
        &&& can_step_down(self.queue.ui.index)
        &&& can_step_up(self.search.results.index, self.search.results.data@.len() as usize)
        &&& can_step_down(self.search.results.index)
    }

    /// Right: the browser's next column, on the browser screen.
    pub fn browser_next(&mut self)
        ensures
            final(self).queue == old(self).queue,
            final(self).search == old(self).search,
            final(self).ui_mode == old(self).ui_mode,
            final(self).browser.browser_data == old(self).browser.browser_data,
            old(self).ui_mode == UiMode::Browser ==> final(self).browser.mode == crate::gronk::modes::browser_next(
                old(self).browser.mode,
            ),
            old(self).ui_mode != UiMode::Browser ==> final(self).browser == old(self).browser,
    {
        if self.ui_mode == UiMode::Browser {
            self.browser.next();
        }
    }

    /// Left: the browser's previous column, on the browser screen.
    pub fn browser_prev(&mut self)
        ensures
            final(self).queue == old(self).queue,
            final(self).search == old(self).search,
            final(self).ui_mode == old(self).ui_mode,
            final(self).browser.browser_data == old(self).browser.browser_data,
            old(self).ui_mode == UiMode::Browser ==> final(self).browser.mode == crate::gronk::modes::browser_prev(
                old(self).browser.mode,
            ),
            old(self).ui_mode != UiMode::Browser ==> final(self).browser == old(self).browser,
    {
        if self.ui_mode == UiMode::Browser {
            self.browser.prev();
        }
    }

    /// Up on the active screen; the browser tells what it needs fetched.
    pub fn up(&mut self) -> (r: Lookup)
        requires
            old(self).can_move(),
        ensures
            app_moved(*old(self), *final(self), true, r),
    {
        match self.ui_mode {
            UiMode::Browser => self.browser.up(),
            UiMode::Queue => {
                self.queue.up();
                Lookup::Nothing
            },
            UiMode::Search => {
                self.search.up();
                Lookup::Nothing
            },
        }
    }

    /// Down on the active screen; the browser tells what it needs fetched.
    pub fn down(&mut self) -> (r: Lookup)
        requires
            old(self).can_move(),
        ensures
            app_moved(*old(self), *final(self), false, r),
    {
        match self.ui_mode {
            UiMode::Browser => self.browser.down(),
            UiMode::Queue => {
                self.queue.down();
                Lookup::Nothing
            },
            UiMode::Search => {
                self.search.down();
                Lookup::Nothing
            },
        }
    }

    /// The mouse: the wheel moves like Up and Down; a press records where
    /// it happened for the queue table.
    pub fn mouse(&mut self, kind: MouseKind, column: u16, row: u16) -> (r: Lookup)
        requires
            old(self).can_move(),
        ensures
            final(self).ui_mode == old(self).ui_mode,
            kind == MouseKind::ScrollDown ==> app_moved(*old(self), *final(self), false, r),
            kind == MouseKind::ScrollUp ==> app_moved(*old(self), *final(self), true, r),
            kind == MouseKind::Down ==> final(self).queue.clicked_pos == Some((column, row)) && final(self).browser
                == old(self).browser && final(self).search == old(self).search && final(self).queue.list
                == old(self).queue.list && final(self).queue.ui == old(self).queue.ui && r is Nothing,
            kind == MouseKind::Other ==> final(self).browser == old(self).browser && final(self).search == old(
                self,
            ).search && final(self).queue == old(self).queue && r is Nothing,
    {
        match kind {
            MouseKind::ScrollDown => self.down(),
            MouseKind::ScrollUp => self.up(),
            MouseKind::Down => {
                self.queue.clicked_pos = Some((column, row));
                Lookup::Nothing
            },
            MouseKind::Other => Lookup::Nothing,
        }
    }

    /// Enter. On the browser, queue what the active column has selected:
    /// the artist, the album or the song. On the queue, play the song under
    /// the cursor. On the search screen, a search that is not empty moves
    /// to picking its first result; while picking, the result under the
    /// cursor is to be queued.
    pub fn on_enter(&mut self) -> (r: EnterRequest)
        ensures
            final(self).ui_mode == old(self).ui_mode,
            final(self).browser == old(self).browser,
            old(self).ui_mode != UiMode::Queue ==> final(self).queue == old(self).queue,
            old(self).ui_mode != UiMode::Search ==> final(self).search == old(self).search,
            old(self).ui_mode == UiMode::Browser ==> match old(self).browser.browser_data {
                None => r is Nothing,
                Some(d) => match old(self).browser.mode {
                    BrowserMode::Artist => r matches EnterRequest::QueueArtist(a) && a@ == d.selected_artist.item@,
                    BrowserMode::Album => r matches EnterRequest::QueueAlbum(al, a) && al@ == d.selected_album.item@
                        && a@ == d.selected_artist.item@,
                    BrowserMode::Song => r matches EnterRequest::QueueSong(a, al, n, s) && a@ == d.selected_artist.item@
                        && al@ == d.selected_album.item@ && n == d.selected_song.item.0 && s@
                        == d.selected_song.item.1@,
                },
            },
            old(self).ui_mode == UiMode::Queue ==> {
                &&& final(self).queue.list.data@ == old(self).queue.list.data@
                &&& final(self).queue.ui == old(self).queue.ui
                &&& old(self).queue.ui.index is Some ==> final(self).queue.list.index == old(self).queue.ui.index
                    && r == EnterRequest::Player(play_selected_action(final(self).queue.list.data@, final(self).queue.list.index))
                &&& old(self).queue.ui.index is None ==> final(self).queue.list.index == old(self).queue.list.index
                    && r == EnterRequest::Player(PlayerAction::Nothing)
            },
            old(self).ui_mode == UiMode::Search ==> {
                &&& final(self).search.query == old(self).search.query
                &&& final(self).search.results.data@ == old(self).search.results.data@
                &&& old(self).search.mode == SearchMode::Search ==> r is Nothing && (if old(
                    self,
                ).search.results.data@.len() > 0 || old(self).search.query@.len() > 0 {
                    final(self).search.mode == SearchMode::Select && final(self).search.results.index == Some(0usize)
                } else {
                    final(self).search == old(self).search
                })
                &&& old(self).search.mode == SearchMode::Select ==> final(self).search == old(self).search && match old(
                    self,
                ).search.results.index {
                    Some(i) => if i < old(self).search.results.data@.len() {
                        r == EnterRequest::QueueResult(i)
                    } else {
                        r is Nothing
                    },
                    None => r is Nothing,
                }
            },
    {
        match self.ui_mode {
            UiMode::Browser => match &self.browser.browser_data {
                None => EnterRequest::Nothing,
                Some(d) => match self.browser.mode {
                    BrowserMode::Artist => EnterRequest::QueueArtist(d.selected_artist.item.clone()),
                    BrowserMode::Album => EnterRequest::QueueAlbum(d.selected_album.item.clone(), d.selected_artist.item.clone()),
                    BrowserMode::Song => EnterRequest::QueueSong(
                        d.selected_artist.item.clone(),
                        d.selected_album.item.clone(),
                        d.selected_song.item.0,
                        d.selected_song.item.1.clone(),
                    ),
                },
            },
            UiMode::Queue => EnterRequest::Player(self.queue.select()),
            UiMode::Search => {
                if self.search.mode == SearchMode::Search {
                    if !self.search.is_empty() {
                        self.search.mode.next();
                        self.search.results.select(Some(0));
                    }
                    EnterRequest::Nothing
                } else {
                    match self.search.results.index {
                        Some(i) => if i < self.search.results.data.len() {
                            EnterRequest::QueueResult(i)
                        } else {
                            EnterRequest::Nothing
                        },
                        None => EnterRequest::Nothing,
                    }
                }
            },
        }
    }

    /// X: remove the queue entry under the cursor.
    pub fn delete_from_queue(&mut self) -> (r: PlayerAction)
        requires
            old(self).queue.ui.index matches Some(i) ==> i < old(self).queue.list.data@.len(),
        ensures
            deleted_selected(old(self).queue, final(self).queue, r),
            final(self).browser == old(self).browser,
            final(self).search == old(self).search,
            final(self).ui_mode == old(self).ui_mode,
    {
        self.queue.delete_selected()
    }

    /// Every tick: a finished song is followed by the next; the result is
    /// what the player is to do, and whether the search must be run again
    /// for a changed query.
    pub fn on_tick(&mut self, is_done: bool) -> (r: (PlayerAction, bool))
        requires
            can_step_down(old(self).queue.list.index),
        ensures
            final(self).browser == old(self).browser,
            final(self).ui_mode == old(self).ui_mode,
            final(self).queue.skip_fix == is_done,
            r.1 == (old(self).search.query@ != old(self).search.prev_query@),
            final(self).search.prev_query@ == old(self).search.query@,
            final(self).search.results == old(self).search.results,
            !is_done && old(self).queue.skip_fix ==> final(self).queue.list.index == step_down(
                old(self).queue.list.index,
                old(self).queue.list.data@.len() as usize,
            ) && r.0 == play_selected_action(final(self).queue.list.data@, final(self).queue.list.index),
            !(!is_done && old(self).queue.skip_fix) ==> final(self).queue.list.index == old(self).queue.list.index
                && r.0 == PlayerAction::Nothing,
    {
        let action = self.queue.update(is_done);
        let changed = self.search.has_query_changed();
        (action, changed)
    }
}

} // verus!
